use vstd::prelude::*;

use crate::binder::{
    first_failed, lemma_no_failure_is_clean, teardown_order, teardown_spec, TeardownStep,
};
use crate::error::WaylandEGLStateError;
use crate::registry::{role_of, role_of_interface, GlobalBinding, Role};
use crate::shell::{
    apply, apply_event, drain, frame_action, replies, reply, run, FrameAction, Lifecycle,
    Request, ShellEvent, WindowState,
};

verus! {

/// The size a window starts with, before the compositor proposes one.
pub const INITIAL_WIDTH: i32 = 320;

/// See `INITIAL_WIDTH`.
pub const INITIAL_HEIGHT: i32 = 240;

/// The state of the client: the window, its title, and the globals bound so far.
#[derive(Debug)]
pub struct WaylandEGLState {
    pub window: WindowState,
    pub title: String,
    /// The compositing global, once advertised.
    pub compositor: Option<GlobalBinding>,
    /// The shell global, once advertised.
    pub shell: Option<GlobalBinding>,
}

/// The window as it stands at start-up.
pub open spec fn initial_window() -> WindowState {
    WindowState {
        width: INITIAL_WIDTH,
        height: INITIAL_HEIGHT,
        running: true,
        phase: Lifecycle::Uninitialized,
    }
}

/// Both globals must be bound; a missing shell global is reported first.
pub open spec fn globals_check(
    shell: Option<GlobalBinding>,
    compositor: Option<GlobalBinding>,
) -> Result<(), WaylandEGLStateError> {
    if shell is None {
        Err(WaylandEGLStateError::XdgWmBaseMissing)
    } else if compositor is None {
        Err(WaylandEGLStateError::WlCompositorMissing)
    } else {
        Ok(())
    }
}

/// The binding a registry announcement leaves in the slot of `role`.
pub open spec fn bound_after(
    role: Role,
    before: Option<GlobalBinding>,
    interface: Seq<char>,
    name: u32,
    version: u32,
) -> Option<GlobalBinding> {
    if role_of(interface) == Some(role) {
        Some(GlobalBinding { name, version })
    } else {
        before
    }
}

/// The window once the graphics context is bound to it.
pub open spec fn attached(w: WindowState) -> WindowState {
    WindowState { phase: Lifecycle::Attached, ..w }
}

/// The window once every resource is released.
pub open spec fn destroyed(w: WindowState) -> WindowState {
    WindowState { phase: Lifecycle::Destroyed, running: false, ..w }
}

impl WaylandEGLState {
    /// The state is well formed when its window is.
    pub open spec fn wf(&self) -> bool {
        self.window.wf()
    }

    /// A fresh client: a 320 x 240 window titled "Nya", running, with no
    /// surface and no global bound.
    pub fn new() -> (r: Self)
        ensures
            r.wf(),
            r.window == initial_window(),
            r.title@ == "Nya"@,
            r.compositor is None,
            r.shell is None,
    {
        WaylandEGLState {
            window: WindowState {
                width: INITIAL_WIDTH,
                height: INITIAL_HEIGHT,
                running: true,
                phase: Lifecycle::Uninitialized,
            },
            title: String::from_str("Nya"),
            compositor: None,
            shell: None,
        }
    }

    /// Records a global that the registry announces. The shell and the
    /// compositing interfaces are bound at the advertised version, a later
    /// announcement replacing an earlier one; every other interface is
    /// ignored. Returns the role bound, if any.
    pub fn on_global(&mut self, name: u32, interface: &str, version: u32) -> (r: Option<Role>)
        ensures
            r == role_of(interface@),
            final(self).shell == bound_after(Role::Shell, old(self).shell, interface@, name, version),
            final(self).compositor == bound_after(
                Role::Compositor,
                old(self).compositor,
                interface@,
                name,
                version,
            ),
            final(self).window == old(self).window,
            final(self).title@ == old(self).title@,
    {
        let role = role_of_interface(interface);
        match role {
            Some(Role::Shell) => {
                self.shell = Some(GlobalBinding { name, version });
            },
            Some(Role::Compositor) => {
                self.compositor = Some(GlobalBinding { name, version });
            },
            None => {},
        }
        role
    }

    /// Checks that both required globals are bound.
    pub fn validate_globals(&self) -> (r: Result<(), WaylandEGLStateError>)
        ensures
            r == globals_check(self.shell, self.compositor),
    {
        if self.shell.is_none() {
            Err(WaylandEGLStateError::XdgWmBaseMissing)
        } else if self.compositor.is_none() {
            Err(WaylandEGLStateError::WlCompositorMissing)
        } else {
            Ok(())
        }
    }

    /// Decides whether the surface may be created: only when both globals are
    /// bound. On success the window moves to `AwaitingConfigure`; the caller
    /// then creates the surface, gives it the toplevel role and the title, and
    /// commits it. On failure nothing changes.
    pub fn create_surface(&mut self) -> (r: Result<(), WaylandEGLStateError>)
        requires
            old(self).window.phase == Lifecycle::Uninitialized,
        ensures
            r == globals_check(old(self).shell, old(self).compositor),
            final(self).window == (if r is Ok {
                WindowState { phase: Lifecycle::AwaitingConfigure, ..old(self).window }
            } else {
                old(self).window
            }),
            final(self).shell == old(self).shell,
            final(self).compositor == old(self).compositor,
            final(self).title@ == old(self).title@,
    {
        let r = self.validate_globals();
        if r.is_ok() {
            self.window.phase = Lifecycle::AwaitingConfigure;
        }
        r
    }

    /// Records that the graphics context is now bound to the surface, at the
    /// window's current size. This is allowed only once the first configure
    /// has been acknowledged. From here on a new size also resizes the native
    /// window.
    pub fn attach_graphics(&mut self)
        requires
            old(self).window.phase == Lifecycle::Configured,
        ensures
            final(self).window == attached(old(self).window),
            final(self).shell == old(self).shell,
            final(self).compositor == old(self).compositor,
            final(self).title@ == old(self).title@,
    {
        self.window.phase = Lifecycle::Attached;
    }

    /// Handles one shell event and returns the requests to issue, in order:
    /// the pong for a ping, or what `apply` gives.
    pub fn handle_event(&mut self, e: ShellEvent) -> (r: Vec<Request>)
        requires
            old(self).wf(),
        ensures
            final(self).wf(),
            r@ == reply(e) + apply(old(self).window, e).1,
            final(self).window == apply(old(self).window, e).0,
            final(self).shell == old(self).shell,
            final(self).compositor == old(self).compositor,
            final(self).title@ == old(self).title@,
    {
        let mut out: Vec<Request> = Vec::new();
        if let ShellEvent::Ping { serial } = e {
            out.push(Request::Pong { serial });
        }
        let (w, mut rest) = apply_event(self.window, e);
        out.append(&mut rest);
        self.window = w;
        proof {
            assert(out@ =~= reply(e) + apply(old(self).window, e).1);
        }
        out
    }

    /// One drain pass over the queued events: every ping is answered first,
    /// then the other events are applied in the order they came.
    pub fn dispatch_pending(&mut self, events: &Vec<ShellEvent>) -> (r: Vec<Request>)
        requires
            old(self).wf(),
        ensures
            final(self).wf(),
            r@ == drain(old(self).window, events@),
            final(self).window == run(old(self).window, events@).0,
            final(self).shell == old(self).shell,
            final(self).compositor == old(self).compositor,
            final(self).title@ == old(self).title@,
    {
        let ghost s0 = self.window;
        let mut out: Vec<Request> = Vec::new();
        let mut i: usize = 0;
        while i < events.len()
            invariant
                0 <= i <= events@.len(),
                out@ == replies(events@.take(i as int)),
            decreases events@.len() - i,
        {
            assert(events@.take(i + 1).drop_last() =~= events@.take(i as int));
            if let ShellEvent::Ping { serial } = events[i] {
                out.push(Request::Pong { serial });
            }
            i = i + 1;
        }
        assert(events@.take(events@.len() as int) =~= events@);
        let mut j: usize = 0;
        assert(run(s0, events@.take(0)).1 =~= seq![]);
        assert(out@ =~= replies(events@) + run(s0, events@.take(0)).1);
        while j < events.len()
            invariant
                0 <= j <= events@.len(),
                self.window == run(s0, events@.take(j as int)).0,
                self.window.wf(),
                out@ == replies(events@) + run(s0, events@.take(j as int)).1,
                self.shell == old(self).shell,
                self.compositor == old(self).compositor,
                self.title@ == old(self).title@,
            decreases events@.len() - j,
        {
            assert(events@.take(j + 1).drop_last() =~= events@.take(j as int));
            let (w, mut rest) = apply_event(self.window, events[j]);
            out.append(&mut rest);
            self.window = w;
            j = j + 1;
            assert(out@ =~= replies(events@) + run(s0, events@.take(j as int)).1);
        }
        out
    }

    /// What the present loop does after a drain pass: render at the window's
    /// size while it runs, stop once it was asked to close.
    pub fn next_frame(&self) -> (r: FrameAction)
        ensures
            r == frame_action(self.window),
    {
        if self.window.running {
            FrameAction::Render { width: self.window.width, height: self.window.height }
        } else {
            FrameAction::Stop
        }
    }

    /// Ends the window's life once its surface exists: returns the shutdown
    /// steps in the order the caller performs them, those of the graphics
    /// context included when one is bound. No request is issued for the window
    /// afterwards.
    pub fn deinit(&mut self) -> (r: Vec<TeardownStep>)
        requires
            old(self).window.phase == Lifecycle::AwaitingConfigure || old(self).window.phase
                == Lifecycle::Configured || old(self).window.phase == Lifecycle::Attached,
        ensures
            r@ == teardown_spec(old(self).window.phase == Lifecycle::Attached),
            final(self).window == destroyed(old(self).window),
            final(self).shell == old(self).shell,
            final(self).compositor == old(self).compositor,
            final(self).title@ == old(self).title@,
    {
        let bound = self.window.phase == Lifecycle::Attached;
        self.window.phase = Lifecycle::Destroyed;
        self.window.running = false;
        teardown_order(bound)
    }
}

/// Binding the graphics context and releasing it again without drawing a
/// frame is a valid life: the window reaches `Destroyed` through the full
/// shutdown, and when no step fails the shutdown reports no failure.
pub proof fn lemma_bind_then_release(w: WindowState, failed: Seq<bool>)
    requires
        w.wf(),
        w.phase == Lifecycle::Configured,
        failed.len() == teardown_spec(true).len(),
        forall|i: int| 0 <= i < failed.len() ==> !failed[i],
    ensures
        attached(w).phase == Lifecycle::Attached,
        attached(w).wf(),
        destroyed(attached(w)).phase == Lifecycle::Destroyed,
        !destroyed(attached(w)).running,
        first_failed(teardown_spec(true), failed) is None,
{
    lemma_no_failure_is_clean(teardown_spec(true), failed);
}

/// Whether the `i`-th of a sequence of registry announcements (name,
/// interface, version) announces the global of `role`.
pub open spec fn announces(anns: Seq<(u32, Seq<char>, u32)>, i: int, role: Role) -> bool {
    role_of(anns[i].1) == Some(role)
}

/// The binding of `role` after `on_global` was called on each announcement in turn.
pub open spec fn bound_after_all(
    role: Role,
    before: Option<GlobalBinding>,
    anns: Seq<(u32, Seq<char>, u32)>,
) -> Option<GlobalBinding>
    decreases anns.len(),
{
    if anns.len() == 0 {
        before
    } else {
        let a = anns.last();
        bound_after(role, bound_after_all(role, before, anns.drop_last()), a.1, a.0, a.2)
    }
}

/// Whatever the order of the announcements and whatever else is announced
/// between them, a role ends up bound exactly when some announcement offers
/// it, and then to the name and version of the last such announcement.
pub proof fn lemma_announced_globals_are_bound(role: Role, anns: Seq<(u32, Seq<char>, u32)>)
    ensures
        bound_after_all(role, None, anns) is Some <==> exists|i: int|
            0 <= i < anns.len() && #[trigger] announces(anns, i, role),
        forall|i: int|
            0 <= i < anns.len() && #[trigger] announces(anns, i, role) && (forall|j: int|
                i < j < anns.len() ==> !#[trigger] announces(anns, j, role)) ==> bound_after_all(
                role,
                None,
                anns,
            ) == Some(GlobalBinding { name: anns[i].0, version: anns[i].2 }),
    decreases anns.len(),
{
    if anns.len() > 0 {
        let p = anns.drop_last();
        let n = anns.len() - 1;
        lemma_announced_globals_are_bound(role, p);
        assert forall|k: int| 0 <= k < n implies announces(anns, k, role) == announces(
            p,
            k,
            role,
        ) by {
            assert(anns[k] == p[k]);
        }
        if announces(anns, n, role) {
            assert forall|i: int|
                0 <= i < anns.len() && #[trigger] announces(anns, i, role) && (forall|j: int|
                    i < j < anns.len() ==> !#[trigger] announces(
                        anns,
                        j,
                        role,
                    )) implies bound_after_all(role, None, anns) == Some(
                GlobalBinding { name: anns[i].0, version: anns[i].2 },
            ) by {
                if i < n {
                    assert(!announces(anns, n, role));
                }
            }
        } else {
            if bound_after_all(role, None, anns) is Some {
                let i = choose|i: int| 0 <= i < p.len() && #[trigger] announces(p, i, role);
                assert(announces(anns, i, role));
            }
            assert forall|i: int|
                0 <= i < anns.len() && #[trigger] announces(anns, i, role) && (forall|j: int|
                    i < j < anns.len() ==> !#[trigger] announces(
                        anns,
                        j,
                        role,
                    )) implies bound_after_all(role, None, anns) == Some(
                GlobalBinding { name: anns[i].0, version: anns[i].2 },
            ) by {
                assert(i < n);
                assert(announces(p, i, role));
                assert forall|j: int| i < j < p.len() implies !#[trigger] announces(p, j, role) by {
                    assert(!announces(anns, j, role));
                }
                assert(p[i] == anns[i]);
            }
        }
    }
}

/// Start-up may go on exactly when both the shell and the compositing global
/// were announced, in any order.
pub proof fn lemma_globals_check_passes_when_both_announced(anns: Seq<(u32, Seq<char>, u32)>)
    ensures
        globals_check(
            bound_after_all(Role::Shell, None, anns),
            bound_after_all(Role::Compositor, None, anns),
        ) is Ok <==> (exists|i: int|
            0 <= i < anns.len() && #[trigger] announces(anns, i, Role::Shell)) && (exists|i: int|
            0 <= i < anns.len() && #[trigger] announces(anns, i, Role::Compositor)),
{
    lemma_announced_globals_are_bound(Role::Shell, anns);
    lemma_announced_globals_are_bound(Role::Compositor, anns);
}

} // verus!
