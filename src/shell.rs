use vstd::prelude::*;

verus! {

/// Where the window stands in its life.
#[derive(Debug, Clone, Copy, PartialEq, Eq, Structural)]
pub enum Lifecycle {
    /// No surface exists yet.
    Uninitialized,
    /// The surface, its shell surface and its toplevel role exist, and the
    /// compositor's first configure has not been acknowledged yet.
    AwaitingConfigure,
    /// The first configure has been acknowledged: the graphics context may be
    /// bound to the surface.
    Configured,
    /// The graphics context is bound to the surface.
    Attached,
    /// Every resource has been released.
    Destroyed,
}

/// The part of the window state that shell events change.
#[derive(Debug, Clone, Copy, PartialEq, Eq, Structural)]
pub struct WindowState {
    pub width: i32,
    pub height: i32,
    /// Cleared by a close request; never set again.
    pub running: bool,
    pub phase: Lifecycle,
}

impl WindowState {
    /// The window always has a positive size.
    pub open spec fn wf(self) -> bool {
        self.width > 0 && self.height > 0
    }
}

/// The events of the shell protocol that the client acts on.
#[derive(Debug, Clone, Copy, PartialEq, Eq, Structural)]
pub enum ShellEvent {
    /// `xdg_surface.configure`: a new state must be acknowledged.
    Configure { serial: u32 },
    /// `xdg_toplevel.configure`: the compositor proposes a size.
    ToplevelConfigure { width: i32, height: i32 },
    /// `xdg_toplevel.close`: the user asked the window to close.
    Close,
    /// `xdg_wm_base.ping`: a liveness probe.
    Ping { serial: u32 },
}

/// The requests the client issues in answer to events.
#[derive(Debug, Clone, Copy, PartialEq, Eq, Structural)]
pub enum Request {
    /// `xdg_surface.ack_configure`.
    AckConfigure { serial: u32 },
    /// `xdg_wm_base.pong`.
    Pong { serial: u32 },
    /// Resize the native window that backs the drawing surface.
    ResizeWindow { width: i32, height: i32 },
    /// `wl_surface.commit`.
    Commit,
}

/// What one event does to the window, and the requests that follow from it,
/// leaving aside the answer to a ping.
///
/// A configure is acknowledged at once; the first acknowledgement lets the
/// graphics context be bound. A proposed size with a dimension that is not
/// positive means "keep the current size", and a size equal to the current one
/// changes nothing. Any other size is stored, the native window is resized
/// (once a graphics context is bound to it) and the surface is committed.
/// After a close request, nothing but pongs is issued any more.
pub open spec fn apply(s: WindowState, e: ShellEvent) -> (WindowState, Seq<Request>) {
    match e {
        ShellEvent::Configure { serial } => {
            if s.running {
                let t = WindowState {
                    phase: if s.phase == Lifecycle::AwaitingConfigure {
                        Lifecycle::Configured
                    } else {
                        s.phase
                    },
                    ..s
                };
                (t, seq![Request::AckConfigure { serial }])
            } else {
                (s, seq![])
            }
        },
        ShellEvent::ToplevelConfigure { width, height } => {
            if !s.running || width <= 0 || height <= 0 || (width == s.width && height
                == s.height) {
                (s, seq![])
            } else {
                let t = WindowState { width, height, ..s };
                if s.phase == Lifecycle::Attached {
                    (t, seq![Request::ResizeWindow { width, height }, Request::Commit])
                } else {
                    (t, seq![Request::Commit])
                }
            }
        },
        ShellEvent::Close => (WindowState { running: false, ..s }, seq![]),
        ShellEvent::Ping { serial } => (s, seq![]),
    }
}

/// The answer to a liveness probe: a pong with the same serial, whatever the state.
pub open spec fn reply(e: ShellEvent) -> Seq<Request> {
    match e {
        ShellEvent::Ping { serial } => seq![Request::Pong { serial }],
        _ => seq![],
    }
}

/// The window after a sequence of events, and the requests they caused in order
/// (pongs aside).
pub open spec fn run(s: WindowState, es: Seq<ShellEvent>) -> (WindowState, Seq<Request>)
    decreases es.len(),
{
    if es.len() == 0 {
        (s, seq![])
    } else {
        let (s1, r1) = run(s, es.drop_last());
        let (s2, r2) = apply(s1, es.last());
        (s2, r1 + r2)
    }
}

/// The pongs that answer the pings of a sequence of events, in order.
pub open spec fn replies(es: Seq<ShellEvent>) -> Seq<Request>
    decreases es.len(),
{
    if es.len() == 0 {
        seq![]
    } else {
        replies(es.drop_last()) + reply(es.last())
    }
}

/// What a drain pass over queued events issues: the pongs first, then the
/// requests of the other events in the order the events came.
pub open spec fn drain(s: WindowState, es: Seq<ShellEvent>) -> Seq<Request> {
    replies(es) + run(s, es).1
}

/// What the present loop does next.
#[derive(Debug, Clone, Copy, PartialEq, Eq, Structural)]
pub enum FrameAction {
    /// Render a frame at this viewport size, then swap buffers.
    Render { width: i32, height: i32 },
    /// Leave the loop and tear down.
    Stop,
}

/// The loop renders while the window runs, and stops once it was asked to close.
pub open spec fn frame_action(s: WindowState) -> FrameAction {
    if s.running {
        FrameAction::Render { width: s.width, height: s.height }
    } else {
        FrameAction::Stop
    }
}

/// The window after one event, and the requests it causes (pongs aside).
pub fn apply_event(s: WindowState, e: ShellEvent) -> (r: (WindowState, Vec<Request>))
    ensures
        r.0 == apply(s, e).0,
        r.1@ == apply(s, e).1,
{
    let mut out: Vec<Request> = Vec::new();
    match e {
        ShellEvent::Configure { serial } => {
            if s.running {
                let phase = if s.phase == Lifecycle::AwaitingConfigure {
                    Lifecycle::Configured
                } else {
                    s.phase
                };
                out.push(Request::AckConfigure { serial });
                assert(out@ =~= apply(s, e).1);
                (WindowState { phase, ..s }, out)
            } else {
                assert(out@ =~= apply(s, e).1);
                (s, out)
            }
        },
        ShellEvent::ToplevelConfigure { width, height } => {
            if !s.running || width <= 0 || height <= 0 || (width == s.width && height
                == s.height) {
                assert(out@ =~= apply(s, e).1);
                (s, out)
            } else {
                if s.phase == Lifecycle::Attached {
                    out.push(Request::ResizeWindow { width, height });
                }
                out.push(Request::Commit);
                assert(out@ =~= apply(s, e).1);
                (WindowState { width, height, ..s }, out)
            }
        },
        ShellEvent::Close => {
            assert(out@ =~= apply(s, e).1);
            (WindowState { running: false, ..s }, out)
        },
        ShellEvent::Ping { .. } => {
            assert(out@ =~= apply(s, e).1);
            (s, out)
        },
    }
}

/// How often `x` occurs in `xs`.
pub open spec fn count_of<A>(xs: Seq<A>, x: A) -> nat
    decreases xs.len(),
{
    if xs.len() == 0 {
        0
    } else {
        count_of(xs.drop_last(), x) + if xs.last() == x {
            1nat
        } else {
            0nat
        }
    }
}

/// Counting over a concatenation adds the counts of its parts.
pub proof fn lemma_count_of_concat<A>(a: Seq<A>, b: Seq<A>, x: A)
    ensures
        count_of(a + b, x) == count_of(a, x) + count_of(b, x),
    decreases b.len(),
{
    if b.len() == 0 {
        assert(a + b =~= a);
    } else {
        assert((a + b).drop_last() =~= a + b.drop_last());
        lemma_count_of_concat(a, b.drop_last(), x);
    }
}

/// Applying events one after the other: the run of a concatenation continues
/// the run of its first part.
pub proof fn lemma_run_concat(s: WindowState, a: Seq<ShellEvent>, b: Seq<ShellEvent>)
    ensures
        run(s, a + b) == (run(run(s, a).0, b).0, run(s, a).1 + run(run(s, a).0, b).1),
    decreases b.len(),
{
    if b.len() == 0 {
        assert(a + b =~= a);
        assert(run(s, a).1 + run(run(s, a).0, b).1 =~= run(s, a).1);
    } else {
        assert((a + b).drop_last() =~= a + b.drop_last());
        lemma_run_concat(s, a, b.drop_last());
        let m = run(s, a).0;
        let (_, r2) = apply(run(m, b.drop_last()).0, b.last());
        assert(run(s, a).1 + run(m, b.drop_last()).1 + r2 =~= run(s, a).1 + (run(
            m,
            b.drop_last(),
        ).1 + r2));
    }
}

/// Every event sequence keeps the window well formed.
pub proof fn lemma_run_wf(s: WindowState, es: Seq<ShellEvent>)
    requires
        s.wf(),
    ensures
        run(s, es).0.wf(),
    decreases es.len(),
{
    if es.len() > 0 {
        lemma_run_wf(s, es.drop_last());
    }
}

/// A size that is proposed twice in a row is acted on once: the second
/// proposal leaves the window as it is and issues no resize and no commit.
pub proof fn lemma_repeated_size_is_idle(s: WindowState, width: i32, height: i32)
    ensures
        ({
            let e = ShellEvent::ToplevelConfigure { width, height };
            let s1 = apply(s, e).0;
            apply(s1, e) == (s1, Seq::<Request>::empty())
        }),
{
    let e = ShellEvent::ToplevelConfigure { width, height };
    assert(apply(apply(s, e).0, e).1 =~= Seq::<Request>::empty());
}

/// `n` copies of the same event.
pub open spec fn repeated(e: ShellEvent, n: nat) -> Seq<ShellEvent> {
    Seq::new(n, |_i: int| e)
}

/// A run of identical size proposals acts as the first of them alone: at most
/// one resize and one commit, however long the run.
pub proof fn lemma_repeated_sizes_act_once(s: WindowState, width: i32, height: i32, n: nat)
    requires
        n >= 1,
    ensures
        ({
            let e = ShellEvent::ToplevelConfigure { width, height };
            run(s, repeated(e, n)) == apply(s, e)
        }),
    decreases n,
{
    let e = ShellEvent::ToplevelConfigure { width, height };
    let es = repeated(e, n);
    assert(es.last() == e);
    if n == 1 {
        assert(es.drop_last() =~= Seq::<ShellEvent>::empty());
        assert(run(s, es.drop_last()) == (s, Seq::<Request>::empty()));
        assert(Seq::<Request>::empty() + apply(s, e).1 =~= apply(s, e).1);
        assert(run(s, es).1 == apply(s, e).1);
        assert(run(s, es).0 == apply(s, e).0);
    } else {
        assert(es.drop_last() =~= repeated(e, (n - 1) as nat));
        lemma_repeated_sizes_act_once(s, width, height, (n - 1) as nat);
        lemma_repeated_size_is_idle(s, width, height);
        assert(run(s, es.drop_last()) == apply(s, e));
        assert(apply(s, e).1 + Seq::<Request>::empty() =~= apply(s, e).1);
        assert(run(s, es).1 == apply(s, e).1);
        assert(run(s, es).0 == apply(s, e).0);
    }
}

/// A proposed size with a zero dimension leaves the window as it is and
/// issues nothing.
pub proof fn lemma_zero_size_is_ignored(s: WindowState, width: i32, height: i32)
    requires
        width == 0 || height == 0,
    ensures
        apply(s, ShellEvent::ToplevelConfigure { width, height }) == (s, Seq::<Request>::empty()),
{
    assert(apply(s, ShellEvent::ToplevelConfigure { width, height }).1 =~= Seq::<
        Request,
    >::empty());
}

/// While the window runs, a shell-surface configure is answered at once by
/// exactly one acknowledgement of its serial: it is the very next request after
/// those of the events before it, so it comes before any commit that a later
/// event causes.
pub proof fn lemma_configure_is_acked_next(s: WindowState, es: Seq<ShellEvent>, serial: u32)
    requires
        run(s, es).0.running,
    ensures
        run(s, es.push(ShellEvent::Configure { serial })).1 == run(s, es).1.push(
            Request::AckConfigure { serial },
        ),
{
    let es2 = es.push(ShellEvent::Configure { serial });
    assert(es2.drop_last() =~= es);
    assert(run(s, es).1 + seq![Request::AckConfigure { serial }] =~= run(s, es).1.push(
        Request::AckConfigure { serial },
    ));
}

/// A graphics context may be bound once the first configure is acknowledged,
/// not before: a window that awaited its first configure is `Configured` only
/// after an acknowledgement went out.
pub proof fn lemma_configured_only_after_ack(s: WindowState, es: Seq<ShellEvent>)
    requires
        s.phase == Lifecycle::AwaitingConfigure,
    ensures
        run(s, es).0.phase == Lifecycle::AwaitingConfigure || run(s, es).0.phase
            == Lifecycle::Configured,
        run(s, es).0.phase == Lifecycle::Configured ==> exists|k: int|
            0 <= k < run(s, es).1.len() && #[trigger] run(s, es).1[k] is AckConfigure,
    decreases es.len(),
{
    if es.len() > 0 {
        lemma_configured_only_after_ack(s, es.drop_last());
        let (s1, r1) = run(s, es.drop_last());
        let r2 = apply(s1, es.last()).1;
        let rs = r1 + r2;
        assert(rs == run(s, es).1);
        if run(s, es).0.phase == Lifecycle::Configured {
            if s1.phase == Lifecycle::Configured {
                let k = choose|k: int| 0 <= k < r1.len() && #[trigger] r1[k] is AckConfigure;
                assert(rs[k] == r1[k]);
            } else {
                assert(rs[r1.len() as int] == r2[0]);
            }
        }
    }
}

/// The pongs of a sequence answer its pings one for one.
proof fn lemma_replies_count(es: Seq<ShellEvent>, serial: u32)
    ensures
        count_of(replies(es), Request::Pong { serial }) == count_of(
            es,
            ShellEvent::Ping { serial },
        ),
    decreases es.len(),
{
    if es.len() > 0 {
        lemma_replies_count(es.drop_last(), serial);
        lemma_count_of_concat(replies(es.drop_last()), reply(es.last()), Request::Pong { serial });
        let r = reply(es.last());
        if r.len() > 0 {
            assert(r.drop_last() =~= Seq::<Request>::empty());
            assert(count_of(r.drop_last(), Request::Pong { serial }) == 0);
        }
    }
}

/// Applying events never issues a pong.
proof fn lemma_run_has_no_pong(s: WindowState, es: Seq<ShellEvent>, serial: u32)
    ensures
        count_of(run(s, es).1, Request::Pong { serial }) == 0,
    decreases es.len(),
{
    if es.len() > 0 {
        lemma_run_has_no_pong(s, es.drop_last(), serial);
        let (s1, r1) = run(s, es.drop_last());
        let r2 = apply(s1, es.last()).1;
        lemma_count_of_concat(r1, r2, Request::Pong { serial });
        if r2.len() == 1 {
            assert(r2.drop_last() =~= Seq::<Request>::empty());
            assert(count_of(r2.drop_last(), Request::Pong { serial }) == 0);
        } else if r2.len() == 2 {
            assert(r2.drop_last().drop_last() =~= Seq::<Request>::empty());
            assert(count_of(r2.drop_last().drop_last(), Request::Pong { serial }) == 0);
            assert(count_of(r2.drop_last(), Request::Pong { serial }) == 0);
        }
    }
}

/// Every ping is answered by exactly one pong with its serial, whatever the
/// state of the window, also after a close request.
pub proof fn lemma_every_ping_is_answered(s: WindowState, es: Seq<ShellEvent>, serial: u32)
    ensures
        count_of(drain(s, es), Request::Pong { serial }) == count_of(
            es,
            ShellEvent::Ping { serial },
        ),
{
    lemma_replies_count(es, serial);
    lemma_run_has_no_pong(s, es, serial);
    lemma_count_of_concat(replies(es), run(s, es).1, Request::Pong { serial });
}

/// Once the window was asked to close, events change nothing and cause no
/// request (pongs aside).
pub proof fn lemma_closed_window_is_quiet(s: WindowState, es: Seq<ShellEvent>)
    requires
        !s.running,
    ensures
        run(s, es) == (s, Seq::<Request>::empty()),
    decreases es.len(),
{
    if es.len() > 0 {
        lemma_closed_window_is_quiet(s, es.drop_last());
        assert(apply(s, es.last()).1 =~= Seq::<Request>::empty());
        assert(Seq::<Request>::empty() + Seq::<Request>::empty() =~= Seq::<Request>::empty());
    }
}

/// After a close request no commit, resize or acknowledgement is issued: the
/// requests of a sequence are those of its events up to the close, and the
/// present loop stops before the next frame.
pub proof fn lemma_close_ends_requests(s: WindowState, es: Seq<ShellEvent>, i: int)
    requires
        0 <= i < es.len(),
        es[i] == ShellEvent::Close,
    ensures
        run(s, es).1 == run(s, es.take(i + 1)).1,
        !run(s, es).0.running,
        frame_action(run(s, es).0) == FrameAction::Stop,
{
    let a = es.take(i + 1);
    let b = es.skip(i + 1);
    assert(a + b =~= es);
    assert(a.drop_last() =~= es.take(i));
    lemma_run_concat(s, a, b);
    lemma_closed_window_is_quiet(run(s, a).0, b);
    assert(run(s, a).1 + Seq::<Request>::empty() =~= run(s, a).1);
}

} // verus!
