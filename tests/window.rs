use wayland_egl_window::binder::{
    config_requirements, teardown_order, teardown_result, ConfigRequirement, TeardownStep,
};
use wayland_egl_window::error::WaylandEGLStateError;
use wayland_egl_window::program::{
    check_compile_status, check_link_status, check_program_created, check_shader_created,
};
use wayland_egl_window::registry::{role_of_interface, same_text, GlobalBinding, Role};
use wayland_egl_window::shell::{FrameAction, Lifecycle, Request, ShellEvent};
use wayland_egl_window::state::WaylandEGLState;

fn attached_state() -> WaylandEGLState {
    let mut s = WaylandEGLState::new();
    s.on_global(1, "wl_compositor", 4);
    s.on_global(2, "xdg_wm_base", 2);
    assert_eq!(s.create_surface(), Ok(()));
    assert_eq!(s.handle_event(ShellEvent::Configure { serial: 1 }), vec![Request::AckConfigure { serial: 1 }]);
    s.attach_graphics();
    s
}

#[test]
fn new_state_defaults() {
    let s = WaylandEGLState::new();
    assert_eq!(s.window.width, 320);
    assert_eq!(s.window.height, 240);
    assert!(s.window.running);
    assert_eq!(s.window.phase, Lifecycle::Uninitialized);
    assert_eq!(s.title, "Nya");
    assert_eq!(s.compositor, None);
    assert_eq!(s.shell, None);
}

#[test]
fn scenario_a_both_globals_bound() {
    let mut s = WaylandEGLState::new();
    assert_eq!(s.on_global(7, "wl_output", 3), None);
    assert_eq!(s.on_global(1, "wl_compositor", 4), Some(Role::Compositor));
    assert_eq!(s.on_global(2, "xdg_wm_base", 2), Some(Role::Shell));
    assert_eq!(s.compositor, Some(GlobalBinding { name: 1, version: 4 }));
    assert_eq!(s.shell, Some(GlobalBinding { name: 2, version: 2 }));
    assert_eq!(s.validate_globals(), Ok(()));
    assert_eq!(s.create_surface(), Ok(()));
    assert_eq!(s.window.phase, Lifecycle::AwaitingConfigure);
}

#[test]
fn globals_bound_in_any_order() {
    let mut s = WaylandEGLState::new();
    assert_eq!(s.on_global(5, "xdg_wm_base", 3), Some(Role::Shell));
    assert_eq!(s.on_global(6, "wl_seat", 7), None);
    assert_eq!(s.on_global(4, "wl_compositor", 6), Some(Role::Compositor));
    assert_eq!(s.on_global(8, "wl_shm", 1), None);
    assert_eq!(s.shell, Some(GlobalBinding { name: 5, version: 3 }));
    assert_eq!(s.compositor, Some(GlobalBinding { name: 4, version: 6 }));
    assert_eq!(s.validate_globals(), Ok(()));
}

#[test]
fn first_configure_allows_binding() {
    let mut s = WaylandEGLState::new();
    s.on_global(1, "wl_compositor", 4);
    s.on_global(2, "xdg_wm_base", 2);
    s.create_surface().unwrap();
    assert_eq!(s.window.phase, Lifecycle::AwaitingConfigure);
    assert!(s.handle_event(ShellEvent::Ping { serial: 3 }) == vec![Request::Pong { serial: 3 }]);
    assert_eq!(s.window.phase, Lifecycle::AwaitingConfigure);
    let r = s.handle_event(ShellEvent::Configure { serial: 9 });
    assert_eq!(r, vec![Request::AckConfigure { serial: 9 }]);
    assert_eq!(s.window.phase, Lifecycle::Configured);
    s.attach_graphics();
    assert_eq!(s.window.phase, Lifecycle::Attached);
    let r = s.handle_event(ShellEvent::Configure { serial: 10 });
    assert_eq!(r, vec![Request::AckConfigure { serial: 10 }]);
    assert_eq!(s.window.phase, Lifecycle::Attached);
}

#[test]
fn close_before_first_configure() {
    let mut s = WaylandEGLState::new();
    s.on_global(1, "wl_compositor", 4);
    s.on_global(2, "xdg_wm_base", 2);
    s.create_surface().unwrap();
    let r = s.dispatch_pending(&vec![ShellEvent::Close, ShellEvent::Configure { serial: 4 }]);
    assert!(r.is_empty());
    assert_eq!(s.window.phase, Lifecycle::AwaitingConfigure);
    assert_eq!(s.next_frame(), FrameAction::Stop);
    assert_eq!(
        s.deinit(),
        vec![TeardownStep::DestroyShellSurface, TeardownStep::DestroyCompositingSurface]
    );
    assert_eq!(s.window.phase, Lifecycle::Destroyed);
}

#[test]
fn scenario_b_missing_shell_global() {
    let mut s = WaylandEGLState::new();
    s.on_global(1, "wl_compositor", 4);
    assert_eq!(s.validate_globals(), Err(WaylandEGLStateError::XdgWmBaseMissing));
    assert_eq!(s.create_surface(), Err(WaylandEGLStateError::XdgWmBaseMissing));
    assert_eq!(s.window.phase, Lifecycle::Uninitialized);
}

#[test]
fn missing_compositor_global() {
    let mut s = WaylandEGLState::new();
    s.on_global(2, "xdg_wm_base", 2);
    assert_eq!(s.validate_globals(), Err(WaylandEGLStateError::WlCompositorMissing));
}

#[test]
fn no_globals_reports_shell_first() {
    let s = WaylandEGLState::new();
    assert_eq!(s.validate_globals(), Err(WaylandEGLStateError::XdgWmBaseMissing));
}

#[test]
fn later_announcement_replaces_binding() {
    let mut s = WaylandEGLState::new();
    s.on_global(1, "wl_compositor", 4);
    s.on_global(9, "wl_compositor", 5);
    assert_eq!(s.compositor, Some(GlobalBinding { name: 9, version: 5 }));
}

#[test]
fn interface_names() {
    assert_eq!(role_of_interface("xdg_wm_base"), Some(Role::Shell));
    assert_eq!(role_of_interface("wl_compositor"), Some(Role::Compositor));
    assert_eq!(role_of_interface("wl_compositorx"), None);
    assert_eq!(role_of_interface("xdg_wm_bas"), None);
    assert_eq!(role_of_interface(""), None);
    assert!(same_text("abc", "abc"));
    assert!(!same_text("abc", "abd"));
}

#[test]
fn scenario_c_zero_then_real_size() {
    let mut s = attached_state();
    let r = s.handle_event(ShellEvent::ToplevelConfigure { width: 0, height: 480 });
    assert!(r.is_empty());
    assert_eq!((s.window.width, s.window.height), (320, 240));
    let r = s.handle_event(ShellEvent::ToplevelConfigure { width: 800, height: 600 });
    assert_eq!(
        r,
        vec![Request::ResizeWindow { width: 800, height: 600 }, Request::Commit]
    );
    assert_eq!((s.window.width, s.window.height), (800, 600));
    let r = s.handle_event(ShellEvent::Configure { serial: 2 });
    assert_eq!(r, vec![Request::AckConfigure { serial: 2 }]);
}

#[test]
fn repeated_size_is_idle() {
    let mut s = attached_state();
    let e = ShellEvent::ToplevelConfigure { width: 640, height: 480 };
    let events = vec![e, e, e];
    let r = s.dispatch_pending(&events);
    assert_eq!(
        r,
        vec![Request::ResizeWindow { width: 640, height: 480 }, Request::Commit]
    );
    let r = s.handle_event(e);
    assert!(r.is_empty());
    let r = s.dispatch_pending(&vec![e, ShellEvent::Configure { serial: 3 }]);
    assert_eq!(r, vec![Request::AckConfigure { serial: 3 }]);
}

#[test]
fn current_size_is_idle() {
    let mut s = attached_state();
    let r = s.handle_event(ShellEvent::ToplevelConfigure { width: 320, height: 240 });
    assert!(r.is_empty());
}

#[test]
fn zero_size_is_ignored() {
    let mut s = attached_state();
    for (w, h) in [(0, 0), (800, 0), (0, 600)] {
        let r = s.handle_event(ShellEvent::ToplevelConfigure { width: w, height: h });
        assert!(r.is_empty());
        assert_eq!((s.window.width, s.window.height), (320, 240));
    }
}

#[test]
fn negative_size_is_ignored() {
    let mut s = attached_state();
    let r = s.handle_event(ShellEvent::ToplevelConfigure { width: -5, height: 600 });
    assert!(r.is_empty());
    assert_eq!((s.window.width, s.window.height), (320, 240));
}

#[test]
fn size_before_attach_commits_without_resize() {
    let mut s = WaylandEGLState::new();
    s.on_global(1, "wl_compositor", 4);
    s.on_global(2, "xdg_wm_base", 2);
    s.create_surface().unwrap();
    let r = s.handle_event(ShellEvent::ToplevelConfigure { width: 100, height: 50 });
    assert_eq!(r, vec![Request::Commit]);
    assert_eq!((s.window.width, s.window.height), (100, 50));
    let r = s.handle_event(ShellEvent::Configure { serial: 1 });
    assert_eq!(r, vec![Request::AckConfigure { serial: 1 }]);
    assert_eq!(s.window.phase, Lifecycle::Configured);
}

#[test]
fn configure_is_acked() {
    let mut s = attached_state();
    let events = vec![
        ShellEvent::Configure { serial: 11 },
        ShellEvent::ToplevelConfigure { width: 500, height: 400 },
        ShellEvent::Configure { serial: 12 },
    ];
    let r = s.dispatch_pending(&events);
    assert_eq!(
        r,
        vec![
            Request::AckConfigure { serial: 11 },
            Request::ResizeWindow { width: 500, height: 400 },
            Request::Commit,
            Request::AckConfigure { serial: 12 },
        ]
    );
}

#[test]
fn every_ping_is_answered_first() {
    let mut s = attached_state();
    let events = vec![
        ShellEvent::Configure { serial: 3 },
        ShellEvent::Ping { serial: 40 },
        ShellEvent::Close,
        ShellEvent::Ping { serial: 41 },
        ShellEvent::Ping { serial: 40 },
    ];
    let r = s.dispatch_pending(&events);
    assert_eq!(
        r,
        vec![
            Request::Pong { serial: 40 },
            Request::Pong { serial: 41 },
            Request::Pong { serial: 40 },
            Request::AckConfigure { serial: 3 },
        ]
    );
    assert!(!s.window.running);
}

#[test]
fn ping_after_close_is_answered() {
    let mut s = attached_state();
    assert!(s.handle_event(ShellEvent::Close).is_empty());
    let r = s.handle_event(ShellEvent::Ping { serial: 77 });
    assert_eq!(r, vec![Request::Pong { serial: 77 }]);
}

#[test]
fn nothing_but_pongs_after_close() {
    let mut s = attached_state();
    s.handle_event(ShellEvent::Close);
    let events = vec![
        ShellEvent::Configure { serial: 5 },
        ShellEvent::ToplevelConfigure { width: 900, height: 700 },
        ShellEvent::Ping { serial: 6 },
    ];
    let r = s.dispatch_pending(&events);
    assert_eq!(r, vec![Request::Pong { serial: 6 }]);
    assert_eq!((s.window.width, s.window.height), (320, 240));
    assert_eq!(s.next_frame(), FrameAction::Stop);
}

#[test]
fn scenario_d_close_mid_loop() {
    let mut s = attached_state();
    let mut frames = 0;
    let passes = vec![
        vec![ShellEvent::Configure { serial: 1 }],
        vec![],
        vec![ShellEvent::Close, ShellEvent::ToplevelConfigure { width: 10, height: 10 }],
        vec![ShellEvent::Configure { serial: 2 }],
    ];
    let mut stopped_after = None;
    for (k, events) in passes.iter().enumerate() {
        let r = s.dispatch_pending(events);
        match s.next_frame() {
            FrameAction::Render { width, height } => {
                assert_eq!((width, height), (320, 240));
                frames += 1;
            }
            FrameAction::Stop => {
                assert!(r.is_empty());
                stopped_after = Some(k);
                break;
            }
        }
    }
    assert_eq!(frames, 2);
    assert_eq!(stopped_after, Some(2));
    let steps = s.deinit();
    assert_eq!(
        steps,
        vec![
            TeardownStep::DeleteProgram,
            TeardownStep::DestroyDrawingSurface,
            TeardownStep::DestroyContext,
            TeardownStep::DestroyShellSurface,
            TeardownStep::DestroyCompositingSurface,
        ]
    );
    assert_eq!(s.window.phase, Lifecycle::Destroyed);
}

#[test]
fn render_uses_current_size() {
    let mut s = attached_state();
    s.handle_event(ShellEvent::ToplevelConfigure { width: 1024, height: 768 });
    assert_eq!(s.next_frame(), FrameAction::Render { width: 1024, height: 768 });
}

#[test]
fn bind_then_release_without_frames() {
    let mut s = attached_state();
    assert_eq!(s.window.phase, Lifecycle::Attached);
    let steps = s.deinit();
    assert_eq!(steps, teardown_order(true));
    assert!(!s.window.running);
    assert_eq!(s.window.phase, Lifecycle::Destroyed);
    assert_eq!(teardown_result(&steps, &vec![false; 5]), Ok(()));
}

#[test]
fn teardown_reports_first_failure() {
    let steps = teardown_order(true);
    assert_eq!(
        teardown_result(&steps, &vec![false, true, false, true, false]),
        Err(TeardownStep::DestroyDrawingSurface)
    );
    assert_eq!(
        teardown_result(&steps, &vec![false, false, false, false, true]),
        Err(TeardownStep::DestroyCompositingSurface)
    );
    assert_eq!(
        teardown_result(&steps, &vec![true, true, true, true, true]),
        Err(TeardownStep::DeleteProgram)
    );
}

#[test]
fn config_requirements_with_and_without_alpha() {
    let base = vec![
        ConfigRequirement::WindowDrawable,
        ConfigRequirement::Es2Renderable,
        ConfigRequirement::RedBits(8),
        ConfigRequirement::GreenBits(8),
        ConfigRequirement::BlueBits(8),
    ];
    assert_eq!(config_requirements(false), base);
    let mut with_alpha = base.clone();
    with_alpha.push(ConfigRequirement::AlphaBits(8));
    assert_eq!(config_requirements(true), with_alpha);
}

#[test]
fn shader_and_program_checks() {
    assert_eq!(check_shader_created(0), Err(WaylandEGLStateError::GLShaderCompileFailed));
    assert_eq!(check_shader_created(3), Ok(3));
    assert_eq!(check_compile_status(3, 1), Ok(3));
    assert_eq!(check_compile_status(3, 0), Err(WaylandEGLStateError::GLShaderCompileFailed));
    assert_eq!(check_program_created(0), Err(WaylandEGLStateError::GLCreateProgramFailed));
    assert_eq!(check_program_created(9), Ok(9));
    assert_eq!(check_link_status(9, 1), Ok(9));
    assert_eq!(check_link_status(9, 0), Err(WaylandEGLStateError::GLLinkProgramFailed));
}

#[test]
fn error_messages() {
    assert_eq!(WaylandEGLStateError::XdgWmBaseMissing.message(), "xdg_wm_base global missing");
    assert_eq!(WaylandEGLStateError::WlCompositorMissing.message(), "wl_compositor global missing");
    assert_eq!(WaylandEGLStateError::GLShaderCompileFailed.message(), "Shader compilation failed");
    assert_eq!(WaylandEGLStateError::GLCreateProgramFailed.message(), "Failed to create gl program");
    assert_eq!(WaylandEGLStateError::GLLinkProgramFailed.message(), "Failed to link gl program");
}

#[test]
fn teardown_without_graphics() {
    let steps = teardown_order(false);
    assert_eq!(
        steps,
        vec![TeardownStep::DestroyShellSurface, TeardownStep::DestroyCompositingSurface]
    );
    assert_eq!(
        teardown_result(&steps, &vec![false, true]),
        Err(TeardownStep::DestroyCompositingSurface)
    );
    assert_eq!(teardown_result(&steps, &vec![false, false]), Ok(()));
}
