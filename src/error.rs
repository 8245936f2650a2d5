use vstd::prelude::*;

verus! {

/// The errors that end start-up or program initialisation.
#[derive(Debug, Clone, Copy, PartialEq, Eq, Structural)]
pub enum WaylandEGLStateError {
    /// The compositor does not advertise the shell global (`xdg_wm_base`).
    XdgWmBaseMissing,
    /// The compositor does not advertise the compositing global (`wl_compositor`).
    WlCompositorMissing,
    /// A shader could not be created or compiled.
    GLShaderCompileFailed,
    /// The program object could not be created.
    GLCreateProgramFailed,
    /// The program could not be linked.
    GLLinkProgramFailed,
}

/// The human-readable cause of each error.
pub open spec fn error_message(e: WaylandEGLStateError) -> Seq<char> {
    match e {
        WaylandEGLStateError::XdgWmBaseMissing => "xdg_wm_base global missing"@,
        WaylandEGLStateError::WlCompositorMissing => "wl_compositor global missing"@,
        WaylandEGLStateError::GLShaderCompileFailed => "Shader compilation failed"@,
        WaylandEGLStateError::GLCreateProgramFailed => "Failed to create gl program"@,
        WaylandEGLStateError::GLLinkProgramFailed => "Failed to link gl program"@,
    }
}

impl WaylandEGLStateError {
    /// The cause of the error, as a sentence for the user.
    pub fn message(&self) -> (r: String)
        ensures
            r@ == error_message(*self),
    {
        match self {
            WaylandEGLStateError::XdgWmBaseMissing => String::from_str("xdg_wm_base global missing"),
            WaylandEGLStateError::WlCompositorMissing => String::from_str("wl_compositor global missing"),
            WaylandEGLStateError::GLShaderCompileFailed => String::from_str("Shader compilation failed"),
            WaylandEGLStateError::GLCreateProgramFailed => String::from_str("Failed to create gl program"),
            WaylandEGLStateError::GLLinkProgramFailed => String::from_str("Failed to link gl program"),
        }
    }
}

} // verus!
