use vstd::prelude::*;

use crate::error::WaylandEGLStateError;

verus! {

/// The outcome of creating a shader object: the name 0 means that the
/// driver could not create it.
pub fn check_shader_created(shader: u32) -> (r: Result<u32, WaylandEGLStateError>)
    ensures
        r == (if shader == 0 {
            Err(WaylandEGLStateError::GLShaderCompileFailed)
        } else {
            Ok(shader)
        }),
{
    if shader == 0 {
        Err(WaylandEGLStateError::GLShaderCompileFailed)
    } else {
        Ok(shader)
    }
}

/// The outcome of compiling a shader, from the compile status the driver
/// reports for it: a positive status means success.
pub fn check_compile_status(shader: u32, status: i32) -> (r: Result<u32, WaylandEGLStateError>)
    ensures
        r == (if status > 0 {
            Ok(shader)
        } else {
            Err(WaylandEGLStateError::GLShaderCompileFailed)
        }),
{
    if status > 0 {
        Ok(shader)
    } else {
        Err(WaylandEGLStateError::GLShaderCompileFailed)
    }
}

/// The outcome of creating a program object: the name 0 means failure.
pub fn check_program_created(program: u32) -> (r: Result<u32, WaylandEGLStateError>)
    ensures
        r == (if program == 0 {
            Err(WaylandEGLStateError::GLCreateProgramFailed)
        } else {
            Ok(program)
        }),
{
    if program == 0 {
        Err(WaylandEGLStateError::GLCreateProgramFailed)
    } else {
        Ok(program)
    }
}

/// The outcome of linking a program, from the link status the driver reports
/// for it: a positive status means success.
pub fn check_link_status(program: u32, status: i32) -> (r: Result<u32, WaylandEGLStateError>)
    ensures
        r == (if status > 0 {
            Ok(program)
        } else {
            Err(WaylandEGLStateError::GLLinkProgramFailed)
        }),
{
    if status > 0 {
        Ok(program)
    } else {
        Err(WaylandEGLStateError::GLLinkProgramFailed)
    }
}

} // verus!
