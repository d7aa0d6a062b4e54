//! Error values the rendering backend's shader and program loaders report.
//!
//! Compiling shaders and linking programs happens outside the library, at
//! the graphics boundary; these are the typed failures that boundary hands
//! back, carrying the backend's own log text where there is one.

use vstd::prelude::*;

verus! {

/// A shader object could not be created, or its source did not compile.
#[derive(Debug, Clone)]
pub enum ShaderError {
    /// The backend returned no shader object at all.
    NoShader,
    /// The shader did not compile; the backend's info log explains why.
    String(String),
}

/// A program object could not be created, or its shaders did not link.
#[derive(Debug, Clone)]
pub enum ProgramError {
    /// The backend returned no program object at all.
    NoProgram,
    /// The program did not link; the backend's info log explains why.
    String(String),
}

} // verus!
