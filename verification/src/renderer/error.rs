//! Errors of the renderer.
use vstd::prelude::*;

use crate::application::ApplicationError;

verus! {

/// Failures of the painting layer.
#[derive(Clone, Copy, Debug, PartialEq, Eq)]
pub enum PaintError {
    /// The rendering surface was lost.
    SurfaceLost,
    /// The GPU device was lost.
    DeviceLost,
    /// Another failure, described by a static message.
    Other(&'static str),
}

/// The text of a painting-layer failure.
pub open spec fn paint_message(e: PaintError) -> Seq<char> {
    match e {
        PaintError::SurfaceLost => "rendering surface lost"@,
        PaintError::DeviceLost => "GPU device lost"@,
        PaintError::Other(m) => m@,
    }
}

impl PaintError {
    /// The human-readable message of the error.
    pub fn message(&self) -> (r: &'static str)
        ensures
            r@ == paint_message(*self),
    {
        match self {
            PaintError::SurfaceLost => "rendering surface lost",
            PaintError::DeviceLost => "GPU device lost",
            PaintError::Other(m) => m,
        }
    }
}

/// Errors the renderer decides itself; failures reported by the windowing system or
/// the GPU are added by the caller that talks to them.
#[derive(Clone, Copy, Debug, PartialEq, Eq)]
pub enum RendererError {
    /// The application singleton could not be created.
    Application(ApplicationError),
    /// A window was requested outside an event-loop callback.
    OutsideCallback,
    /// A painting-layer failure.
    Paint(PaintError),
}

impl RendererError {
    /// The human-readable message of the error.
    pub fn message(&self) -> (r: &'static str)
        ensures
            self matches RendererError::Application(_) ==> r@ == "Application already exists"@,
            self is OutsideCallback ==> r@ == "window creation requested outside an event-loop callback"@,
            self matches RendererError::Paint(p) ==> r@ == paint_message(*p),
    {
        match self {
            RendererError::Application(e) => e.message(),
            RendererError::OutsideCallback => "window creation requested outside an event-loop callback",
            RendererError::Paint(p) => p.message(),
        }
    }
}

} // verus!
