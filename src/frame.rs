use vstd::prelude::*;

verus! {

/// Why the presentation surface could not give or show a frame.
#[derive(Clone, Copy, Debug, PartialEq, Eq, Structural)]
pub enum SurfaceFault {
    Timeout,
    Outdated,
    Lost,
    OutOfMemory,
}

/// What the frame loop does next.
#[derive(Clone, Copy, Debug, PartialEq, Eq, Structural)]
pub enum FrameAction {
    /// Go on with the next frame.
    Continue,
    /// Configure the surface again at its current size, then go on.
    Reconfigure,
    /// Leave the frame loop.
    Stop,
}

/// Triage of a frame's outcome: a lost surface is configured again, running
/// out of memory ends the loop, and a timed out or outdated surface is
/// retried with the next frame.
pub fn after_frame(outcome: Result<(), SurfaceFault>) -> (r: FrameAction)
    ensures
        r == match outcome {
            Ok(()) => FrameAction::Continue,
            Err(SurfaceFault::Lost) => FrameAction::Reconfigure,
            Err(SurfaceFault::OutOfMemory) => FrameAction::Stop,
            Err(_) => FrameAction::Continue,
        },
{
    match outcome {
        Ok(()) => FrameAction::Continue,
        Err(SurfaceFault::Lost) => FrameAction::Reconfigure,
        Err(SurfaceFault::OutOfMemory) => FrameAction::Stop,
        Err(_) => FrameAction::Continue,
    }
}

/// Width and height of the presentation surface, in pixels.
#[derive(Clone, Copy, Debug, PartialEq, Eq, Structural)]
pub struct SurfaceSize {
    pub width: u32,
    pub height: u32,
}

/// The size to configure the surface with after the window reported a new
/// size; `None` when a side is not positive, and the surface is left as it is.
pub fn resize_target(new_width: i32, new_height: i32) -> (r: Option<SurfaceSize>)
    ensures
        r is Some <==> new_width > 0 && new_height > 0,
        r matches Some(s) ==> s.width == new_width && s.height == new_height,
{
    if new_width > 0 && new_height > 0 {
        Some(SurfaceSize { width: new_width as u32, height: new_height as u32 })
    } else {
        None
    }
}

/// A window event, as far as the frame loop reads it.
#[derive(Clone, Copy, Debug, PartialEq, Eq, Structural)]
pub enum WindowEvent {
    Quit,
    EscapePressed,
    SizeChanged(i32, i32),
    Other,
}

/// What the frame loop does about a window event.
#[derive(Clone, Copy, Debug, PartialEq, Eq, Structural)]
pub enum EventResponse {
    Exit,
    Resize(SurfaceSize),
    Ignore,
}

/// Quitting or pressing escape leaves the loop; a new window size with both
/// sides positive resizes the surface; anything else is ignored.
pub fn respond_to(event: WindowEvent) -> (r: EventResponse)
    ensures
        r == match event {
            WindowEvent::Quit | WindowEvent::EscapePressed => EventResponse::Exit,
            WindowEvent::SizeChanged(w, h) => if w > 0 && h > 0 {
                EventResponse::Resize(SurfaceSize { width: w as u32, height: h as u32 })
            } else {
                EventResponse::Ignore
            },
            WindowEvent::Other => EventResponse::Ignore,
        },
{
    match event {
        WindowEvent::Quit | WindowEvent::EscapePressed => EventResponse::Exit,
        WindowEvent::SizeChanged(w, h) => match resize_target(w, h) {
            Some(size) => EventResponse::Resize(size),
            None => EventResponse::Ignore,
        },
        WindowEvent::Other => EventResponse::Ignore,
    }
}

} // verus!
