//! The boundary with the platform shell: window handles, the window builder,
//! and the requests the core makes of the shell.

use vstd::prelude::*;
use crate::geometry::Size;
use crate::win_handler::DruidHandler;

verus! {

/// What the core asks of the platform shell for a window.
#[derive(Clone, Copy, Debug, PartialEq, Eq, Structural)]
pub enum PlatformRequest {
    Show(u32),
    Close(u32),
    BringToFrontAndFocus(u32),
    Invalidate(u32),
}

/// Why a window could not be set up.
#[derive(Clone, Copy, Debug, PartialEq, Eq, Structural)]
pub enum PlatformError {
    /// The window id lies outside the window registry.
    WindowIdOutOfRange,
    /// The root widget of the window is not registered.
    UnregisteredRoot,
    /// The launcher holds no more window descriptions.
    TooManyWindows,
}

/// A handle on a platform window, by which the core reaches the shell.
#[derive(Clone, Copy, Debug, PartialEq, Eq, Structural)]
pub struct WindowHandle {
    pub window_id: u32,
    pub handler: DruidHandler,
}

impl WindowHandle {
    /// Asks the shell to show the window.
    pub fn show(&self) -> (r: PlatformRequest)
        ensures
            r == PlatformRequest::Show(self.window_id),
    {
        PlatformRequest::Show(self.window_id)
    }

    /// Asks the shell to close the window.
    pub fn close(&self) -> (r: PlatformRequest)
        ensures
            r == PlatformRequest::Close(self.window_id),
    {
        PlatformRequest::Close(self.window_id)
    }

    /// Asks the shell to bring the window to the front and focus it.
    pub fn bring_to_front_and_focus(&self) -> (r: PlatformRequest)
        ensures
            r == PlatformRequest::BringToFrontAndFocus(self.window_id),
    {
        PlatformRequest::BringToFrontAndFocus(self.window_id)
    }

    /// Asks the shell to repaint the whole window.
    pub fn invalidate(&self) -> (r: PlatformRequest)
        ensures
            r == PlatformRequest::Invalidate(self.window_id),
    {
        PlatformRequest::Invalidate(self.window_id)
    }
}

/// Builds a platform window around a handler.
#[derive(Clone, Copy, Debug, PartialEq, Eq, Structural)]
pub struct WindowBuilder {
    pub handler: Option<DruidHandler>,
    pub size: Size,
}

/// Side of the display the windows open on.
pub const DISPLAY_SIDE: u32 = 240;

impl WindowBuilder {
    /// A builder with no handler, for a window as large as the display.
    pub fn new() -> (r: WindowBuilder)
        ensures
            r.handler is None,
            r.size == (Size { width: DISPLAY_SIDE, height: DISPLAY_SIDE }),
    {
        WindowBuilder { handler: None, size: Size::new(DISPLAY_SIDE, DISPLAY_SIDE) }
    }

    pub fn set_handler(&mut self, handler: DruidHandler)
        ensures
            final(self).handler == Some(handler),
            final(self).size == old(self).size,
    {
        self.handler = Some(handler);
    }

    pub fn set_size(&mut self, size: Size)
        ensures
            final(self).size == size,
            final(self).handler == old(self).handler,
    {
        self.size = size;
    }

    /// The handle of the window, which reaches its handler.
    pub fn build(self) -> (r: WindowHandle)
        requires
            self.handler is Some,
        ensures
            r.handler == self.handler.unwrap(),
            r.window_id == self.handler.unwrap().window_id.0,
    {
        let handler = self.handler.unwrap();
        WindowHandle { window_id: handler.window_id.0, handler }
    }
}

} // verus!
