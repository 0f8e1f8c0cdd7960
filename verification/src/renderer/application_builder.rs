//! Options of the windowed application and the user event of its event loop.
use vstd::prelude::*;

verus! {

/// User event posted to the windowed application's event loop.
#[derive(Clone, Copy, Debug, PartialEq, Eq, Structural)]
pub enum AppEvent {
    /// Exit the event loop.
    Exit,
}

/// Options for building the windowed application.
#[derive(Debug)]
pub struct WindowedApplicationBuilder {
    quit_on_last_window_closed: bool,
    any_thread: bool,
}

impl WindowedApplicationBuilder {
    /// Whether the loop exits when the last window closes.
    pub closed spec fn spec_quit(&self) -> bool {
        self.quit_on_last_window_closed
    }

    /// Whether the event loop may be created off the main thread.
    pub closed spec fn spec_any_thread(&self) -> bool {
        self.any_thread
    }

    /// Defaults: quit when the last window closes; main thread only.
    pub fn new() -> (r: WindowedApplicationBuilder)
        ensures
            r.spec_quit(),
            !r.spec_any_thread(),
    {
        WindowedApplicationBuilder { quit_on_last_window_closed: true, any_thread: false }
    }

    /// Allows (or forbids) creating the event loop off the main thread.
    pub fn with_any_thread(self, any_thread: bool) -> (r: WindowedApplicationBuilder)
        ensures
            r.spec_any_thread() == any_thread,
            r.spec_quit() == self.spec_quit(),
    {
        WindowedApplicationBuilder { any_thread, ..self }
    }

    /// Sets whether the loop exits when the last window closes.
    pub fn quit_on_last_window_closed(self, quit: bool) -> (r: WindowedApplicationBuilder)
        ensures
            r.spec_quit() == quit,
            r.spec_any_thread() == self.spec_any_thread(),
    {
        WindowedApplicationBuilder { quit_on_last_window_closed: quit, ..self }
    }

    /// Whether the loop exits when the last window closes.
    pub fn quits_on_last_window_closed(&self) -> (r: bool)
        ensures
            r == self.spec_quit(),
    {
        self.quit_on_last_window_closed
    }

    /// Whether the event loop may be created off the main thread.
    pub fn any_thread(&self) -> (r: bool)
        ensures
            r == self.spec_any_thread(),
    {
        self.any_thread
    }
}

} // verus!
