use vstd::prelude::*;

verus! {

/// A request the scripts make of the window's event loop.
#[derive(Debug, Clone)]
pub enum EngineEvent {
    /// No request.
    NoEvent,
    /// Show the cursor of the given name.
    LoadCursor(String),
    /// Close the window.
    ExitWindow,
}

impl Default for EngineEvent {
    fn default() -> (r: Self)
        ensures
            r is NoEvent,
    {
        EngineEvent::NoEvent
    }
}

impl EngineEvent {
    /// The request to show the cursor called `name`.
    pub fn load_cursor(name: String) -> (r: Self)
        ensures
            r matches EngineEvent::LoadCursor(n) && n@ == name@,
    {
        EngineEvent::LoadCursor(name)
    }

    /// The request to close the window.
    pub fn exit_window() -> (r: Self)
        ensures
            r is ExitWindow,
    {
        EngineEvent::ExitWindow
    }
}

} // verus!
