use vstd::prelude::*;

verus! {

/// The lifecycle phase the engine is in.
#[derive(Debug, Clone, Copy, PartialEq, Eq, Structural)]
pub enum EngineStatus {
    Init,
    Running,
    Pause,
    Exiting,
}

impl EngineStatus {
    /// Whether the engine is still initialising.
    pub fn init(&self) -> (r: bool)
        ensures
            r == (*self == EngineStatus::Init),
    {
        *self == EngineStatus::Init
    }

    /// Whether the engine is running frames.
    pub fn running(&self) -> (r: bool)
        ensures
            r == (*self == EngineStatus::Running),
    {
        *self == EngineStatus::Running
    }

    /// Whether the engine is paused.
    pub fn pause(&self) -> (r: bool)
        ensures
            r == (*self == EngineStatus::Pause),
    {
        *self == EngineStatus::Pause
    }

    /// Whether the engine is shutting down.
    pub fn exiting(&self) -> (r: bool)
        ensures
            r == (*self == EngineStatus::Exiting),
    {
        *self == EngineStatus::Exiting
    }
}

/// The script function a frame runs.
#[derive(Debug, Clone, Copy, PartialEq, Eq, Structural)]
pub enum FrameScript {
    /// The script's per-frame update.
    Run,
    /// The script's paused-frame function.
    Pause,
    /// The script's exiting-frame function.
    Exit,
}

impl EngineStatus {
    /// Which script function a frame runs in this status: the paused one
    /// while paused, the exiting one while exiting, the update otherwise.
    pub fn frame_script(&self) -> (r: FrameScript)
        ensures
            r == match *self {
                EngineStatus::Pause => FrameScript::Pause,
                EngineStatus::Exiting => FrameScript::Exit,
                _ => FrameScript::Run,
            },
    {
        match self {
            EngineStatus::Pause => FrameScript::Pause,
            EngineStatus::Exiting => FrameScript::Exit,
            _ => FrameScript::Run,
        }
    }
}

} // verus!
