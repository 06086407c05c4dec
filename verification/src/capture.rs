use vstd::prelude::*;
use crate::save::{joined_path, path_join};

verus! {

/// An event the engine sends itself.
#[derive(Debug, Clone)]
pub enum EngineEvent {
    /// Write the next frame to a picture file, at a path relative to the
    /// capture directory.
    Capture(String),
}

impl EngineEvent {
    /// The file the frame is written to, for the given capture directory.
    pub fn capture_target(&self, capture_dir: &str) -> (r: String)
        ensures
            r@ == match self {
                EngineEvent::Capture(p) => joined_path(capture_dir@, p@),
            },
    {
        match self {
            EngineEvent::Capture(p) => path_join(capture_dir, p.as_str()),
        }
    }
}

} // verus!
