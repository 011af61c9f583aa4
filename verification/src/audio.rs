//! The sounds the app plays and where their assets live.

use vstd::prelude::*;
use crate::text::concat;

verus! {

/// A sound the app can play.
#[derive(Clone, Copy, Debug, PartialEq, Eq, Hash, Structural)]
pub enum Sound {
    AgentDone,
}

impl Sound {
    /// The asset name of the sound's file.
    pub open spec fn spec_file(self) -> Seq<char> {
        match self {
            Sound::AgentDone => "agent_done"@,
        }
    }

    /// The asset name of the sound's file.
    pub fn file(&self) -> (r: &'static str)
        ensures
            r@ == self.spec_file(),
    {
        match self {
            Sound::AgentDone => "agent_done",
        }
    }

    /// The path of the sound's `.wav` asset.
    pub fn asset_path(&self) -> (r: String)
        ensures
            r@ == "sounds/"@ + self.spec_file() + ".wav"@,
    {
        let with_dir = concat("sounds/", self.file());
        concat(with_dir.as_str(), ".wav")
    }
}

} // verus!
