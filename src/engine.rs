use vstd::prelude::*;

verus! {

/// Whether the default output device has been opened and runs. Opening it
/// is left to the caller, which reports back with `mark_running`.
pub struct AudioEngine {
    pub running: bool,
}

impl AudioEngine {
    /// An engine whose output is not yet running; creation cannot fail.
    pub fn new() -> (r: Result<AudioEngine, String>)
        ensures
            r matches Ok(e) && !e.running,
    {
        Ok(AudioEngine { running: false })
    }

    /// Records that the output stream has started.
    pub fn mark_running(&mut self)
        ensures
            final(self).running,
    {
        self.running = true;
    }

    pub fn is_running(&self) -> (r: bool)
        ensures
            r == self.running,
    {
        self.running
    }
}

} // verus!
