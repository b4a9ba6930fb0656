use vstd::prelude::*;

verus! {

/// Progress of a long export, polled by the user interface.
pub struct ExportProgressState {
    /// Percent done, at most 100.
    pub progress: u32,
    pub is_running: bool,
    pub is_cancelled: bool,
    pub status: String,
    pub error: Option<String>,
}

impl ExportProgressState {
    pub open spec fn wf(&self) -> bool {
        self.progress <= 100
    }

    /// No export under way.
    pub fn new() -> (s: ExportProgressState)
        ensures
            s.wf(),
            s.progress == 0,
            !s.is_running,
            !s.is_cancelled,
            s.status@.len() == 0,
            s.error.is_none(),
    {
        ExportProgressState {
            progress: 0,
            is_running: false,
            is_cancelled: false,
            status: String::new(),
            error: None,
        }
    }

    /// Begins an export: running, not cancelled, at 0%, no error.
    pub fn start(&mut self, status: &str)
        ensures
            final(self).wf(),
            final(self).progress == 0,
            final(self).is_running,
            !final(self).is_cancelled,
            final(self).status@ == status@,
            final(self).error.is_none(),
    {
        self.progress = 0;
        self.is_running = true;
        self.is_cancelled = false;
        self.status = status.to_owned();
        self.error = None;
    }

    /// Records progress, held to at most 100%, with a status line.
    pub fn update(&mut self, progress: u32, status: &str)
        ensures
            final(self).wf(),
            final(self).progress == if progress > 100 { 100 } else { progress },
            final(self).status@ == status@,
            final(self).is_running == old(self).is_running,
            final(self).is_cancelled == old(self).is_cancelled,
            final(self).error == old(self).error,
    {
        self.progress = if progress > 100 { 100 } else { progress };
        self.status = status.to_owned();
    }

    /// Ends the export successfully.
    pub fn complete(&mut self)
        ensures
            final(self).wf(),
            final(self).progress == 100,
            !final(self).is_running,
            final(self).status@ == "Export complete"@,
            final(self).is_cancelled == old(self).is_cancelled,
            final(self).error == old(self).error,
    {
        self.progress = 100;
        self.is_running = false;
        self.status = String::from_str("Export complete");
    }

    /// Ends the export with an error.
    pub fn fail(&mut self, error: &str)
        requires
            old(self).wf(),
        ensures
            final(self).wf(),
            final(self).progress == old(self).progress,
            !final(self).is_running,
            final(self).status@ == "Export failed"@,
            final(self).error matches Some(e) && e@ == error@,
            final(self).is_cancelled == old(self).is_cancelled,
    {
        self.is_running = false;
        self.status = String::from_str("Export failed");
        self.error = Some(error.to_owned());
    }

    /// Asks the running export to stop.
    pub fn cancel(&mut self)
        requires
            old(self).wf(),
        ensures
            final(self).wf(),
            final(self).is_cancelled,
            final(self).progress == old(self).progress,
            final(self).is_running == old(self).is_running,
            final(self).status@ == old(self).status@,
            final(self).error == old(self).error,
    {
        self.is_cancelled = true;
    }

    pub fn is_cancelled(&self) -> (r: bool)
        ensures
            r == self.is_cancelled,
    {
        self.is_cancelled
    }

    pub fn is_running(&self) -> (r: bool)
        ensures
            r == self.is_running,
    {
        self.is_running
    }

    pub fn get_progress(&self) -> (r: u32)
        ensures
            r == self.progress,
    {
        self.progress
    }

    pub fn get_status(&self) -> (r: String)
        ensures
            r@ == self.status@,
    {
        self.status.clone()
    }

    pub fn get_error(&self) -> (r: Option<String>)
        ensures
            r.is_some() == self.error.is_some(),
            r matches Some(e) ==> self.error matches Some(x) && e@ == x@,
    {
        match &self.error {
            Some(e) => Some(e.clone()),
            None => None,
        }
    }

    /// Back to the state of no export.
    pub fn reset(&mut self)
        ensures
            final(self).wf(),
            final(self).progress == 0,
            !final(self).is_running,
            !final(self).is_cancelled,
            final(self).status@.len() == 0,
            final(self).error.is_none(),
    {
        self.progress = 0;
        self.is_running = false;
        self.is_cancelled = false;
        self.status = String::new();
        self.error = None;
    }
}

/// A copy of the progress state handed to the user interface.
pub struct ExportProgressInfo {
    pub progress: u32,
    pub is_running: bool,
    pub is_cancelled: bool,
    pub status: String,
    pub error: Option<String>,
}

impl ExportProgressInfo {
    /// What the progress state holds now.
    pub fn current(state: &ExportProgressState) -> (r: ExportProgressInfo)
        ensures
            r.progress == state.progress,
            r.is_running == state.is_running,
            r.is_cancelled == state.is_cancelled,
            r.status@ == state.status@,
            r.error.is_some() == state.error.is_some(),
            r.error matches Some(e) ==> state.error matches Some(x) && e@ == x@,
    {
        ExportProgressInfo {
            progress: state.get_progress(),
            is_running: state.is_running(),
            is_cancelled: state.is_cancelled(),
            status: state.get_status(),
            error: state.get_error(),
        }
    }
}

} // verus!
