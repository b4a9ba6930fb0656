use vstd::prelude::*;
use crate::text::{dec_seq, format_u64};

verus! {

/// An input device as shown to the user.
pub struct MidiDevice {
    pub id: String,
    pub name: String,
    pub is_default: bool,
}

/// The device list of one kind of input, which one is chosen, and whether
/// capture runs. Opening and closing the device is left to the caller.
pub struct DeviceSelection {
    pub names: Vec<String>,
    pub selected: Option<usize>,
    pub capturing: bool,
}

/// The port that capture uses: the selected one, else the first.
pub open spec fn capture_port_spec(sel: Option<usize>) -> usize {
    match sel {
        Some(i) => i,
        None => 0,
    }
}

impl DeviceSelection {
    pub fn new() -> (d: DeviceSelection)
        ensures
            d.names@.len() == 0,
            d.selected.is_none(),
            !d.capturing,
    {
        DeviceSelection { names: Vec::new(), selected: None, capturing: false }
    }

    /// Replaces the device list; a selection that no longer exists is dropped.
    pub fn set_device_names(&mut self, names: Vec<String>)
        ensures
            final(self).names@ == names@,
            final(self).capturing == old(self).capturing,
            final(self).selected == match old(self).selected {
                Some(i) => if i < names@.len() { Some(i) } else { None },
                None => None,
            },
    {
        let sel = match self.selected {
            Some(i) => if i < names.len() { Some(i) } else { None },
            None => None,
        };
        self.names = names;
        self.selected = sel;
    }

    /// The devices, each with an id made of `prefix` and its index; the
    /// first is the default.
    pub fn get_devices(&self, prefix: &str) -> (r: Vec<MidiDevice>)
        ensures
            r@.len() == self.names@.len(),
            forall|i: int| 0 <= i < r@.len() ==> {
                &&& (#[trigger] r@[i]).name@ == self.names@[i]@
                &&& r@[i].id@ == prefix@ + dec_seq(i as nat)
                &&& r@[i].is_default == (i == 0)
            },
    {
        let mut v: Vec<MidiDevice> = Vec::new();
        let mut i: usize = 0;
        while i < self.names.len()
            invariant
                i <= self.names@.len(),
                v@.len() == i,
                forall|k: int| 0 <= k < i ==> {
                    &&& (#[trigger] v@[k]).name@ == self.names@[k]@
                    &&& v@[k].id@ == prefix@ + dec_seq(k as nat)
                    &&& v@[k].is_default == (k == 0)
                },
            decreases self.names@.len() - i,
        {
            let mut id = prefix.to_owned();
            let digits = format_u64(i as u64);
            id.append(digits.as_str());
            v.push(MidiDevice { id, name: self.names[i].clone(), is_default: i == 0 });
            i = i + 1;
        }
        v
    }

    /// Chooses a device; an index past the list is refused.
    pub fn select_device(&mut self, index: usize) -> (r: Result<(), String>)
        ensures
            r.is_ok() == (index < old(self).names@.len()),
            r.is_ok() ==> final(self).selected == Some(index),
            r.is_err() ==> *final(self) == *old(self),
            r.is_ok() ==> *final(self) == (DeviceSelection { selected: Some(index), ..*old(self) }),
            r matches Err(e) ==> e@ == "Invalid device index"@,
            final(self).names@ == old(self).names@,
            final(self).capturing == old(self).capturing,
    {
        if index >= self.names.len() {
            return Err(String::from_str("Invalid device index"));
        }
        self.selected = Some(index);
        Ok(())
    }

    /// Decides how to start capture: `Ok(None)` when it already runs,
    /// `Ok(Some(port))` for the port to open, an error when that port does
    /// not exist. Capture counts as running once a port is handed out.
    pub fn begin_capture(&mut self) -> (r: Result<Option<usize>, String>)
        ensures
            final(self).names@ == old(self).names@,
            final(self).selected == old(self).selected,
            old(self).capturing ==> r == Ok::<Option<usize>, String>(None) && final(self).capturing,
            !old(self).capturing ==> {
                &&& r.is_ok() == (capture_port_spec(old(self).selected) < old(self).names@.len())
                &&& r.is_ok() ==> r == Ok::<Option<usize>, String>(Some(capture_port_spec(old(self).selected)))
                    && final(self).capturing
                &&& r.is_err() ==> !final(self).capturing
            },
    {
        if self.capturing {
            return Ok(None);
        }
        let port = match self.selected {
            Some(i) => i,
            None => 0,
        };
        if port >= self.names.len() {
            return Err(String::from_str("No device selected"));
        }
        self.capturing = true;
        Ok(Some(port))
    }

    /// Marks capture as stopped.
    pub fn end_capture(&mut self)
        ensures
            !final(self).capturing,
            final(self).names@ == old(self).names@,
            final(self).selected == old(self).selected,
            *final(self) == (DeviceSelection { capturing: false, ..*old(self) }),
    {
        self.capturing = false;
    }

    pub fn is_capturing(&self) -> (r: bool)
        ensures
            r == self.capturing,
    {
        self.capturing
    }
}

} // verus!
