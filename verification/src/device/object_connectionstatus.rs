//! The object that tells whether a device is online.

use crate::device::Device;
use crate::time::Nanos;
use vstd::prelude::*;

verus! {

impl Device {
    /// Whether the device is online, and since when it is or is not.
    pub fn connection_status(&self) -> (res: (bool, Nanos))
        ensures
            res == (self.spec_online(), self.persistent.connection_status_last_transition),
    {
        (self.online(), self.persistent.connection_status_last_transition)
    }
}

} // verus!
