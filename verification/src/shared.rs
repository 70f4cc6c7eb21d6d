//! What the applications on both ends of a link share: ground software and
//! spacecraft, host and device.

use vstd::prelude::*;

verus! {

/// The configuration that a host sends to a device. It has no settings yet.
pub struct DeviceConfiguration {}

impl DeviceConfiguration {
    /// Puts the configuration into `buf` for the radio link. A configuration
    /// without settings takes no bytes: `buf` is left as it was.
    pub fn to_radio(&self, buf: &mut [u8]) -> (r: Result<(), ()>)
        ensures
            r == Ok::<(), ()>(()),
            final(buf)@ == old(buf)@,
    {
        Ok(())
    }
}

} // verus!
