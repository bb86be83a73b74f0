//! The i8042 keyboard-controller stub: reads return nothing, and the
//! CPU-reset command written to the command register asks the host to
//! end the process.

use vstd::prelude::*;
use crate::device::{IoEffects, PortIoDevice, PortRange};

verus! {

pub const I8042_DATA_REG: u16 = 0x60;
pub const I8042_COMMAND_REG: u16 = 0x64;
pub const I8042_CMD_SYSTEM_RESET: u8 = 0xfe;

/// The keyboard controller, which carries no state of its own.
pub struct I8042 {
}

/// A read from the controller: nothing happens.
pub open spec fn i8042_read_rel(
    d0: I8042,
    d1: I8042,
    port: u16,
    b0: Seq<u8>,
    b1: Seq<u8>,
    fx: IoEffects,
) -> bool {
    &&& b1 == b0
    &&& crate::device::no_effects(fx)
}

/// A write: the reset command on the command register asks the host to
/// exit; everything else is ignored.
pub open spec fn i8042_write_rel(d0: I8042, d1: I8042, port: u16, b: Seq<u8>, fx: IoEffects) -> bool {
    &&& fx.reset == (port == I8042_COMMAND_REG && b.len() > 0 && b[0] == I8042_CMD_SYSTEM_RESET)
    &&& fx.irq is None
    &&& fx.host_tx@.len() == 0
}

impl I8042 {
    pub fn new() -> (r: I8042)
        ensures
            true,
    {
        I8042 {  }
    }

    pub fn read(&mut self, port: u16, data: &mut Vec<u8>) -> (fx: IoEffects)
        ensures
            i8042_read_rel(*old(self), *final(self), port, old(data)@, final(data)@, fx),
            final(data)@ == old(data)@,
    {
        IoEffects::none()
    }

    pub fn write(&mut self, port: u16, data: &[u8]) -> (fx: IoEffects)
        ensures
            i8042_write_rel(*old(self), *final(self), port, data@, fx),
    {
        let mut reset = false;
        if port == I8042_COMMAND_REG && data.len() > 0 {
            if crate::bytes::get_u8(data, 0) == I8042_CMD_SYSTEM_RESET {
                reset = true;
            }
        }
        IoEffects { reset, irq: None, host_tx: Vec::new() }
    }
}

impl PortIoDevice for I8042 {
    open spec fn range_spec(&self) -> PortRange {
        PortRange { base: 0x60, len: 5 }
    }

    fn port_range(&self) -> (r: PortRange) {
        PortRange { base: 0x60, len: 5 }
    }

    fn read(&mut self, port: u16, data: &mut Vec<u8>) -> (fx: IoEffects) {
        self.read(port, data)
    }

    fn write(&mut self, port: u16, data: &[u8]) -> (fx: IoEffects) {
        self.write(port, data)
    }
}

} // verus!
