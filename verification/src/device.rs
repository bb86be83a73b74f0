//! The port-I/O device model: port ranges, the side effects a device
//! access asks of the host, the device trait, and the bus that routes
//! a guest port access to the first device whose range contains it.
//! Bus ranges never overlap.

use vstd::prelude::*;
use crate::HvError;
use crate::device::i8042::{i8042_read_rel, i8042_write_rel, I8042};
use crate::device::rtc::{rtc_read_rel, rtc_write_rel, Rtc};
use crate::device::serial::{serial_read_spec, serial_wf, serial_write_spec, Serial};

pub mod i8042;
pub mod rtc;
pub mod serial;

verus! {

/// A range of ports `[base, base + len)` on the 16-bit port space.
#[derive(Debug, Clone, Copy, PartialEq, Eq, Structural)]
pub struct PortRange {
    pub base: u16,
    pub len: u16,
}

impl PortRange {
    pub open spec fn contains_spec(self, port: u16) -> bool {
        self.base <= port < self.base + self.len
    }

    pub open spec fn overlaps_spec(self, other: PortRange) -> bool {
        self.base < other.base + other.len && other.base < self.base + self.len
    }

    pub fn new(base: u16, len: u16) -> (r: PortRange)
        ensures
            r == (PortRange { base, len }),
    {
        PortRange { base, len }
    }

    /// The range covering `start` through `end`, both included.
    pub fn new_inclusive(start: u16, end: u16) -> (r: PortRange)
        requires
            start <= end,
            end - start < 0xffff,
        ensures
            r.base == start,
            r.len == end - start + 1,
    {
        PortRange { base: start, len: end - start + 1 }
    }

    pub fn contains(self, port: u16) -> (r: bool)
        ensures
            r == self.contains_spec(port),
    {
        self.base <= port && (port - self.base) < self.len
    }

    pub fn overlaps(self, other: PortRange) -> (r: bool)
        ensures
            r == self.overlaps_spec(other),
    {
        (self.base as u32) < other.base as u32 + other.len as u32 && (other.base as u32)
            < self.base as u32 + self.len as u32
    }
}

/// What the host must do after a device access: exit the process on a
/// guest-requested reset, move the interrupt line, and print bytes on
/// the console.
pub struct IoEffects {
    pub reset: bool,
    pub irq: Option<(u8, bool)>,
    pub host_tx: Vec<u8>,
}

/// No host action.
pub open spec fn no_effects(fx: IoEffects) -> bool {
    &&& fx.reset == false
    &&& fx.irq is None
    &&& fx.host_tx@.len() == 0
}

impl IoEffects {
    pub fn none() -> (fx: IoEffects)
        ensures
            no_effects(fx),
    {
        IoEffects { reset: false, irq: None, host_tx: Vec::new() }
    }
}

/// A device on the port-I/O bus. The exact register semantics live on
/// the concrete device types; the trait promises only that an access
/// keeps the guest buffer's size and the device's claimed range.
pub trait PortIoDevice: Sized {
    spec fn range_spec(&self) -> PortRange;

    fn port_range(&self) -> (r: PortRange)
        ensures
            r == self.range_spec(),
    ;

    fn read(&mut self, port: u16, data: &mut Vec<u8>) -> (fx: IoEffects)
        requires
            old(self).range_spec().contains_spec(port),
        ensures
            final(self).range_spec() == old(self).range_spec(),
            final(data)@.len() == old(data)@.len(),
    ;

    fn write(&mut self, port: u16, data: &[u8]) -> (fx: IoEffects)
        requires
            old(self).range_spec().contains_spec(port),
        ensures
            final(self).range_spec() == old(self).range_spec(),
    ;
}

/// One device slot of the bus.
pub enum BusDevice {
    I8042(I8042),
    Rtc(Rtc),
    Serial(Serial),
}

/// The port range a bus device claims.
pub open spec fn bus_device_range(d: BusDevice) -> PortRange {
    match d {
        BusDevice::I8042(_) => PortRange { base: 0x60, len: 5 },
        BusDevice::Rtc(_) => PortRange { base: 0x70, len: 2 },
        BusDevice::Serial(s) => PortRange { base: s@.base_port, len: 8 },
    }
}

pub open spec fn bus_device_wf(d: BusDevice) -> bool {
    match d {
        BusDevice::I8042(_) => true,
        BusDevice::Rtc(_) => true,
        BusDevice::Serial(s) => serial_wf(s@),
    }
}

/// What a read does to a bus device, the guest buffer, and the host.
pub open spec fn bus_read_rel(
    d0: BusDevice,
    d1: BusDevice,
    port: u16,
    b0: Seq<u8>,
    b1: Seq<u8>,
    fx: IoEffects,
) -> bool {
    match d0 {
        BusDevice::I8042(k0) => d1 is I8042 && i8042_read_rel(k0, d1->I8042_0, port, b0, b1, fx),
        BusDevice::Rtc(r0) => d1 is Rtc && rtc_read_rel(r0, d1->Rtc_0, port, b0, b1, fx),
        BusDevice::Serial(s0) => d1 is Serial && {
            let step = serial_read_spec(s0@, port, b0);
            &&& d1->Serial_0@ == step.0
            &&& b1 == step.1
            &&& fx.reset == false
            &&& fx.irq == (match step.2 {
                Some(level) => Some((s0@.irq_number, level)),
                None => None::<(u8, bool)>,
            })
            &&& fx.host_tx@ == step.3
        },
    }
}

/// What a write does to a bus device and the host.
pub open spec fn bus_write_rel(
    d0: BusDevice,
    d1: BusDevice,
    port: u16,
    b: Seq<u8>,
    fx: IoEffects,
) -> bool {
    match d0 {
        BusDevice::I8042(k0) => d1 is I8042 && i8042_write_rel(k0, d1->I8042_0, port, b, fx),
        BusDevice::Rtc(r0) => d1 is Rtc && rtc_write_rel(r0, d1->Rtc_0, port, b, fx),
        BusDevice::Serial(s0) => d1 is Serial && {
            let step = serial_write_spec(s0@, port, b);
            &&& d1->Serial_0@ == step.0
            &&& fx.reset == false
            &&& fx.irq == (match step.1 {
                Some(level) => Some((s0@.irq_number, level)),
                None => None::<(u8, bool)>,
            })
            &&& fx.host_tx@ == step.2
        },
    }
}

impl BusDevice {
    pub fn range(&self) -> (r: PortRange)
        ensures
            r == bus_device_range(*self),
    {
        match self {
            BusDevice::I8042(_) => PortRange { base: 0x60, len: 5 },
            BusDevice::Rtc(_) => PortRange { base: 0x70, len: 2 },
            BusDevice::Serial(s) => PortRange { base: s.base_port, len: 8 },
        }
    }

    pub fn read(&mut self, port: u16, data: &mut Vec<u8>) -> (fx: IoEffects)
        requires
            bus_device_range(*old(self)).contains_spec(port),
        ensures
            bus_read_rel(*old(self), *final(self), port, old(data)@, final(data)@, fx),
            bus_device_wf(*old(self)) ==> bus_device_wf(*final(self)),
            bus_device_range(*final(self)) == bus_device_range(*old(self)),
            final(data)@.len() == old(data)@.len(),
    {
        match self {
            BusDevice::I8042(k) => k.read(port, data),
            BusDevice::Rtc(r) => r.read(port, data),
            BusDevice::Serial(s) => s.read(port, data),
        }
    }

    pub fn write(&mut self, port: u16, data: &[u8]) -> (fx: IoEffects)
        requires
            bus_device_range(*old(self)).contains_spec(port),
        ensures
            bus_write_rel(*old(self), *final(self), port, data@, fx),
            bus_device_wf(*old(self)) ==> bus_device_wf(*final(self)),
            bus_device_range(*final(self)) == bus_device_range(*old(self)),
    {
        match self {
            BusDevice::I8042(k) => k.write(port, data),
            BusDevice::Rtc(r) => r.write(port, data),
            BusDevice::Serial(s) => s.write(port, data),
        }
    }
}

/// Index of the first device at or after `i` whose range contains the
/// port, `-1` when none does.
pub open spec fn first_match_from(devs: Seq<BusDevice>, port: u16, i: int) -> int
    decreases devs.len() - i,
{
    if i < 0 || i >= devs.len() {
        -1
    } else if bus_device_range(devs[i]).contains_spec(port) {
        i
    } else {
        first_match_from(devs, port, i + 1)
    }
}

/// The port-I/O bus: an ordered set of devices with pairwise disjoint
/// port ranges; the first device whose range contains a port serves
/// the access, and a port nobody claims is silently ignored.
pub struct PortIoHub {
    pub devices: Vec<BusDevice>,
}

impl PortIoHub {
    /// Ranges are pairwise disjoint and every device is well-formed.
    pub open spec fn wf(&self) -> bool {
        &&& forall|i: int, j: int|
            0 <= i < j < self.devices@.len() ==> !(#[trigger] bus_device_range(
                self.devices@[i],
            )).overlaps_spec(bus_device_range(#[trigger] self.devices@[j]))
        &&& forall|i: int| 0 <= i < self.devices@.len() ==> bus_device_wf(#[trigger] self.devices@[i])
    }

    pub fn new() -> (r: PortIoHub)
        ensures
            r.devices@.len() == 0,
            r.wf(),
    {
        PortIoHub { devices: Vec::new() }
    }

    /// Add a device; rejected exactly when its range overlaps one
    /// already on the bus.
    pub fn add_device(&mut self, device: BusDevice) -> (r: Result<(), HvError>)
        requires
            old(self).wf(),
            bus_device_wf(device),
        ensures
            final(self).wf(),
            r is Ok <==> forall|i: int|
                0 <= i < old(self).devices@.len() ==> !(#[trigger] bus_device_range(
                    old(self).devices@[i],
                )).overlaps_spec(bus_device_range(device)),
            r is Ok ==> final(self).devices@ == old(self).devices@.push(device),
            r is Err ==> final(self).devices@ == old(self).devices@ && r == Err::<(), HvError>(
                HvError::DeviceRangeOverlap,
            ),
    {
        let range = device.range();
        let n = self.devices.len();
        let mut i: usize = 0;
        while i < n
            invariant
                i <= n,
                n == self.devices@.len(),
                self.devices@ == old(self).devices@,
                old(self).wf(),
                range == bus_device_range(device),
                forall|j: int|
                    0 <= j < i ==> !(#[trigger] bus_device_range(
                        self.devices@[j],
                    )).overlaps_spec(range),
            decreases n - i,
        {
            let dr = self.devices[i].range();
            if range.overlaps(dr) {
                proof {
                    assert(bus_device_range(self.devices@[i as int]).overlaps_spec(range));
                }
                return Err(HvError::DeviceRangeOverlap);
            }
            proof {
                assert(!bus_device_range(self.devices@[i as int]).overlaps_spec(range));
            }
            i += 1;
        }
        self.devices.push(device);
        proof {
            assert(final(self).wf());
        }
        Ok(())
    }

    /// Route a guest port read to the owning device; a port nobody
    /// claims leaves the buffer untouched.
    pub fn read(&mut self, port: u16, data: &mut Vec<u8>) -> (fx: IoEffects)
        requires
            old(self).wf(),
        ensures
            final(self).wf(),
            final(self).devices@.len() == old(self).devices@.len(),
            final(data)@.len() == old(data)@.len(),
            ({
                let m = first_match_from(old(self).devices@, port, 0);
                &&& (m == -1 ==> final(self).devices@ == old(self).devices@ && final(data)@ == old(
                    data,
                )@ && no_effects(fx))
                &&& (m >= 0 ==> {
                    &&& forall|j: int|
                        0 <= j < old(self).devices@.len() && j != m ==> final(self).devices@[j]
                            == old(self).devices@[j]
                    &&& bus_read_rel(
                        old(self).devices@[m],
                        final(self).devices@[m],
                        port,
                        old(data)@,
                        final(data)@,
                        fx,
                    )
                })
            }),
    {
        let n = self.devices.len();
        let mut i: usize = 0;
        while i < n
            invariant
                i <= n,
                n == self.devices@.len(),
                old(self).wf(),
                *self == *old(self),
                data@ == old(data)@,
                first_match_from(old(self).devices@, port, 0) == first_match_from(
                    old(self).devices@,
                    port,
                    i as int,
                ),
            decreases n - i,
        {
            let contains = self.devices[i].range().contains(port);
            if contains {
                let fx = device_at_mut(&mut self.devices, i).read(port, data);
                return fx;
            }
            i += 1;
        }
        IoEffects::none()
    }

    /// Route a guest port write to the owning device; a port nobody
    /// claims discards the bytes.
    pub fn write(&mut self, port: u16, data: &[u8]) -> (fx: IoEffects)
        requires
            old(self).wf(),
        ensures
            final(self).wf(),
            final(self).devices@.len() == old(self).devices@.len(),
            ({
                let m = first_match_from(old(self).devices@, port, 0);
                &&& (m == -1 ==> final(self).devices@ == old(self).devices@ && no_effects(fx))
                &&& (m >= 0 ==> {
                    &&& forall|j: int|
                        0 <= j < old(self).devices@.len() && j != m ==> final(self).devices@[j]
                            == old(self).devices@[j]
                    &&& bus_write_rel(
                        old(self).devices@[m],
                        final(self).devices@[m],
                        port,
                        data@,
                        fx,
                    )
                })
            }),
    {
        let n = self.devices.len();
        let mut i: usize = 0;
        while i < n
            invariant
                i <= n,
                n == self.devices@.len(),
                old(self).wf(),
                *self == *old(self),
                first_match_from(old(self).devices@, port, 0) == first_match_from(
                    old(self).devices@,
                    port,
                    i as int,
                ),
            decreases n - i,
        {
            let contains = self.devices[i].range().contains(port);
            if contains {
                let fx = device_at_mut(&mut self.devices, i).write(port, data);
                return fx;
            }
            i += 1;
        }
        IoEffects::none()
    }
}

/// A mutable borrow of one bus slot.
fn device_at_mut(devs: &mut Vec<BusDevice>, i: usize) -> (d: &mut BusDevice)
    requires
        i < old(devs).len(),
    ensures
        *d == old(devs)@[i as int],
        final(devs)@ == old(devs)@.update(i as int, *final(d)),
{
    &mut devs[i]
}

/// At most one device's range contains any port: whenever two bus
/// slots both claim a port, they are the same slot.
pub proof fn lemma_bus_ranges_disjoint(hub: PortIoHub, port: u16, i: int, j: int)
    requires
        hub.wf(),
        0 <= i < hub.devices@.len(),
        0 <= j < hub.devices@.len(),
        bus_device_range(hub.devices@[i]).contains_spec(port),
        bus_device_range(hub.devices@[j]).contains_spec(port),
    ensures
        i == j,
{
    if i < j {
        assert(bus_device_range(hub.devices@[i]).overlaps_spec(bus_device_range(hub.devices@[j])));
    } else if j < i {
        assert(bus_device_range(hub.devices@[j]).overlaps_spec(bus_device_range(hub.devices@[i])));
    }
}

} // verus!
