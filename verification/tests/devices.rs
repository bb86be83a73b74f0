//! Device-model checks: the UART's byte stream, interrupt line and
//! loopback, the RTC's BCD registers, the i8042 reset trap, and the
//! bus's non-overlap rule.

use microcosm::device::i8042::I8042;
use microcosm::device::rtc::{bin_to_bcd, Rtc};
use microcosm::device::serial::Serial;
use microcosm::device::{BusDevice, PortIoHub, PortRange};

#[test]
fn bin_to_bcd_formula() {
    for n in 0u8..=99 {
        assert_eq!(bin_to_bcd(n), ((n / 10) << 4) | (n % 10));
    }
    assert_eq!(bin_to_bcd(59), 0x59);
    assert_eq!(bin_to_bcd(7), 0x07);
}

#[test]
fn uart_bytestream_with_thri() {
    let mut uart = Serial::new(0);
    // IER = THRI.
    let fx = uart.write(0x3f9, &[0x02]);
    // Transmitter is already empty, so the line rises at once.
    assert_eq!(fx.irq, Some((4, true)));
    let mut host: Vec<u8> = Vec::new();
    let mut edges: Vec<(u8, bool)> = Vec::new();
    host.extend_from_slice(&fx.host_tx);
    for &b in b"Hi\n" {
        let fx = uart.write(0x3f8, &[b]);
        host.extend_from_slice(&fx.host_tx);
        if let Some(e) = fx.irq {
            edges.push(e);
        }
    }
    // The host sees exactly the bytes, with no redundant line edges.
    assert_eq!(host, b"Hi\n");
    assert_eq!(edges, vec![]);
    // After the FIFO drains, LSR advertises TEMT | THRE.
    let mut data = vec![0u8];
    uart.read(0x3f8 + 5, &mut data);
    assert_eq!(data[0] & 0x60, 0x60);
    // Disarming the interrupt deasserts the line: one full cycle.
    let fx = uart.write(0x3f9, &[0x00]);
    assert_eq!(fx.irq, Some((4, false)));
}

#[test]
fn uart_loopback() {
    let mut uart = Serial::new(0);
    // MCR.LOOP on.
    uart.write(0x3f8 + 4, &[0x10]);
    let fx = uart.write(0x3f8, &[0x42]);
    // Nothing reaches the host console.
    assert_eq!(fx.host_tx, Vec::<u8>::new());
    // DR is set and the byte is readable at RX.
    let mut data = vec![0u8];
    uart.read(0x3f8 + 5, &mut data);
    assert_eq!(data[0] & 0x01, 0x01);
    let mut data = vec![0u8];
    uart.read(0x3f8, &mut data);
    assert_eq!(data[0], 0x42);
}

#[test]
fn uart_rx_from_host_raises_rdi() {
    let mut uart = Serial::new(1);
    assert_eq!(uart.base_port, 0x2f8);
    // IER = RDI.
    uart.write(0x2f9, &[0x01]);
    let fx = uart.queue_rx(b'k');
    assert_eq!(fx.irq, Some((3, true)));
    let mut data = vec![0u8];
    uart.read(0x2f8, &mut data);
    assert_eq!(data[0], b'k');
}

#[test]
fn uart_divisor_latch() {
    let mut uart = Serial::new(0);
    // DLAB on: the first two registers hold the divisor.
    uart.write(0x3f8 + 3, &[0x80]);
    uart.write(0x3f8, &[0x34]);
    uart.write(0x3f9, &[0x12]);
    let mut data = vec![0u8];
    uart.read(0x3f8, &mut data);
    assert_eq!(data[0], 0x34);
    let mut data = vec![0u8];
    uart.read(0x3f9, &mut data);
    assert_eq!(data[0], 0x12);
    // DLAB off again: the scratch register is independent.
    uart.write(0x3f8 + 3, &[0x00]);
    uart.write(0x3f8 + 7, &[0x77]);
    let mut data = vec![0u8];
    uart.read(0x3f8 + 7, &mut data);
    assert_eq!(data[0], 0x77);
}

#[test]
fn i8042_reset_request() {
    let mut kbd = I8042::new();
    let fx = kbd.write(0x64, &[0xfe]);
    assert!(fx.reset);
    let fx = kbd.write(0x64, &[0x20]);
    assert!(!fx.reset);
    let fx = kbd.write(0x60, &[0xfe]);
    assert!(!fx.reset);
}

#[test]
fn rtc_status_and_bcd_ranges() {
    let mut rtc = Rtc::new();
    // Select status register B: 24-hour BCD mode.
    rtc.write(0x70, &[0x0b]);
    let mut data = vec![0xffu8];
    rtc.read(0x71, &mut data);
    assert_eq!(data[0], 0x02);
    // Seconds are valid BCD below 0x60.
    rtc.write(0x70, &[0x00]);
    let mut data = vec![0u8];
    rtc.read(0x71, &mut data);
    assert!(data[0] <= 0x59);
    assert!(data[0] & 0x0f <= 9);
    // An unassigned index leaves the buffer alone.
    rtc.write(0x70, &[0x7f]);
    let mut data = vec![0xa5u8];
    rtc.read(0x71, &mut data);
    assert_eq!(data[0], 0xa5);
}

#[test]
fn bus_rejects_overlapping_ranges() {
    let mut hub = PortIoHub::new();
    hub.add_device(BusDevice::I8042(I8042::new())).unwrap();
    hub.add_device(BusDevice::Rtc(Rtc::new())).unwrap();
    // A second keyboard controller claims the same ports.
    let err = hub.add_device(BusDevice::I8042(I8042::new())).unwrap_err();
    assert_eq!(err, microcosm::HvError::DeviceRangeOverlap);
    // A UART elsewhere still fits.
    hub.add_device(BusDevice::Serial(Serial::new(0))).unwrap();
}

#[test]
fn bus_routes_to_owning_device() {
    let mut hub = PortIoHub::new();
    hub.add_device(BusDevice::I8042(I8042::new())).unwrap();
    hub.add_device(BusDevice::Serial(Serial::new(0))).unwrap();
    // The reset trap answers on its command port.
    let fx = hub.write(0x64, &[0xfe]);
    assert!(fx.reset);
    // The UART answers on its range.
    let fx = hub.write(0x3f8, &[b'z']);
    assert!(!fx.reset);
    assert_eq!(fx.host_tx, b"z");
    // A port nobody claims is silently ignored.
    let mut data = vec![0x99u8];
    let fx = hub.read(0x1234, &mut data);
    assert!(!fx.reset);
    assert_eq!(fx.irq, None);
    assert_eq!(data[0], 0x99);
}

#[test]
fn uart_fifo_capacity_loopback() {
    let mut uart = Serial::new(0);
    uart.write(0x3f8 + 4, &[0x10]);
    // 64 bytes fit; the 65th is dropped.
    for i in 0..65u8 {
        uart.write(0x3f8, &[i]);
    }
    let mut seen: Vec<u8> = Vec::new();
    loop {
        let mut lsr = vec![0u8];
        uart.read(0x3f8 + 5, &mut lsr);
        if lsr[0] & 0x01 == 0 {
            break;
        }
        let mut data = vec![0u8];
        uart.read(0x3f8, &mut data);
        seen.push(data[0]);
    }
    let expect: Vec<u8> = (0..64u8).collect();
    assert_eq!(seen, expect);
}

#[test]
fn port_range_contains_and_overlaps() {
    let kbd = PortRange::new_inclusive(0x60, 0x64);
    assert_eq!(kbd.base, 0x60);
    assert_eq!(kbd.len, 5);
    assert!(kbd.contains(0x60));
    assert!(kbd.contains(0x64));
    assert!(!kbd.contains(0x65));
    let com1 = PortRange::new(0x3f8, 8);
    assert!(!kbd.overlaps(com1));
    assert!(com1.overlaps(PortRange::new(0x3ff, 4)));
    assert!(!com1.overlaps(PortRange::new(0x400, 4)));
}

#[test]
fn uart_latched_clear_drains_rx() {
    let mut uart = Serial::new(0);
    // Fill the receive FIFO through loopback, then leave loopback.
    uart.write(0x3f8 + 4, &[0x10]);
    uart.write(0x3f8, &[0x11]);
    uart.write(0x3f8 + 4, &[0x00]);
    // Latch the clear-receiver bit; the next access drains the FIFO.
    uart.write(0x3f8 + 3, &[0x02]);
    let mut data = vec![0u8];
    uart.read(0x3f8 + 5, &mut data);
    assert_eq!(data[0] & 0x01, 0);
    let mut data = vec![0x77u8];
    uart.read(0x3f8, &mut data);
    assert_eq!(data[0], 0x77);
}
