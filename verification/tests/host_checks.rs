//! Host-capability validation, CPUID patching and exit classification.

use microcosm::params::{try_parse_size, SizeParseError};
use microcosm::vcpu::{classify_exit, configure_cpuid, validate_host, CpuidEntry, ExitAction};
use microcosm::HvError;

fn leaf(function: u32, index: u32) -> CpuidEntry {
    CpuidEntry { function, index, flags: 0, eax: 1, ebx: 0xaabb_ccdd, ecx: 0, edx: 0 }
}

#[test]
fn cpuid_apic_ids_and_hypervisor_bit() {
    let mut entries = vec![leaf(0, 0), leaf(1, 0), leaf(0xb, 0), leaf(0x8000_0001, 0)];
    configure_cpuid(&mut entries, 3, false);
    // Leaf 0 untouched.
    assert_eq!(entries[0].ebx, 0xaabb_ccdd);
    // Leaf 1: APIC id in the top byte, hypervisor bit set.
    assert_eq!(entries[1].ebx, 0x03bb_ccdd);
    assert_eq!(entries[1].ecx & 0x8000_0000, 0x8000_0000);
    // Leaf 0xb: x2APIC id.
    assert_eq!(entries[2].edx, 3);
    // 64-bit guest keeps long mode.
    assert_eq!(entries[3].ecx & 0x2000_0000, 0);
}

#[test]
fn cpuid_32bit_guest_loses_long_mode() {
    let mut entries = vec![CpuidEntry {
        function: 0x8000_0001,
        index: 0,
        flags: 0,
        eax: 0,
        ebx: 0,
        ecx: 0xffff_ffff,
        edx: 0,
    }];
    configure_cpuid(&mut entries, 0, true);
    assert_eq!(entries[0].ecx, 0xffff_ffff & !0x2000_0000);
}

#[test]
fn exit_classification() {
    assert_eq!(classify_exit(2), ExitAction::DispatchIo);
    assert_eq!(classify_exit(5), ExitAction::Stop);
    assert_eq!(classify_exit(8), ExitAction::Stop);
    assert_eq!(classify_exit(17), ExitAction::Stop);
    assert_eq!(classify_exit(0), ExitAction::Ignore);
    assert_eq!(classify_exit(6), ExitAction::Ignore);
}

#[test]
fn host_validation_order() {
    assert_eq!(validate_host(12, 1, 1, 1, 1, 4096, 2048), Ok(4096));
    assert_eq!(
        validate_host(11, 1, 1, 1, 1, 4096, 2048),
        Err(HvError::KvmApiVersionMismatch)
    );
    assert_eq!(
        validate_host(12, 0, 1, 1, 1, 4096, 2048),
        Err(HvError::KvmExtensionNotSupported)
    );
    assert_eq!(
        validate_host(12, 1, 1, 1, -1, 4096, 2048),
        Err(HvError::KvmExtensionNotSupported)
    );
    assert_eq!(
        validate_host(12, 1, 1, 1, 1, 1024, 2048),
        Err(HvError::InvalidVcpuMmapSize)
    );
    assert_eq!(validate_host(12, 1, 1, 1, 1, 0, 0), Err(HvError::InvalidVcpuMmapSize));
}

#[test]
fn le_primitives_round_trip() {
    let mut v = vec![0u8; 16];
    microcosm::bytes::put_u32_le(&mut v, 3, 0xdead_beef);
    assert_eq!(microcosm::bytes::get_u32_le(&v, 3), 0xdead_beef);
    microcosm::bytes::put_u64_le(&mut v, 8, 0x0123_4567_89ab_cdef);
    assert_eq!(microcosm::bytes::get_u64_le(&v, 8), 0x0123_4567_89ab_cdef);
    microcosm::bytes::put_u16_le(&mut v, 0, 0xaa55);
    assert_eq!(microcosm::bytes::get_u16_le(&v, 0), 0xaa55);
}

#[test]
fn size_strings_parse() {
    assert_eq!(try_parse_size(b"64M"), Ok(64 << 20));
    assert_eq!(try_parse_size(b"  2g  "), Ok(2 << 30));
    assert_eq!(try_parse_size(b"1024"), Ok(1024));
    assert_eq!(try_parse_size(b"16KB"), Ok(16 << 10));
    assert_eq!(try_parse_size(b"3kb"), Ok(3 << 10));
    assert_eq!(try_parse_size(b""), Err(SizeParseError::Empty));
    assert_eq!(try_parse_size(b"   "), Err(SizeParseError::Empty));
    assert_eq!(try_parse_size(b"x64"), Err(SizeParseError::UnexpectedChar(b'x')));
    assert_eq!(try_parse_size(b"64T"), Err(SizeParseError::UnexpectedChar(b'T')));
    assert_eq!(try_parse_size(b"64Mx"), Err(SizeParseError::UnexpectedChar(b'x')));
    assert_eq!(try_parse_size(b"0"), Err(SizeParseError::Zero));
    assert_eq!(
        try_parse_size(b"99999999999999999999999"),
        Err(SizeParseError::TooLarge)
    );
}
