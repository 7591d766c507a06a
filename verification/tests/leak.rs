use ioctiller::check_info_leaks;
use ioctiller::leak::{host_byte_order, order_of_probe, read_window, scan_buffer, ByteOrder};

#[test]
fn check_info_leaks_success() {
    let test_buffer = vec![
        0, 0, 0, 0, 0, 0, 0, 0, 0x78, 0x56, 0x34, 0x12, 0xFF, 0xFF, 0xFF, 0xFF, 0, 0, 0, 0, 0, 0,
        0, 0, 0, 0, 0, 0, 0, 0, 0, 0, 0, 0, 0, 0, 0, 0, 0, 0, 0, 0, 0, 0, 0, 0, 0, 0, 0, 0, 0, 0,
        0, 0, 0, 0, 0, 0, 0, 0, 0, 0, 0, 0, 0x0, 0x0, 0x0, 0x0, 0x0, 0x80, 0xFF, 0xFF, 0, 0, 0, 0,
        0, 0, 0, 0, 0, 0, 0x10, 0x32, 0x54, 0x76, 0x98, 0xFF, 0xFF, 0xFF, 0xFF, 0xFF, 0xFF, 0xFF,
        0xFF, 0xFF, 0xFF, 0xFF, 0, 0, 0, 0, 0x24, 0xbe, 0x6a, 0x52, 0xFF, 0xFF, 0xFF, 0xFF,
    ];

    let correct_output: Vec<(usize, u64)> = vec![
        (8, 0xFFFFFFFF12345678),
        (64, 0xFFFF800000000000),
        (82, 0xFFFFFF9876543210),
        (90, 0xFFFFFFFFFFFFFFFF),
        (102, 0xFFFFFFFF526ABE24),
    ];

    let test_output = check_info_leaks(&test_buffer);

    assert_eq!(correct_output, test_output)
}

fn kernel_pointer(low: u32) -> [u8; 8] {
    (0xFFFF_8000_0000_0000u64 | low as u64).to_le_bytes()
}

#[test]
fn scan_buffer_reads_the_same_bytes_in_either_order() {
    let buffer = [0xFFu8, 0xFF, 0x80, 0, 0, 0, 0, 0x01];

    assert_eq!(read_window(&buffer, 0, ByteOrder::Big), 0xFFFF800000000001);
    assert_eq!(read_window(&buffer, 0, ByteOrder::Little), 0x01000000_0080FFFF);
    assert_eq!(
        scan_buffer(&buffer, ByteOrder::Big),
        vec![(0usize, 0xFFFF800000000001u64)]
    );
    assert_eq!(scan_buffer(&buffer, ByteOrder::Little), Vec::new());
}

#[test]
fn check_info_leaks_reads_in_the_order_of_this_machine() {
    let buffer: Vec<u8> = vec![0, 0, 0, 0, 0, 0x80, 0xFF, 0xFF, 0xFF, 0xFF, 0x80, 0, 0, 0, 0, 0];

    assert_eq!(
        check_info_leaks(&buffer),
        scan_buffer(&buffer, host_byte_order())
    );
    assert_eq!(
        u64::from_ne_bytes([1, 0, 0, 0, 0, 0, 0, 0]) == 1,
        host_byte_order() == ByteOrder::Little
    );
}

#[test]
fn order_of_probe_tells_the_two_orders_apart() {
    assert_eq!(order_of_probe(1), ByteOrder::Little);
    assert_eq!(order_of_probe(0x0100_0000_0000_0000), ByteOrder::Big);
}

#[test]
fn scan_without_kernel_addresses_is_empty() {
    let buffer: Vec<u8> = (0u8..64).collect();

    assert_eq!(scan_buffer(&buffer, ByteOrder::Little), Vec::new());
    assert_eq!(check_info_leaks(&vec![0u8; 0x60]), Vec::new());
}

#[test]
fn scan_of_a_buffer_too_short_for_a_window_is_empty() {
    assert_eq!(check_info_leaks(&Vec::new()), Vec::new());
    assert_eq!(check_info_leaks(&vec![0xFFu8; 7]), Vec::new());
    assert_eq!(scan_buffer(&[0xFFu8; 7], ByteOrder::Little), Vec::new());
    assert_eq!(scan_buffer(&[0xFFu8; 7], ByteOrder::Big), Vec::new());
}

#[test]
fn scan_of_exactly_one_window() {
    assert_eq!(
        scan_buffer(&[0xFFu8; 8], ByteOrder::Little),
        vec![(0usize, u64::MAX)]
    );
    assert_eq!(
        scan_buffer(&kernel_pointer(0), ByteOrder::Little),
        vec![(0usize, 0xFFFF_8000_0000_0000u64)]
    );
    assert_eq!(
        scan_buffer(&(0xFFFF_7FFF_FFFF_FFFFu64).to_le_bytes(), ByteOrder::Little),
        Vec::new()
    );
}

#[test]
fn scan_finds_a_single_address_at_each_even_offset() {
    for offset in [0usize, 2, 4, 6, 8, 10, 22, 24] {
        let mut buffer = vec![0u8; 32];
        buffer[offset..offset + 8].copy_from_slice(&kernel_pointer(0x1000));

        assert_eq!(
            scan_buffer(&buffer, ByteOrder::Little),
            vec![(offset, 0xFFFF_8000_0000_1000u64)]
        );
    }
}

#[test]
fn scan_steps_over_an_address_at_an_odd_offset() {
    let buffer = [0u8, 0, 0, 0, 0, 0, 0x80, 0xFF, 0xFF];

    assert_eq!(
        read_window(&buffer, 1, ByteOrder::Little),
        0xFFFF_8000_0000_0000
    );
    assert_eq!(scan_buffer(&buffer, ByteOrder::Little), Vec::new());
}

#[test]
fn scan_reports_consecutive_addresses_once_each() {
    let mut buffer = vec![0u8; 4];
    for low in [1u32, 2, 3] {
        buffer.extend_from_slice(&kernel_pointer(low));
    }
    buffer.extend_from_slice(&[0u8; 6]);

    assert_eq!(
        scan_buffer(&buffer, ByteOrder::Little),
        vec![
            (4usize, 0xFFFF_8000_0000_0001u64),
            (12, 0xFFFF_8000_0000_0002),
            (20, 0xFFFF_8000_0000_0003),
        ]
    );
}

#[test]
fn scan_of_all_ones_reports_every_eighth_offset() {
    let buffer = vec![0xFFu8; 30];

    assert_eq!(
        scan_buffer(&buffer, ByteOrder::Little),
        vec![(0usize, u64::MAX), (8, u64::MAX), (16, u64::MAX)]
    );
}
