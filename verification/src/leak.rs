//! The leak scanner: finds, in the bytes that a device returned, values that
//! look like kernel addresses.
//!
//! An eight-byte window slides over the buffer. Where the window holds a
//! value in the kernel's address range the scanner records it and moves on
//! by a whole pointer, so that one leaked value is reported once. Elsewhere
//! it moves on by two bytes, which finds values at odd alignments while
//! looking at half as many windows as a step of one byte would.

use crate::encoding::{be_value, decode_be, decode_le, le_value};
use vstd::prelude::*;
use vstd::slice::slice_subrange;

verus! {

/// The lowest address of the kernel's half of the address space.
pub const KERNEL_ADDR_MIN: u64 = 0xFFFF_8000_0000_0000;

/// The width of a pointer, in bytes.
pub const POINTER_SIZE: usize = 8;

/// How far the window moves on from a value that is no kernel address.
pub const SCAN_STEP: usize = 2;

/// The order in which the bytes of a window make up its value.
#[derive(Debug, Clone, Copy, PartialEq, Eq, Structural)]
pub enum ByteOrder {
    /// Least significant byte first.
    Little,
    /// Most significant byte first.
    Big,
}

/// The value of the eight bytes of `buffer` from `at` on.
pub open spec fn window(buffer: Seq<u8>, at: int, order: ByteOrder) -> nat {
    let bytes = buffer.subrange(at, at + 8);
    match order {
        ByteOrder::Little => le_value(bytes),
        ByteOrder::Big => be_value(bytes),
    }
}

/// Whether a whole window lies in `buffer` from `at` on.
pub open spec fn has_window(buffer: Seq<u8>, at: int) -> bool {
    0 <= at && at + 8 <= buffer.len()
}

/// What the scanner finds from position `at` on.
pub open spec fn scan_from(buffer: Seq<u8>, at: int, order: ByteOrder) -> Seq<(usize, u64)>
    decreases buffer.len() - at,
{
    if !has_window(buffer, at) {
        Seq::empty()
    } else if window(buffer, at, order) >= KERNEL_ADDR_MIN {
        seq![(at as usize, window(buffer, at, order) as u64)] + scan_from(buffer, at + 8, order)
    } else {
        scan_from(buffer, at + 2, order)
    }
}

/// What the scanner finds in `buffer`: each finding is the offset of a
/// window and the value it holds.
pub open spec fn scan(buffer: Seq<u8>, order: ByteOrder) -> Seq<(usize, u64)> {
    scan_from(buffer, 0, order)
}

/// The findings of `count` kernel addresses that follow one another from
/// `start` on, a pointer apart.
pub open spec fn run_of_findings(buffer: Seq<u8>, start: int, count: nat, order: ByteOrder) -> Seq<
    (usize, u64),
> {
    Seq::new(
        count,
        |j: int| ((start + 8 * j) as usize, window(buffer, start + 8 * j, order) as u64),
    )
}

/// Reads the window at `at`.
pub fn read_window(buffer: &[u8], at: usize, order: ByteOrder) -> (value: u64)
    requires
        has_window(buffer@, at as int),
    ensures
        value == window(buffer@, at as int, order),
{
    let size = buffer.len();
    assert(at + POINTER_SIZE <= size);
    let bytes = slice_subrange(buffer, at, at + POINTER_SIZE);
    match order {
        ByteOrder::Little => decode_le(bytes),
        ByteOrder::Big => decode_be(bytes),
    }
}

/// Scans `buffer`, reading each window in the given byte order.
pub fn scan_buffer(buffer: &[u8], order: ByteOrder) -> (found: Vec<(usize, u64)>)
    ensures
        found@ == scan(buffer@, order),
{
    let mut found: Vec<(usize, u64)> = Vec::new();
    let mut at: usize = 0;
    assert(found@ + scan_from(buffer@, 0, order) =~= scan(buffer@, order));
    while buffer.len() >= POINTER_SIZE && at <= buffer.len() - POINTER_SIZE
        invariant
            found@ + scan_from(buffer@, at as int, order) == scan(buffer@, order),
        decreases buffer@.len() - at,
    {
        let value = read_window(buffer, at, order);
        let ghost rest = scan_from(buffer@, at as int, order);
        if value >= KERNEL_ADDR_MIN {
            proof {
                let next = scan_from(buffer@, at + 8, order);
                assert(rest == seq![(at, value)] + next);
                assert(found@.push((at, value)) + next =~= found@ + rest);
            }
            found.push((at, value));
            at = at + POINTER_SIZE;
        } else {
            at = at + SCAN_STEP;
        }
    }
    assert(found@ + Seq::<(usize, u64)>::empty() =~= found@);
    found
}

/// Reads eight bytes in the byte order of the machine, by
/// `u64::from_ne_bytes`. Nothing is claimed of which order that is: the
/// value is the one that the bytes have in one of the two orders.
#[verifier::external_body]
fn native_value(bytes: [u8; 8]) -> (value: u64)
    ensures
        value == le_value(bytes@) || value == be_value(bytes@),
{
    u64::from_ne_bytes(bytes)
}

/// The byte order in which a machine reads the bytes `01 00 00 00 00 00 00 00`
/// as `probe`: least significant first where that is one.
pub fn order_of_probe(probe: u64) -> (order: ByteOrder)
    ensures
        order == (if probe == 1 {
            ByteOrder::Little
        } else {
            ByteOrder::Big
        }),
{
    if probe == 1 {
        ByteOrder::Little
    } else {
        ByteOrder::Big
    }
}

/// The byte order of the machine that runs this code.
pub fn host_byte_order() -> (order: ByteOrder) {
    order_of_probe(native_value([1, 0, 0, 0, 0, 0, 0, 0]))
}

/// Scans `buffer` for values in the kernel's address range, reading each
/// window in the byte order of the machine. The result is empty where
/// nothing was found, and where the buffer is too short to hold a window.
pub fn check_info_leaks(buffer: &Vec<u8>) -> (found: Vec<(usize, u64)>)
    ensures
        found@ == scan(buffer@, ByteOrder::Little) || found@ == scan(buffer@, ByteOrder::Big),
{
    scan_buffer(buffer.as_slice(), host_byte_order())
}

/// Where no window from `at` on holds a kernel address, nothing is found
/// from there on.
pub proof fn lemma_scan_from_quiet(buffer: Seq<u8>, at: int, order: ByteOrder)
    requires
        forall|j: int|
            at <= j && has_window(buffer, j) ==> #[trigger] window(buffer, j, order)
                < KERNEL_ADDR_MIN,
    ensures
        scan_from(buffer, at, order) == Seq::<(usize, u64)>::empty(),
    decreases buffer.len() - at,
{
    if has_window(buffer, at) {
        lemma_scan_from_quiet(buffer, at + 2, order);
    }
}

/// A buffer in which no window holds a kernel address gives no finding.
pub proof fn lemma_scan_quiet(buffer: Seq<u8>, order: ByteOrder)
    requires
        forall|j: int|
            has_window(buffer, j) ==> #[trigger] window(buffer, j, order) < KERNEL_ADDR_MIN,
    ensures
        scan(buffer, order) == Seq::<(usize, u64)>::empty(),
{
    lemma_scan_from_quiet(buffer, 0, order);
}

/// The scanner passes over windows that hold no kernel address two bytes at
/// a time: it finds from `at` on what it finds from `to` on, where `to` is an
/// even number of bytes further and no window that it looks at in between
/// holds a kernel address.
pub proof fn lemma_scan_from_skips(buffer: Seq<u8>, at: int, to: int, order: ByteOrder)
    requires
        0 <= at <= to,
        (to - at) % 2 == 0,
        has_window(buffer, to),
        forall|j: int|
            at <= j < to && (j - at) % 2 == 0 ==> #[trigger] window(buffer, j, order)
                < KERNEL_ADDR_MIN,
    ensures
        scan_from(buffer, at, order) == scan_from(buffer, to, order),
    decreases to - at,
{
    if at < to {
        assert(window(buffer, at, order) < KERNEL_ADDR_MIN);
        assert forall|j: int| at + 2 <= j < to && (j - (at + 2)) % 2 == 0 implies #[trigger] window(
            buffer,
            j,
            order,
        ) < KERNEL_ADDR_MIN by {
            assert((j - at) % 2 == 0);
        }
        lemma_scan_from_skips(buffer, at + 2, to, order);
    }
}

/// A buffer with one window that holds a kernel address, at an even offset,
/// gives that one finding.
pub proof fn lemma_scan_single(buffer: Seq<u8>, at: int, order: ByteOrder)
    requires
        has_window(buffer, at),
        at % 2 == 0,
        window(buffer, at, order) >= KERNEL_ADDR_MIN,
        forall|j: int|
            has_window(buffer, j) && j != at ==> #[trigger] window(buffer, j, order)
                < KERNEL_ADDR_MIN,
    ensures
        scan(buffer, order) == seq![(at as usize, window(buffer, at, order) as u64)],
{
    lemma_scan_from_skips(buffer, 0, at, order);
    lemma_scan_from_quiet(buffer, at + 8, order);
    assert(scan_from(buffer, at, order) =~= seq![
        (at as usize, window(buffer, at, order) as u64),
    ]);
}

/// Kernel addresses that follow one another a pointer apart give one finding
/// each, and the scan goes on behind the last of them.
pub proof fn lemma_scan_run(buffer: Seq<u8>, start: int, count: nat, order: ByteOrder)
    requires
        0 <= start,
        start + 8 * count <= buffer.len(),
        forall|j: int|
            0 <= j < count ==> #[trigger] window(buffer, start + 8 * j, order) >= KERNEL_ADDR_MIN,
    ensures
        scan_from(buffer, start, order) == run_of_findings(buffer, start, count, order)
            + scan_from(buffer, start + 8 * count, order),
    decreases count,
{
    if count == 0 {
        assert(run_of_findings(buffer, start, count, order) + scan_from(buffer, start, order)
            =~= scan_from(buffer, start, order));
    } else {
        let rest = (count - 1) as nat;
        assert(window(buffer, start + 8 * 0, order) >= KERNEL_ADDR_MIN);
        assert forall|j: int| 0 <= j < rest implies #[trigger] window(
            buffer,
            (start + 8) + 8 * j,
            order,
        ) >= KERNEL_ADDR_MIN by {
            assert(window(buffer, start + 8 * (j + 1), order) >= KERNEL_ADDR_MIN);
        }
        lemma_scan_run(buffer, start + 8, rest, order);
        let head = seq![(start as usize, window(buffer, start, order) as u64)];
        let tail_run = run_of_findings(buffer, start + 8, rest, order);
        let whole_run = run_of_findings(buffer, start, count, order);
        assert(whole_run =~= head + tail_run) by {
            assert forall|j: int| 0 <= j < count implies whole_run[j] == (head + tail_run)[j] by {
                if j > 0 {
                    assert(start + 8 * j == (start + 8) + 8 * (j - 1));
                }
            }
        }
        assert(start + 8 + 8 * rest == start + 8 * count);
        assert(head + (tail_run + scan_from(buffer, start + 8 * count, order)) =~= whole_run
            + scan_from(buffer, start + 8 * count, order));
    }
}

} // verus!
