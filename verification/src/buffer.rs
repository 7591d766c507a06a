//! The buffer model: typed field entries and the exact bytes they stand for.
//!
//! An input buffer starts as zeros. Each entry then overwrites the bytes from
//! its offset on with its own encoding, in list order, so that where two
//! entries overlap the later one decides. An entry that does not lie wholly
//! inside the buffer is never written, not even in part.

use crate::encoding::{encode_le, le_bytes, lemma_le_bytes_len};
use vstd::prelude::*;
use vstd::utf8::{encode_utf8, is_ascii_chars, is_ascii_chars_encode_utf8};

verus! {

/// Why an input buffer could not be built.
#[derive(Debug, Clone, Copy, PartialEq, Eq, Structural)]
pub enum BufferError {
    /// An entry of `entry_size` bytes at `offset` does not fit `buffer_size` bytes.
    OutOfBounds { offset: usize, entry_size: usize, buffer_size: usize },
}

/// The typed value of one field entry.
#[derive(Debug)]
#[allow(inconsistent_fields)]
pub enum EntryData {
    /// One byte.
    U8 { value: u8 },
    /// Two bytes, least significant first.
    U16 { value: u16 },
    /// Four bytes, least significant first.
    U32 { value: u32 },
    /// Eight bytes, least significant first.
    U64 { value: u64 },
    /// The bytes of a string as they are, with no terminator added.
    String8 { value: String },
    /// One byte value, `length` times.
    Fill { value: u8, length: usize },
}

/// Some content for an input buffer: a typed value and the offset it goes to.
#[derive(Debug)]
pub struct BufferContentEntry {
    pub offset: usize,
    pub entry_data: EntryData,
}

impl Clone for EntryData {
    fn clone(&self) -> (res: Self)
        ensures
            res == *self,
    {
        match self {
            EntryData::U8 { value } => EntryData::U8 { value: *value },
            EntryData::U16 { value } => EntryData::U16 { value: *value },
            EntryData::U32 { value } => EntryData::U32 { value: *value },
            EntryData::U64 { value } => EntryData::U64 { value: *value },
            EntryData::String8 { value } => EntryData::String8 { value: value.clone() },
            EntryData::Fill { value, length } => EntryData::Fill { value: *value, length: *length },
        }
    }
}

impl Clone for BufferContentEntry {
    fn clone(&self) -> (res: Self)
        ensures
            res == *self,
    {
        BufferContentEntry { offset: self.offset, entry_data: self.entry_data.clone() }
    }
}

/// Whether `entry_size` bytes written at `offset` stay inside `buffer_size` bytes.
pub open spec fn fits(offset: int, entry_size: int, buffer_size: int) -> bool {
    offset + entry_size <= buffer_size
}

/// `buffer` with the bytes from `offset` on replaced by `bytes`.
pub open spec fn overwrite(buffer: Seq<u8>, offset: int, bytes: Seq<u8>) -> Seq<u8> {
    Seq::new(
        buffer.len(),
        |i: int|
            if offset <= i < offset + bytes.len() {
                bytes[i - offset]
            } else {
                buffer[i]
            },
    )
}

impl EntryData {
    /// The bytes that this value is written as.
    pub open spec fn bytes(&self) -> Seq<u8> {
        match self {
            EntryData::U8 { value } => seq![*value],
            EntryData::U16 { value } => le_bytes(*value as nat, 2),
            EntryData::U32 { value } => le_bytes(*value as nat, 4),
            EntryData::U64 { value } => le_bytes(*value as nat, 8),
            EntryData::String8 { value } => encode_utf8(value@),
            EntryData::Fill { value, length } => Seq::new(*length as nat, |i: int| *value),
        }
    }

    /// How many bytes the value is written as.
    pub fn size(&self) -> (size: usize)
        ensures
            size == self.bytes().len(),
    {
        match self {
            EntryData::U8 { value } => 1,
            EntryData::U16 { value } => {
                proof {
                    lemma_le_bytes_len(*value as nat, 2);
                }
                2
            },
            EntryData::U32 { value } => {
                proof {
                    lemma_le_bytes_len(*value as nat, 4);
                }
                4
            },
            EntryData::U64 { value } => {
                proof {
                    lemma_le_bytes_len(*value as nat, 8);
                }
                8
            },
            EntryData::String8 { value } => value.as_str().as_bytes().len(),
            EntryData::Fill { value, length } => *length,
        }
    }
}

impl BufferContentEntry {
    /// The bytes that this entry writes.
    pub open spec fn bytes(&self) -> Seq<u8> {
        self.entry_data.bytes()
    }

    /// Whether the entry lies wholly inside a buffer of `buffer_size` bytes.
    pub open spec fn fits(&self, buffer_size: int) -> bool {
        fits(self.offset as int, self.bytes().len() as int, buffer_size)
    }

    /// Whether the entry writes the byte at position `i`.
    pub open spec fn covers(&self, i: int) -> bool {
        self.offset <= i < self.offset + self.bytes().len()
    }

    /// The error that names this entry as lying outside `buffer_size` bytes.
    pub open spec fn out_of_bounds(&self, buffer_size: usize) -> BufferError {
        BufferError::OutOfBounds {
            offset: self.offset,
            entry_size: self.bytes().len() as usize,
            buffer_size,
        }
    }

    /// Writes the entry into `buffer` if it lies wholly inside it, and
    /// otherwise leaves every byte as it was.
    pub fn write_into(&self, buffer: &mut Vec<u8>) -> (res: Result<(), BufferError>)
        ensures
            final(buffer)@.len() == old(buffer)@.len(),
            match res {
                Ok(()) => self.fits(old(buffer)@.len() as int) && final(buffer)@ == overwrite(
                    old(buffer)@,
                    self.offset as int,
                    self.bytes(),
                ),
                Err(e) => !self.fits(old(buffer)@.len() as int) && e == self.out_of_bounds(
                    old(buffer)@.len() as usize,
                ) && final(buffer)@ == old(buffer)@,
            },
    {
        let size = self.entry_data.size();
        match check_buffer_overwrite(self.offset, size, buffer.len()) {
            Ok(()) => {
                match &self.entry_data {
                    EntryData::U8 { value } => {
                        buffer[self.offset] = *value;
                        assert(buffer@ =~= overwrite(
                            old(buffer)@,
                            self.offset as int,
                            self.bytes(),
                        ));
                    },
                    EntryData::U16 { value } => {
                        let bytes = encode_le(*value as u64, 2);
                        write_bytes(buffer, self.offset, bytes.as_slice());
                    },
                    EntryData::U32 { value } => {
                        let bytes = encode_le(*value as u64, 4);
                        write_bytes(buffer, self.offset, bytes.as_slice());
                    },
                    EntryData::U64 { value } => {
                        let bytes = encode_le(*value, 8);
                        write_bytes(buffer, self.offset, bytes.as_slice());
                    },
                    EntryData::String8 { value } => {
                        write_bytes(buffer, self.offset, value.as_str().as_bytes());
                    },
                    EntryData::Fill { value, length } => {
                        fill_bytes(buffer, self.offset, *value, *length);
                    },
                }
                Ok(())
            },
            Err(e) => Err(e),
        }
    }
}

/// Checks that an entry lies inside the buffer, by exact arithmetic: the sum
/// of offset and size is never allowed to wrap.
pub fn check_buffer_overwrite(offset: usize, entry_size: usize, buffer_size: usize) -> (res: Result<
    (),
    BufferError,
>)
    ensures
        res is Ok <==> fits(offset as int, entry_size as int, buffer_size as int),
        res is Err ==> res == Err::<(), BufferError>(
            (BufferError::OutOfBounds { offset, entry_size, buffer_size }),
        ),
{
    if offset > buffer_size || entry_size > buffer_size - offset {
        return Err(BufferError::OutOfBounds { offset, entry_size, buffer_size });
    }
    Ok(())
}

/// Copies `bytes` over `buffer` from `offset` on.
pub fn write_bytes(buffer: &mut Vec<u8>, offset: usize, bytes: &[u8])
    requires
        fits(offset as int, bytes@.len() as int, old(buffer)@.len() as int),
    ensures
        final(buffer)@ == overwrite(old(buffer)@, offset as int, bytes@),
{
    let size = buffer.len();
    let mut at: usize = 0;
    while at < bytes.len()
        invariant
            at <= bytes@.len(),
            buffer@.len() == size,
            offset + bytes@.len() <= size,
            buffer@ == overwrite(old(buffer)@, offset as int, bytes@.take(at as int)),
        decreases bytes@.len() - at,
    {
        buffer[offset + at] = bytes[at];
        at = at + 1;
        assert(buffer@ =~= overwrite(old(buffer)@, offset as int, bytes@.take(at as int)));
    }
    assert(bytes@.take(at as int) =~= bytes@);
}

/// Writes `value` over `length` bytes of `buffer` from `offset` on.
pub fn fill_bytes(buffer: &mut Vec<u8>, offset: usize, value: u8, length: usize)
    requires
        fits(offset as int, length as int, old(buffer)@.len() as int),
    ensures
        final(buffer)@ == overwrite(
            old(buffer)@,
            offset as int,
            Seq::new(length as nat, |i: int| value),
        ),
{
    let size = buffer.len();
    let mut at: usize = 0;
    while at < length
        invariant
            at <= length,
            buffer@.len() == size,
            offset + length <= size,
            buffer@ == overwrite(
                old(buffer)@,
                offset as int,
                Seq::new(at as nat, |i: int| value),
            ),
        decreases length - at,
    {
        buffer[offset + at] = value;
        at = at + 1;
        assert(buffer@ =~= overwrite(
            old(buffer)@,
            offset as int,
            Seq::new(at as nat, |i: int| value),
        ));
    }
}

/// A string of 8-bit characters is written one byte to the character: as
/// many bytes as it has characters, each the character's own code.
pub proof fn lemma_ascii_string_bytes(entry_data: EntryData)
    requires
        entry_data is String8,
        is_ascii_chars(entry_data->String8_value@),
    ensures
        entry_data.bytes().len() == entry_data->String8_value@.len(),
        forall|i: int|
            0 <= i < entry_data.bytes().len() ==> entry_data.bytes()[i]
                == entry_data->String8_value@[i] as u8,
{
    is_ascii_chars_encode_utf8(entry_data->String8_value@);
}

/// The entry that decides the byte at position `i`: the last one in the list
/// that covers it, if any does.
pub open spec fn last_writer(entries: Seq<BufferContentEntry>, i: int) -> Option<int>
    decreases entries.len(),
{
    if entries.len() == 0 {
        None
    } else if entries.last().covers(i) {
        Some(entries.len() - 1)
    } else {
        last_writer(entries.drop_last(), i)
    }
}

/// The byte at position `i` of a buffer built from `entries`: what the last
/// entry that covers `i` writes there, and zero where none does.
pub open spec fn built_byte(entries: Seq<BufferContentEntry>, i: int) -> u8 {
    match last_writer(entries, i) {
        Some(k) => entries[k].bytes()[i - entries[k].offset],
        None => 0,
    }
}

/// The buffer of `size` bytes that `entries` describe.
pub open spec fn built_buffer(size: nat, entries: Seq<BufferContentEntry>) -> Seq<u8> {
    Seq::new(size, |i: int| built_byte(entries, i))
}

/// The first entry of the list that does not fit `size` bytes, if any.
pub open spec fn first_unfit(entries: Seq<BufferContentEntry>, size: int) -> Option<int>
    decreases entries.len(),
{
    if entries.len() == 0 {
        None
    } else {
        match first_unfit(entries.drop_last(), size) {
            Some(k) => Some(k),
            None => if entries.last().fits(size) {
                None
            } else {
                Some(entries.len() - 1)
            },
        }
    }
}

/// What building a buffer of `size` bytes from `entries` gives: the buffer
/// where every entry fits, and else the error that names the first entry
/// that does not.
pub open spec fn build_spec(size: usize, entries: Seq<BufferContentEntry>) -> Result<
    Seq<u8>,
    BufferError,
> {
    match first_unfit(entries, size as int) {
        None => Ok(built_buffer(size as nat, entries)),
        Some(k) => Err(entries[k].out_of_bounds(size)),
    }
}

/// A buffer that was built has the size asked for.
pub proof fn lemma_build_len(size: usize, entries: Seq<BufferContentEntry>)
    ensures
        build_spec(size, entries) matches Ok(buffer) ==> buffer.len() == size,
{
}

/// Where `first_unfit` names an entry, that entry does not fit and every
/// entry before it does; where it names none, every entry fits.
pub proof fn lemma_first_unfit(entries: Seq<BufferContentEntry>, size: int)
    ensures
        match first_unfit(entries, size) {
            Some(k) => 0 <= k < entries.len() && !entries[k].fits(size) && forall|j: int|
                0 <= j < k ==> (#[trigger] entries[j]).fits(size),
            None => forall|j: int| 0 <= j < entries.len() ==> (#[trigger] entries[j]).fits(size),
        },
    decreases entries.len(),
{
    if entries.len() > 0 {
        let front = entries.drop_last();
        lemma_first_unfit(front, size);
        assert(forall|j: int| 0 <= j < front.len() ==> front[j] == entries[j]);
    }
}

/// An entry that does not fit, with only fitting entries before it, is the
/// one that `first_unfit` names, however the list goes on.
pub proof fn lemma_first_unfit_is(entries: Seq<BufferContentEntry>, size: int, k: int)
    requires
        0 <= k < entries.len(),
        !entries[k].fits(size),
        forall|j: int| 0 <= j < k ==> (#[trigger] entries[j]).fits(size),
    ensures
        first_unfit(entries, size) == Some(k),
{
    lemma_first_unfit(entries, size);
}

/// Writing one more entry over the buffer of those before it gives the buffer
/// of the longer list.
pub proof fn lemma_built_step(size: nat, entries: Seq<BufferContentEntry>, k: int)
    requires
        0 <= k < entries.len(),
    ensures
        built_buffer(size, entries.take(k + 1)) == overwrite(
            built_buffer(size, entries.take(k)),
            entries[k].offset as int,
            entries[k].bytes(),
        ),
{
    let longer = entries.take(k + 1);
    let shorter = entries.take(k);
    assert(longer.drop_last() =~= shorter);
    assert(longer.last() == entries[k]);
    assert forall|i: int| 0 <= i < size implies built_byte(longer, i) == (if entries[k].covers(i) {
        entries[k].bytes()[i - entries[k].offset]
    } else {
        built_byte(shorter, i)
    }) by {
        if !entries[k].covers(i) {
            lemma_last_writer_bound(shorter, i);
        }
    }
    assert(built_buffer(size, longer) =~= overwrite(
        built_buffer(size, shorter),
        entries[k].offset as int,
        entries[k].bytes(),
    ));
}

/// The entry that `last_writer` names covers the position, and no later
/// entry does; where it names none, no entry covers the position.
pub proof fn lemma_last_writer_bound(entries: Seq<BufferContentEntry>, i: int)
    ensures
        match last_writer(entries, i) {
            Some(k) => 0 <= k < entries.len() && entries[k].covers(i) && forall|j: int|
                k < j < entries.len() ==> !(#[trigger] entries[j]).covers(i),
            None => forall|j: int| 0 <= j < entries.len() ==> !(#[trigger] entries[j]).covers(i),
        },
    decreases entries.len(),
{
    if entries.len() > 0 {
        let front = entries.drop_last();
        lemma_last_writer_bound(front, i);
        assert(forall|j: int| 0 <= j < front.len() ==> front[j] == entries[j]);
    }
}

/// Where every entry fits, the build succeeds, and the buffer is zero at
/// every position that no entry covers.
pub proof fn lemma_fitting_entries_build(size: usize, entries: Seq<BufferContentEntry>)
    requires
        forall|k: int| 0 <= k < entries.len() ==> (#[trigger] entries[k]).fits(size as int),
    ensures
        build_spec(size, entries) == Ok::<Seq<u8>, BufferError>(
            built_buffer(size as nat, entries),
        ),
        built_buffer(size as nat, entries).len() == size,
        forall|i: int|
            0 <= i < size && (forall|k: int|
                0 <= k < entries.len() ==> !(#[trigger] entries[k]).covers(i)) ==> built_buffer(
                size as nat,
                entries,
            )[i] == 0,
{
    lemma_first_unfit(entries, size as int);
    assert forall|i: int|
        0 <= i < size && (forall|k: int|
            0 <= k < entries.len() ==> !(#[trigger] entries[k]).covers(i)) implies built_buffer(
        size as nat,
        entries,
    )[i] == 0 by {
        lemma_last_writer_bound(entries, i);
    }
}

/// Where some entry does not fit, the build fails, and the error is the
/// out-of-bounds error of the first such entry.
pub proof fn lemma_unfit_entry_fails(size: usize, entries: Seq<BufferContentEntry>, k: int)
    requires
        0 <= k < entries.len(),
        !entries[k].fits(size as int),
    ensures
        build_spec(size, entries) is Err,
        exists|first: int|
            0 <= first <= k && !(#[trigger] entries[first]).fits(size as int) && build_spec(
                size,
                entries,
            ) == Err::<Seq<u8>, BufferError>(
                (BufferError::OutOfBounds {
                    offset: entries[first].offset,
                    entry_size: entries[first].bytes().len() as usize,
                    buffer_size: size,
                }),
            ),
{
    lemma_first_unfit(entries, size as int);
    let first = first_unfit(entries, size as int)->Some_0;
    assert(first <= k) by {
        if first > k {
            assert(entries[k].fits(size as int));
        }
    }
    assert(!entries[first].fits(size as int));
}

/// Where entries overlap, the later one decides: at every position that an
/// entry covers and no entry after it does, the buffer holds that entry's
/// byte, whatever earlier entries wrote there.
pub proof fn lemma_later_entry_wins(
    size: nat,
    entries: Seq<BufferContentEntry>,
    k: int,
    i: int,
)
    requires
        0 <= k < entries.len(),
        0 <= i < size,
        entries[k].covers(i),
        forall|j: int| k < j < entries.len() ==> !(#[trigger] entries[j]).covers(i),
    ensures
        built_buffer(size, entries)[i] == entries[k].bytes()[i - entries[k].offset],
{
    lemma_last_writer_bound(entries, i);
    let writer = last_writer(entries, i)->Some_0;
    if writer < k {
        assert(!entries[k].covers(i));
    }
    if writer > k {
        assert(!entries[writer].covers(i));
    }
}

/// The range of the last entry holds what that entry alone would have
/// written there.
pub proof fn lemma_last_entry_alone(size: nat, entries: Seq<BufferContentEntry>)
    requires
        entries.len() > 0,
        entries.last().fits(size as int),
    ensures
        built_buffer(size, entries).subrange(
            entries.last().offset as int,
            entries.last().offset + entries.last().bytes().len(),
        ) == entries.last().bytes(),
        built_buffer(size, entries).subrange(
            entries.last().offset as int,
            entries.last().offset + entries.last().bytes().len(),
        ) == built_buffer(size, seq![entries.last()]).subrange(
            entries.last().offset as int,
            entries.last().offset + entries.last().bytes().len(),
        ),
{
    let last = entries.last();
    let from = last.offset as int;
    let to = last.offset + last.bytes().len();
    let alone = seq![last];
    assert(alone.last() == last);
    assert(built_buffer(size, entries).subrange(from, to) =~= last.bytes());
    assert(built_buffer(size, alone).subrange(from, to) =~= last.bytes());
}

} // verus!
