//! The catalog of control requests: one device and the requests that can be
//! sent to it.

use crate::buffer::{
    build_spec, built_buffer, check_buffer_overwrite, first_unfit, lemma_built_step,
    lemma_first_unfit, lemma_first_unfit_is, BufferContentEntry, BufferError,
};
use vstd::prelude::*;

verus! {

/// A device and the control requests known for it.
#[derive(Debug)]
pub struct Config {
    pub device_name: String,
    pub ioctls: Vec<Ioctl>,
}

/// One control request: its code, the sizes of its two buffers, and what its
/// input buffer holds besides zeros.
#[derive(Debug)]
pub struct Ioctl {
    pub name: String,
    pub code: u32,
    pub overlapped: bool,
    pub input_buffer_size: usize,
    pub output_buffer_size: usize,
    pub input_buffer_content: Option<Vec<BufferContentEntry>>,
}

impl Clone for Ioctl {
    fn clone(&self) -> (res: Self)
        ensures
            res.same_request(*self),
    {
        let input_buffer_content = match &self.input_buffer_content {
            Some(entries) => {
                let copies = entries.clone();
                assert(copies@ =~= entries@);
                Some(copies)
            },
            None => None,
        };
        Ioctl {
            name: self.name.clone(),
            code: self.code,
            overlapped: self.overlapped,
            input_buffer_size: self.input_buffer_size,
            output_buffer_size: self.output_buffer_size,
            input_buffer_content,
        }
    }
}

impl Clone for Config {
    fn clone(&self) -> (res: Self)
        ensures
            res.device_name@ == self.device_name@,
            res.ioctls@.len() == self.ioctls@.len(),
            forall|i: int|
                0 <= i < self.ioctls@.len() ==> (#[trigger] res.ioctls@[i]).same_request(
                    self.ioctls@[i],
                ),
    {
        let ioctls = self.ioctls.clone();
        assert forall|i: int| 0 <= i < self.ioctls@.len() implies (#[trigger] ioctls@[i])
            .same_request(self.ioctls@[i]) by {
            assert(cloned(self.ioctls@[i], ioctls@[i]));
        }
        Config { device_name: self.device_name.clone(), ioctls }
    }
}

impl Ioctl {
    /// Whether this request is the same as `other`: the same name, code,
    /// mode and sizes, and the same field entries in the same order.
    pub open spec fn same_request(&self, other: Ioctl) -> bool {
        &&& self.name@ == other.name@
        &&& self.code == other.code
        &&& self.overlapped == other.overlapped
        &&& self.input_buffer_size == other.input_buffer_size
        &&& self.output_buffer_size == other.output_buffer_size
        &&& self.input_buffer_content is Some == other.input_buffer_content is Some
        &&& self.entries() == other.entries()
    }

    /// The field entries of the request, in list order; none where the
    /// request names no content.
    pub open spec fn entries(&self) -> Seq<BufferContentEntry> {
        match self.input_buffer_content {
            Some(entries) => entries@,
            None => Seq::empty(),
        }
    }

    /// What `build_input_buffer` gives for this request.
    pub open spec fn input_buffer(&self) -> Result<Seq<u8>, BufferError> {
        build_spec(self.input_buffer_size, self.entries())
    }

    /// Tests every entry against the size of the input buffer, without
    /// making the buffer: the error is the one that the build would end
    /// with, that of the first entry that does not lie inside the buffer.
    pub fn check_entries(&self) -> (res: Result<(), BufferError>)
        ensures
            res is Ok <==> first_unfit(self.entries(), self.input_buffer_size as int) is None,
            res is Ok <==> self.input_buffer() is Ok,
            res matches Err(e) ==> self.input_buffer() == Err::<Seq<u8>, BufferError>(e),
    {
        let buffer_content_entries = match &self.input_buffer_content {
            Some(buffer_content_entries) => buffer_content_entries,
            None => {
                return Ok(());
            },
        };
        let ghost entries = buffer_content_entries@;
        let ghost size = self.input_buffer_size;

        let mut done: usize = 0;
        assert(entries.take(0) =~= Seq::empty());
        while done < buffer_content_entries.len()
            invariant
                done <= entries.len(),
                entries == buffer_content_entries@,
                entries == self.entries(),
                size == self.input_buffer_size,
                first_unfit(entries.take(done as int), size as int) is None,
            decreases entries.len() - done,
        {
            let entry = &buffer_content_entries[done];
            proof {
                assert(entries.take(done + 1).drop_last() =~= entries.take(done as int));
                assert(entries.take(done + 1).last() == entries[done as int]);
            }
            match check_buffer_overwrite(
                entry.offset,
                entry.entry_data.size(),
                self.input_buffer_size,
            ) {
                Ok(()) => {},
                Err(e) => {
                    proof {
                        let before = entries.take(done as int);
                        lemma_first_unfit(before, size as int);
                        assert forall|j: int| 0 <= j < done implies (#[trigger] entries[j]).fits(
                            size as int,
                        ) by {
                            assert(before[j] == entries[j]);
                        }
                        lemma_first_unfit_is(entries, size as int, done as int);
                    }
                    return Err(e);
                },
            }
            done = done + 1;
        }
        assert(entries.take(done as int) =~= entries);
        Ok(())
    }

    /// Builds the input buffer: `input_buffer_size` zero bytes, overwritten
    /// by each entry in turn. The first entry that does not lie inside the
    /// buffer ends the build with its error, and no buffer is returned.
    pub fn build_input_buffer(&self) -> (res: Result<Vec<u8>, BufferError>)
        ensures
            match res {
                Ok(buffer) => self.input_buffer() == Ok::<Seq<u8>, BufferError>(buffer@),
                Err(e) => self.input_buffer() == Err::<Seq<u8>, BufferError>(e),
            },
    {
        let mut buffer: Vec<u8> = vec![0u8; self.input_buffer_size];
        let ghost size = self.input_buffer_size;
        assert(buffer@ =~= built_buffer(size as nat, Seq::empty()));

        let buffer_content_entries = match &self.input_buffer_content {
            Some(buffer_content_entries) => buffer_content_entries,
            None => {
                return Ok(buffer);
            },
        };
        let ghost entries = buffer_content_entries@;

        let mut done: usize = 0;
        assert(entries.take(0) =~= Seq::empty());
        while done < buffer_content_entries.len()
            invariant
                done <= entries.len(),
                entries == buffer_content_entries@,
                entries == self.entries(),
                size == self.input_buffer_size,
                buffer@.len() == size,
                first_unfit(entries.take(done as int), size as int) is None,
                buffer@ == built_buffer(size as nat, entries.take(done as int)),
            decreases entries.len() - done,
        {
            let entry = &buffer_content_entries[done];
            proof {
                lemma_built_step(size as nat, entries, done as int);
                assert(entries.take(done + 1).drop_last() =~= entries.take(done as int));
            }
            match entry.write_into(&mut buffer) {
                Ok(()) => {},
                Err(e) => {
                    proof {
                        let before = entries.take(done as int);
                        lemma_first_unfit(before, size as int);
                        assert forall|j: int| 0 <= j < done implies (#[trigger] entries[j]).fits(
                            size as int,
                        ) by {
                            assert(before[j] == entries[j]);
                        }
                        lemma_first_unfit_is(entries, size as int, done as int);
                    }
                    return Err(e);
                },
            }
            done = done + 1;
        }
        assert(entries.take(done as int) =~= entries);
        Ok(buffer)
    }
}

} // verus!
