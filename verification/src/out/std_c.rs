//! The stream-descriptor adapter: buffers log text for one of the
//! numeric OS file descriptors (2, the error stream, for error-class
//! severities; 1, the output stream, for the rest), pre-seeding each
//! message with a severity tag, a timestamp block and the caller's
//! location text.
//!
//! The blocking descriptor write itself is host I/O and lives outside
//! this crate: each method returns the chunks that became due, and the
//! host hands every chunk, unchanged and in order, to the writer's
//! descriptor.

use crate::Level;
use crate::data;
use crate::sink::{Sink, views_of, write_chunks, write_rest};
use crate::time;
use vstd::prelude::*;
use vstd::string::StringSliceAdditionalSpecFns;

verus! {

/// The buffer capacity of the stream-descriptor sink.
pub const BUFFER_CAPACITY: usize = 4096;

/// A per-message writer aimed at one OS file descriptor.
pub struct FdWriter {
    fd: u8,
    sink: Sink,
}

impl FdWriter {
    /// The descriptor that this writer's chunks are meant for.
    pub closed spec fn target_fd(self) -> u8 {
        self.fd
    }

    /// The buffered bytes (the occupied prefix of the buffer).
    pub closed spec fn buffered(self) -> Seq<u8> {
        self.sink.buffered()
    }

    /// Every chunk handed out for emission so far, oldest first.
    pub closed spec fn emitted(self) -> Seq<Seq<u8>> {
        self.sink.emitted()
    }

    /// Every byte written into this writer, the seeded prefix included.
    pub closed spec fn accepted(self) -> Seq<u8> {
        self.sink.accepted()
    }

    /// Well-formedness: a sound sink of this adapter's capacity.
    pub closed spec fn wf(self) -> bool {
        self.sink.wf() && self.sink.capacity() == BUFFER_CAPACITY
    }

    /// What every constructor ensures: a fresh well-formed writer,
    /// aimed at `fd`, with nothing emitted yet and its buffer seeded
    /// with the tag of `level`, a timestamp block and `location`.
    pub open spec fn fresh(self, fd: u8, level: Level, location: Seq<u8>) -> bool {
        &&& self.wf()
        &&& self.target_fd() == fd
        &&& self.emitted() == Seq::<Seq<u8>>::empty()
        &&& self.accepted() == self.buffered()
        &&& exists|t: Seq<u8>|
            #[trigger] time::is_time_block(t) && self.buffered() == data::tag_of(level) + t
                + location
    }

    /// Builds a writer aimed at `fd` and seeds its buffer.
    fn new(fd: u8, level: Level, location: &str) -> (w: FdWriter)
        requires
            data::tag_of(level).len() + 22 + location.spec_bytes().len() <= BUFFER_CAPACITY,
        ensures
            w.fresh(fd, level, location.spec_bytes()),
    {
        let mut sink = Sink::new(BUFFER_CAPACITY);
        let tag = data::tag_bytes(level);
        sink.append(tag.as_slice());
        let stamp = time::get();
        sink.append(stamp.as_bytes());
        sink.append(location.as_bytes());
        let w = FdWriter { fd, sink };
        proof {
            assert(Seq::<u8>::empty() + tag@ =~= tag@);
            assert(w.buffered() =~= data::tag_of(level) + stamp.bytes()
                + location.spec_bytes());
        }
        w
    }

    /// A writer for a very serious error message, aimed at the error
    /// stream.
    pub fn error(location: &str) -> (w: FdWriter)
        requires
            location.spec_bytes().len() + 28 <= BUFFER_CAPACITY,
        ensures
            w.fresh(2, Level::ERROR, location.spec_bytes()),
    {
        Self::new(2, Level::ERROR, location)
    }

    /// A writer for a hazardous-situation message, aimed at the error
    /// stream.
    pub fn warn(location: &str) -> (w: FdWriter)
        requires
            location.spec_bytes().len() + 28 <= BUFFER_CAPACITY,
        ensures
            w.fresh(2, Level::WARN, location.spec_bytes()),
    {
        Self::new(2, Level::WARN, location)
    }

    /// A writer for a useful-information message, aimed at the output
    /// stream.
    pub fn info(location: &str) -> (w: FdWriter)
        requires
            location.spec_bytes().len() + 28 <= BUFFER_CAPACITY,
        ensures
            w.fresh(1, Level::INFO, location.spec_bytes()),
    {
        Self::new(1, Level::INFO, location)
    }

    /// A writer for a lower-priority message, aimed at the output
    /// stream.
    pub fn debug(location: &str) -> (w: FdWriter)
        requires
            location.spec_bytes().len() + 28 <= BUFFER_CAPACITY,
        ensures
            w.fresh(1, Level::DEBUG, location.spec_bytes()),
    {
        Self::new(1, Level::DEBUG, location)
    }

    /// A writer for a very low priority message, aimed at the output
    /// stream.
    pub fn trace(location: &str) -> (w: FdWriter)
        requires
            location.spec_bytes().len() + 28 <= BUFFER_CAPACITY,
        ensures
            w.fresh(1, Level::TRACE, location.spec_bytes()),
    {
        Self::new(1, Level::TRACE, location)
    }

    /// The descriptor to hand this writer's chunks to.
    pub fn fd(&self) -> (fd: u8)
        ensures
            fd == self.target_fd(),
    {
        self.fd
    }

    /// The cursor: how many bytes are currently buffered.
    pub fn len(&self) -> (n: usize)
        ensures
            n == self.buffered().len(),
    {
        self.sink.len()
    }

    /// Law: what a well-formed writer has handed out for emission,
    /// followed by what it still buffers, is exactly what was written
    /// into it — no byte is duplicated, dropped or reordered.
    pub proof fn lemma_conservation(self)
        requires
            self.wf(),
        ensures
            self.emitted().flatten() + self.buffered() == self.accepted(),
    {
        self.sink.lemma_conservation();
    }

    /// Appends `text`, chunking per the overflow protocol and flushing
    /// at a trailing line boundary. Returns the chunks that became
    /// due, in order; the host hands each to this writer's descriptor.
    pub fn write_text(&mut self, text: &str) -> (chunks: Vec<Vec<u8>>)
        requires
            old(self).wf(),
        ensures
            final (self).wf(),
            final (self).target_fd() == old(self).target_fd(),
            views_of(chunks@) == write_chunks(
                old(self).buffered(),
                BUFFER_CAPACITY as nat,
                text.spec_bytes(),
            ),
            final (self).buffered() == write_rest(
                old(self).buffered(),
                BUFFER_CAPACITY as nat,
                text.spec_bytes(),
            ),
            final (self).emitted() == old(self).emitted() + write_chunks(
                old(self).buffered(),
                BUFFER_CAPACITY as nat,
                text.spec_bytes(),
            ),
            final (self).accepted() == old(self).accepted() + text.spec_bytes(),
    {
        self.sink.write_text(text.as_bytes())
    }

    /// Takes the buffered prefix out for one blocking write to this
    /// writer's descriptor and resets the cursor to zero.
    pub fn flush(&mut self) -> (chunk: Vec<u8>)
        requires
            old(self).wf(),
        ensures
            final (self).wf(),
            final (self).target_fd() == old(self).target_fd(),
            chunk@ == old(self).buffered(),
            final (self).buffered() == Seq::<u8>::empty(),
            final (self).emitted() == old(self).emitted().push(old(self).buffered()),
            final (self).accepted() == old(self).accepted(),
    {
        self.sink.flush()
    }
}

} // verus!
