//! The buffered sink core: a fixed-capacity byte buffer with an
//! overflow protocol and a flush-on-line-boundary policy.
//!
//! Every platform adapter owns a [`Sink`] and differs only in where a
//! flushed chunk goes. The sink itself never performs platform work:
//! [`Sink::write_text`] returns the chunks that became due, in order,
//! and the adapter hands each one to its platform.
//!
//! The emitted-byte policy is uniform across adapters: a chunk holds
//! exactly the bytes that were written, a trailing line feed included.

use vstd::prelude::*;

verus! {

/// The byte that marks a line boundary: an ASCII line feed.
pub const LINE_FEED: u8 = 10;

/// Whether a fragment ends on a line boundary.
pub open spec fn ends_in_line_feed(text: Seq<u8>) -> bool {
    text.len() > 0 && text.last() == LINE_FEED
}

/// How many bytes of free space a buffer with contents `buf` and
/// capacity `cap` has left.
pub open spec fn free_space(buf: Seq<u8>, cap: nat) -> int {
    if buf.len() <= cap {
        cap - buf.len()
    } else {
        0
    }
}

/// How many bytes one copy step moves into the buffer: as many of the
/// `avail` pending bytes as the free space admits.
pub open spec fn copy_len(buf: Seq<u8>, cap: nat, avail: int) -> int {
    if free_space(buf, cap) < avail {
        free_space(buf, cap)
    } else {
        avail
    }
}

/// The chunks that the overflow loop emits: while more than a whole
/// buffer's worth of text is pending, it fills the buffer and flushes
/// it, so every chunk it emits is exactly `cap` bytes long.
pub open spec fn spill_chunks(buf: Seq<u8>, cap: nat, text: Seq<u8>) -> Seq<Seq<u8>>
    recommends
        buf.len() <= cap,
    decreases text.len(), buf.len(),
{
    if cap == 0 || text.len() <= cap {
        Seq::empty()
    } else {
        let w = free_space(buf, cap);
        seq![buf + text.take(w)] + spill_chunks(Seq::empty(), cap, text.skip(w))
    }
}

/// The text still pending after the overflow loop: the suffix of
/// `text` that is at most a whole buffer's worth.
pub open spec fn spill_rest(buf: Seq<u8>, cap: nat, text: Seq<u8>) -> Seq<u8>
    recommends
        buf.len() <= cap,
    decreases text.len(), buf.len(),
{
    if cap == 0 || text.len() <= cap {
        text
    } else {
        spill_rest(Seq::empty(), cap, text.skip(free_space(buf, cap)))
    }
}

/// The buffer contents after the overflow loop: unchanged when the
/// loop did not run, empty otherwise (its last step is a flush).
pub open spec fn spill_buffer(buf: Seq<u8>, cap: nat, text: Seq<u8>) -> Seq<u8> {
    if cap == 0 || text.len() <= cap {
        buf
    } else {
        Seq::empty()
    }
}

/// The chunk (none or one) that writing a fragment of at most `cap`
/// pending bytes emits: none when the fragment fits into the free
/// space, otherwise the filled buffer, flushed to make room.
pub open spec fn fit_chunks(buf: Seq<u8>, cap: nat, text: Seq<u8>) -> Seq<Seq<u8>>
    recommends
        buf.len() <= cap,
        text.len() <= cap,
{
    if text.len() <= free_space(buf, cap) {
        Seq::empty()
    } else {
        seq![buf + text.take(free_space(buf, cap))]
    }
}

/// The buffer contents after the fit step.
pub open spec fn fit_buffer(buf: Seq<u8>, cap: nat, text: Seq<u8>) -> Seq<u8>
    recommends
        buf.len() <= cap,
        text.len() <= cap,
{
    if text.len() <= free_space(buf, cap) {
        buf + text
    } else {
        text.skip(free_space(buf, cap))
    }
}

/// The chunks that writing `text` to a buffer holding `buf` emits, in
/// order: the overflow loop's chunks, then the fit step's chunk if the
/// buffer had to be flushed to make room, then — when the fragment
/// ends in a line feed — the whole remaining buffer, flushed at the
/// line boundary.
pub open spec fn write_chunks(buf: Seq<u8>, cap: nat, text: Seq<u8>) -> Seq<Seq<u8>>
    recommends
        buf.len() <= cap,
{
    let sb = spill_buffer(buf, cap, text);
    let sr = spill_rest(buf, cap, text);
    let head = spill_chunks(buf, cap, text) + fit_chunks(sb, cap, sr);
    if ends_in_line_feed(text) {
        head + seq![fit_buffer(sb, cap, sr)]
    } else {
        head
    }
}

/// The buffer contents after writing `text` to a buffer holding `buf`:
/// empty when the fragment ends in a line feed, otherwise whatever the
/// fit step left buffered.
pub open spec fn write_rest(buf: Seq<u8>, cap: nat, text: Seq<u8>) -> Seq<u8>
    recommends
        buf.len() <= cap,
{
    if ends_in_line_feed(text) {
        Seq::empty()
    } else {
        fit_buffer(spill_buffer(buf, cap, text), cap, spill_rest(buf, cap, text))
    }
}

/// The views of a sequence of byte vectors: the chunks as the
/// contracts speak of them.
pub open spec fn views_of(chunks: Seq<Vec<u8>>) -> Seq<Seq<u8>> {
    chunks.map_values(|c: Vec<u8>| c@)
}

/// Pushing a vector onto a chunk list pushes its view onto the views.
proof fn lemma_views_of_push(chunks: Seq<Vec<u8>>, chunk: Vec<u8>)
    ensures
        views_of(chunks.push(chunk)) == views_of(chunks).push(chunk@),
{
    assert(views_of(chunks.push(chunk)) =~= views_of(chunks).push(chunk@));
}

/// A fixed-capacity accumulation buffer.
///
/// `data` is the occupied prefix (the cursor is `data.len()`), `cap`
/// the capacity. The ghost `emitted` field records every chunk this
/// sink has ever handed out for emission, in order, and `accepted`
/// records every byte ever written into the sink; the well-formedness
/// invariant says that no byte is duplicated or dropped on the way
/// from `accepted` to `emitted`.
pub struct Sink {
    data: Vec<u8>,
    cap: usize,
    emitted: Ghost<Seq<Seq<u8>>>,
    accepted: Ghost<Seq<u8>>,
}

impl Sink {
    /// The buffered bytes (the occupied prefix of the buffer).
    pub closed spec fn buffered(self) -> Seq<u8> {
        self.data@
    }

    /// The capacity of the buffer.
    pub closed spec fn capacity(self) -> usize {
        self.cap
    }

    /// Every chunk handed out for emission so far, oldest first.
    pub closed spec fn emitted(self) -> Seq<Seq<u8>> {
        self.emitted@
    }

    /// Every byte ever written into the sink, in order.
    pub closed spec fn accepted(self) -> Seq<u8> {
        self.accepted@
    }

    /// Well-formedness: the cursor never passes the capacity, and the
    /// bytes emitted so far followed by the bytes still buffered are
    /// exactly the bytes accepted so far — conservation of the stream.
    pub closed spec fn wf(self) -> bool {
        &&& self.data@.len() <= self.cap
        &&& self.cap >= 1
        &&& self.emitted@.flatten() + self.data@ == self.accepted@
    }

    /// An empty sink with capacity `cap`.
    pub fn new(cap: usize) -> (sink: Sink)
        requires
            cap >= 1,
        ensures
            sink.wf(),
            sink.capacity() == cap,
            sink.buffered() == Seq::<u8>::empty(),
            sink.emitted() == Seq::<Seq<u8>>::empty(),
            sink.accepted() == Seq::<u8>::empty(),
    {
        let sink = Sink { data: Vec::new(), cap, emitted: Ghost(Seq::empty()), accepted: Ghost(
            Seq::empty(),
        ) };
        proof {
            assert(sink.emitted@.flatten() =~= Seq::<u8>::empty());
            assert(sink.emitted@.flatten() + sink.data@ =~= sink.accepted@);
        }
        sink
    }

    /// The cursor: how many bytes are currently buffered.
    pub fn len(&self) -> (n: usize)
        ensures
            n == self.buffered().len(),
    {
        self.data.len()
    }

    /// Law: what a well-formed sink has handed out for emission,
    /// followed by what it still buffers, is exactly what it accepted —
    /// between acceptance and emission no byte is duplicated, dropped
    /// or reordered, and the cursor never passes the capacity.
    pub proof fn lemma_conservation(self)
        requires
            self.wf(),
        ensures
            self.emitted().flatten() + self.buffered() == self.accepted(),
            self.buffered().len() <= self.capacity(),
            self.capacity() >= 1,
    {
    }

    /// Takes the buffered prefix out for emission and resets the
    /// cursor to zero. The returned chunk is what the platform must be
    /// handed; it may be empty.
    pub fn flush(&mut self) -> (chunk: Vec<u8>)
        requires
            old(self).wf(),
        ensures
            final (self).wf(),
            chunk@ == old(self).buffered(),
            final (self).buffered() == Seq::<u8>::empty(),
            final (self).capacity() == old(self).capacity(),
            final (self).emitted() == old(self).emitted().push(old(self).buffered()),
            final (self).accepted() == old(self).accepted(),
    {
        let mut chunk: Vec<u8> = Vec::new();
        core::mem::swap(&mut chunk, &mut self.data);
        proof {
            self.emitted@ = self.emitted@.push(chunk@);
            old(self).emitted@.lemma_flatten_push(chunk@);
            assert(self.emitted@.flatten() + self.data@ =~= self.accepted@);
        }
        chunk
    }

    /// One copy step of the write protocol: moves as much of
    /// `text[from..]` into the buffer as the free space admits and
    /// returns the position of the first byte not yet copied.
    #[verifier::loop_isolation(false)]
    fn copy_text(&mut self, text: &[u8], from: usize) -> (r: usize)
        requires
            old(self).wf(),
            from <= text@.len(),
        ensures
            final (self).wf(),
            final (self).capacity() == old(self).capacity(),
            final (self).emitted() == old(self).emitted(),
            from <= r <= text@.len(),
            r - from == copy_len(
                old(self).buffered(),
                old(self).capacity() as nat,
                text@.len() - from,
            ),
            final (self).buffered() == old(self).buffered() + text@.subrange(
                from as int,
                r as int,
            ),
            final (self).accepted() == old(self).accepted() + text@.subrange(
                from as int,
                r as int,
            ),
    {
        let remaining = self.cap - self.data.len();
        let available = text.len() - from;
        let write_len = if remaining < available {
            remaining
        } else {
            available
        };
        let end = from + write_len;
        let mut i = from;
        while i < end
            invariant
                from <= i <= end,
                self.data@ == old(self).data@ + text@.subrange(from as int, i as int),
                self.cap == old(self).cap,
                self.emitted@ == old(self).emitted@,
                self.accepted@ == old(self).accepted@,
            decreases end - i,
        {
            self.data.push(text[i]);
            proof {
                assert(self.data@ =~= old(self).data@ + text@.subrange(
                    from as int,
                    i + 1 as int,
                ));
            }
            i = i + 1;
        }
        proof {
            self.accepted@ = self.accepted@ + text@.subrange(from as int, end as int);
            assert(self.emitted@.flatten() + self.data@ =~= self.accepted@);
        }
        end
    }

    /// Seeds the buffer: appends `text` whole, which must fit into the
    /// free space. Constructors use this to pre-load the severity tag,
    /// the timestamp block and the location text.
    pub fn append(&mut self, text: &[u8])
        requires
            old(self).wf(),
            old(self).buffered().len() + text@.len() <= old(self).capacity(),
        ensures
            final (self).wf(),
            final (self).capacity() == old(self).capacity(),
            final (self).emitted() == old(self).emitted(),
            final (self).buffered() == old(self).buffered() + text@,
            final (self).accepted() == old(self).accepted() + text@,
    {
        let r = self.copy_text(text, 0);
        proof {
            assert(r == text@.len());
            assert(text@.subrange(0, r as int) =~= text@);
        }
    }

    /// The overflow loop: while more than a whole buffer's worth of
    /// `text[from..]` is pending, fills the buffer and flushes it,
    /// pushing each flushed chunk onto `chunks`. Returns the position
    /// of the first byte not yet copied.
    fn on_text_overflow(&mut self, text: &[u8], chunks: &mut Vec<Vec<u8>>) -> (r: usize)
        requires
            old(self).wf(),
            text@.len() > old(self).capacity(),
        ensures
            final (self).wf(),
            final (self).capacity() == old(self).capacity(),
            r <= text@.len(),
            text@.len() - r <= old(self).capacity(),
            text@.skip(r as int) == spill_rest(
                old(self).buffered(),
                old(self).capacity() as nat,
                text@,
            ),
            final (self).buffered() == Seq::<u8>::empty(),
            views_of(final (chunks)@) == views_of(old(chunks)@) + spill_chunks(
                old(self).buffered(),
                old(self).capacity() as nat,
                text@,
            ),
            final (self).emitted() == old(self).emitted() + spill_chunks(
                old(self).buffered(),
                old(self).capacity() as nat,
                text@,
            ),
            final (self).accepted() == old(self).accepted() + text@.take(r as int),
    {
        let ghost buf0 = old(self).buffered();
        let ghost capn = old(self).capacity() as nat;
        let ghost text0 = text@;
        let ghost chunks0 = views_of(old(chunks)@);
        let ghost emitted0 = old(self).emitted();
        let ghost accepted0 = old(self).accepted();
        let ghost mut done: Seq<Seq<u8>> = Seq::empty();
        let mut from: usize = 0;
        proof {
            assert(text0.skip(0) =~= text0);
            assert(done + spill_chunks(buf0, capn, text0) =~= spill_chunks(buf0, capn, text0));
            assert(views_of(chunks@) =~= chunks0 + done);
            assert(self.emitted() =~= emitted0 + done);
            assert(self.accepted() =~= accepted0 + text0.take(0));
        }
        loop
            invariant_except_break
                text@.len() - from > self.capacity(),
            invariant
                self.wf(),
                self.capacity() as nat == capn,
                text0 == text@,
                from <= text@.len(),
                views_of(chunks@) == chunks0 + done,
                self.emitted() == emitted0 + done,
                self.accepted() == accepted0 + text0.take(from as int),
                spill_chunks(buf0, capn, text0) == done + spill_chunks(
                    self.buffered(),
                    capn,
                    text0.skip(from as int),
                ),
                spill_rest(buf0, capn, text0) == spill_rest(
                    self.buffered(),
                    capn,
                    text0.skip(from as int),
                ),
            ensures
                text@.len() - from <= self.capacity(),
                self.buffered() == Seq::<u8>::empty(),
            decreases text@.len() - from, self.buffered().len(),
        {
            let ghost bhead = self.buffered();
            let ghost donehead = done;
            let ghost w = free_space(bhead, capn);
            let r = self.copy_text(text, from);
            proof {
                assert(r == from + w);
                assert(text0.subrange(from as int, r as int) =~= text0.skip(from as int).take(w));
            }
            let chunk = self.flush();
            let ghost cv = chunk@;
            proof {
                lemma_views_of_push(chunks@, chunk);
            }
            chunks.push(chunk);
            proof {
                done = done.push(cv);
                assert(chunks0 + donehead.push(cv) =~= (chunks0 + donehead).push(cv));
                assert(views_of(chunks@) =~= chunks0 + done);
                assert(self.emitted() =~= emitted0 + done);
                assert(accepted0 + text0.take(from as int) + text0.subrange(from as int, r as int)
                    =~= accepted0 + text0.take(r as int));
                let rem = text0.skip(from as int);
                assert(rem.len() > capn);
                assert(spill_chunks(bhead, capn, rem) == seq![bhead + rem.take(w)] + spill_chunks(
                    Seq::empty(),
                    capn,
                    rem.skip(w),
                ));
                assert(spill_rest(bhead, capn, rem) == spill_rest(Seq::empty(), capn, rem.skip(w)));
                assert(cv == bhead + rem.take(w));
                assert(rem.skip(w) =~= text0.skip(r as int));
                assert(donehead + spill_chunks(bhead, capn, rem) =~= done + spill_chunks(
                    Seq::empty(),
                    capn,
                    text0.skip(r as int),
                ));
            }
            from = r;
            if text.len() - from <= self.cap {
                break ;
            }
        }
        proof {
            let rem = text0.skip(from as int);
            assert(rem.len() <= capn);
            assert(spill_chunks(Seq::<u8>::empty(), capn, rem) == Seq::<Seq<u8>>::empty());
            assert(spill_rest(Seq::<u8>::empty(), capn, rem) == rem);
            assert(spill_chunks(buf0, capn, text0) =~= done);
        }
        from
    }

    /// Appends `text` to the buffer, handling overflow: a fragment
    /// longer than the whole capacity is chunked through the overflow
    /// loop; a fragment longer than the free space flushes the filled
    /// buffer once to make room; and a fragment ending in a line feed
    /// flushes the buffer at the line boundary. Returns the flushed
    /// chunks, in emission order; the adapter that owns this sink must
    /// hand each one to its platform.
    pub fn write_text(&mut self, text: &[u8]) -> (chunks: Vec<Vec<u8>>)
        requires
            old(self).wf(),
        ensures
            final (self).wf(),
            final (self).capacity() == old(self).capacity(),
            views_of(chunks@) == write_chunks(
                old(self).buffered(),
                old(self).capacity() as nat,
                text@,
            ),
            final (self).buffered() == write_rest(
                old(self).buffered(),
                old(self).capacity() as nat,
                text@,
            ),
            final (self).emitted() == old(self).emitted() + write_chunks(
                old(self).buffered(),
                old(self).capacity() as nat,
                text@,
            ),
            final (self).accepted() == old(self).accepted() + text@,
    {
        let ghost buf0 = old(self).buffered();
        let ghost capn = old(self).capacity() as nat;
        let ghost text0 = text@;
        let ghost emitted0 = old(self).emitted();
        let ghost accepted0 = old(self).accepted();
        let mut chunks: Vec<Vec<u8>> = Vec::new();
        proof {
            assert(views_of(chunks@) =~= Seq::<Seq<u8>>::empty());
        }
        let mut from: usize = 0;
        if text.len() > self.cap {
            from = self.on_text_overflow(text, &mut chunks);
        } else {
            proof {
                assert(spill_chunks(buf0, capn, text0) == Seq::<Seq<u8>>::empty());
                assert(spill_rest(buf0, capn, text0) == text0);
                assert(text0.skip(0) =~= text0);
                assert(text0.take(0) =~= Seq::<u8>::empty());
                assert(accepted0 + text0.take(0) =~= accepted0);
                assert(Seq::<Seq<u8>>::empty() + spill_chunks(buf0, capn, text0) =~= spill_chunks(
                    buf0,
                    capn,
                    text0,
                ));
            }
        }
        let ghost sb = spill_buffer(buf0, capn, text0);
        let ghost sr = spill_rest(buf0, capn, text0);
        let ghost spilled = spill_chunks(buf0, capn, text0);
        proof {
            assert(self.buffered() == sb);
            assert(text0.skip(from as int) == sr);
            assert(views_of(chunks@) =~= Seq::<Seq<u8>>::empty() + spilled);
            assert(views_of(chunks@) =~= spilled);
            assert(self.emitted() == emitted0 + spilled);
            assert(self.accepted() == accepted0 + text0.take(from as int));
        }
        // The fit step: at most a whole buffer's worth is pending now.
        let r = self.copy_text(text, from);
        proof {
            assert(text0.subrange(from as int, r as int) =~= sr.take(r - from));
        }
        if r < text.len() {
            // The fragment did not fit into the free space: flush the
            // filled buffer and copy the rest into the emptied buffer.
            let chunk = self.flush();
            let ghost cv = chunk@;
            proof {
                lemma_views_of_push(chunks@, chunk);
            }
            chunks.push(chunk);
            let ghost w = free_space(sb, capn);
            proof {
                assert(cv == sb + sr.take(w));
                assert(fit_chunks(sb, capn, sr) == seq![cv]);
            }
            let r2 = self.copy_text(text, r);
            proof {
                assert(r2 == text@.len());
                assert(text0.subrange(r as int, r2 as int) =~= sr.skip(w));
                assert(Seq::<u8>::empty() + text0.subrange(r as int, r2 as int) =~= sr.skip(w));
                assert(self.buffered() =~= fit_buffer(sb, capn, sr));
                assert(views_of(chunks@) =~= spilled + fit_chunks(sb, capn, sr));
                assert(self.emitted() =~= emitted0 + (spilled + fit_chunks(sb, capn, sr)));
                assert(accepted0 + text0.take(from as int) + text0.subrange(from as int, r as int)
                    + text0.subrange(r as int, r2 as int) =~= accepted0 + text0);
            }
        } else {
            proof {
                assert(r == text@.len());
                assert(sr.take(r - from) =~= sr);
                assert(fit_chunks(sb, capn, sr) == Seq::<Seq<u8>>::empty());
                assert(self.buffered() =~= fit_buffer(sb, capn, sr));
                assert(views_of(chunks@) =~= spilled + fit_chunks(sb, capn, sr));
                assert(self.emitted() =~= emitted0 + (spilled + fit_chunks(sb, capn, sr)));
                assert(accepted0 + text0.take(from as int) + text0.subrange(from as int, r as int)
                    =~= accepted0 + text0);
            }
        }
        // The line-boundary step: a fragment ending in a line feed is
        // due for emission as soon as it is complete.
        if text.len() > 0 && text[text.len() - 1] == LINE_FEED {
            proof {
                assert(text0.last() == LINE_FEED);
                assert(ends_in_line_feed(text0));
            }
            let chunk = self.flush();
            let ghost cv = chunk@;
            proof {
                lemma_views_of_push(chunks@, chunk);
            }
            chunks.push(chunk);
            proof {
                assert(cv == fit_buffer(sb, capn, sr));
                assert(views_of(chunks@) =~= write_chunks(buf0, capn, text0));
                assert(self.emitted() =~= emitted0 + write_chunks(buf0, capn, text0));
                assert(self.buffered() =~= write_rest(buf0, capn, text0));
            }
        } else {
            proof {
                assert(!ends_in_line_feed(text0));
                assert(views_of(chunks@) =~= write_chunks(buf0, capn, text0));
                assert(self.emitted() =~= emitted0 + write_chunks(buf0, capn, text0));
                assert(self.buffered() =~= write_rest(buf0, capn, text0));
            }
        }
        chunks
    }
}

/// Flattening a chunk list that starts with `chunk` yields `chunk`
/// followed by the flattening of the rest.
proof fn lemma_flatten_cons(chunk: Seq<u8>, rest: Seq<Seq<u8>>)
    ensures
        (seq![chunk] + rest).flatten() == chunk + rest.flatten(),
{
    let s = seq![chunk] + rest;
    assert(s.first() == chunk);
    assert(s.drop_first() =~= rest);
}

/// The overflow loop conserves bytes: its chunks, the buffer it
/// leaves, and the text it leaves pending, together, are exactly the
/// buffer and text it started from.
proof fn lemma_spill_conserves(buf: Seq<u8>, cap: nat, text: Seq<u8>)
    requires
        cap >= 1,
        buf.len() <= cap,
    ensures
        spill_chunks(buf, cap, text).flatten() + spill_buffer(buf, cap, text) + spill_rest(
            buf,
            cap,
            text,
        ) == buf + text,
    decreases text.len(), buf.len(),
{
    if text.len() <= cap {
        assert(Seq::<Seq<u8>>::empty().flatten() =~= Seq::<u8>::empty());
        assert(Seq::<u8>::empty() + buf + text =~= buf + text);
    } else {
        let w = free_space(buf, cap);
        let chunk = buf + text.take(w);
        let rest = text.skip(w);
        lemma_spill_conserves(Seq::empty(), cap, rest);
        lemma_flatten_cons(chunk, spill_chunks(Seq::empty(), cap, rest));
        assert(Seq::<u8>::empty() + Seq::<u8>::empty() =~= Seq::<u8>::empty());
        assert(spill_chunks(Seq::<u8>::empty(), cap, rest).flatten() + spill_rest(
            Seq::empty(),
            cap,
            rest,
        ) =~= rest) by {
            assert(spill_chunks(Seq::<u8>::empty(), cap, rest).flatten() + spill_buffer(
                Seq::empty(),
                cap,
                rest,
            ) + spill_rest(Seq::empty(), cap, rest) =~= Seq::<u8>::empty() + rest);
            assert(spill_buffer(Seq::<u8>::empty(), cap, rest) =~= Seq::<u8>::empty());
        }
        assert(spill_chunks(buf, cap, text).flatten() + spill_buffer(buf, cap, text) + spill_rest(
            buf,
            cap,
            text,
        ) =~= buf + text) by {
            assert(spill_chunks(buf, cap, text) == seq![chunk] + spill_chunks(
                Seq::empty(),
                cap,
                rest,
            ));
            assert(buf + text.take(w) + rest =~= buf + text);
        }
    }
}

/// The fit step conserves bytes likewise.
proof fn lemma_fit_conserves(buf: Seq<u8>, cap: nat, text: Seq<u8>)
    requires
        cap >= 1,
        buf.len() <= cap,
        text.len() <= cap,
    ensures
        fit_chunks(buf, cap, text).flatten() + fit_buffer(buf, cap, text) == buf + text,
{
    if text.len() <= free_space(buf, cap) {
        assert(Seq::<Seq<u8>>::empty().flatten() =~= Seq::<u8>::empty());
        assert(Seq::<u8>::empty() + (buf + text) =~= buf + text);
    } else {
        let w = free_space(buf, cap);
        lemma_flatten_cons(buf + text.take(w), Seq::empty());
        assert(Seq::<Seq<u8>>::empty().flatten() =~= Seq::<u8>::empty());
        assert(buf + text.take(w) + Seq::<u8>::empty() =~= buf + text.take(w));
        assert(buf + text.take(w) + text.skip(w) =~= buf + text);
    }
}

/// Law: writing conserves bytes. The chunks that a write emits,
/// followed by what it leaves buffered, are exactly the old buffer
/// contents followed by the fragment — no byte is duplicated, dropped
/// or reordered, whatever the fragment's length.
pub proof fn lemma_write_conserves(buf: Seq<u8>, cap: nat, text: Seq<u8>)
    requires
        cap >= 1,
        buf.len() <= cap,
    ensures
        write_chunks(buf, cap, text).flatten() + write_rest(buf, cap, text) == buf + text,
{
    let sc = spill_chunks(buf, cap, text);
    let sb = spill_buffer(buf, cap, text);
    let sr = spill_rest(buf, cap, text);
    lemma_spill_conserves(buf, cap, text);
    lemma_spill_bounds(buf, cap, text);
    lemma_fit_conserves(sb, cap, sr);
    vstd::seq_lib::lemma_flatten_concat(sc, fit_chunks(sb, cap, sr));
    if ends_in_line_feed(text) {
        vstd::seq_lib::lemma_flatten_concat(sc + fit_chunks(sb, cap, sr), seq![
            fit_buffer(sb, cap, sr),
        ]);
        lemma_flatten_cons(fit_buffer(sb, cap, sr), Seq::empty());
        assert(Seq::<Seq<u8>>::empty().flatten() =~= Seq::<u8>::empty());
        assert(seq![fit_buffer(sb, cap, sr)].flatten() =~= fit_buffer(sb, cap, sr)) by {
            assert(seq![fit_buffer(sb, cap, sr)] =~= seq![fit_buffer(sb, cap, sr)]
                + Seq::<Seq<u8>>::empty());
            assert(fit_buffer(sb, cap, sr) + Seq::<u8>::empty() =~= fit_buffer(sb, cap, sr));
        }
        assert(write_chunks(buf, cap, text).flatten() + write_rest(buf, cap, text) =~= buf + text);
    } else {
        assert(write_chunks(buf, cap, text).flatten() + write_rest(buf, cap, text) =~= buf + text);
    }
}

/// The overflow loop's chunks are each exactly one buffer's worth; it
/// leaves at most one buffer's worth pending (at least one byte of it
/// when it ran at all), and its chunk count is fixed by the lengths.
proof fn lemma_spill_bounds(buf: Seq<u8>, cap: nat, text: Seq<u8>)
    requires
        cap >= 1,
        buf.len() <= cap,
    ensures
        forall|i: int|
            0 <= i < spill_chunks(buf, cap, text).len() ==> #[trigger] spill_chunks(
                buf,
                cap,
                text,
            )[i].len() == cap,
        spill_rest(buf, cap, text).len() <= cap,
        text.len() > cap ==> 1 <= spill_rest(buf, cap, text).len(),
        spill_chunks(buf, cap, text).len() * cap + spill_buffer(buf, cap, text).len() + spill_rest(
            buf,
            cap,
            text,
        ).len() == buf.len() + text.len(),
    decreases text.len(), buf.len(),
{
    if text.len() <= cap {
    } else {
        let w = free_space(buf, cap);
        let rest = text.skip(w);
        lemma_spill_bounds(Seq::empty(), cap, rest);
        let q = spill_chunks(Seq::<u8>::empty(), cap, rest).len();
        assert(spill_chunks(buf, cap, text).len() == q + 1);
        assert((q + 1) * cap == q * cap + cap) by (nonlinear_arith);
        assert(forall|i: int|
            0 <= i < spill_chunks(buf, cap, text).len() ==> #[trigger] spill_chunks(
                buf,
                cap,
                text,
            )[i].len() == cap) by {
            assert(spill_chunks(buf, cap, text)[0] == buf + text.take(w));
            assert(forall|i: int|
                1 <= i < spill_chunks(buf, cap, text).len() ==> spill_chunks(buf, cap, text)[i]
                    == #[trigger] spill_chunks(Seq::<u8>::empty(), cap, rest)[i - 1]);
        }
    }
}

/// Law: a fragment of at most one buffer's worth, written to an empty
/// sink, is emitted exactly once and whole — at once when it ends in a
/// line feed, by the next flush otherwise.
pub proof fn lemma_bounded_fragment_write(cap: nat, text: Seq<u8>)
    requires
        cap >= 1,
        text.len() <= cap,
    ensures
        write_chunks(Seq::<u8>::empty(), cap, text).flatten() + write_rest(
            Seq::<u8>::empty(),
            cap,
            text,
        ) == text,
        !ends_in_line_feed(text) ==> write_chunks(Seq::<u8>::empty(), cap, text)
            == Seq::<Seq<u8>>::empty() && write_rest(Seq::<u8>::empty(), cap, text) == text,
        ends_in_line_feed(text) ==> write_chunks(Seq::<u8>::empty(), cap, text) == seq![text]
            && write_rest(Seq::<u8>::empty(), cap, text) == Seq::<u8>::empty(),
{
    lemma_write_conserves(Seq::empty(), cap, text);
    assert(Seq::<u8>::empty() + text =~= text);
    let sb = spill_buffer(Seq::<u8>::empty(), cap, text);
    let sr = spill_rest(Seq::<u8>::empty(), cap, text);
    assert(sb == Seq::<u8>::empty());
    assert(sr == text);
    assert(fit_buffer(sb, cap, sr) =~= text);
    if ends_in_line_feed(text) {
        assert(write_chunks(Seq::<u8>::empty(), cap, text) =~= seq![text]);
    } else {
        assert(write_chunks(Seq::<u8>::empty(), cap, text) =~= Seq::<Seq<u8>>::empty());
    }
}

/// Law: a fragment that ends in a line feed and fits into the free
/// space is flushed exactly once, immediately, together with what was
/// buffered before it, and leaves the cursor at zero.
pub proof fn lemma_line_boundary_flush(buf: Seq<u8>, cap: nat, text: Seq<u8>)
    requires
        cap >= 1,
        buf.len() + text.len() <= cap,
        ends_in_line_feed(text),
    ensures
        write_chunks(buf, cap, text) == seq![buf + text],
        write_rest(buf, cap, text) == Seq::<u8>::empty(),
{
    assert(spill_buffer(buf, cap, text) == buf);
    assert(spill_rest(buf, cap, text) == text);
    assert(fit_buffer(buf, cap, text) == buf + text);
    assert(write_chunks(buf, cap, text) =~= seq![buf + text]);
}

/// Law: writing an empty fragment emits nothing and leaves the buffer
/// unchanged, whatever the buffer holds.
pub proof fn lemma_empty_fragment_write(buf: Seq<u8>, cap: nat)
    requires
        cap >= 1,
        buf.len() <= cap,
    ensures
        write_chunks(buf, cap, Seq::<u8>::empty()) == Seq::<Seq<u8>>::empty(),
        write_rest(buf, cap, Seq::<u8>::empty()) == buf,
{
    let empty = Seq::<u8>::empty();
    assert(spill_buffer(buf, cap, empty) == buf);
    assert(spill_rest(buf, cap, empty) == empty);
    assert(fit_buffer(buf, cap, empty) =~= buf);
    assert(write_chunks(buf, cap, empty) =~= Seq::<Seq<u8>>::empty());
}

/// Law: a fragment longer than the whole capacity, written to an empty
/// sink, is emitted in order with no byte duplicated or dropped, split
/// into chunks of exactly one buffer's worth, with at most one
/// buffer's worth left pending; counting the one flush that the
/// pending remainder still needs, at least `len / cap`, rounded up,
/// emissions carry it.
pub proof fn lemma_oversized_fragment_write(cap: nat, text: Seq<u8>)
    requires
        cap >= 1,
        text.len() > cap,
    ensures
        write_chunks(Seq::<u8>::empty(), cap, text).flatten() + write_rest(
            Seq::<u8>::empty(),
            cap,
            text,
        ) == text,
        (write_chunks(Seq::<u8>::empty(), cap, text).len() + 1) * cap >= text.len(),
        !ends_in_line_feed(text) ==> {
            let chunks = write_chunks(Seq::<u8>::empty(), cap, text);
            let rest = write_rest(Seq::<u8>::empty(), cap, text);
            &&& chunks.len() * cap + rest.len() == text.len()
            &&& forall|i: int| 0 <= i < chunks.len() ==> #[trigger] chunks[i].len() == cap
            &&& 1 <= rest.len() <= cap
        },
        ends_in_line_feed(text) ==> {
            let chunks = write_chunks(Seq::<u8>::empty(), cap, text);
            &&& write_rest(Seq::<u8>::empty(), cap, text).len() == 0
            &&& chunks.len() >= 2
            &&& forall|i: int| 0 <= i < chunks.len() - 1 ==> #[trigger] chunks[i].len() == cap
            &&& 1 <= chunks.last().len() <= cap
            &&& (chunks.len() - 1) * cap + chunks.last().len() == text.len()
        },
{
    let empty = Seq::<u8>::empty();
    lemma_write_conserves(empty, cap, text);
    assert(empty + text =~= text);
    lemma_spill_bounds(empty, cap, text);
    let sc = spill_chunks(empty, cap, text);
    let sb = spill_buffer(empty, cap, text);
    let sr = spill_rest(empty, cap, text);
    assert(sb == empty);
    assert(fit_chunks(sb, cap, sr) == Seq::<Seq<u8>>::empty());
    assert(fit_buffer(sb, cap, sr) =~= sr);
    let q = sc.len();
    assert(q * cap + sr.len() == text.len());
    assert(q >= 1);
    if ends_in_line_feed(text) {
        let chunks = write_chunks(empty, cap, text);
        assert(chunks =~= sc + seq![sr]);
        assert(chunks.len() == q + 1);
        assert(chunks.last() == sr);
        assert(forall|i: int|
            0 <= i < chunks.len() - 1 ==> #[trigger] chunks[i].len() == sc[i].len());
        assert((chunks.len() + 1) * cap >= text.len()) by (nonlinear_arith)
            requires
                chunks.len() == q + 1,
                q * cap + sr.len() == text.len(),
                sr.len() <= cap,
                cap >= 1,
        ;
    } else {
        let chunks = write_chunks(empty, cap, text);
        assert(chunks =~= sc);
        assert(write_rest(empty, cap, text) == sr);
        assert((chunks.len() + 1) * cap >= text.len()) by (nonlinear_arith)
            requires
                chunks.len() == q,
                q * cap + sr.len() == text.len(),
                sr.len() <= cap,
        ;
    }
}

/// Law: a fragment of three buffers' worth and one byte more, written
/// to an empty sink and not ending in a line feed, is carried by
/// exactly three immediate flushes of one buffer's worth each, with a
/// one-byte remainder left buffered.
pub proof fn lemma_triple_capacity_fragment(cap: nat, text: Seq<u8>)
    requires
        cap >= 1,
        text.len() == 3 * cap + 1,
        !ends_in_line_feed(text),
    ensures
        write_chunks(Seq::<u8>::empty(), cap, text).len() == 3,
        forall|i: int|
            0 <= i < 3 ==> #[trigger] write_chunks(Seq::<u8>::empty(), cap, text)[i].len() == cap,
        write_rest(Seq::<u8>::empty(), cap, text).len() == 1,
{
    lemma_oversized_fragment_write(cap, text);
    let q = write_chunks(Seq::<u8>::empty(), cap, text).len();
    let r = write_rest(Seq::<u8>::empty(), cap, text).len();
    assert(q == 3 && r == 1) by (nonlinear_arith)
        requires
            q * cap + r == 3 * cap + 1,
            1 <= r <= cap,
            cap >= 1,
            q >= 0,
    ;
}

} // verus!
