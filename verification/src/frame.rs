//! Record framing: cutting a byte stream into the texts of single records.
//!
//! The stream is one large JSON array of objects, each of which ends in a
//! nested array of objects. A record therefore ends where the bytes `}]},`
//! stand: the inner object, the inner array and the record itself close, and a
//! comma announces the next record. The framer never looks further into the
//! JSON than that.
//!
//! All text is held as its UTF-8 bytes. The delimiter is ASCII, so it can only
//! be found on character boundaries, and cutting there keeps both sides valid.

use vstd::prelude::*;
use vstd::utf8::*;
use vstd::slice::*;
use crate::text::utf8_text;

verus! {

/// The four bytes `}]},` stand at offset `i` of `text`.
pub open spec fn delimiter_at(text: Seq<u8>, i: int) -> bool {
    &&& 0 <= i
    &&& i + 4 <= text.len()
    &&& text[i] == 0x7Du8
    &&& text[i + 1] == 0x5Du8
    &&& text[i + 2] == 0x7Du8
    &&& text[i + 3] == 0x2Cu8
}

/// Some record ends inside `text`.
pub open spec fn has_delimiter(text: Seq<u8>) -> bool {
    exists|i: int| delimiter_at(text, i)
}

/// The delimiter stands at `i` and nowhere before.
pub open spec fn is_first_delimiter(text: Seq<u8>, i: int) -> bool {
    &&& delimiter_at(text, i)
    &&& forall|j: int| 0 <= j < i ==> !delimiter_at(text, j)
}

/// Where the first delimiter of `text` starts, if it has one.
pub open spec fn first_delimiter(text: Seq<u8>) -> int {
    choose|i: int| is_first_delimiter(text, i)
}

/// The complete records of `text`, in order. A record runs up to and including
/// the three closing brackets of its delimiter; the comma belongs to nobody.
pub open spec fn records(text: Seq<u8>) -> Seq<Seq<u8>>
    decreases text.len(),
    via records_decreases
{
    if has_delimiter(text) {
        let i = first_delimiter(text);
        seq![text.subrange(0, i + 3)] + records(text.subrange(i + 4, text.len() as int))
    } else {
        Seq::empty()
    }
}

#[via_fn]
proof fn records_decreases(text: Seq<u8>) {
    if has_delimiter(text) {
        lemma_first_delimiter(text);
    }
}

/// What is left of `text` behind its last complete record: the beginning of a
/// record whose end has not arrived.
pub open spec fn remainder(text: Seq<u8>) -> Seq<u8>
    decreases text.len(),
    via remainder_decreases
{
    if has_delimiter(text) {
        remainder(text.subrange(first_delimiter(text) + 4, text.len() as int))
    } else {
        text
    }
}

#[via_fn]
proof fn remainder_decreases(text: Seq<u8>) {
    if has_delimiter(text) {
        lemma_first_delimiter(text);
    }
}

proof fn lemma_least_delimiter(text: Seq<u8>, bound: int)
    requires
        delimiter_at(text, bound),
    ensures
        exists|i: int| is_first_delimiter(text, i),
    decreases bound,
{
    if exists|j: int| 0 <= j < bound && delimiter_at(text, j) {
        let j = choose|j: int| 0 <= j < bound && delimiter_at(text, j);
        lemma_least_delimiter(text, j);
    } else {
        assert(is_first_delimiter(text, bound));
    }
}

/// A text with a delimiter has a first one.
pub proof fn lemma_first_delimiter(text: Seq<u8>)
    requires
        has_delimiter(text),
    ensures
        is_first_delimiter(text, first_delimiter(text)),
{
    let i = choose|i: int| delimiter_at(text, i);
    lemma_least_delimiter(text, i);
}

/// There is only one first delimiter.
pub proof fn lemma_first_delimiter_is(text: Seq<u8>, i: int)
    requires
        is_first_delimiter(text, i),
    ensures
        has_delimiter(text),
        first_delimiter(text) == i,
{
    lemma_first_delimiter(text);
}

/// The delimiter found in the first part of a text is found again when more
/// text follows: what was framed stays framed, and only the unfinished rest
/// is read together with what comes next.
pub proof fn lemma_records_append(a: Seq<u8>, b: Seq<u8>)
    ensures
        records(a + b) == records(a) + records(remainder(a) + b),
        remainder(a + b) == remainder(remainder(a) + b),
    decreases a.len(),
{
    if has_delimiter(a) {
        lemma_first_delimiter(a);
        let i = first_delimiter(a);
        let whole = a + b;
        assert(is_first_delimiter(whole, i)) by {
            assert forall|j: int| 0 <= j < i implies !delimiter_at(whole, j) by {
                if delimiter_at(whole, j) {
                    assert(delimiter_at(a, j));
                }
            }
        }
        lemma_first_delimiter_is(whole, i);
        let tail = a.subrange(i + 4, a.len() as int);
        assert(whole.subrange(i + 4, whole.len() as int) == tail + b);
        assert(whole.subrange(0, i + 3) == a.subrange(0, i + 3));
        lemma_records_append(tail, b);
    }
}

/// Cutting a valid text at a delimiter leaves valid text on both sides.
pub proof fn lemma_cut_keeps_utf8(text: Seq<u8>, i: int)
    requires
        valid_utf8(text),
        delimiter_at(text, i),
    ensures
        valid_utf8(text.subrange(0, i + 3)),
        valid_utf8(text.subrange(i + 4, text.len() as int)),
{
    is_char_boundary_iff_not_is_continuation_byte(text, i + 3);
    valid_utf8_split(text, i + 3);
    let tail = text.subrange(i + 3, text.len() as int);
    assert(pop_first_scalar(tail) == text.subrange(i + 4, text.len() as int));
}

/// Every record of a valid text is valid text, and so is the remainder, which
/// holds no delimiter.
pub proof fn lemma_records_of_utf8(text: Seq<u8>)
    requires
        valid_utf8(text),
    ensures
        forall|k: int| 0 <= k < records(text).len() ==> valid_utf8(#[trigger] records(text)[k]),
        valid_utf8(remainder(text)),
        !has_delimiter(remainder(text)),
    decreases text.len(),
{
    if has_delimiter(text) {
        lemma_first_delimiter(text);
        let i = first_delimiter(text);
        lemma_cut_keeps_utf8(text, i);
        let tail = text.subrange(i + 4, text.len() as int);
        lemma_records_of_utf8(tail);
        assert forall|k: int| 0 <= k < records(text).len() implies valid_utf8(
            #[trigger] records(text)[k],
        ) by {
            if k > 0 {
                assert(records(text)[k] == records(tail)[k - 1]);
            }
        }
    }
}

/// The texts that a list of byte vectors holds.
pub open spec fn texts(records: Seq<Vec<u8>>) -> Seq<Seq<u8>> {
    records.map_values(|record: Vec<u8>| record@)
}

/// Where in `text` the first delimiter at or behind `from` starts.
pub fn find_delimiter(text: &[u8], from: usize) -> (found: Option<usize>)
    ensures
        match found {
            Some(i) => {
                &&& from <= i
                &&& delimiter_at(text@, i as int)
                &&& forall|j: int| from <= j < i ==> !delimiter_at(text@, j)
            },
            None => forall|j: int| from <= j ==> !delimiter_at(text@, j),
        },
{
    let n = text.len();
    if n < 4 || from > n - 4 {
        return None;
    }
    let mut i = from;
    while i <= n - 4
        invariant
            n == text@.len(),
            n >= 4,
            from <= i,
            forall|j: int| from <= j < i ==> !delimiter_at(text@, j),
        decreases n - i,
    {
        if text[i] == 0x7D && text[i + 1] == 0x5D && text[i + 2] == 0x7D && text[i + 3] == 0x2C {
            return Some(i);
        }
        i += 1;
    }
    None
}

/// What a framer holds between two chunks.
pub struct FramerView {
    /// Bytes that arrived but do not yet read as text.
    pub pending: Seq<u8>,
    /// Text that belongs to a record whose end has not arrived.
    pub text: Seq<u8>,
}

/// What `chunk` does to a framer: the state it leaves and the records it
/// completes. The chunk joins the pending bytes. While those are not valid
/// UTF-8 they wait. Once they are, they become text, every complete record
/// leaves, and only the unfinished rest stays.
pub open spec fn feed_spec(state: FramerView, chunk: Seq<u8>) -> (FramerView, Seq<Seq<u8>>) {
    let joined = state.pending + chunk;
    if valid_utf8(joined) {
        (
            FramerView { pending: Seq::empty(), text: remainder(state.text + joined) },
            records(state.text + joined),
        )
    } else {
        (FramerView { pending: joined, text: state.text }, Seq::empty())
    }
}

/// A framer that has seen nothing.
pub open spec fn fresh() -> FramerView {
    FramerView { pending: Seq::empty(), text: Seq::empty() }
}

/// The bytes of all chunks, one behind the other.
pub open spec fn joined(chunks: Seq<Seq<u8>>) -> Seq<u8>
    decreases chunks.len(),
{
    if chunks.len() == 0 {
        Seq::empty()
    } else {
        joined(chunks.drop_last()) + chunks.last()
    }
}

/// What a run of chunks does to a framer: the state it leaves and all the
/// records it completes on the way.
pub open spec fn feed_all(state: FramerView, chunks: Seq<Seq<u8>>) -> (FramerView, Seq<Seq<u8>>)
    decreases chunks.len(),
{
    if chunks.len() == 0 {
        (state, Seq::empty())
    } else {
        let before = feed_all(state, chunks.drop_last());
        let last = feed_spec(before.0, chunks.last());
        (last.0, before.1 + last.1)
    }
}

/// The remainder of a text is its end: the part behind some offset.
pub proof fn lemma_remainder_is_suffix(text: Seq<u8>) -> (start: int)
    ensures
        0 <= start <= text.len(),
        remainder(text) == text.subrange(start, text.len() as int),
        !has_delimiter(remainder(text)),
    decreases text.len(),
{
    if has_delimiter(text) {
        lemma_first_delimiter(text);
        let i = first_delimiter(text);
        let tail = text.subrange(i + 4, text.len() as int);
        let inner = lemma_remainder_is_suffix(tail);
        i + 4 + inner
    } else {
        0
    }
}

/// Where a fresh framer stands after a run of chunks. The bytes so far split
/// into a part that was read as text and the pending bytes behind it. The
/// records handed out are those of the part that was read, the text held is
/// its remainder, and pending bytes only wait while they are not valid UTF-8.
pub proof fn lemma_feed_all(chunks: Seq<Seq<u8>>) -> (read: int)
    ensures
        0 <= read <= joined(chunks).len(),
        joined(chunks).subrange(read, joined(chunks).len() as int) == feed_all(
            fresh(),
            chunks,
        ).0.pending,
        valid_utf8(joined(chunks).subrange(0, read)),
        feed_all(fresh(), chunks).1 == records(joined(chunks).subrange(0, read)),
        feed_all(fresh(), chunks).0.text == remainder(joined(chunks).subrange(0, read)),
        feed_all(fresh(), chunks).0.pending.len() > 0 ==> !valid_utf8(
            feed_all(fresh(), chunks).0.pending,
        ),
    decreases chunks.len(),
{
    if chunks.len() == 0 {
        0
    } else {
        let init = chunks.drop_last();
        let chunk = chunks.last();
        let before = lemma_feed_all(init);
        let mid = feed_all(fresh(), init).0;
        let all = joined(chunks);
        let done = joined(init).subrange(0, before);
        let fed = mid.pending + chunk;
        assert(all.subrange(0, before) == done);
        if valid_utf8(fed) {
            valid_utf8_concat(done, fed);
            assert(done + fed == all);
            assert(all.subrange(0, all.len() as int) == all);
            lemma_records_append(done, fed);
            all.len() as int
        } else {
            before
        }
    }
}

/// Chunk boundaries do not matter. However a stream of valid UTF-8 is cut into
/// chunks, inside a record or inside a character, a fresh framer hands out
/// the records of the whole stream, in its order, and ends where it would
/// after taking the stream as one chunk.
pub proof fn lemma_chunking_is_irrelevant(chunks: Seq<Seq<u8>>)
    requires
        valid_utf8(joined(chunks)),
    ensures
        feed_all(fresh(), chunks) == feed_spec(fresh(), joined(chunks)),
        feed_all(fresh(), chunks).1 == records(joined(chunks)),
        feed_all(fresh(), chunks).0 == (FramerView {
            pending: Seq::empty(),
            text: remainder(joined(chunks)),
        }),
{
    let all = joined(chunks);
    let read = lemma_feed_all(chunks);
    if read < all.len() {
        partial_valid_partial_invalid_utf8(all, read);
    }
    assert(all.subrange(0, read) == all);
}

/// The framer holds no more text than one record is long. If no stretch of
/// the stream without a delimiter is longer than `bound`, the text held after
/// any run of chunks is at most `bound` long, whatever the length of the
/// stream; and no byte is pending when the stream so far is valid UTF-8.
pub proof fn lemma_held_text_is_bounded(chunks: Seq<Seq<u8>>, bound: nat)
    requires
        forall|i: int, j: int|
            0 <= i <= j <= joined(chunks).len() && !has_delimiter(
                #[trigger] joined(chunks).subrange(i, j),
            ) ==> j - i <= bound,
    ensures
        feed_all(fresh(), chunks).0.text.len() <= bound,
        valid_utf8(joined(chunks)) ==> feed_all(fresh(), chunks).0.pending.len() == 0,
{
    let all = joined(chunks);
    let read = lemma_feed_all(chunks);
    let done = all.subrange(0, read);
    let start = lemma_remainder_is_suffix(done);
    assert(done.subrange(start, done.len() as int) == all.subrange(start, read));
    if valid_utf8(all) {
        lemma_chunking_is_irrelevant(chunks);
    }
}

/// Cuts a byte stream that arrives in chunks into record texts, holding no
/// more than the unfinished end of the stream.
pub struct Framer {
    pending: Vec<u8>,
    text: Vec<u8>,
}

impl View for Framer {
    type V = FramerView;

    closed spec fn view(&self) -> FramerView {
        FramerView { pending: self.pending@, text: self.text@ }
    }
}

impl Framer {
    #[verifier::type_invariant]
    spec fn complete_text(self) -> bool {
        valid_utf8(self.text@) && !has_delimiter(self.text@)
    }

    /// A framer that has seen nothing.
    pub fn new() -> (framer: Framer)
        ensures
            framer@ == fresh(),
    {
        Framer { pending: Vec::new(), text: Vec::new() }
    }

    /// The number of bytes that wait to read as text.
    pub fn pending_len(&self) -> (len: usize)
        ensures
            len == self@.pending.len(),
    {
        self.pending.len()
    }

    /// The number of bytes of unfinished text.
    pub fn text_len(&self) -> (len: usize)
        ensures
            len == self@.text.len(),
    {
        self.text.len()
    }

    /// Takes the next chunk of the stream and hands out the records that it
    /// completes, in the order of the stream.
    pub fn feed(&mut self, chunk: &[u8]) -> (produced: Vec<Vec<u8>>)
        ensures
            final(self)@ == feed_spec(old(self)@, chunk@).0,
            texts(produced@) == feed_spec(old(self)@, chunk@).1,
            forall|k: int| 0 <= k < produced.len() ==> valid_utf8(#[trigger] produced[k]@),
    {
        proof {
            use_type_invariant(&*self);
        }
        let ghost before = self@;
        let mut pending: Vec<u8> = Vec::new();
        core::mem::swap(&mut self.pending, &mut pending);
        pending.extend_from_slice(chunk);
        assert(pending@ == before.pending + chunk@);
        if utf8_text(pending.as_slice()).is_none() {
            self.pending = pending;
            let produced: Vec<Vec<u8>> = Vec::new();
            return produced;
        }
        let mut text: Vec<u8> = Vec::new();
        core::mem::swap(&mut self.text, &mut text);
        text.append(&mut pending);
        let ghost whole = text@;
        proof {
            valid_utf8_concat(before.text, before.pending + chunk@);
            assert(whole.subrange(0, whole.len() as int) == whole);
            lemma_records_of_utf8(whole);
        }
        let mut produced: Vec<Vec<u8>> = Vec::new();
        let mut start: usize = 0;
        loop
            invariant
                text@ == whole,
                start <= whole.len(),
                valid_utf8(whole.subrange(start as int, whole.len() as int)),
                records(whole) == texts(produced@) + records(
                    whole.subrange(start as int, whole.len() as int),
                ),
                remainder(whole) == remainder(whole.subrange(start as int, whole.len() as int)),
                forall|k: int| 0 <= k < produced.len() ==> valid_utf8(#[trigger] produced[k]@),
            ensures
                !has_delimiter(whole.subrange(start as int, whole.len() as int)),
            decreases whole.len() - start,
        {
            let ghost rest = whole.subrange(start as int, whole.len() as int);
            match find_delimiter(text.as_slice(), start) {
                None => {
                    assert forall|j: int| !delimiter_at(rest, j) by {
                        if delimiter_at(rest, j) {
                            assert(delimiter_at(whole, start + j));
                        }
                    }
                    break ;
                },
                Some(i) => {
                    assert(i + 4 <= text.len());
                    let record = slice_to_vec(slice_subrange(text.as_slice(), start, i + 3));
                    proof {
                        let at = i - start;
                        assert(is_first_delimiter(rest, at)) by {
                            assert forall|j: int| 0 <= j < at implies !delimiter_at(rest, j) by {
                                if delimiter_at(rest, j) {
                                    assert(delimiter_at(whole, start + j));
                                }
                            }
                        }
                        lemma_first_delimiter_is(rest, at);
                        lemma_cut_keeps_utf8(rest, at);
                        assert(rest.subrange(0, at + 3) == record@);
                        assert(rest.subrange(at + 4, rest.len() as int) == whole.subrange(
                            i + 4,
                            whole.len() as int,
                        ));
                    }
                    produced.push(record);
                    start = i + 4;
                },
            }
        }
        let rest = text.split_off(start);
        self.text = rest;
        produced
    }
}

} // verus!
