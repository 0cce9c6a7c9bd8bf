//! Response post-processing: reasoning spans are stripped, the remainder is
//! trimmed and split into ordered segments of at most `limit` bytes, and
//! each segment is given a pagination footer.

use vstd::prelude::*;
use vstd::utf8::encode_utf8;
use vstd::string::StrSliceExecFns;
use crate::text::{trimmed, trim, copy_range};
use crate::strip::{strip_spans, strip_reasoning};
use crate::num::{dec_digits, format_u64};

verus! {

/// The default byte bound of one segment body.
pub const DEFAULT_CHUNK_LIMIT: usize = 1800;

/// Open marker of a reasoning span.
pub open spec fn think_open() -> Seq<u8> {
    encode_utf8("<think>"@)
}

/// Close marker of a reasoning span.
pub open spec fn think_close() -> Seq<u8> {
    encode_utf8("</think>"@)
}

/// The UTF-8 encoding of a character sequence is at least as long as the
/// sequence itself.
pub proof fn lemma_encode_utf8_len(chars: Seq<char>)
    ensures
        encode_utf8(chars).len() >= chars.len(),
    decreases chars.len(),
{
    if chars.len() == 0 {
    } else {
        lemma_encode_utf8_len(chars.drop_first());
    }
}

/// `s` split into contiguous pieces of at most `limit` bytes, in order,
/// with no byte dropped; an empty `s` yields a single empty piece.
pub open spec fn chunks_of(s: Seq<u8>, limit: nat) -> Seq<Seq<u8>>
    decreases s.len(),
        when limit >= 1
{
    if s.len() <= limit {
        seq![s]
    } else {
        seq![s.take(limit as int)] + chunks_of(s.skip(limit as int), limit)
    }
}

/// Splitting loses nothing and respects the size bound: the pieces of
/// [`chunks_of`] concatenate back to the input, each is at most `limit`
/// bytes long, and there is always at least one.
pub proof fn lemma_chunks_round_trip(s: Seq<u8>, limit: nat)
    requires
        limit >= 1,
    ensures
        chunks_of(s, limit).len() >= 1,
        chunks_of(s, limit).flatten() == s,
        forall|i: int| 0 <= i < chunks_of(s, limit).len() ==> chunks_of(s, limit)[i].len()
            <= limit,
    decreases s.len(),
{
    if s.len() <= limit {
        let cs = chunks_of(s, limit);
        assert(cs == seq![s]);
        cs.lemma_flatten_one_element();
    } else {
        let rest = chunks_of(s.skip(limit as int), limit);
        lemma_chunks_round_trip(s.skip(limit as int), limit);
        let cs = chunks_of(s, limit);
        assert(cs == seq![s.take(limit as int)] + rest);
        assert(cs.drop_first() =~= rest);
        assert(cs.flatten() == s.take(limit as int) + rest.flatten());
        assert(s.take(limit as int) + s.skip(limit as int) =~= s);
        assert(forall|i: int| 1 <= i < cs.len() ==> cs[i] == rest[i - 1]);
    }
}

/// The views of a list of byte vectors.
pub open spec fn views_of(vs: Seq<Vec<u8>>) -> Seq<Seq<u8>> {
    vs.map_values(|v: Vec<u8>| v@)
}

/// `s` split per [`chunks_of`].
pub fn chunk_bytes(s: &[u8], limit: usize) -> (r: Vec<Vec<u8>>)
    requires
        limit >= 1,
    ensures
        views_of(r@) == chunks_of(s@, limit as nat),
{
    let n: usize = s.len();
    let mut r: Vec<Vec<u8>> = Vec::new();
    let mut pos: usize = 0;
    assert(views_of(r@) =~= Seq::<Seq<u8>>::empty());
    assert(s@.skip(0) =~= s@);
    while n - pos > limit
        invariant
            limit >= 1,
            pos <= n,
            n == s@.len(),
            views_of(r@) + chunks_of(s@.skip(pos as int), limit as nat) == chunks_of(
                s@,
                limit as nat,
            ),
        decreases n - pos,
    {
        let ghost oldpos = pos as int;
        let ghost oldviews = views_of(r@);
        let piece = copy_range(s, pos, pos + limit);
        r.push(piece);
        pos = pos + limit;
        proof {
            let tail = s@.skip(oldpos);
            assert(tail.take(limit as int) =~= s@.subrange(oldpos, oldpos + limit));
            assert(tail.skip(limit as int) =~= s@.skip(oldpos + limit));
            assert(chunks_of(tail, limit as nat) == seq![s@.subrange(oldpos, oldpos + limit)]
                + chunks_of(s@.skip(oldpos + limit), limit as nat));
            assert(views_of(r@) =~= oldviews + seq![s@.subrange(oldpos, oldpos + limit)]);
            assert(views_of(r@) + chunks_of(s@.skip(pos as int), limit as nat) =~= oldviews + (
            seq![s@.subrange(oldpos, oldpos + limit)] + chunks_of(
                s@.skip(oldpos + limit),
                limit as nat,
            )));
        }
    }
    let ghost oldviews = views_of(r@);
    let last = copy_range(s, pos, n);
    r.push(last);
    proof {
        let tail = s@.skip(pos as int);
        assert(tail =~= s@.subrange(pos as int, n as int));
        assert(chunks_of(tail, limit as nat) == seq![tail]);
        assert(views_of(r@) =~= oldviews + seq![tail]);
    }
    r
}

/// One deliverable piece of a response: its text before the footer, its
/// 1-based position and the total number of pieces.
pub struct Segment {
    pub body: Vec<u8>,
    pub index: usize,
    pub total: usize,
}

/// The fixed disclaimer line that opens every footer.
pub open spec fn footer_lead() -> Seq<u8> {
    encode_utf8(
        "\n-# AI can be wrong, please check information and do not misuse to provide harmful information\n-# "@,
    )
}

/// The footer appended to the segment at position `i` of `n`: the
/// disclaimer followed by `i/n`.
pub open spec fn footer(i: nat, n: nat) -> Seq<u8> {
    footer_lead() + dec_digits(i) + seq![47u8] + dec_digits(n)
}

/// The footer for position `i` of `n`, per [`footer`].
pub fn render_footer(i: usize, n: usize) -> (r: Vec<u8>)
    ensures
        r@ == footer(i as nat, n as nat),
{
    let mut r: Vec<u8> = "\n-# AI can be wrong, please check information and do not misuse to provide harmful information\n-# ".as_bytes_vec();
    let mut idx = format_u64(i as u64);
    r.append(&mut idx);
    r.push(47u8);
    let mut tot = format_u64(n as u64);
    r.append(&mut tot);
    assert(r@ =~= footer(i as nat, n as nat));
    r
}

/// The full text of a segment: its body followed by its footer.
pub open spec fn segment_text(body: Seq<u8>, i: nat, n: nat) -> Seq<u8> {
    body + footer(i, n)
}

/// The body of every segment of `raw` under `limit`: the reasoning spans
/// are stripped, the remainder trimmed, and the result split per
/// [`chunks_of`].
pub open spec fn rendered_bodies(raw: Seq<u8>, limit: nat) -> Seq<Seq<u8>> {
    chunks_of(trimmed(strip_spans(raw, think_open(), think_close())), limit)
}

/// Rendering loses nothing: the segment bodies of any raw output
/// concatenate back to the stripped and trimmed text exactly, every body
/// is at most `limit` bytes, and there is always at least one segment.
pub proof fn lemma_render_round_trip(raw: Seq<u8>, limit: nat)
    requires
        limit >= 1,
    ensures
        rendered_bodies(raw, limit).flatten() == trimmed(
            strip_spans(raw, think_open(), think_close()),
        ),
        forall|i: int| 0 <= i < rendered_bodies(raw, limit).len() ==> rendered_bodies(
            raw,
            limit,
        )[i].len() <= limit,
        rendered_bodies(raw, limit).len() >= 1,
{
    lemma_chunks_round_trip(trimmed(strip_spans(raw, think_open(), think_close())), limit);
}

/// The segments of a raw generated output: reasoning spans stripped, the
/// remainder trimmed and split into at most `limit`-byte bodies, numbered
/// from 1 and all carrying the total count.
pub fn render(raw: &[u8], limit: usize) -> (segs: Vec<Segment>)
    requires
        limit >= 1,
    ensures
        segs@.len() == rendered_bodies(raw@, limit as nat).len(),
        forall|i: int| 0 <= i < segs@.len() ==> segs@[i].body@ == rendered_bodies(
            raw@,
            limit as nat,
        )[i],
        forall|i: int| 0 <= i < segs@.len() ==> segs@[i].index == i + 1 && segs@[i].total
            == segs@.len(),
{
    let open = "<think>".as_bytes_vec();
    let close = "</think>".as_bytes_vec();
    proof {
        reveal_strlit("<think>");
        reveal_strlit("</think>");
        lemma_encode_utf8_len("<think>"@);
        lemma_encode_utf8_len("</think>"@);
    }
    let stripped = strip_reasoning(raw, open.as_slice(), close.as_slice());
    let base = trim(stripped.as_slice());
    let bodies = chunk_bytes(base.as_slice(), limit);
    let total: usize = bodies.len();
    let mut segs: Vec<Segment> = Vec::new();
    let mut i: usize = 0;
    while i < total
        invariant
            total == bodies@.len(),
            views_of(bodies@) == rendered_bodies(raw@, limit as nat),
            0 <= i <= total,
            segs@.len() == i,
            forall|k: int| 0 <= k < i ==> segs@[k].body@ == views_of(bodies@)[k],
            forall|k: int| 0 <= k < i ==> segs@[k].index == k + 1 && segs@[k].total == total,
        decreases total - i,
    {
        let body = copy_range(bodies[i].as_slice(), 0, bodies[i].len());
        assert(body@ =~= bodies@[i as int]@);
        segs.push(Segment { body, index: i + 1, total });
        i = i + 1;
    }
    segs
}

} // verus!
