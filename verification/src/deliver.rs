//! The outbound side of a turn: the latency reply with its elapsed value
//! substituted, and the delivery plan for a generation outcome — the
//! chunked segments on success, first as a reply and then as plain posts,
//! or a single apology reply on failure.

use vstd::prelude::*;
use vstd::utf8::encode_utf8;
use vstd::string::StrSliceExecFns;
use crate::text::{find_from, find, copy_range};
use crate::num::{dec_digits, dec_digits_pad2, format_u64, format_u64_pad2};
use crate::chunk::{rendered_bodies, segment_text, render, render_footer};

verus! {

/// How one generation attempt failed: the transport broke, the backend
/// answered with a failure, or its body could not be decoded.
pub enum GenerationFailure {
    Transport,
    Backend,
    Decode,
}

/// Gateway semantics of one outbound message: a threaded reply to the
/// triggering message, or a plain post to its channel.
pub enum SendKind {
    Reply,
    Post,
}

/// One message to send, with its gateway semantics.
pub struct Outbound {
    pub kind: SendKind,
    pub text: Vec<u8>,
}

/// The fixed apology sent when generation fails.
pub open spec fn apology() -> Seq<u8> {
    encode_utf8("Sorry, there was a problem generating a response."@)
}

/// The numeric placeholder of a static reply template.
pub open spec fn placeholder() -> Seq<u8> {
    encode_utf8("{:.2}"@)
}

/// `template` with the first occurrence of `pat` replaced by `repl`, or
/// unchanged when `pat` does not occur.
pub open spec fn subst_first(template: Seq<u8>, pat: Seq<u8>, repl: Seq<u8>) -> Seq<u8> {
    match find_from(template, pat, 0) {
        None => template,
        Some(i) => template.subrange(0, i) + repl + template.skip(i + pat.len()),
    }
}

/// An elapsed time in hundredths of a microsecond, rendered as
/// microseconds with two decimal places.
pub open spec fn latency_digits(e: nat) -> Seq<u8> {
    dec_digits(e / 100) + seq![46u8] + dec_digits_pad2(e % 100)
}

/// The latency reply: the template with the elapsed value substituted at
/// its numeric placeholder.
pub open spec fn ping_text(template: Seq<u8>, e: nat) -> Seq<u8> {
    subst_first(template, placeholder(), latency_digits(e))
}

/// `template` with the first `pat` replaced by `repl`, per
/// [`subst_first`].
pub fn substitute_first(template: &[u8], pat: &[u8], repl: &[u8]) -> (r: Vec<u8>)
    ensures
        r@ == subst_first(template@, pat@, repl@),
{
    let n: usize = template.len();
    match find(template, pat, 0) {
        None => {
            let r = copy_range(template, 0, n);
            assert(r@ =~= template@);
            r
        },
        Some(i) => {
            proof {
                crate::text::lemma_find_from(template@, pat@, 0);
            }
            let mut r = copy_range(template, 0, i);
            let mut mid = copy_range(repl, 0, repl.len());
            assert(mid@ =~= repl@);
            r.append(&mut mid);
            let mut rest = copy_range(template, i + pat.len(), n);
            assert(rest@ =~= template@.skip(i + pat@.len()));
            r.append(&mut rest);
            r
        },
    }
}

/// The elapsed value rendered to two decimal places, per
/// [`latency_digits`].
pub fn render_latency(elapsed_hundredths_us: u64) -> (r: Vec<u8>)
    ensures
        r@ == latency_digits(elapsed_hundredths_us as nat),
{
    let mut r = format_u64(elapsed_hundredths_us / 100);
    r.push(46u8);
    let mut frac = format_u64_pad2(elapsed_hundredths_us % 100);
    r.append(&mut frac);
    assert(r@ =~= latency_digits(elapsed_hundredths_us as nat));
    r
}

/// The latency reply for a template and a measured elapsed time, per
/// [`ping_text`].
pub fn render_ping(template: &[u8], elapsed_hundredths_us: u64) -> (r: Vec<u8>)
    ensures
        r@ == ping_text(template@, elapsed_hundredths_us as nat),
{
    let repl = render_latency(elapsed_hundredths_us);
    let placeholder_bytes = "{:.2}".as_bytes_vec();
    substitute_first(template, placeholder_bytes.as_slice(), repl.as_slice())
}

/// The delivery plan for one generation outcome. On success the raw output
/// is rendered into segments, the first delivered as a reply and the rest
/// as posts; on failure the plan is exactly one apology reply and no
/// segment at all.
pub fn plan_generation(outcome: &Result<Vec<u8>, GenerationFailure>, limit: usize) -> (r: Vec<
    Outbound,
>)
    requires
        limit >= 1,
    ensures
        match outcome {
            Ok(raw) => {
                let bodies = rendered_bodies(raw@, limit as nat);
                &&& r@.len() == bodies.len()
                &&& forall|i: int|
                    0 <= i < r@.len() ==> r@[i].text@ == segment_text(
                        bodies[i],
                        (i + 1) as nat,
                        bodies.len(),
                    )
                &&& forall|i: int| 0 <= i < r@.len() ==> (r@[i].kind is Reply <==> i == 0)
            },
            Err(_) => r@.len() == 1 && r@[0].kind is Reply && r@[0].text@ == apology(),
        },
{
    match outcome {
        Err(_) => {
            let text = "Sorry, there was a problem generating a response.".as_bytes_vec();
            let mut r: Vec<Outbound> = Vec::new();
            r.push(Outbound { kind: SendKind::Reply, text });
            r
        },
        Ok(raw) => {
            let segs = render(raw.as_slice(), limit);
            let mut r: Vec<Outbound> = Vec::new();
            let n: usize = segs.len();
            let ghost bodies = rendered_bodies(raw@, limit as nat);
            let mut i: usize = 0;
            while i < n
                invariant
                    n == segs@.len(),
                    n == bodies.len(),
                    forall|k: int| 0 <= k < n ==> segs@[k].body@ == bodies[k],
                    forall|k: int| 0 <= k < n ==> segs@[k].index == k + 1 && segs@[k].total == n,
                    0 <= i <= n,
                    r@.len() == i,
                    forall|k: int|
                        0 <= k < i ==> r@[k].text@ == segment_text(bodies[k], (k + 1) as nat, n as nat),
                    forall|k: int| 0 <= k < i ==> (r@[k].kind is Reply <==> k == 0),
                decreases n - i,
            {
                let seg = &segs[i];
                let mut text = copy_range(seg.body.as_slice(), 0, seg.body.len());
                assert(text@ =~= seg.body@);
                let mut foot = render_footer(seg.index, seg.total);
                text.append(&mut foot);
                let kind = if i == 0 {
                    SendKind::Reply
                } else {
                    SendKind::Post
                };
                r.push(Outbound { kind, text });
                i = i + 1;
            }
            r
        },
    }
}

} // verus!
