//! Removal of delimited reasoning spans from generated text: every
//! substring between an open marker and the next close marker is removed,
//! markers included, scanning left to right. An open marker with no close
//! marker after it is left in place, as is everything after it.

use vstd::prelude::*;
use crate::text::{find_from, lemma_find_from, find, copy_range};

verus! {

/// The remainder of `s` from `pos` on with every complete reasoning span
/// removed. The guards on the recursive step only restate what holds of
/// every occurrence [`find_from`] reports; they keep the recursion
/// well-founded.
pub open spec fn strip_from(s: Seq<u8>, open: Seq<u8>, close: Seq<u8>, pos: int) -> Seq<u8>
    decreases s.len() - pos,
        when 0 <= pos <= s.len()
{
    match find_from(s, open, pos) {
        None => s.skip(pos),
        Some(i) => match find_from(s, close, i + open.len()) {
            None => s.skip(pos),
            Some(j) => {
                if pos <= i && pos < j + close.len() <= s.len() {
                    s.subrange(pos, i) + strip_from(s, open, close, j + close.len())
                } else {
                    s.skip(pos)
                }
            },
        },
    }
}

/// `s` with every complete reasoning span removed.
pub open spec fn strip_spans(s: Seq<u8>, open: Seq<u8>, close: Seq<u8>) -> Seq<u8> {
    strip_from(s, open, close, 0)
}

/// Text without an open marker is left unchanged.
pub proof fn lemma_no_open_unchanged(s: Seq<u8>, open: Seq<u8>, close: Seq<u8>)
    requires
        find_from(s, open, 0) is None,
    ensures
        strip_spans(s, open, close) == s,
{
    assert(s.skip(0) =~= s);
}

/// Text whose first open marker is never followed by a close marker is
/// left unchanged.
pub proof fn lemma_unterminated_unchanged(s: Seq<u8>, open: Seq<u8>, close: Seq<u8>, i: int)
    requires
        find_from(s, open, 0) == Some(i),
        find_from(s, close, i + open.len()) is None,
    ensures
        strip_spans(s, open, close) == s,
{
    assert(s.skip(0) =~= s);
}

/// `s` with every complete reasoning span removed, per [`strip_spans`].
pub fn strip_reasoning(s: &[u8], open: &[u8], close: &[u8]) -> (r: Vec<u8>)
    requires
        open@.len() >= 1,
        close@.len() >= 1,
    ensures
        r@ == strip_spans(s@, open@, close@),
{
    let n: usize = s.len();
    let mut out: Vec<u8> = Vec::new();
    let mut pos: usize = 0;
    loop
        invariant
            open@.len() >= 1,
            close@.len() >= 1,
            n == s@.len(),
            0 <= pos <= s@.len(),
            out@ + strip_from(s@, open@, close@, pos as int) == strip_spans(s@, open@, close@),
        decreases s@.len() - pos,
    {
        let found_open = find(s, open, pos);
        proof {
            lemma_find_from(s@, open@, pos as int);
        }
        match found_open {
            None => {
                let mut rest = copy_range(s, pos, s.len());
                out.append(&mut rest);
                proof {
                    assert(s@.subrange(pos as int, s@.len() as int) =~= s@.skip(pos as int));
                }
                return out;
            },
            Some(i) => {
                proof {
                    assert(i + open@.len() <= n);
                    lemma_find_from(s@, close@, i + open@.len());
                }
                let found_close = find(s, close, i + open.len());
                match found_close {
                    None => {
                        let mut rest = copy_range(s, pos, s.len());
                        out.append(&mut rest);
                        proof {
                            assert(s@.subrange(pos as int, s@.len() as int) =~= s@.skip(
                                pos as int,
                            ));
                        }
                        return out;
                    },
                    Some(j) => {
                        let ghost prev = out@;
                        let ghost oldpos = pos as int;
                        let ghost next = j + close@.len();
                        let mut piece = copy_range(s, pos, i);
                        out.append(&mut piece);
                        assert(j + close@.len() <= n);
                        pos = j + close.len();
                        proof {
                            assert(strip_from(s@, open@, close@, oldpos) == s@.subrange(oldpos, i as int)
                                + strip_from(s@, open@, close@, next));
                            assert(out@ + strip_from(s@, open@, close@, next) =~= prev + (s@.subrange(
                                oldpos,
                                i as int,
                            ) + strip_from(s@, open@, close@, next)));
                        }
                    },
                }
            },
        }
    }
}

} // verus!
