//! Text helpers shared by the decoder, the loader and the interpreter.

use vstd::prelude::*;
use vstd::string::{StrSliceExecFns, StringExecFns, StringSliceAdditionalSpecFns};
use vstd::utf8::{encode_utf8, encode_utf8_decode_utf8};

verus! {

/// Two texts with the same UTF-8 encoding are the same text.
pub proof fn lemma_same_bytes_same_text(a: Seq<char>, b: Seq<char>)
    requires
        encode_utf8(a) == encode_utf8(b),
    ensures
        a == b,
{
    encode_utf8_decode_utf8(a);
    encode_utf8_decode_utf8(b);
}

/// Whether two texts hold the same characters.
pub fn str_eq(a: &str, b: &str) -> (same: bool)
    ensures
        same == (a@ == b@),
{
    let x = a.as_bytes();
    let y = b.as_bytes();
    if x.len() != y.len() {
        return false;
    }
    let mut i: usize = 0;
    while i < x.len()
        invariant
            i <= x.len(),
            x@.len() == y@.len(),
            x@ == encode_utf8(a@),
            y@ == encode_utf8(b@),
            forall|j: int| 0 <= j < i ==> x@[j] == y@[j],
        decreases x.len() - i,
    {
        if x[i] != y[i] {
            return false;
        }
        i += 1;
    }
    proof {
        assert(x@ =~= y@);
        lemma_same_bytes_same_text(a@, b@);
    }
    true
}

/// `text` with `/` in place of each `.`.
pub open spec fn slashed(text: Seq<char>) -> Seq<char> {
    Seq::new(
        text.len(),
        |i: int|
            if text[i] == '.' {
                '/'
            } else {
                text[i]
            },
    )
}

/// `text` with `/` in place of each `.`.
pub fn dots_to_slashes(text: &str) -> (r: String)
    ensures
        r@ == slashed(text@),
{
    let len = text.unicode_len();
    let mut out = String::new();
    let mut i: usize = 0;
    while i < len
        invariant
            i <= len,
            len == text@.len(),
            out@ == slashed(text@).take(i as int),
        decreases len - i,
    {
        if text.get_char(i) == '.' {
            out.append("/");
        } else {
            out.append(text.substring_char(i, i + 1));
        }
        i += 1;
        proof {
            reveal_strlit("/");
            assert(out@ =~= slashed(text@).take(i as int));
        }
    }
    assert(out@ =~= slashed(text@));
    out
}

} // verus!
