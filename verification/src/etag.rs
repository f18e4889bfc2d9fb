//! Stream ETags: an opaque version token derived from the pair
//! `(current_offset, total_bytes)`, rendered as `"offset:bytes"` including
//! the quotes. The token is proved injective in that pair, so it changes
//! exactly when one of the two counters changes.

use vstd::prelude::*;

use crate::numstr::{all_dec_digits, dec_rep, is_dec_digit, lemma_dec_rep_digits,
    lemma_dec_rep_injective, u64_to_dec};

verus! {

/// The ETag text for a given offset and byte count.
pub open spec fn etag_of(offset: u64, bytes: u64) -> Seq<char> {
    seq!['"'] + dec_rep(offset as nat) + seq![':'] + dec_rep(bytes as nat) + seq!['"']
}

/// Renders the ETag for an offset and byte count.
pub fn generate_etag(offset: u64, bytes: u64) -> (r: String)
    ensures
        r@ == etag_of(offset, bytes),
{
    proof {
        reveal_strlit("\"");
        reveal_strlit(":");
    }
    let mut r = String::from_str("\"");
    r.append(u64_to_dec(offset).as_str());
    r.append(":");
    r.append(u64_to_dec(bytes).as_str());
    r.append("\"");
    proof {
        assert(r@ =~= etag_of(offset, bytes));
    }
    r
}

/// ETag determinism: two ETags are equal exactly when both the offset and
/// the byte count agree. So any append (which raises the offset) and any
/// delete (which lowers the byte count) changes the ETag.
pub proof fn lemma_etag_injective(o1: u64, b1: u64, o2: u64, b2: u64)
    ensures
        etag_of(o1, b1) == etag_of(o2, b2) <==> (o1 == o2 && b1 == b2),
{
    if o1 == o2 && b1 == b2 {
        assert(etag_of(o1, b1) == etag_of(o2, b2));
    }
    if etag_of(o1, b1) == etag_of(o2, b2) {
        let s = etag_of(o1, b1);
        let r1 = dec_rep(o1 as nat);
        let r2 = dec_rep(o2 as nat);
        let t1 = dec_rep(b1 as nat);
        let t2 = dec_rep(b2 as nat);
        lemma_dec_rep_digits(o1 as nat);
        lemma_dec_rep_digits(o2 as nat);
        lemma_dec_rep_digits(b1 as nat);
        lemma_dec_rep_digits(b2 as nat);
        let l1 = r1.len() as int;
        let l2 = r2.len() as int;
        // The first colon sits right after the offset digits; digits are
        // never colons, so both offset fields have the same width.
        assert(s[1 + l1] == ':');
        assert(forall|i: int| 0 <= i < l2 ==> is_dec_digit(#[trigger] r2[i]));
        assert(forall|i: int| 1 <= i < 1 + l2 ==> #[trigger] s[i] == r2[i - 1]);
        if l1 < l2 {
            assert(s[1 + l1] == r2[l1]);
            assert(is_dec_digit(r2[l1]));
            assert(false);
        }
        assert(s[1 + l2] == ':');
        if l2 < l1 {
            assert(s[1 + l2] == r1[l2]);
            assert(is_dec_digit(r1[l2]));
            assert(false);
        }
        assert(l1 == l2);
        assert(r1 =~= r2) by {
            assert(forall|i: int| 0 <= i < l1 ==> #[trigger] r1[i] == s[i + 1] && r2[i] == s[i
                + 1]);
        }
        lemma_dec_rep_injective(o1 as nat, o2 as nat);
        // Total lengths agree, so the byte-count fields have the same width
        // and sit at the same indices.
        assert(s.len() == 3 + l1 + t1.len());
        assert(s.len() == 3 + l2 + t2.len());
        assert(t1.len() == t2.len());
        assert(t1 =~= t2) by {
            assert(forall|i: int| 0 <= i < t1.len() ==> #[trigger] t1[i] == s[i + 2 + l1]
                && t2[i] == s[i + 2 + l1]);
        }
        lemma_dec_rep_injective(b1 as nat, b2 as nat);
    }
}

} // verus!
