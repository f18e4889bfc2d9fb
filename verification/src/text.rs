//! Verified string utilities: equality, lexicographic order, trimming and
//! splitting, each proved against a spec-level definition on `Seq<char>`.

use vstd::prelude::*;

verus! {

/// Whether two string slices hold the same characters.
pub fn str_eq(a: &str, b: &str) -> (r: bool)
    ensures
        r == (a@ == b@),
{
    let x: String = a.to_owned();
    let y: String = b.to_owned();
    x == y
}

/// Strict lexicographic order on character sequences, by code point.
pub open spec fn lex_lt(a: Seq<char>, b: Seq<char>) -> bool
    decreases a.len(),
{
    if b.len() == 0 {
        false
    } else if a.len() == 0 {
        true
    } else if a[0] != b[0] {
        (a[0] as int) < (b[0] as int)
    } else {
        lex_lt(a.drop_first(), b.drop_first())
    }
}

/// Compares two strings lexicographically by character.
pub fn str_lex_lt(a: &str, b: &str) -> (r: bool)
    ensures
        r == lex_lt(a@, b@),
{
    let alen = a.unicode_len();
    let blen = b.unicode_len();
    let mut i: usize = 0;
    proof {
        assert(a@.skip(0) =~= a@);
        assert(b@.skip(0) =~= b@);
    }
    loop
        invariant
            i <= alen,
            i <= blen,
            alen == a@.len(),
            blen == b@.len(),
            lex_lt(a@, b@) == lex_lt(a@.skip(i as int), b@.skip(i as int)),
        decreases alen - i,
    {
        if i == blen {
            proof {
                assert(b@.skip(i as int) =~= Seq::<char>::empty());
            }
            return false;
        }
        if i == alen {
            proof {
                assert(a@.skip(i as int) =~= Seq::<char>::empty());
            }
            return true;
        }
        let ca = a.get_char(i);
        let cb = b.get_char(i);
        proof {
            assert(a@.skip(i as int)[0] == a@[i as int]);
            assert(b@.skip(i as int)[0] == b@[i as int]);
            assert(a@.skip(i as int).drop_first() =~= a@.skip(i as int + 1));
            assert(b@.skip(i as int).drop_first() =~= b@.skip(i as int + 1));
        }
        if ca != cb {
            return (ca as u32) < (cb as u32);
        }
        i = i + 1;
    }
}

/// The whitespace characters that trimming removes.
pub open spec fn is_space(c: char) -> bool {
    c == ' ' || c == '\t' || c == '\r' || c == '\n'
}

/// Index of the first non-space character, or the length when all are spaces.
pub open spec fn first_non_space(s: Seq<char>) -> int
    decreases s.len(),
{
    if s.len() == 0 {
        0
    } else if !is_space(s[0]) {
        0
    } else {
        1 + first_non_space(s.drop_first())
    }
}

/// One past the index of the last non-space character, or zero.
pub open spec fn last_non_space_end(s: Seq<char>) -> int
    decreases s.len(),
{
    if s.len() == 0 {
        0
    } else if !is_space(s.last()) {
        s.len() as int
    } else {
        last_non_space_end(s.drop_last())
    }
}

/// A string with leading and trailing whitespace removed.
pub open spec fn trimmed(s: Seq<char>) -> Seq<char> {
    if first_non_space(s) <= last_non_space_end(s) {
        s.subrange(first_non_space(s), last_non_space_end(s))
    } else {
        Seq::empty()
    }
}

proof fn lemma_first_non_space_bounds(s: Seq<char>)
    ensures
        0 <= first_non_space(s) <= s.len(),
        forall|i: int| 0 <= i < first_non_space(s) ==> is_space(#[trigger] s[i]),
        first_non_space(s) < s.len() ==> !is_space(s[first_non_space(s)]),
    decreases s.len(),
{
    if s.len() > 0 && is_space(s[0]) {
        lemma_first_non_space_bounds(s.drop_first());
        assert forall|i: int| 0 <= i < first_non_space(s) implies is_space(#[trigger] s[i]) by {
            if i > 0 {
                assert(s[i] == s.drop_first()[i - 1]);
            }
        }
        if first_non_space(s) < s.len() {
            assert(s[first_non_space(s)] == s.drop_first()[first_non_space(s) - 1]);
        }
    }
}

proof fn lemma_last_non_space_bounds(s: Seq<char>)
    ensures
        0 <= last_non_space_end(s) <= s.len(),
        forall|i: int| last_non_space_end(s) <= i < s.len() ==> is_space(#[trigger] s[i]),
        last_non_space_end(s) > 0 ==> !is_space(s[last_non_space_end(s) - 1]),
    decreases s.len(),
{
    if s.len() > 0 && is_space(s.last()) {
        lemma_last_non_space_bounds(s.drop_last());
        assert forall|i: int| last_non_space_end(s) <= i < s.len() implies is_space(
            #[trigger] s[i],
        ) by {
            if i < s.len() - 1 {
                assert(s[i] == s.drop_last()[i]);
            }
        }
        if last_non_space_end(s) > 0 {
            assert(s[last_non_space_end(s) - 1] == s.drop_last()[last_non_space_end(s) - 1]);
        }
    }
}

/// Whether an exec character is whitespace, mirroring `is_space`.
fn is_space_char(c: char) -> (r: bool)
    ensures
        r == is_space(c),
{
    c == ' ' || c == '\t' || c == '\r' || c == '\n'
}

/// Removes leading and trailing whitespace.
pub fn trim_spaces(s: &str) -> (r: String)
    ensures
        r@ == trimmed(s@),
{
    proof {
        lemma_first_non_space_bounds(s@);
        lemma_last_non_space_bounds(s@);
    }
    let len = s.unicode_len();
    let mut start: usize = 0;
    while start < len && is_space_char(s.get_char(start))
        invariant
            0 <= start <= len,
            len == s@.len(),
            start <= first_non_space(s@),
            forall|i: int| 0 <= i < start ==> is_space(#[trigger] s@[i]),
        decreases len - start,
    {
        proof {
            lemma_first_non_space_bounds(s@);
            if first_non_space(s@) == start {
                assert(!is_space(s@[start as int]));
            }
        }
        start = start + 1;
    }
    proof {
        lemma_first_non_space_bounds(s@);
        assert(start == first_non_space(s@));
    }
    let mut end: usize = len;
    while end > start && is_space_char(s.get_char(end - 1))
        invariant
            start <= end <= len,
            len == s@.len(),
            start == first_non_space(s@),
            last_non_space_end(s@) <= end || last_non_space_end(s@) < start,
            forall|i: int| end <= i < len ==> is_space(#[trigger] s@[i]),
        decreases end,
    {
        proof {
            lemma_last_non_space_bounds(s@);
            if last_non_space_end(s@) == end {
                assert(!is_space(s@[end - 1]));
            }
        }
        end = end - 1;
    }
    proof {
        lemma_last_non_space_bounds(s@);
        lemma_first_non_space_bounds(s@);
        if end > start {
            assert(!is_space(s@[end - 1]));
            assert(end <= last_non_space_end(s@));
            assert(end == last_non_space_end(s@));
        } else {
            if first_non_space(s@) < s@.len() {
                assert(!is_space(s@[first_non_space(s@)]));
            }
            assert(trimmed(s@) =~= s@.subrange(start as int, end as int));
        }
    }
    s.substring_char(start, end).to_owned()
}

/// Index of the first occurrence of a character, or the length if absent.
pub open spec fn first_index_or_len(s: Seq<char>, c: char) -> int
    decreases s.len(),
{
    if s.len() == 0 {
        0
    } else if s[0] == c {
        0
    } else {
        1 + first_index_or_len(s.drop_first(), c)
    }
}

pub proof fn lemma_first_index_bounds(s: Seq<char>, c: char)
    ensures
        0 <= first_index_or_len(s, c) <= s.len(),
        forall|i: int| 0 <= i < first_index_or_len(s, c) ==> s[i] != c,
        first_index_or_len(s, c) < s.len() ==> s[first_index_or_len(s, c)] == c,
    decreases s.len(),
{
    if s.len() > 0 && s[0] != c {
        lemma_first_index_bounds(s.drop_first(), c);
        assert forall|i: int| 0 <= i < first_index_or_len(s, c) implies s[i] != c by {
            if i > 0 {
                assert(s[i] == s.drop_first()[i - 1]);
            }
        }
        if first_index_or_len(s, c) < s.len() {
            assert(s[first_index_or_len(s, c)] == s.drop_first()[first_index_or_len(s, c) - 1]);
        }
    }
}

/// Finds the first occurrence of a character.
pub fn find_char(s: &str, c: char) -> (r: Option<usize>)
    ensures
        match r {
            Some(i) => i == first_index_or_len(s@, c) && i < s@.len(),
            None => first_index_or_len(s@, c) == s@.len(),
        },
{
    proof {
        lemma_first_index_bounds(s@, c);
    }
    let len = s.unicode_len();
    let mut i: usize = 0;
    while i < len
        invariant
            0 <= i <= len,
            len == s@.len(),
            forall|j: int| 0 <= j < i ==> s@[j] != c,
        decreases len - i,
    {
        if s.get_char(i) == c {
            proof {
                lemma_first_index_bounds(s@, c);
                if first_index_or_len(s@, c) < i {
                    assert(s@[first_index_or_len(s@, c)] == c);
                }
            }
            return Some(i);
        }
        i = i + 1;
    }
    proof {
        lemma_first_index_bounds(s@, c);
        if first_index_or_len(s@, c) < len {
            assert(s@[first_index_or_len(s@, c)] == c);
        }
    }
    None
}

/// The pieces of a string split at every occurrence of a separator. Splitting
/// the empty string gives one empty piece, as `str::split` does.
pub open spec fn split_on(s: Seq<char>, sep: char) -> Seq<Seq<char>>
    decreases s.len(),
{
    if s.len() == 0 {
        seq![Seq::<char>::empty()]
    } else if s[0] == sep {
        seq![Seq::<char>::empty()] + split_on(s.drop_first(), sep)
    } else {
        prepend_first(seq![s[0]], split_on(s.drop_first(), sep))
    }
}

/// Prepends characters onto the first piece of a non-empty piece list.
pub open spec fn prepend_first(pre: Seq<char>, parts: Seq<Seq<char>>) -> Seq<Seq<char>> {
    seq![pre + parts[0]] + parts.skip(1)
}

pub proof fn lemma_split_on_len(s: Seq<char>, sep: char)
    ensures
        split_on(s, sep).len() >= 1,
    decreases s.len(),
{
    if s.len() > 0 {
        lemma_split_on_len(s.drop_first(), sep);
    }
}

/// Splitting a separator-free string yields just that string.
proof fn lemma_split_on_no_sep(s: Seq<char>, sep: char)
    requires
        forall|i: int| 0 <= i < s.len() ==> s[i] != sep,
    ensures
        split_on(s, sep) == seq![s],
    decreases s.len(),
{
    if s.len() == 0 {
        assert(split_on(s, sep) =~~= seq![s]);
    } else {
        assert(forall|i: int| 0 <= i < s.drop_first().len() ==> s.drop_first()[i] != sep);
        lemma_split_on_no_sep(s.drop_first(), sep);
        lemma_split_on_len(s.drop_first(), sep);
        let parts = split_on(s.drop_first(), sep);
        assert(parts == seq![s.drop_first()]);
        assert(parts.skip(1) =~= Seq::<Seq<char>>::empty());
        assert(split_on(s, sep) =~= seq![seq![s[0]] + s.drop_first()]);
        assert(seq![s[0]] + s.drop_first() =~= s);
        assert(split_on(s, sep) =~= seq![s]);
    }
}

/// Splitting a string that starts with a separator-free piece, then the
/// separator, then a remainder: the first piece comes off whole.
proof fn lemma_split_on_prefix(s: Seq<char>, sep: char, k: int)
    requires
        0 <= k < s.len(),
        s[k] == sep,
        forall|i: int| 0 <= i < k ==> s[i] != sep,
    ensures
        split_on(s, sep) == seq![s.subrange(0, k)] + split_on(s.skip(k + 1), sep),
    decreases s.len(),
{
    if k == 0 {
        assert(split_on(s, sep) =~= seq![Seq::<char>::empty()] + split_on(s.drop_first(), sep));
        assert(s.subrange(0, 0) =~= Seq::<char>::empty());
        assert(s.skip(1) =~= s.drop_first());
    } else {
        let t = s.drop_first();
        assert(t[k - 1] == sep);
        assert(forall|i: int| 0 <= i < k - 1 ==> #[trigger] t[i] == s[i + 1] && t[i] != sep);
        lemma_split_on_prefix(t, sep, k - 1);
        lemma_split_on_len(t.skip(k), sep);
        assert(t.skip(k) =~= s.skip(k + 1));
        assert(split_on(s, sep) =~= prepend_first(seq![s[0]], split_on(t, sep)));
        let parts = seq![t.subrange(0, k - 1)] + split_on(s.skip(k + 1), sep);
        assert(split_on(t, sep) == parts);
        assert(parts[0] == t.subrange(0, k - 1));
        assert(seq![s[0]] + t.subrange(0, k - 1) =~= s.subrange(0, k));
        assert(parts.skip(1) =~= split_on(s.skip(k + 1), sep));
        assert(prepend_first(seq![s[0]], parts) =~= seq![s.subrange(0, k)] + split_on(
            s.skip(k + 1),
            sep,
        ));
    }
}

/// Splits a string at every occurrence of a separator.
pub fn split_str(s: &str, sep: char) -> (r: Vec<String>)
    ensures
        r@.map_values(|p: String| p@) == split_on(s@, sep),
{
    let len = s.unicode_len();
    let mut done: Vec<String> = Vec::new();
    let mut start: usize = 0;
    let mut i: usize = 0;
    proof {
        assert(s@.skip(0) =~= s@);
        lemma_split_on_len(s@, sep);
        assert(done@.map_values(|p: String| p@) =~= Seq::<Seq<char>>::empty());
    }
    while i < len
        invariant
            0 <= start <= i <= len,
            len == s@.len(),
            forall|j: int| start <= j < i ==> s@[j] != sep,
            split_on(s@, sep) == done@.map_values(|p: String| p@) + split_on(
                s@.skip(start as int),
                sep,
            ),
            split_on(s@.skip(start as int), sep).len() >= 1,
        decreases len - i,
    {
        if s.get_char(i) == sep {
            let piece = s.substring_char(start, i).to_owned();
            proof {
                let rest = s@.skip(start as int);
                let k = i as int - start as int;
                assert(rest[k] == s@[i as int]);
                assert(forall|j: int| 0 <= j < k ==> #[trigger] rest[j] == s@[j + start as int]
                    && rest[j] != sep);
                lemma_split_on_prefix(rest, sep, k);
                assert(rest.subrange(0, k) =~= s@.subrange(start as int, i as int));
                assert(rest.skip(k + 1) =~= s@.skip(i as int + 1));
                lemma_split_on_len(s@.skip(i as int + 1), sep);
                assert((done@ + seq![piece]).map_values(|p: String| p@) =~= done@.map_values(
                    |p: String| p@,
                ) + seq![piece@]);
            }
            done.push(piece);
            start = i + 1;
        }
        i = i + 1;
    }
    let piece = s.substring_char(start, len).to_owned();
    proof {
        let rest = s@.skip(start as int);
        assert(forall|j: int| 0 <= j < rest.len() ==> #[trigger] rest[j] == s@[j + start as int]
            && rest[j] != sep);
        lemma_split_on_no_sep(rest, sep);
        assert(rest =~= s@.subrange(start as int, len as int));
        assert((done@ + seq![piece]).map_values(|p: String| p@) =~= done@.map_values(
            |p: String| p@,
        ) + seq![piece@]);
    }
    done.push(piece);
    proof {
        assert(done@.map_values(|p: String| p@) =~= split_on(s@, sep));
    }
    done
}

} // verus!
