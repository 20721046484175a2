use vstd::prelude::*;
use vstd::relations::total_ordering;

verus! {

/// Lexicographic order on character sequences by code point, the order in
/// which bootstrap entries are processed. It coincides with the byte order
/// of the UTF-8 encodings, since UTF-8 preserves code-point order.
pub open spec fn lex_le(a: Seq<char>, b: Seq<char>) -> bool
    decreases a.len(),
{
    if a.len() == 0 {
        true
    } else if b.len() == 0 {
        false
    } else if (a[0] as u32) < (b[0] as u32) {
        true
    } else if a[0] == b[0] {
        lex_le(a.drop_first(), b.drop_first())
    } else {
        false
    }
}

/// `lex_le` as a binary relation value, for use with `sorted_by`.
pub open spec fn lex_leq() -> spec_fn(Seq<char>, Seq<char>) -> bool {
    |a: Seq<char>, b: Seq<char>| lex_le(a, b)
}

pub proof fn lemma_lex_le_refl(a: Seq<char>)
    ensures
        lex_le(a, a),
    decreases a.len(),
{
    if a.len() > 0 {
        lemma_lex_le_refl(a.drop_first());
    }
}

pub proof fn lemma_lex_le_total(a: Seq<char>, b: Seq<char>)
    ensures
        lex_le(a, b) || lex_le(b, a),
    decreases a.len(),
{
    if a.len() > 0 && b.len() > 0 {
        if a[0] == b[0] {
            lemma_lex_le_total(a.drop_first(), b.drop_first());
        } else if a[0] as u32 == b[0] as u32 {
            vstd::utf8::char_u32_cast(a[0], a[0] as u32);
            vstd::utf8::char_u32_cast(b[0], b[0] as u32);
        }
    }
}

pub proof fn lemma_lex_le_antisym(a: Seq<char>, b: Seq<char>)
    requires
        lex_le(a, b),
        lex_le(b, a),
    ensures
        a == b,
    decreases a.len(),
{
    if a.len() == 0 {
        assert(b.len() == 0);
        assert(a =~= b);
    } else {
        assert(a[0] == b[0]);
        lemma_lex_le_antisym(a.drop_first(), b.drop_first());
        assert forall|i: int| 0 <= i < a.len() implies a[i] == b[i] by {
            if i >= 1 {
                assert(a.drop_first()[i - 1] == a[i]);
                assert(b.drop_first()[i - 1] == b[i]);
            }
        }
        assert(a =~= b);
    }
}

pub proof fn lemma_lex_le_trans(a: Seq<char>, b: Seq<char>, c: Seq<char>)
    requires
        lex_le(a, b),
        lex_le(b, c),
    ensures
        lex_le(a, c),
    decreases a.len(),
{
    if a.len() > 0 && b.len() > 0 && c.len() > 0 && a[0] == b[0] && b[0] == c[0] {
        lemma_lex_le_trans(a.drop_first(), b.drop_first(), c.drop_first());
    }
}

/// `lex_le` is a total order, so a sorted sequence is determined by its
/// multiset of elements.
pub proof fn lemma_lex_total_ordering()
    ensures
        total_ordering(lex_leq()),
{
    let r = lex_leq();
    assert forall|x: Seq<char>| #[trigger] r(x, x) by {
        lemma_lex_le_refl(x);
    }
    assert forall|x: Seq<char>, y: Seq<char>| #[trigger] r(x, y) && #[trigger] r(y, x) implies x
        == y by {
        lemma_lex_le_antisym(x, y);
    }
    assert forall|x: Seq<char>, y: Seq<char>, z: Seq<char>|
        #[trigger] r(x, y) && #[trigger] r(y, z) implies r(x, z) by {
        lemma_lex_le_trans(x, y, z);
    }
    assert forall|x: Seq<char>, y: Seq<char>| #[trigger] r(x, y) || #[trigger] r(y, x) by {
        lemma_lex_le_total(x, y);
    }
}

/// Character-for-character string equality, proved against the sequence views.
pub fn str_eq(a: &str, b: &str) -> (r: bool)
    ensures
        r == (a@ == b@),
{
    let alen = a.unicode_len();
    let blen = b.unicode_len();
    if alen != blen {
        return false;
    }
    let mut i: usize = 0;
    while i < alen
        invariant
            i <= alen,
            alen == a@.len(),
            alen == b@.len(),
            forall|j: int| 0 <= j < i ==> a@[j] == b@[j],
        decreases alen - i,
    {
        if a.get_char(i) != b.get_char(i) {
            return false;
        }
        i = i + 1;
    }
    proof {
        assert(a@ =~= b@);
    }
    true
}

/// Character-for-character string comparison under `lex_le`.
pub fn str_le(a: &str, b: &str) -> (r: bool)
    ensures
        r == lex_le(a@, b@),
{
    let alen = a.unicode_len();
    let blen = b.unicode_len();
    let mut i: usize = 0;
    proof {
        assert(a@.skip(0) =~= a@);
        assert(b@.skip(0) =~= b@);
    }
    loop
        invariant
            i <= alen,
            i <= blen,
            alen == a@.len(),
            blen == b@.len(),
            lex_le(a@, b@) == lex_le(a@.skip(i as int), b@.skip(i as int)),
        decreases alen - i,
    {
        if i >= alen {
            return true;
        }
        if i >= blen {
            return false;
        }
        let ca = a.get_char(i);
        let cb = b.get_char(i);
        if ca == cb {
            proof {
                assert(a@.skip(i as int).drop_first() =~= a@.skip(i + 1));
                assert(b@.skip(i as int).drop_first() =~= b@.skip(i + 1));
            }
            i = i + 1;
        } else if (ca as u32) < (cb as u32) {
            return true;
        } else {
            return false;
        }
    }
}

/// The index of the last occurrence of `c` in `s`, or `-1` if `c` does not
/// occur.
pub open spec fn last_index_of(s: Seq<char>, c: char) -> int
    decreases s.len(),
{
    if s.len() == 0 {
        -1
    } else if s.last() == c {
        s.len() - 1
    } else {
        last_index_of(s.drop_last(), c)
    }
}

pub proof fn lemma_last_index_of_props(s: Seq<char>, c: char)
    ensures
        -1 <= last_index_of(s, c) < s.len(),
        last_index_of(s, c) >= 0 ==> s[last_index_of(s, c)] == c,
        forall|j: int| last_index_of(s, c) < j < s.len() ==> s[j] != c,
    decreases s.len(),
{
    if s.len() > 0 && s.last() != c {
        lemma_last_index_of_props(s.drop_last(), c);
        assert forall|j: int| last_index_of(s, c) < j < s.len() implies s[j] != c by {
            if j < s.len() - 1 {
                assert(s.drop_last()[j] == s[j]);
            }
        }
    }
}

proof fn lemma_last_index_of_at(s: Seq<char>, c: char, i: int)
    requires
        0 <= i < s.len(),
        s[i] == c,
        forall|j: int| i < j < s.len() ==> s[j] != c,
    ensures
        last_index_of(s, c) == i,
    decreases s.len(),
{
    if i < s.len() - 1 {
        lemma_last_index_of_at(s.drop_last(), c, i);
    }
}

proof fn lemma_last_index_of_none(s: Seq<char>, c: char)
    requires
        forall|j: int| 0 <= j < s.len() ==> s[j] != c,
    ensures
        last_index_of(s, c) == -1,
    decreases s.len(),
{
    if s.len() > 0 {
        lemma_last_index_of_none(s.drop_last(), c);
    }
}

/// Finds the last occurrence of `c` in `s`, scanning from the end.
pub fn rlast_index(s: &str, c: char) -> (r: Option<usize>)
    ensures
        match r {
            Some(i) => i < s@.len() && last_index_of(s@, c) == i,
            None => last_index_of(s@, c) == -1,
        },
{
    let n = s.unicode_len();
    let mut j: usize = n;
    loop
        invariant
            j <= n,
            n == s@.len(),
            forall|k: int| j <= k < n ==> s@[k] != c,
        decreases j,
    {
        if j == 0 {
            proof {
                lemma_last_index_of_none(s@, c);
            }
            return None;
        }
        let ch = s.get_char(j - 1);
        if ch == c {
            proof {
                lemma_last_index_of_at(s@, c, j - 1);
            }
            return Some(j - 1);
        }
        j = j - 1;
    }
}

} // verus!
