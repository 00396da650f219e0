use vstd::prelude::*;

verus! {

/// `i` is the position of the first occurrence of `c` in `s`.
pub open spec fn is_first_index_of(s: Seq<char>, c: char, i: int) -> bool {
    &&& 0 <= i < s.len()
    &&& s[i] == c
    &&& forall|j: int| 0 <= j < i ==> s[j] != c
}

/// `c` occurs somewhere in `s`.
pub open spec fn has_char(s: Seq<char>, c: char) -> bool {
    exists|i: int| 0 <= i < s.len() && s[i] == c
}

/// The position of the first occurrence of `c` in `s` (meaningful only when
/// `has_char(s, c)` holds; see `lemma_first_index_exists`).
pub open spec fn first_index_of(s: Seq<char>, c: char) -> int {
    choose|i: int| is_first_index_of(s, c, i)
}

/// When `c` occurs in `s`, `first_index_of` is indeed its first occurrence.
pub proof fn lemma_first_index_exists(s: Seq<char>, c: char)
    requires
        has_char(s, c),
    ensures
        is_first_index_of(s, c, first_index_of(s, c)),
    decreases s.len(),
{
    if s.len() > 0 && s[0] == c {
        assert(is_first_index_of(s, c, 0));
    } else {
        let sub = s.subrange(1, s.len() as int);
        let w = choose|i: int| 0 <= i < s.len() && s[i] == c;
        assert(sub[w - 1] == s[w]);
        assert(has_char(sub, c));
        lemma_first_index_exists(sub, c);
        let i0 = first_index_of(sub, c);
        assert(s[i0 + 1] == sub[i0]);
        assert(forall|j: int| 1 <= j < i0 + 1 ==> s[j] == sub[j - 1] && s[j] != c);
        assert(is_first_index_of(s, c, i0 + 1));
    }
}

/// A first occurrence is unique, so any witness pins `first_index_of` down.
pub proof fn lemma_first_index_unique(s: Seq<char>, c: char, i: int)
    requires
        is_first_index_of(s, c, i),
    ensures
        first_index_of(s, c) == i,
{
    assert(has_char(s, c));
    lemma_first_index_exists(s, c);
    let k = first_index_of(s, c);
    if k < i {
        assert(s[k] != c);
    } else if i < k {
        assert(s[i] != c);
    }
}

/// The position of the first occurrence of `c` in `s`, or `None` when `c`
/// does not occur.
pub fn find_char(s: &str, c: char) -> (r: Option<usize>)
    ensures
        match r {
            Some(i) => is_first_index_of(s@, c, i as int),
            None => !has_char(s@, c),
        },
{
    let n = s.unicode_len();
    let mut k: usize = 0;
    while k < n
        invariant
            n == s@.len(),
            0 <= k <= n,
            forall|j: int| 0 <= j < k ==> s@[j] != c,
        decreases n - k,
    {
        if s.get_char(k) == c {
            return Some(k);
        }
        k = k + 1;
    }
    None
}

} // verus!
