//! Searching for a delimiter in a sequence of characters, from the left and
//! from the right.

use vstd::prelude::*;

verus! {

/// `d` occurs in `s` starting at index `i`.
pub open spec fn occurs_at(s: Seq<char>, d: Seq<char>, i: int) -> bool {
    0 <= i && i + d.len() <= s.len() && s.subrange(i, i + d.len()) == d
}

/// The first index at or after `k` where `d` occurs in `s`, scanning left to right.
pub open spec fn find_from(s: Seq<char>, d: Seq<char>, k: int) -> Option<int>
    decreases s.len() + 1 - k,
{
    if k < 0 || k + d.len() > s.len() {
        None
    } else if occurs_at(s, d, k) {
        Some(k)
    } else {
        find_from(s, d, k + 1)
    }
}

/// The last index below `k` where `d` occurs in `s`, scanning right to left.
pub open spec fn find_back(s: Seq<char>, d: Seq<char>, k: int) -> Option<int>
    decreases k,
{
    if k <= 0 {
        None
    } else if occurs_at(s, d, k - 1) {
        Some(k - 1)
    } else {
        find_back(s, d, k - 1)
    }
}

/// The index of the rightmost occurrence of `d` in `s`.
pub open spec fn last_occurrence(s: Seq<char>, d: Seq<char>) -> Option<int> {
    find_back(s, d, s.len() + 1 as int)
}

/// What `find_from` returns is an occurrence, and the first one from `k` on.
pub proof fn lemma_find_from(s: Seq<char>, d: Seq<char>, k: int)
    requires
        k >= 0,
    ensures
        find_from(s, d, k) matches Some(i) ==> k <= i && occurs_at(s, d, i) && forall|j: int|
            k <= j < i ==> !occurs_at(s, d, j),
        find_from(s, d, k) is None ==> forall|j: int| k <= j ==> !occurs_at(s, d, j),
    decreases s.len() + 1 - k,
{
    if k + d.len() <= s.len() && !occurs_at(s, d, k) {
        lemma_find_from(s, d, k + 1);
    }
}

/// What `find_back` returns is an occurrence, and the last one below `k`.
pub proof fn lemma_find_back(s: Seq<char>, d: Seq<char>, k: int)
    ensures
        find_back(s, d, k) matches Some(i) ==> 0 <= i < k && occurs_at(s, d, i) && forall|j: int|
            i < j < k ==> !occurs_at(s, d, j),
        find_back(s, d, k) is None ==> forall|j: int| j < k ==> !occurs_at(s, d, j),
    decreases k,
{
    if k > 0 && !occurs_at(s, d, k - 1) {
        lemma_find_back(s, d, k - 1);
    }
}

/// The characters of `s`, one element each.
pub fn chars_of(s: &str) -> (r: Vec<char>)
    ensures
        r@ == s@,
{
    let n = s.unicode_len();
    let mut r: Vec<char> = Vec::new();
    let mut i: usize = 0;
    while i < n
        invariant
            n == s@.len(),
            i <= n,
            r@ == s@.subrange(0, i as int),
        decreases n - i,
    {
        r.push(s.get_char(i));
        i = i + 1;
    }
    assert(r@ =~= s@);
    r
}

/// The elements of `v` from `a` up to `b`.
pub fn sub_vec(v: &Vec<char>, a: usize, b: usize) -> (r: Vec<char>)
    requires
        a <= b <= v@.len(),
    ensures
        r@ == v@.subrange(a as int, b as int),
{
    let mut r: Vec<char> = Vec::new();
    let mut i: usize = a;
    while i < b
        invariant
            a <= i <= b <= v@.len(),
            r@ == v@.subrange(a as int, i as int),
        decreases b - i,
    {
        r.push(v[i]);
        i = i + 1;
        assert(r@ =~= v@.subrange(a as int, i as int));
    }
    r
}

/// Whether `d` occurs in `v` starting at index `i`.
pub fn occurs_at_index(v: &Vec<char>, d: &Vec<char>, i: usize) -> (r: bool)
    ensures
        r == occurs_at(v@, d@, i as int),
{
    if i > v.len() || d.len() > v.len() - i {
        return false;
    }
    let vl = v.len();
    let mut j: usize = 0;
    while j < d.len()
        invariant
            vl == v@.len(),
            i + d@.len() <= v@.len(),
            j <= d@.len(),
            forall|t: int| 0 <= t < j ==> v@[i + t] == d@[t],
        decreases d@.len() - j,
    {
        if v[i + j] != d[j] {
            assert(v@.subrange(i as int, i + d@.len())[j as int] != d@[j as int]);
            return false;
        }
        j = j + 1;
    }
    assert(v@.subrange(i as int, i + d@.len()) =~= d@);
    true
}

/// The first index at or after `from` where `d` occurs in `v`.
pub fn find_first(v: &Vec<char>, d: &Vec<char>, from: usize) -> (r: Option<usize>)
    ensures
        match r {
            Some(i) => find_from(v@, d@, from as int) == Some(i as int),
            None => find_from(v@, d@, from as int) is None,
        },
{
    if from > v.len() {
        return None;
    }
    let mut k: usize = from;
    loop
        invariant
            from <= k <= v@.len(),
            find_from(v@, d@, from as int) == find_from(v@, d@, k as int),
        decreases v@.len() - k,
    {
        if occurs_at_index(v, d, k) {
            return Some(k);
        }
        if k == v.len() {
            assert(d@.len() > 0) by {
                if d@.len() == 0 {
                    assert(v@.subrange(k as int, k as int) =~= d@);
                }
            }
            return None;
        }
        k = k + 1;
    }
}

/// Whether `d` occurs at index `i` of the first `end` elements of `v`.
pub fn occurs_before(v: &Vec<char>, d: &Vec<char>, i: usize, end: usize) -> (r: bool)
    requires
        end <= v@.len(),
    ensures
        r == occurs_at(v@.subrange(0, end as int), d@, i as int),
{
    if i > end || d.len() > end - i {
        return false;
    }
    let r = occurs_at_index(v, d, i);
    assert(v@.subrange(0, end as int).subrange(i as int, i + d@.len()) =~= v@.subrange(
        i as int,
        i + d@.len(),
    ));
    r
}

/// The index of the rightmost occurrence of `d` in the first `end` elements of `v`.
pub fn find_last(v: &Vec<char>, d: &Vec<char>, end: usize) -> (r: Option<usize>)
    requires
        end <= v@.len(),
    ensures
        match r {
            Some(i) => last_occurrence(v@.subrange(0, end as int), d@) == Some(i as int),
            None => last_occurrence(v@.subrange(0, end as int), d@) is None,
        },
{
    let ghost t = v@.subrange(0, end as int);
    let mut k: usize = end;
    loop
        invariant
            k <= end <= v@.len(),
            t == v@.subrange(0, end as int),
            last_occurrence(t, d@) == find_back(t, d@, k + 1 as int),
        decreases k,
    {
        if occurs_before(v, d, k, end) {
            return Some(k);
        }
        if k == 0 {
            assert(find_back(t, d@, 0) is None);
            return None;
        }
        k = k - 1;
    }
}

} // verus!
