use vstd::prelude::*;

verus! {

/// `p` occurs in `h` starting at position `i`.
pub open spec fn occurs_at(h: Seq<char>, p: Seq<char>, i: int) -> bool {
    0 <= i && i + p.len() <= h.len() && h.subrange(i, i + p.len()) == p
}

/// `p` is a substring of `h`.
pub open spec fn has_substring(h: Seq<char>, p: Seq<char>) -> bool {
    exists|i: int| occurs_at(h, p, i)
}

/// Some marker of `markers` is a substring of `h`.
pub open spec fn marker_hit(h: Seq<char>, markers: Seq<Seq<char>>) -> bool {
    exists|m: int| 0 <= m < markers.len() && has_substring(h, #[trigger] markers[m])
}

/// The texts of a list of strings.
pub open spec fn texts(v: Seq<String>) -> Seq<Seq<char>> {
    v.map_values(|m: String| m@)
}

/// Whether `needle` occurs at char position `i` of `hay`.
fn matches_at(hay: &str, needle: &str, i: usize, hn: usize, nn: usize) -> (r: bool)
    requires
        hn == hay@.len(),
        nn == needle@.len(),
        i + nn <= hn,
    ensures
        r == occurs_at(hay@, needle@, i as int),
{
    let mut j: usize = 0;
    while j < nn
        invariant
            hn == hay@.len(),
            nn == needle@.len(),
            i + nn <= hn,
            j <= nn,
            forall|k: int| 0 <= k < j ==> hay@[i + k] == needle@[k],
        decreases nn - j,
    {
        if hay.get_char(i + j) != needle.get_char(j) {
            proof {
                assert(hay@.subrange(i as int, i + nn)[j as int] != needle@[j as int]);
            }
            return false;
        }
        j = j + 1;
    }
    assert(hay@.subrange(i as int, i + nn) =~= needle@);
    true
}

/// Whether `needle` is a substring of `hay` (an empty needle always is).
pub fn contains_text(hay: &str, needle: &str) -> (r: bool)
    ensures
        r == has_substring(hay@, needle@),
{
    let hn = hay.unicode_len();
    let nn = needle.unicode_len();
    if nn > hn {
        assert(forall|i: int| !occurs_at(hay@, needle@, i));
        return false;
    }
    if nn == 0 {
        assert(hay@.subrange(0, 0) =~= needle@);
        assert(occurs_at(hay@, needle@, 0));
        return true;
    }
    let mut i: usize = 0;
    while i <= hn - nn
        invariant
            hn == hay@.len(),
            nn == needle@.len(),
            0 < nn <= hn,
            i <= hn - nn + 1,
            forall|k: int| 0 <= k < i ==> !occurs_at(hay@, needle@, k),
        decreases hn - nn + 1 - i,
    {
        if matches_at(hay, needle, i, hn, nn) {
            return true;
        }
        i = i + 1;
    }
    assert(forall|k: int| !occurs_at(hay@, needle@, k));
    false
}

/// Whether any of `markers` is a substring of `hay`.
pub fn contains_any(hay: &str, markers: &Vec<String>) -> (r: bool)
    ensures
        r == marker_hit(hay@, texts(markers@)),
{
    let mut m: usize = 0;
    while m < markers.len()
        invariant
            m <= markers@.len(),
            forall|k: int| 0 <= k < m ==> !has_substring(hay@, #[trigger] texts(markers@)[k]),
        decreases markers@.len() - m,
    {
        if contains_text(hay, markers[m].as_str()) {
            assert(texts(markers@)[m as int] == markers@[m as int]@);
            return true;
        }
        m = m + 1;
    }
    false
}

} // verus!
