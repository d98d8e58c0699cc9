use vstd::prelude::*;

verus! {

/// A property-list value. Real numbers are held by their IEEE-754 bits and
/// dates by their XML text, so that every value passes through unchanged.
#[derive(Debug, PartialEq)]
pub enum PlistValue {
    Array(Vec<PlistValue>),
    Dictionary(Vec<(String, PlistValue)>),
    Boolean(bool),
    Data(Vec<u8>),
    Date(String),
    Real(u64),
    Integer(i128),
    String(String),
    Uid(u64),
}

/// The entries of a dictionary, in order: a key and its value.
pub type Entries = Vec<(String, PlistValue)>;

/// No two entries of `e` have the same key.
pub open spec fn keys_unique(e: Seq<(String, PlistValue)>) -> bool {
    forall|i: int, j: int| 0 <= i < j < e.len() ==> (#[trigger] e[i]).0@ != (#[trigger] e[j]).0@
}

/// The first position of `key` in `e`, if any.
#[verifier::opaque]
pub open spec fn key_pos(e: Seq<(String, PlistValue)>, key: Seq<char>) -> Option<int> {
    if exists|i: int| 0 <= i < e.len() && e[i].0@ == key {
        let i = choose|i: int|
            0 <= i < e.len() && e[i].0@ == key && forall|j: int| 0 <= j < i ==> e[j].0@ != key;
        Some(i)
    } else {
        None
    }
}

/// Finds the first entry of `e` whose key is `key`.
pub fn find_key(e: &Entries, key: &str) -> (r: Option<usize>)
    ensures
        r matches Some(i) ==> key_pos(e@, key@) == Some(i as int),
        r is None ==> key_pos(e@, key@) is None,
        r matches Some(i) ==> i < e@.len() && e@[i as int].0@ == key@
            && forall|j: int| 0 <= j < i ==> e@[j].0@ != key@,
        r is None ==> forall|j: int| 0 <= j < e@.len() ==> e@[j].0@ != key@,
{
    proof {
        lemma_key_pos(e@, key@);
    }
    let k = String::from_str(key);
    let mut i: usize = 0;
    while i < e.len()
        invariant
            k@ == key@,
            i <= e@.len(),
            forall|j: int| 0 <= j < i ==> e@[j].0@ != key@,
        decreases e@.len() - i,
    {
        if e[i].0 == k {
            proof {
                assert(e@[i as int].0@ == k@);
                assert(first_at(e@, key@, i as int));
                lemma_key_pos(e@, key@);
            }
            return Some(i);
        }
        i = i + 1;
    }
    None
}

} // verus!

verus! {

proof fn lemma_first_unique(e: Seq<(String, PlistValue)>, key: Seq<char>, a: int, b: int)
    requires
        0 <= a < e.len() && e[a].0@ == key && forall|j: int| 0 <= j < a ==> e[j].0@ != key,
        0 <= b < e.len() && e[b].0@ == key && forall|j: int| 0 <= j < b ==> e[j].0@ != key,
    ensures
        a == b,
{
    if a < b {
        assert(e[a].0@ != key);
    } else if b < a {
        assert(e[b].0@ != key);
    }
}

/// `a` is the first position of `key` in `e`.
pub open spec fn first_at(e: Seq<(String, PlistValue)>, key: Seq<char>, a: int) -> bool {
    0 <= a < e.len() && e[a].0@ == key && forall|j: int| 0 <= j < a ==> e[j].0@ != key
}

/// What `key_pos` finds: the first position of the key, or none when no
/// entry has it.
pub proof fn lemma_key_pos(e: Seq<(String, PlistValue)>, key: Seq<char>)
    ensures
        key_pos(e, key) matches Some(a) ==> first_at(e, key, a),
        key_pos(e, key) is None <==> forall|j: int| 0 <= j < e.len() ==> e[j].0@ != key,
        forall|a: int| #[trigger] first_at(e, key, a) ==> key_pos(e, key) == Some(a),
{
    reveal(key_pos);
    if exists|i: int| 0 <= i < e.len() && e[i].0@ == key {
        let w = choose|i: int| 0 <= i < e.len() && e[i].0@ == key;
        lemma_first_exists(e, key, w);
        let c = key_pos(e, key).unwrap();
        assert forall|a: int| first_at(e, key, a) implies key_pos(e, key) == Some(a) by {
            lemma_first_unique(e, key, a, c);
        }
    }
}

proof fn lemma_first_exists(e: Seq<(String, PlistValue)>, key: Seq<char>, w: int)
    requires
        0 <= w < e.len() && e[w].0@ == key,
    ensures
        exists|a: int| first_at(e, key, a),
    decreases w,
{
    if forall|j: int| 0 <= j < w ==> e[j].0@ != key {
        assert(first_at(e, key, w));
    } else {
        let v = choose|j: int| 0 <= j < w && e[j].0@ == key;
        lemma_first_exists(e, key, v);
    }
}

/// Entries with the same keys at the same positions find a key at the same position.
pub proof fn lemma_key_pos_same_keys(s1: Seq<(String, PlistValue)>, s2: Seq<(String, PlistValue)>, key: Seq<char>)
    requires
        s1.len() == s2.len(),
        forall|k: int| 0 <= k < s1.len() ==> (#[trigger] s1[k]).0@ == s2[k].0@,
    ensures
        key_pos(s1, key) == key_pos(s2, key),
{
    lemma_key_pos(s1, key);
    lemma_key_pos(s2, key);
    match key_pos(s1, key) {
        Some(a) => {
            assert(s1[a].0@ == s2[a].0@);
            assert forall|j: int| 0 <= j < a implies s2[j].0@ != key by {
                assert(s1[j].0@ == s2[j].0@);
            }
            assert(first_at(s2, key, a));
        },
        None => {
            assert forall|i: int| 0 <= i < s2.len() implies s2[i].0@ != key by {
                assert(s1[i].0@ == s2[i].0@);
            }
        },
    }
}

/// A key added at the end of entries that lacked it is found there.
pub proof fn lemma_key_pos_added(s: Seq<(String, PlistValue)>, s2: Seq<(String, PlistValue)>, key: Seq<char>)
    requires
        key_pos(s, key) is None,
        s2.len() == s.len() + 1,
        s2.subrange(0, s.len() as int) == s,
        s2[s.len() as int].0@ == key,
    ensures
        key_pos(s2, key) == Some(s.len() as int),
{
    lemma_key_pos(s, key);
    assert forall|j: int| 0 <= j < s.len() implies s2[j].0@ != key by {
        assert(s2[j] == s2.subrange(0, s.len() as int)[j]);
    }
    assert(first_at(s2, key, s.len() as int));
    lemma_key_pos(s2, key);
}

} // verus!
