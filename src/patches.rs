use vstd::prelude::*;

use crate::document::{lacks_catalog, lemma_inject_catalog, patch_catalog, catalog_injected, catalog_marked, comment_of, record_marked, MacPlist};
use crate::text::{marker_hit, occurs_at, texts};
use crate::value::{first_at, key_pos, lemma_key_pos, Entries, PlistValue};

verus! {

/// The value of a hex digit, either case.
pub open spec fn hex_val(c: char) -> int {
    if '0' <= c <= '9' {
        c as int - '0' as int
    } else if 'a' <= c <= 'f' {
        c as int - 'a' as int + 10
    } else {
        c as int - 'A' as int + 10
    }
}

pub open spec fn is_hex_char(c: char) -> bool {
    ('0' <= c <= '9') || ('a' <= c <= 'f') || ('A' <= c <= 'F')
}

/// Text made of pairs of hex digits.
pub open spec fn is_hex_text(s: Seq<char>) -> bool {
    s.len() % 2 == 0 && forall|i: int| 0 <= i < s.len() ==> is_hex_char(#[trigger] s[i])
}

/// The bytes that pairs of hex digits spell, high digit first.
pub open spec fn hex_bytes(s: Seq<char>) -> Seq<u8>
    decreases s.len(),
{
    if s.len() < 2 {
        Seq::empty()
    } else {
        seq![(hex_val(s[0]) * 16 + hex_val(s[1])) as u8] + hex_bytes(s.subrange(2, s.len() as int))
    }
}

/// Relies on hex::decode: each pair of hex digits (either case) becomes one
/// byte, high digit first; text of odd length or with another character is
/// refused.
#[verifier::external_body]
fn decode_hex(s: &str) -> (r: Option<Vec<u8>>)
    ensures
        r is Some <==> is_hex_text(s@),
        r matches Some(v) ==> v@ == hex_bytes(s@),
{
    hex::decode(s).ok()
}

/// The bytes held under `key` in a dictionary record, if any.
pub open spec fn data_of(p: PlistValue, key: Seq<char>) -> Option<Seq<u8>> {
    match p {
        PlistValue::Dictionary(d) => match key_pos(d@, key) {
            Some(k) => match d@[k].1 {
                PlistValue::Data(b) => Some(b@),
                _ => None,
            },
            None => None,
        },
        _ => None,
    }
}

/// `v` is the text `t`.
pub open spec fn is_text(v: PlistValue, t: Seq<char>) -> bool {
    match v {
        PlistValue::String(s) => s@ == t,
        _ => false,
    }
}

/// `v` is the bytes `b`.
pub open spec fn is_bytes(v: PlistValue, b: Seq<u8>) -> bool {
    match v {
        PlistValue::Data(d) => d@ == b,
        _ => false,
    }
}

/// The thirteen entries of a kernel patch record, in order: for the x86_64
/// kernel, no base, the comment, applied once, enabled, the `Find` and
/// `Replace` bytes that the hex texts spell, identifier `kernel`, from kernel
/// 24.0.0 on with no upper bound, no masks, nothing skipped.
pub open spec fn patch_layout(e: Seq<(String, PlistValue)>, comment: Seq<char>, find: Seq<char>, replace: Seq<char>) -> bool {
    &&& e.len() == 13
    &&& e[0].0@ == "Arch"@ && is_text(e[0].1, "x86_64"@)
    &&& e[1].0@ == "Base"@ && is_text(e[1].1, ""@)
    &&& e[2].0@ == "Comment"@ && is_text(e[2].1, comment)
    &&& e[3].0@ == "Count"@ && e[3].1 == PlistValue::Integer(1)
    &&& e[4].0@ == "Enabled"@ && e[4].1 == PlistValue::Boolean(true)
    &&& e[5].0@ == "Find"@ && is_bytes(e[5].1, hex_bytes(find))
    &&& e[6].0@ == "Replace"@ && is_bytes(e[6].1, hex_bytes(replace))
    &&& e[7].0@ == "Identifier"@ && is_text(e[7].1, "kernel"@)
    &&& e[8].0@ == "MinKernel"@ && is_text(e[8].1, "24.0.0"@)
    &&& e[9].0@ == "MaxKernel"@ && is_text(e[9].1, ""@)
    &&& e[10].0@ == "Mask"@ && is_bytes(e[10].1, Seq::empty())
    &&& e[11].0@ == "ReplaceMask"@ && is_bytes(e[11].1, Seq::empty())
    &&& e[12].0@ == "Skip"@ && e[12].1 == PlistValue::Integer(0)
}

/// A kernel patch record laid out as `patch_layout` says; its comment and its
/// `Find` and `Replace` bytes are found by key.
pub open spec fn is_patch_record(p: PlistValue, comment: Seq<char>, find: Seq<char>, replace: Seq<char>) -> bool {
    &&& p matches PlistValue::Dictionary(d) && patch_layout(d@, comment, find, replace)
    &&& comment_of(p) == Some(comment)
    &&& data_of(p, "Find"@) == Some(hex_bytes(find))
    &&& data_of(p, "Replace"@) == Some(hex_bytes(replace))
}

fn entry(key: &str, v: PlistValue) -> (r: (String, PlistValue))
    ensures
        r.0@ == key@,
        r.1 == v,
{
    (String::from_str(key), v)
}

fn text(s: &str) -> (r: PlistValue)
    ensures
        r matches PlistValue::String(t) && t@ == s@,
{
    PlistValue::String(String::from_str(s))
}

/// A kernel patch record for the x86_64 kernel from version 24 on, enabled,
/// applied once, with no masks.
pub fn patch_record(comment: &str, find: &str, replace: &str) -> (r: PlistValue)
    requires
        is_hex_text(find@),
        is_hex_text(replace@),
    ensures
        is_patch_record(r, comment@, find@, replace@),
{
    let find_bytes = match decode_hex(find) {
        Some(b) => b,
        None => {
            proof {
                assert(false);
            }
            Vec::new()
        },
    };
    let replace_bytes = match decode_hex(replace) {
        Some(b) => b,
        None => {
            proof {
                assert(false);
            }
            Vec::new()
        },
    };
    let mut d: Entries = Vec::new();
    d.push(entry("Arch", text("x86_64")));
    d.push(entry("Base", text("")));
    d.push(entry("Comment", text(comment)));
    d.push(entry("Count", PlistValue::Integer(1)));
    d.push(entry("Enabled", PlistValue::Boolean(true)));
    d.push(entry("Find", PlistValue::Data(find_bytes)));
    d.push(entry("Replace", PlistValue::Data(replace_bytes)));
    d.push(entry("Identifier", text("kernel")));
    d.push(entry("MinKernel", text("24.0.0")));
    d.push(entry("MaxKernel", text("")));
    d.push(entry("Mask", PlistValue::Data(Vec::new())));
    d.push(entry("ReplaceMask", PlistValue::Data(Vec::new())));
    d.push(entry("Skip", PlistValue::Integer(0)));
    proof {
        reveal_strlit("Arch");
        reveal_strlit("Base");
        reveal_strlit("Comment");
        reveal_strlit("Count");
        reveal_strlit("Enabled");
        reveal_strlit("Find");
        reveal_strlit("Replace");
        assert(d@[0].0@ == "Arch"@ && d@[1].0@ == "Base"@ && d@[2].0@ == "Comment"@);
        assert(d@[3].0@ == "Count"@ && d@[4].0@ == "Enabled"@ && d@[5].0@ == "Find"@);
        assert(d@[6].0@ == "Replace"@);
        assert(d@[0].0@.len() == 4 && d@[1].0@.len() == 4 && d@[3].0@.len() == 5);
        assert(d@[4].0@.len() == 7 && d@[2].0@.len() == 7 && d@[5].0@.len() == 4);
        assert(d@[4].0@[0] != "Comment"@[0]);
        assert(d@[0].0@[0] != "Find"@[0]);
        assert(d@[1].0@[0] != "Find"@[0]);
        assert(first_at(d@, "Comment"@, 2));
        assert(first_at(d@, "Find"@, 5));
        assert(d@[3].0@[2] != "Replace"@[2]);
        assert(first_at(d@, "Replace"@, 6));
        lemma_key_pos(d@, "Comment"@);
        lemma_key_pos(d@, "Find"@);
        lemma_key_pos(d@, "Replace"@);
        assert(patch_layout(d@, comment@, find@, replace@));
    }
    PlistValue::Dictionary(d)
}

/// The markers whose presence in a patch comment shows that the Sequoia
/// patches were added.
pub open spec fn sequoia_marker_texts() -> Seq<Seq<char>> {
    seq!["kern.hv_vmm_present"@, "VM detection"@]
}

pub open spec fn first_comment() -> Seq<char> {
    "Disable VM detection (kern.hv_vmm_present -> hibernatecount) for Sequoia"@
}

pub open spec fn second_comment() -> Seq<char> {
    "Disable VM detection (hibernatecount -> hv_vmm_present) for Sequoia"@
}

/// The two Sequoia records: the first renames `kern.hv_vmm_present` to
/// `hibernatecount`, the second renames it back where the session UUID string
/// precedes it.
pub open spec fn sequoia_records(r: Seq<PlistValue>) -> bool {
    &&& r.len() == 2
    &&& is_patch_record(
        r[0],
        first_comment(),
        "68696265726E61746568696472656164790068696265726E617465636F756E7400"@,
        "68696265726E61746568696472656164790068765F766D6D5F70726573656E7400"@,
    )
    &&& is_patch_record(
        r[1],
        second_comment(),
        "626F6F742073657373696F6E20555549440068765F766D6D5F70726573656E7400"@,
        "626F6F742073657373696F6E20555549440068696265726E617465636F756E7400"@,
    )
}

/// The marker texts that identify the Sequoia patches.
pub fn sequoia_markers() -> (r: Vec<String>)
    ensures
        texts(r@) == sequoia_marker_texts(),
{
    let mut r: Vec<String> = Vec::new();
    r.push(String::from_str("kern.hv_vmm_present"));
    r.push(String::from_str("VM detection"));
    assert(texts(r@) =~= sequoia_marker_texts());
    r
}

/// The two kernel patch records that hide the hypervisor from macOS Sequoia.
pub fn sequoia_patches() -> (r: Vec<PlistValue>)
    ensures
        sequoia_records(r@),
        forall|i: int| 0 <= i < r@.len() ==> record_marked(#[trigger] r@[i], sequoia_marker_texts()),
{
    let f1 = "68696265726E61746568696472656164790068696265726E617465636F756E7400";
    let r1 = "68696265726E61746568696472656164790068765F766D6D5F70726573656E7400";
    let f2 = "626F6F742073657373696F6E20555549440068765F766D6D5F70726573656E7400";
    let r2 = "626F6F742073657373696F6E20555549440068696265726E617465636F756E7400";
    proof {
        reveal_strlit("68696265726E61746568696472656164790068696265726E617465636F756E7400");
        reveal_strlit("68696265726E61746568696472656164790068765F766D6D5F70726573656E7400");
        reveal_strlit("626F6F742073657373696F6E20555549440068765F766D6D5F70726573656E7400");
        reveal_strlit("626F6F742073657373696F6E20555549440068696265726E617465636F756E7400");
        assert(is_hex_text(f1@));
        assert(is_hex_text(r1@));
        assert(is_hex_text(f2@));
        assert(is_hex_text(r2@));
    }
    let mut r: Vec<PlistValue> = Vec::new();
    r.push(patch_record("Disable VM detection (kern.hv_vmm_present -> hibernatecount) for Sequoia", f1, r1));
    r.push(patch_record("Disable VM detection (hibernatecount -> hv_vmm_present) for Sequoia", f2, r2));
    proof {
        reveal_strlit("Disable VM detection (kern.hv_vmm_present -> hibernatecount) for Sequoia");
        reveal_strlit("Disable VM detection (hibernatecount -> hv_vmm_present) for Sequoia");
        reveal_strlit("VM detection");
        let m = sequoia_marker_texts();
        assert(first_comment().subrange(8, 20) =~= m[1]);
        assert(occurs_at(first_comment(), m[1], 8));
        assert(marker_hit(first_comment(), m));
        assert(second_comment().subrange(8, 20) =~= m[1]);
        assert(occurs_at(second_comment(), m[1], 8));
        assert(marker_hit(second_comment(), m));
    }
    r
}

impl MacPlist {
    /// True iff the kernel patch catalog holds a record whose comment names
    /// `kern.hv_vmm_present` or `VM detection`.
    pub fn has_sequoia_patches(&self) -> (r: bool)
        ensures
            r == catalog_marked(self.other@, sequoia_marker_texts()),
    {
        let markers = sequoia_markers();
        self.has_patch_catalog_entry(&markers)
    }

    /// Appends the two Sequoia records to the kernel patch catalog.
    pub fn add_sequoia_kernel_patches(&mut self)
        ensures
            final(self).platform_info == old(self).platform_info,
            exists|recs: Seq<PlistValue>|
                sequoia_records(recs) && catalog_injected(old(self).other@, final(self).other@, recs),
            old(self).wf() ==> final(self).wf(),
    {
        let recs = sequoia_patches();
        let ghost g = recs@;
        self.inject_patch_catalog(recs);
        assert(sequoia_records(g) && catalog_injected(old(self).other@, self.other@, g));
    }
}

/// Adding the Sequoia records twice with no check in between keeps the
/// records that were there first, then has the two records, then the same two
/// again: the second call duplicates them.
pub proof fn lemma_added_twice(
    a: Seq<(String, PlistValue)>,
    b: Seq<(String, PlistValue)>,
    c: Seq<(String, PlistValue)>,
    r1: Seq<PlistValue>,
    r2: Seq<PlistValue>,
)
    requires
        sequoia_records(r1),
        catalog_injected(a, b, r1),
        sequoia_records(r2),
        catalog_injected(b, c, r2),
    ensures
        lacks_catalog(a) ==> patch_catalog(c) == Some(r1 + r2),
        patch_catalog(a) matches Some(ps) ==> patch_catalog(c) == Some(ps + r1 + r2),
{
    lemma_inject_catalog(a, b, r1);
    lemma_inject_catalog(b, c, r2);
}

} // verus!
