use vstd::prelude::*;
use vstd::slice::slice_to_vec;

use crate::text::{contains_any, marker_hit, texts};
use crate::identity::Identity;
use crate::value::{
    find_key, first_at, key_pos, lemma_key_pos, lemma_key_pos_added, lemma_key_pos_same_keys, keys_unique, Entries,
    PlistValue,
};

verus! {

/// The placeholder that the boot loader ships as the serial number.
pub open spec fn device_placeholder() -> Seq<char> {
    "NO_DEVICE_SN"@
}

/// The placeholder that the boot loader ships as the board serial.
pub open spec fn board_placeholder() -> Seq<char> {
    "NO_LOGIC_BOARD_SN"@
}

/// Both identity fields are set: non-empty and not a factory placeholder.
pub open spec fn valid_serials(serial: Seq<char>, mlb: Seq<char>) -> bool {
    serial.len() > 0 && mlb.len() > 0 && serial != device_placeholder() && mlb != board_placeholder()
}

/// True iff `serial` and `mlb` are both non-empty and neither is its
/// factory placeholder.
pub fn valid_serial_pair(serial: &String, mlb: &String) -> (r: bool)
    ensures
        r == valid_serials(serial@, mlb@),
{
    let no_serial = String::from_str("NO_DEVICE_SN");
    let no_mlb = String::from_str("NO_LOGIC_BOARD_SN");
    serial.as_str().unicode_len() > 0 && mlb.as_str().unicode_len() > 0 && !(*serial == no_serial)
        && !(*mlb == no_mlb)
}

/// The generic platform identity record.
#[derive(Debug, PartialEq)]
pub struct Generic {
    pub mlb: String,
    pub rom: PlistValue,
    pub system_product_name: String,
    pub system_serial_number: String,
    pub system_uuid: String,
    pub other: Entries,
}

/// The platform information section; unknown keys pass through in `other`.
#[derive(Debug, PartialEq)]
pub struct PlatformInfo {
    pub generic: Generic,
    pub other: Entries,
}

/// The configuration document: the platform section and every other
/// top-level key, in order.
#[derive(Debug, PartialEq)]
pub struct MacPlist {
    pub platform_info: PlatformInfo,
    pub other: Entries,
}

/// The entries of the top-level `Kernel` dictionary, if there is one.
pub open spec fn kernel_entries(top: Seq<(String, PlistValue)>) -> Option<Seq<(String, PlistValue)>> {
    match key_pos(top, "Kernel"@) {
        Some(i) => match top[i].1 {
            PlistValue::Dictionary(d) => Some(d@),
            _ => None,
        },
        None => None,
    }
}

/// The `Patch` list inside the entries of a kernel dictionary, if there is one.
pub open spec fn patch_array(d: Seq<(String, PlistValue)>) -> Option<Seq<PlistValue>> {
    match key_pos(d, "Patch"@) {
        Some(j) => match d[j].1 {
            PlistValue::Array(a) => Some(a@),
            _ => None,
        },
        None => None,
    }
}

/// The kernel patch catalog of a document's top-level entries.
pub open spec fn patch_catalog(top: Seq<(String, PlistValue)>) -> Option<Seq<PlistValue>> {
    match kernel_entries(top) {
        Some(d) => patch_array(d),
        None => None,
    }
}

/// The `Comment` text of a patch record, if it has one.
pub open spec fn comment_of(p: PlistValue) -> Option<Seq<char>> {
    match p {
        PlistValue::Dictionary(d) => match key_pos(d@, "Comment"@) {
            Some(k) => match d@[k].1 {
                PlistValue::String(s) => Some(s@),
                _ => None,
            },
            None => None,
        },
        _ => None,
    }
}

/// A patch record whose comment holds one of the markers.
pub open spec fn record_marked(p: PlistValue, markers: Seq<Seq<char>>) -> bool {
    match comment_of(p) {
        Some(c) => marker_hit(c, markers),
        None => false,
    }
}

/// The catalog of `top` holds a record whose comment holds one of the markers.
pub open spec fn catalog_marked(top: Seq<(String, PlistValue)>, markers: Seq<Seq<char>>) -> bool {
    match patch_catalog(top) {
        Some(a) => exists|i: int| 0 <= i < a.len() && record_marked(#[trigger] a[i], markers),
        None => false,
    }
}

/// Whether one patch record's comment holds one of the markers.
pub fn record_has_marker(p: &PlistValue, markers: &Vec<String>) -> (r: bool)
    ensures
        r == record_marked(*p, texts(markers@)),
{
    match p {
        PlistValue::Dictionary(d) => match find_key(d, "Comment") {
            Some(k) => match &d[k].1 {
                PlistValue::String(s) => contains_any(s.as_str(), markers),
                _ => false,
            },
            None => false,
        },
        _ => false,
    }
}


/// `v` is a list holding `s`.
pub open spec fn is_list_of(v: PlistValue, s: Seq<PlistValue>) -> bool {
    match v {
        PlistValue::Array(a) => a@ == s,
        _ => false,
    }
}

/// `v` is a kernel dictionary whose one entry is a `Patch` list holding `records`.
pub open spec fn is_fresh_kernel(v: PlistValue, records: Seq<PlistValue>) -> bool {
    match v {
        PlistValue::Dictionary(d) => d@.len() == 1 && d@[0].0@ == "Patch"@ && is_list_of(d@[0].1, records),
        _ => false,
    }
}

/// `v` is the kernel dictionary `d` with `records` appended to its list.
pub open spec fn is_appended_kernel(d: Seq<(String, PlistValue)>, v: PlistValue, records: Seq<PlistValue>) -> bool {
    match v {
        PlistValue::Dictionary(d2) => patches_appended(d, d2@, records),
        _ => false,
    }
}

/// `d2` is the kernel dictionary `d` with `records` appended to its `Patch`
/// list: a fresh list holding just `records` when there was none; no change
/// when `Patch` holds something other than a list.
pub open spec fn patches_appended(
    d: Seq<(String, PlistValue)>,
    d2: Seq<(String, PlistValue)>,
    records: Seq<PlistValue>,
) -> bool {
    match key_pos(d, "Patch"@) {
        None => d2.len() == d.len() + 1 && d2.subrange(0, d.len() as int) == d
            && d2[d.len() as int].0@ == "Patch"@
            && is_list_of(d2[d.len() as int].1, records),
        Some(j) => match d[j].1 {
            PlistValue::Array(a) => d2.len() == d.len()
                && (forall|k: int| 0 <= k < d.len() && k != j ==> d2[k] == d[k])
                && d2[j].0 == d[j].0
                && is_list_of(d2[j].1, a@ + records),
            _ => d2 == d,
        },
    }
}

/// `new` is the top-level entries `old` after injecting `records`: a fresh
/// `Kernel` dictionary with a `Patch` list of just `records` is added when
/// there was none; a `Kernel` dictionary gets them appended to its list; a
/// `Kernel` entry that is not a dictionary is left as it is.
pub open spec fn catalog_injected(
    old: Seq<(String, PlistValue)>,
    new: Seq<(String, PlistValue)>,
    records: Seq<PlistValue>,
) -> bool {
    match key_pos(old, "Kernel"@) {
        None => new.len() == old.len() + 1 && new.subrange(0, old.len() as int) == old
            && new[old.len() as int].0@ == "Kernel"@
            && is_fresh_kernel(new[old.len() as int].1, records),
        Some(i) => match old[i].1 {
            PlistValue::Dictionary(d) => new.len() == old.len()
                && (forall|k: int| 0 <= k < old.len() && k != i ==> new[k] == old[k])
                && new[i].0 == old[i].0
                && is_appended_kernel(d@, new[i].1, records),
            _ => new == old,
        },
    }
}

/// Appends `records` to the `Patch` list of the kernel dictionary entries `d`.
fn append_patches(d: &mut Entries, records: Vec<PlistValue>)
    ensures
        patches_appended(old(d)@, final(d)@, records@),
{
    let mut records = records;
    match find_key(d, "Patch") {
        None => {
            d.push((String::from_str("Patch"), PlistValue::Array(records)));
            assert(final(d)@.subrange(0, old(d)@.len() as int) =~= old(d)@);
        },
        Some(j) => {
            let (k, v) = d.remove(j);
            match v {
                PlistValue::Array(mut a) => {
                    a.append(&mut records);
                    d.insert(j, (k, PlistValue::Array(a)));
                },
                other => {
                    d.insert(j, (k, other));
                    assert(final(d)@ =~= old(d)@);
                },
            }
        },
    }
}

/// `a` and `b` agree on everything but the four identity fields: serial
/// number, board serial, instance UUID and ROM.
pub open spec fn same_but_identity(a: MacPlist, b: MacPlist) -> bool {
    a.other == b.other && same_platform_but_identity(a, b)
}

/// The platform sections of `a` and `b` agree on everything but the four
/// identity fields.
pub open spec fn same_platform_but_identity(a: MacPlist, b: MacPlist) -> bool {
    &&& a.platform_info.other == b.platform_info.other
    &&& a.platform_info.generic.other == b.platform_info.generic.other
    &&& a.platform_info.generic.system_product_name == b.platform_info.generic.system_product_name
}

/// The four identity fields of `doc` are those of `id`.
pub open spec fn has_identity(doc: MacPlist, id: Identity) -> bool {
    let g = doc.platform_info.generic;
    &&& g.system_serial_number@ == id.serial.serial_number@
    &&& g.mlb@ == id.serial.board_serial@
    &&& g.system_uuid@ == id.uuid@
    &&& g.rom matches PlistValue::Data(b) && b@ == id.rom@
}

/// After `set_identity(id)` a document reads back exactly `id`, and every
/// field that the identity does not cover is as it was.
pub proof fn lemma_identity_read_back(old: MacPlist, new: MacPlist, id: Identity)
    requires
        same_but_identity(old, new),
        has_identity(new, id),
    ensures
        new.platform_info.generic.system_serial_number@ == id.serial.serial_number@,
        new.platform_info.generic.mlb@ == id.serial.board_serial@,
        new.serials_valid() == valid_serials(id.serial.serial_number@, id.serial.board_serial@),
        new.other == old.other,
        new.platform_info.other == old.platform_info.other,
        new.platform_info.generic.other == old.platform_info.generic.other,
        new.platform_info.generic.system_product_name == old.platform_info.generic.system_product_name,
{
}

impl MacPlist {
    pub fn new(platform_info: PlatformInfo, other: Entries) -> (r: MacPlist)
        ensures
            r.platform_info == platform_info,
            r.other == other,
    {
        MacPlist { platform_info, other }
    }

    pub fn get_product_name(&self) -> (r: &str)
        ensures
            r@ == self.platform_info.generic.system_product_name@,
    {
        self.platform_info.generic.system_product_name.as_str()
    }

    pub fn get_serial_number(&self) -> (r: &str)
        ensures
            r@ == self.platform_info.generic.system_serial_number@,
    {
        self.platform_info.generic.system_serial_number.as_str()
    }

    pub fn get_mlb(&self) -> (r: &str)
        ensures
            r@ == self.platform_info.generic.mlb@,
    {
        self.platform_info.generic.mlb.as_str()
    }

    /// The dictionaries that the library edits have unique keys: the top
    /// level, the platform sections, and the kernel dictionary.
    pub open spec fn wf(&self) -> bool {
        &&& keys_unique(self.other@)
        &&& keys_unique(self.platform_info.other@)
        &&& keys_unique(self.platform_info.generic.other@)
        &&& kernel_unique(self.other@)
    }

    /// The document's identity fields are both set.
    pub open spec fn serials_valid(&self) -> bool {
        valid_serials(self.platform_info.generic.system_serial_number@, self.platform_info.generic.mlb@)
    }

    /// True iff serial number and board serial are both non-empty and
    /// neither is its factory placeholder.
    pub fn has_valid_serials(&self) -> (r: bool)
        ensures
            r == self.serials_valid(),
    {
        valid_serial_pair(&self.platform_info.generic.system_serial_number, &self.platform_info.generic.mlb)
    }

    /// True iff the kernel patch catalog holds a record whose comment
    /// contains one of `markers`.
    pub fn has_patch_catalog_entry(&self, markers: &Vec<String>) -> (r: bool)
        ensures
            r == catalog_marked(self.other@, texts(markers@)),
    {
        let ki = match find_key(&self.other, "Kernel") {
            Some(ki) => ki,
            None => return false,
        };
        let kernel = match &self.other[ki].1 {
            PlistValue::Dictionary(d) => d,
            _ => return false,
        };
        let pi = match find_key(kernel, "Patch") {
            Some(pi) => pi,
            None => return false,
        };
        let patches = match &kernel[pi].1 {
            PlistValue::Array(a) => a,
            _ => return false,
        };
        let mut i: usize = 0;
        while i < patches.len()
            invariant
                patch_catalog(self.other@) == Some(patches@),
                i <= patches@.len(),
                forall|j: int| 0 <= j < i ==> !record_marked(#[trigger] patches@[j], texts(markers@)),
            decreases patches@.len() - i,
        {
            if record_has_marker(&patches[i], markers) {
                proof {
                    let a = patch_catalog(self.other@).unwrap();
                    assert(a == patches@);
                    assert(record_marked(a[i as int], texts(markers@)));
                }
                return true;
            }
            i = i + 1;
        }
        false
    }
    pub fn set_serial_number(&mut self, serial_number: String)
        ensures
            same_but_identity(*old(self), *final(self)),
            final(self).platform_info.generic.system_serial_number == serial_number,
            final(self).platform_info.generic.mlb == old(self).platform_info.generic.mlb,
            final(self).platform_info.generic.system_uuid == old(self).platform_info.generic.system_uuid,
            final(self).platform_info.generic.rom == old(self).platform_info.generic.rom,
    {
        self.platform_info.generic.system_serial_number = serial_number;
    }

    pub fn set_mlb(&mut self, mlb: String)
        ensures
            same_but_identity(*old(self), *final(self)),
            final(self).platform_info.generic.mlb == mlb,
            final(self).platform_info.generic.system_serial_number == old(self).platform_info.generic.system_serial_number,
            final(self).platform_info.generic.system_uuid == old(self).platform_info.generic.system_uuid,
            final(self).platform_info.generic.rom == old(self).platform_info.generic.rom,
    {
        self.platform_info.generic.mlb = mlb;
    }

    /// Sets the instance UUID, given as its hyphenated text.
    pub fn set_uuid(&mut self, uuid: String)
        ensures
            same_but_identity(*old(self), *final(self)),
            final(self).platform_info.generic.system_uuid == uuid,
            final(self).platform_info.generic.system_serial_number == old(self).platform_info.generic.system_serial_number,
            final(self).platform_info.generic.mlb == old(self).platform_info.generic.mlb,
            final(self).platform_info.generic.rom == old(self).platform_info.generic.rom,
    {
        self.platform_info.generic.system_uuid = uuid;
    }

    /// Sets the ROM to the twelve bytes given, as data.
    pub fn set_rom(&mut self, rom: [u8; 12])
        ensures
            same_but_identity(*old(self), *final(self)),
            final(self).platform_info.generic.rom matches PlistValue::Data(b) && b@ == rom@,
            final(self).platform_info.generic.system_serial_number == old(self).platform_info.generic.system_serial_number,
            final(self).platform_info.generic.mlb == old(self).platform_info.generic.mlb,
            final(self).platform_info.generic.system_uuid == old(self).platform_info.generic.system_uuid,
    {
        self.platform_info.generic.rom = PlistValue::Data(slice_to_vec(rom.as_slice()));
    }

    /// Replaces serial number, board serial, instance UUID and ROM together.
    pub fn set_identity(&mut self, id: &Identity)
        ensures
            same_but_identity(*old(self), *final(self)),
            has_identity(*final(self), *id),
            old(self).wf() ==> final(self).wf(),
    {
        self.set_serial_number(id.serial.serial_number.clone());
        self.set_mlb(id.serial.board_serial.clone());
        self.set_uuid(id.uuid.clone());
        self.set_rom(id.rom);
    }

    /// Appends `records` to the kernel patch catalog, creating the `Kernel`
    /// dictionary and its `Patch` list where they are missing. Records already
    /// there stay, first and in order; nothing checks for duplicates.
    pub fn inject_patch_catalog(&mut self, records: Vec<PlistValue>)
        ensures
            final(self).platform_info == old(self).platform_info,
            catalog_injected(old(self).other@, final(self).other@, records@),
            old(self).wf() ==> final(self).wf(),
    {
        let ghost records_view = records@;
        match find_key(&self.other, "Kernel") {
            None => {
                let mut d: Entries = Vec::new();
                d.push((String::from_str("Patch"), PlistValue::Array(records)));
                self.other.push((String::from_str("Kernel"), PlistValue::Dictionary(d)));
                assert(self.other@.subrange(0, old(self).other@.len() as int) =~= old(self).other@);
            },
            Some(i) => {
                let (k, v) = self.other.remove(i);
                match v {
                    PlistValue::Dictionary(mut d) => {
                        append_patches(&mut d, records);
                        self.other.insert(i, (k, PlistValue::Dictionary(d)));
                    },
                    other => {
                        self.other.insert(i, (k, other));
                        assert(self.other@ =~= old(self).other@);
                    },
                }
            },
        }
        proof {
            if old(self).wf() {
                lemma_inject_keeps_keys_unique(old(self).other@, self.other@, records_view);
            }
        }
    }
}


/// The kernel dictionary of `top`, if there is one, has unique keys.
pub open spec fn kernel_unique(top: Seq<(String, PlistValue)>) -> bool {
    match kernel_entries(top) {
        Some(d) => keys_unique(d),
        None => true,
    }
}

proof fn lemma_appended_unique(d: Seq<(String, PlistValue)>, d2: Seq<(String, PlistValue)>, records: Seq<PlistValue>)
    requires
        patches_appended(d, d2, records),
        keys_unique(d),
    ensures
        keys_unique(d2),
{
    lemma_key_pos(d, "Patch"@);
    match key_pos(d, "Patch"@) {
        None => {
            assert forall|i: int, j: int| 0 <= i < j < d2.len() implies (#[trigger] d2[i]).0@ != (#[trigger] d2[j]).0@ by {
                assert(d2[i] == d2.subrange(0, d.len() as int)[i]);
                if j < d.len() {
                    assert(d2[j] == d2.subrange(0, d.len() as int)[j]);
                }
            }
        },
        Some(k) => {
            if let PlistValue::Array(a) = d[k].1 {
                assert forall|i: int, j: int| 0 <= i < j < d2.len() implies (#[trigger] d2[i]).0@ != (#[trigger] d2[j]).0@ by {
                    assert(d2[i].0@ == d[i].0@);
                    assert(d2[j].0@ == d[j].0@);
                }
            }
        },
    }
}

/// Injection keeps the keys of the top level and of the kernel dictionary unique.
pub proof fn lemma_inject_keeps_keys_unique(
    old: Seq<(String, PlistValue)>,
    new: Seq<(String, PlistValue)>,
    records: Seq<PlistValue>,
)
    requires
        catalog_injected(old, new, records),
        keys_unique(old),
        kernel_unique(old),
    ensures
        keys_unique(new),
        kernel_unique(new),
{
    lemma_key_pos(old, "Kernel"@);
    match key_pos(old, "Kernel"@) {
        None => {
            lemma_key_pos_added(old, new, "Kernel"@);
            assert forall|i: int, j: int| 0 <= i < j < new.len() implies (#[trigger] new[i]).0@ != (#[trigger] new[j]).0@ by {
                assert(new[i] == new.subrange(0, old.len() as int)[i]);
                if j < old.len() {
                    assert(new[j] == new.subrange(0, old.len() as int)[j]);
                }
            }
        },
        Some(i) => {
            if let PlistValue::Dictionary(d) = old[i].1 {
                assert forall|k: int| 0 <= k < old.len() implies (#[trigger] old[k]).0@ == new[k].0@ by {
                    if k != i {
                        assert(new[k] == old[k]);
                    }
                }
                assert forall|a: int, b: int| 0 <= a < b < new.len() implies (#[trigger] new[a]).0@ != (#[trigger] new[b]).0@ by {
                    assert(old[a].0@ == new[a].0@);
                    assert(old[b].0@ == new[b].0@);
                }
                lemma_key_pos_same_keys(old, new, "Kernel"@);
                if let PlistValue::Dictionary(d2) = new[i].1 {
                    lemma_appended_unique(d@, d2@, records);
                }
            }
        },
    }
}

/// The entries `top` have no patch catalog section: no `Kernel` entry, or a
/// `Kernel` dictionary without a `Patch` entry.
pub open spec fn lacks_catalog(top: Seq<(String, PlistValue)>) -> bool {
    match key_pos(top, "Kernel"@) {
        None => true,
        Some(_) => match kernel_entries(top) {
            Some(d) => key_pos(d, "Patch"@) is None,
            None => false,
        },
    }
}

proof fn lemma_appended_catalog(d: Seq<(String, PlistValue)>, d2: Seq<(String, PlistValue)>, records: Seq<PlistValue>)
    requires
        patches_appended(d, d2, records),
    ensures
        key_pos(d, "Patch"@) is None ==> patch_array(d2) == Some(records),
        patch_array(d) matches Some(a) ==> patch_array(d2) == Some(a + records),
{
    match key_pos(d, "Patch"@) {
        None => {
            lemma_key_pos_added(d, d2, "Patch"@);
        },
        Some(j) => {
            if let PlistValue::Array(a) = d[j].1 {
                assert forall|k: int| 0 <= k < d.len() implies (#[trigger] d[k]).0@ == d2[k].0@ by {
                    if k != j {
                        assert(d2[k] == d[k]);
                    }
                }
                lemma_key_pos_same_keys(d, d2, "Patch"@);
            }
        },
    }
}

/// Injecting records into a document without a catalog yields a catalog of
/// exactly those records, in the order given; into a document with one, the
/// records already there come first, in their order, then the new ones.
pub proof fn lemma_inject_catalog(
    old: Seq<(String, PlistValue)>,
    new: Seq<(String, PlistValue)>,
    records: Seq<PlistValue>,
)
    requires
        catalog_injected(old, new, records),
    ensures
        lacks_catalog(old) ==> patch_catalog(new) == Some(records),
        patch_catalog(old) matches Some(a) ==> patch_catalog(new) == Some(a + records),
{
    match key_pos(old, "Kernel"@) {
        None => {
            lemma_key_pos_added(old, new, "Kernel"@);
            if let PlistValue::Dictionary(d) = new[old.len() as int].1 {
                lemma_key_pos(d@, "Patch"@);
                assert(first_at(d@, "Patch"@, 0));
            }
        },
        Some(i) => {
            if let PlistValue::Dictionary(d) = old[i].1 {
                assert forall|k: int| 0 <= k < old.len() implies (#[trigger] old[k]).0@ == new[k].0@ by {
                    if k != i {
                        assert(new[k] == old[k]);
                    }
                }
                lemma_key_pos_same_keys(old, new, "Kernel"@);
                if let PlistValue::Dictionary(d2) = new[i].1 {
                    lemma_appended_catalog(d@, d2@, records);
                }
            }
        },
    }
}

/// On a document without a catalog, a marker lookup finds nothing before
/// injection, and finds a match after injecting records of which one is marked.
pub proof fn lemma_inject_then_marked(
    old: Seq<(String, PlistValue)>,
    new: Seq<(String, PlistValue)>,
    records: Seq<PlistValue>,
    markers: Seq<Seq<char>>,
    r: int,
)
    requires
        catalog_injected(old, new, records),
        lacks_catalog(old),
        0 <= r < records.len(),
        record_marked(records[r], markers),
    ensures
        !catalog_marked(old, markers),
        catalog_marked(new, markers),
{
    lemma_inject_catalog(old, new, records);
    assert(patch_catalog(new) == Some(records));
    assert(record_marked(patch_catalog(new).unwrap()[r], markers));
}

} // verus!
