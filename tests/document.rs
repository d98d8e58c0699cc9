use ocplist::document::{Generic, MacPlist, PlatformInfo};
use ocplist::identity::{Identity, Serial};
use ocplist::patches::{patch_record, sequoia_markers, sequoia_patches};
use ocplist::text::contains_text;
use ocplist::value::{find_key, PlistValue};

fn doc(serial: &str, mlb: &str, other: Vec<(String, PlistValue)>) -> MacPlist {
    let generic = Generic {
        mlb: mlb.to_string(),
        rom: PlistValue::Data(vec![1, 2, 3]),
        system_product_name: "iMacPro1,1".to_string(),
        system_serial_number: serial.to_string(),
        system_uuid: "00000000-0000-0000-0000-000000000000".to_string(),
        other: vec![("SpoofVendor".to_string(), PlistValue::Boolean(true))],
    };
    let pi = PlatformInfo { generic, other: vec![("UpdateSMBIOS".to_string(), PlistValue::Boolean(true))] };
    MacPlist::new(pi, other)
}

fn misc() -> Vec<(String, PlistValue)> {
    vec![
        ("Booter".to_string(), PlistValue::Dictionary(vec![("Quirks".to_string(), PlistValue::Integer(7))])),
        ("Misc".to_string(), PlistValue::Real(0x3ff0000000000000)),
    ]
}

fn record(comment: &str) -> PlistValue {
    PlistValue::Dictionary(vec![("Comment".to_string(), PlistValue::String(comment.to_string()))])
}

fn catalog(d: &MacPlist) -> Option<&Vec<PlistValue>> {
    let k = find_key(&d.other, "Kernel")?;
    match &d.other[k].1 {
        PlistValue::Dictionary(kd) => {
            let p = find_key(kd, "Patch")?;
            match &kd[p].1 {
                PlistValue::Array(a) => Some(a),
                _ => None,
            }
        }
        _ => None,
    }
}

#[test]
fn valid_serials_accepted() {
    assert!(doc("C02XXXXXXXXX", "C02YYYYYYYYYYYYYY", vec![]).has_valid_serials());
}

#[test]
fn placeholder_or_empty_serials_rejected() {
    assert!(!doc("NO_DEVICE_SN", "C02YYYYYYYYYYYYYY", vec![]).has_valid_serials());
    assert!(!doc("C02XXXXXXXXX", "NO_LOGIC_BOARD_SN", vec![]).has_valid_serials());
    assert!(!doc("", "C02YYYYYYYYYYYYYY", vec![]).has_valid_serials());
    assert!(!doc("C02XXXXXXXXX", "", vec![]).has_valid_serials());
    assert!(!doc("NO_DEVICE_SN", "NO_LOGIC_BOARD_SN", vec![]).has_valid_serials());
}

#[test]
fn getters_read_fields() {
    let d = doc("SER", "BOARD", vec![]);
    assert_eq!(d.get_serial_number(), "SER");
    assert_eq!(d.get_mlb(), "BOARD");
    assert_eq!(d.get_product_name(), "iMacPro1,1");
}

#[test]
fn set_identity_replaces_four_fields_only() {
    let mut d = doc("NO_DEVICE_SN", "NO_LOGIC_BOARD_SN", misc());
    let id = Identity {
        serial: Serial { serial_number: "C02AB1CDEFGH".to_string(), board_serial: "C02123456789ABCDE".to_string() },
        uuid: "12345678-9abc-4def-8123-456789abcdef".to_string(),
        rom: *b"000393a1b2c3",
    };
    d.set_identity(&id);
    assert_eq!(d.get_serial_number(), "C02AB1CDEFGH");
    assert_eq!(d.get_mlb(), "C02123456789ABCDE");
    assert_eq!(d.platform_info.generic.system_uuid, "12345678-9abc-4def-8123-456789abcdef");
    assert_eq!(d.platform_info.generic.rom, PlistValue::Data(b"000393a1b2c3".to_vec()));
    assert!(d.has_valid_serials());
    let untouched = doc("x", "y", misc());
    assert_eq!(d.other, untouched.other);
    assert_eq!(d.platform_info.other, untouched.platform_info.other);
    assert_eq!(d.platform_info.generic.other, untouched.platform_info.generic.other);
    assert_eq!(d.platform_info.generic.system_product_name, "iMacPro1,1");
}

#[test]
fn inject_creates_catalog() {
    let mut d = doc("a", "b", misc());
    d.inject_patch_catalog(vec![record("one"), record("two")]);
    assert_eq!(d.other.len(), 3);
    assert_eq!(d.other[2].0, "Kernel");
    assert_eq!(catalog(&d), Some(&vec![record("one"), record("two")]));
    assert_eq!(d.other[0].0, "Booter");
}

#[test]
fn inject_creates_list_in_existing_kernel() {
    let kernel = PlistValue::Dictionary(vec![("Quirks".to_string(), PlistValue::Boolean(false))]);
    let mut d = doc("a", "b", vec![("Kernel".to_string(), kernel)]);
    d.inject_patch_catalog(vec![record("one")]);
    match &d.other[0].1 {
        PlistValue::Dictionary(kd) => {
            assert_eq!(kd.len(), 2);
            assert_eq!(kd[0].0, "Quirks");
            assert_eq!(kd[1].0, "Patch");
        }
        _ => panic!("kernel is no dictionary"),
    }
    assert_eq!(catalog(&d), Some(&vec![record("one")]));
}

#[test]
fn inject_appends_after_existing_records() {
    let kernel = PlistValue::Dictionary(vec![(
        "Patch".to_string(),
        PlistValue::Array(vec![record("old1"), record("old2")]),
    )]);
    let mut d = doc("a", "b", vec![("Kernel".to_string(), kernel)]);
    d.inject_patch_catalog(vec![record("new")]);
    assert_eq!(catalog(&d), Some(&vec![record("old1"), record("old2"), record("new")]));
}

#[test]
fn inject_leaves_non_dictionary_kernel() {
    let mut d = doc("a", "b", vec![("Kernel".to_string(), PlistValue::Integer(3))]);
    d.inject_patch_catalog(vec![record("new")]);
    assert_eq!(d.other, vec![("Kernel".to_string(), PlistValue::Integer(3))]);
}

#[test]
fn inject_twice_duplicates() {
    let mut d = doc("a", "b", vec![]);
    d.inject_patch_catalog(vec![record("r")]);
    d.inject_patch_catalog(vec![record("r")]);
    assert_eq!(catalog(&d).map(|c| c.len()), Some(2));
}

#[test]
fn catalog_entry_found_only_after_injection() {
    let mut d = doc("a", "b", misc());
    let markers = vec!["marker".to_string()];
    assert!(!d.has_patch_catalog_entry(&markers));
    d.inject_patch_catalog(vec![record("no"), record("has a marker here")]);
    assert!(d.has_patch_catalog_entry(&markers));
    assert!(!d.has_patch_catalog_entry(&vec!["absent".to_string()]));
}

#[test]
fn sequoia_patches_detected_after_adding() {
    let mut d = doc("a", "b", misc());
    assert!(!d.has_sequoia_patches());
    d.add_sequoia_kernel_patches();
    assert!(d.has_sequoia_patches());
    let c = catalog(&d).unwrap();
    assert_eq!(c.len(), 2);
    assert_eq!(c[0], sequoia_patches()[0]);
    assert_eq!(c[1], sequoia_patches()[1]);
}

#[test]
fn sequoia_record_bytes() {
    let p = sequoia_patches();
    match &p[0] {
        PlistValue::Dictionary(d) => {
            let f = find_key(d, "Find").unwrap();
            assert_eq!(d[f].1, PlistValue::Data(b"hibernatehidready\0hibernatecount\0".to_vec()));
            let r = find_key(d, "Replace").unwrap();
            assert_eq!(d[r].1, PlistValue::Data(b"hibernatehidready\0hv_vmm_present\0".to_vec()));
            assert_eq!(d.len(), 13);
        }
        _ => panic!("record is no dictionary"),
    }
    match &p[1] {
        PlistValue::Dictionary(d) => {
            let f = find_key(d, "Find").unwrap();
            assert_eq!(d[f].1, PlistValue::Data(b"boot session UUID\0hv_vmm_present\0".to_vec()));
        }
        _ => panic!("record is no dictionary"),
    }
    assert_eq!(sequoia_markers(), vec!["kern.hv_vmm_present".to_string(), "VM detection".to_string()]);
}

#[test]
fn patch_record_decodes_hex_either_case() {
    match patch_record("c", "6869aB", "00ff") {
        PlistValue::Dictionary(d) => {
            let f = find_key(&d, "Find").unwrap();
            assert_eq!(d[f].1, PlistValue::Data(vec![0x68, 0x69, 0xab]));
            let r = find_key(&d, "Replace").unwrap();
            assert_eq!(d[r].1, PlistValue::Data(vec![0x00, 0xff]));
        }
        _ => panic!("record is no dictionary"),
    }
}

#[test]
fn text_search() {
    assert!(contains_text("Disable VM detection", "VM detection"));
    assert!(contains_text("abc", ""));
    assert!(!contains_text("ab", "abc"));
    assert!(!contains_text("kern.hv_vmm", "kern.hv_vmm_present"));
    assert!(contains_text("xx kern.hv_vmm_present", "kern.hv_vmm_present"));
}

#[test]
fn find_key_takes_first() {
    let e = vec![
        ("a".to_string(), PlistValue::Integer(1)),
        ("b".to_string(), PlistValue::Integer(2)),
        ("b".to_string(), PlistValue::Integer(3)),
    ];
    assert_eq!(find_key(&e, "b"), Some(1));
    assert_eq!(find_key(&e, "c"), None);
}

fn expected_record(comment: &str, find: &[u8], replace: &[u8]) -> PlistValue {
    let s = |t: &str| PlistValue::String(t.to_string());
    PlistValue::Dictionary(vec![
        ("Arch".to_string(), s("x86_64")),
        ("Base".to_string(), s("")),
        ("Comment".to_string(), s(comment)),
        ("Count".to_string(), PlistValue::Integer(1)),
        ("Enabled".to_string(), PlistValue::Boolean(true)),
        ("Find".to_string(), PlistValue::Data(find.to_vec())),
        ("Replace".to_string(), PlistValue::Data(replace.to_vec())),
        ("Identifier".to_string(), s("kernel")),
        ("MinKernel".to_string(), s("24.0.0")),
        ("MaxKernel".to_string(), s("")),
        ("Mask".to_string(), PlistValue::Data(vec![])),
        ("ReplaceMask".to_string(), PlistValue::Data(vec![])),
        ("Skip".to_string(), PlistValue::Integer(0)),
    ])
}

fn sequoia_expected() -> Vec<PlistValue> {
    vec![
        expected_record(
            "Disable VM detection (kern.hv_vmm_present -> hibernatecount) for Sequoia",
            b"hibernatehidready\0hibernatecount\0",
            b"hibernatehidready\0hv_vmm_present\0",
        ),
        expected_record(
            "Disable VM detection (hibernatecount -> hv_vmm_present) for Sequoia",
            b"boot session UUID\0hv_vmm_present\0",
            b"boot session UUID\0hibernatecount\0",
        ),
    ]
}

#[test]
fn sequoia_records_complete() {
    assert_eq!(sequoia_patches(), sequoia_expected());
}

#[test]
fn sequoia_added_twice_repeats_records() {
    let kernel = PlistValue::Dictionary(vec![(
        "Patch".to_string(),
        PlistValue::Array(vec![record("old")]),
    )]);
    let mut d = doc("a", "b", vec![("Kernel".to_string(), kernel)]);
    d.add_sequoia_kernel_patches();
    d.add_sequoia_kernel_patches();
    let mut expected = vec![record("old")];
    expected.extend(sequoia_expected());
    expected.extend(sequoia_expected());
    assert_eq!(catalog(&d), Some(&expected));
}
