use ocplist::document::{Generic, MacPlist, PlatformInfo};
use ocplist::identity::{
    build_rom, generate_identity, generate_rom, hex_digits, vendor_prefixes, GenError, Serial,
};
use ocplist::session::{
    answer_accepts, classify, decide_identity, decide_patches, document_to_write, finish,
    should_ask_identity, should_ask_patches, Finish, Pending, Plan, RunOptions,
};
use ocplist::value::PlistValue;

fn placeholder_doc() -> MacPlist {
    let generic = Generic {
        mlb: "NO_LOGIC_BOARD_SN".to_string(),
        rom: PlistValue::Data(vec![0x11, 0x22, 0x33, 0x44, 0x55, 0x66]),
        system_product_name: "iMacPro1,1".to_string(),
        system_serial_number: "NO_DEVICE_SN".to_string(),
        system_uuid: "".to_string(),
        other: vec![],
    };
    MacPlist::new(PlatformInfo { generic, other: vec![] }, vec![])
}

fn opts() -> RunOptions {
    RunOptions {
        dry_run: false,
        force_regenerate: false,
        add_sequoia_patches: false,
        force_sequoia_patches: false,
        interactive: false,
    }
}

fn is_rom_token(rom: &[u8; 12]) -> bool {
    rom[..6].iter().all(|b| b.is_ascii())
        && rom[6..].iter().all(|b| b.is_ascii_digit() || (b'a'..=b'f').contains(b))
}

fn good_serial() -> Serial {
    Serial { serial_number: "C02TM2ZBHX87".to_string(), board_serial: "C02717306J9JG361M".to_string() }
}

#[test]
fn unattended_run_on_placeholders_commits_identity() {
    let doc = placeholder_doc();
    let o = opts();
    let valid = doc.has_valid_serials();
    assert!(!valid);
    assert!(!should_ask_identity(valid, &o));
    let want_id = decide_identity(valid, &o, false);
    assert!(want_id);
    let present = doc.has_sequoia_patches();
    assert!(!should_ask_patches(present, &o));
    let want_patches = decide_patches(present, &o, false);
    assert!(!want_patches);
    let pending = classify(want_id, want_patches);
    assert_eq!(pending, Pending::PendingIdentity);
    let id = generate_identity(good_serial()).unwrap();
    assert!(is_rom_token(&id.rom));
    assert_eq!(finish(pending, o.dry_run), Finish::Committed);
    let plan = Plan { identity: Some(id.clone()), add_patches: want_patches };
    let written = document_to_write(doc, &plan, o.dry_run).unwrap();
    assert!(written.has_valid_serials());
    assert_eq!(written.get_serial_number(), "C02TM2ZBHX87");
    assert_eq!(written.get_mlb(), "C02717306J9JG361M");
    assert_eq!(written.platform_info.generic.rom, PlistValue::Data(id.rom.to_vec()));
    assert!(!written.has_sequoia_patches());
}

#[test]
fn dry_run_writes_nothing() {
    let doc = placeholder_doc();
    let o = RunOptions { dry_run: true, interactive: true, ..opts() };
    assert!(!should_ask_identity(false, &o));
    assert!(decide_identity(doc.has_valid_serials(), &o, false));
    let id = generate_identity(good_serial()).unwrap();
    let plan = Plan { identity: Some(id), add_patches: false };
    assert_eq!(plan.identity.as_ref().unwrap().serial.serial_number, "C02TM2ZBHX87");
    assert!(document_to_write(placeholder_doc(), &plan, true).is_none());
    assert_eq!(finish(Pending::PendingIdentity, true), Finish::Simulated);
    assert_eq!(doc.get_serial_number(), "NO_DEVICE_SN");
    assert_eq!(doc.get_mlb(), "NO_LOGIC_BOARD_SN");
}

#[test]
fn nothing_pending_writes_nothing() {
    let plan = Plan { identity: None, add_patches: false };
    assert!(document_to_write(placeholder_doc(), &plan, false).is_none());
    assert_eq!(finish(classify(false, false), false), Finish::Unchanged);
}

#[test]
fn patches_only_plan_keeps_identity() {
    let plan = Plan { identity: None, add_patches: true };
    let d = document_to_write(placeholder_doc(), &plan, false).unwrap();
    assert!(d.has_sequoia_patches());
    assert_eq!(d.get_serial_number(), "NO_DEVICE_SN");
    assert_eq!(classify(false, true), Pending::PendingPatches);
    assert_eq!(classify(true, true), Pending::PendingBoth);
}

#[test]
fn identity_decisions() {
    let o = RunOptions { interactive: true, ..opts() };
    assert!(should_ask_identity(true, &o));
    assert!(!decide_identity(true, &o, false));
    assert!(decide_identity(true, &o, true));
    let forced = RunOptions { force_regenerate: true, ..o };
    assert!(!should_ask_identity(true, &forced));
    assert!(decide_identity(true, &forced, false));
    assert!(!decide_identity(true, &opts(), true));
}

#[test]
fn patch_decisions() {
    let o = RunOptions { interactive: true, ..opts() };
    assert!(should_ask_patches(false, &o));
    assert!(decide_patches(false, &o, true));
    assert!(!decide_patches(false, &o, false));
    assert!(!should_ask_patches(true, &o));
    assert!(!decide_patches(true, &o, true));
    let add = RunOptions { add_sequoia_patches: true, ..opts() };
    assert!(decide_patches(false, &add, false));
    assert!(!decide_patches(true, &add, false));
    let force = RunOptions { force_sequoia_patches: true, ..opts() };
    assert!(decide_patches(true, &force, false));
}

#[test]
fn answers() {
    assert!(answer_accepts("y", false));
    assert!(answer_accepts("YES", false));
    assert!(answer_accepts("yEs", false));
    assert!(!answer_accepts("no", true));
    assert!(!answer_accepts("yess", true));
    assert!(answer_accepts("", true));
    assert!(!answer_accepts("", false));
}

#[test]
fn generated_identity_format() {
    let id = generate_identity(good_serial()).unwrap();
    assert_eq!(id.serial, good_serial());
    assert!(is_rom_token(&id.rom));
    let prefix = std::str::from_utf8(&id.rom[..6]).unwrap();
    assert!(vendor_prefixes().contains(&prefix));
    let u: Vec<char> = id.uuid.chars().collect();
    assert_eq!(u.len(), 36);
    assert_eq!(u[8], '-');
    assert_eq!(u[14], '4');
    assert!(id.uuid.chars().all(|c| c == '-' || c.is_ascii_digit() || ('a'..='f').contains(&c)));
    let other = generate_identity(good_serial()).unwrap();
    assert_ne!(id.uuid, other.uuid);
}

#[test]
fn placeholder_serial_refused() {
    let bad = Serial { serial_number: "NO_DEVICE_SN".to_string(), board_serial: "X".to_string() };
    assert_eq!(generate_identity(bad).err(), Some(GenError::InvalidSerial));
    let empty = Serial { serial_number: "A".to_string(), board_serial: "".to_string() };
    assert_eq!(generate_identity(empty).err(), Some(GenError::InvalidSerial));
}

#[test]
fn rom_building() {
    assert_eq!(build_rom("000393", *b"a1b2c3"), Ok(*b"000393a1b2c3"));
    assert_eq!(build_rom("00039", *b"a1b2c3"), Err(GenError::BadVendorPrefix));
    assert_eq!(build_rom("00039é", *b"a1b2c3"), Err(GenError::BadVendorPrefix));
    assert!(is_rom_token(&generate_rom()));
    assert_eq!(hex_digits(), b"0123456789abcdef".to_vec());
}
