use vstd::prelude::*;

use rand::seq::IndexedRandom;

use crate::document::{valid_serial_pair, valid_serials};

verus! {

/// Why an identity could not be generated.
#[derive(Debug, PartialEq, Eq, Structural)]
pub enum GenError {
    /// The serial pair handed in is empty or a factory placeholder.
    InvalidSerial,
    /// The vendor prefix table is empty.
    NoVendorPrefix,
    /// A vendor prefix is not six ASCII characters.
    BadVendorPrefix,
}

/// A serial number with its matching board serial.
#[derive(Debug, Clone, PartialEq)]
pub struct Serial {
    pub serial_number: String,
    pub board_serial: String,
}

/// A complete platform identity: serial pair, instance UUID and ROM token.
#[derive(Debug, Clone, PartialEq)]
pub struct Identity {
    pub serial: Serial,
    pub uuid: String,
    pub rom: [u8; 12],
}

pub open spec fn is_lower_hex(c: char) -> bool {
    ('0' <= c <= '9') || ('a' <= c <= 'f')
}

/// The hyphenated lower-case text of a version-4 UUID.
pub open spec fn is_uuid_text(s: Seq<char>) -> bool {
    &&& s.len() == 36
    &&& forall|i: int|
        0 <= i < 36 ==> if i == 8 || i == 13 || i == 18 || i == 23 {
            #[trigger] s[i] == '-'
        } else {
            is_lower_hex(s[i])
        }
    &&& s[14] == '4'
    &&& (s[19] == '8' || s[19] == '9' || s[19] == 'a' || s[19] == 'b')
}

/// A lower-case hex digit as an ASCII byte.
pub open spec fn is_hex_digit_byte(b: u8) -> bool {
    (48 <= b <= 57) || (97 <= b <= 102)
}

pub open spec fn is_ascii_text(s: Seq<char>) -> bool {
    forall|i: int| 0 <= i < s.len() ==> (#[trigger] s[i] as int) < 128
}

/// The ASCII bytes of ASCII text.
pub open spec fn ascii_bytes(s: Seq<char>) -> Seq<u8> {
    s.map_values(|c: char| c as u8)
}

/// A ROM token: six ASCII bytes of vendor prefix, then six lower-case hex digits.
pub open spec fn is_rom_token(r: Seq<u8>) -> bool {
    &&& r.len() == 12
    &&& forall|i: int| 0 <= i < 6 ==> #[trigger] r[i] < 128
    &&& forall|i: int| 6 <= i < 12 ==> is_hex_digit_byte(#[trigger] r[i])
}

/// Relies on rand's `IndexedRandom::choose` over the thread-local generator:
/// nothing for an empty list, else one of its items.
#[verifier::external_body]
fn choose_from<T: Copy>(v: &Vec<T>) -> (r: Option<T>)
    ensures
        r is None <==> v@.len() == 0,
        r matches Some(x) ==> v@.contains(x),
{
    v.choose(&mut rand::rng()).copied()
}

/// Relies on uuid's `Uuid::new_v4` and its `Display`: a random version-4 UUID
/// in hyphenated lower-case form.
#[verifier::external_body]
fn fresh_uuid() -> (r: String)
    ensures
        is_uuid_text(r@),
{
    uuid::Uuid::new_v4().to_string()
}

/// The sixteen lower-case hex digits, as ASCII bytes.
pub fn hex_digits() -> (r: Vec<u8>)
    ensures
        r@.len() == 16,
        forall|i: int| 0 <= i < 16 ==> is_hex_digit_byte(#[trigger] r@[i]),
        forall|b: u8| is_hex_digit_byte(b) ==> r@.contains(b),
{
    let mut r: Vec<u8> = Vec::new();
    let mut i: u8 = 0;
    while i < 16
        invariant
            i <= 16,
            r@.len() == i,
            forall|k: int| 0 <= k < i ==> r@[k] == if k < 10 { 48 + k } else { 87 + k },
        decreases 16 - i,
    {
        if i < 10 {
            r.push(48 + i);
        } else {
            r.push(87 + i);
        }
        i = i + 1;
    }
    assert forall|b: u8| is_hex_digit_byte(b) implies r@.contains(b) by {
        if b <= 57 {
            assert(r@[b - 48] == b);
        } else {
            assert(r@[b - 87] == b);
        }
    }
    r
}

/// The ROM token made of a six-character ASCII vendor prefix and six more bytes.
pub fn build_rom(prefix: &str, tail: [u8; 6]) -> (r: Result<[u8; 12], GenError>)
    ensures
        r is Ok <==> prefix@.len() == 6 && is_ascii_text(prefix@),
        r matches Ok(rom) ==> rom@ == ascii_bytes(prefix@) + tail@
            && forall|k: int| 0 <= k < 6 ==> rom@[k] as int == #[trigger] prefix@[k] as int,
        r matches Err(e) ==> e == GenError::BadVendorPrefix,
{
    if prefix.unicode_len() != 6 {
        return Err(GenError::BadVendorPrefix);
    }
    let mut rom: [u8; 12] = [0; 12];
    let mut i: usize = 0;
    while i < 6
        invariant
            prefix@.len() == 6,
            i <= 6,
            rom@.len() == 12,
            forall|k: int| 0 <= k < i ==> (prefix@[k] as int) < 128 && rom@[k] as int == prefix@[k] as int,
        decreases 6 - i,
    {
        let c = prefix.get_char(i);
        if (c as u32) >= 128 {
            return Err(GenError::BadVendorPrefix);
        }
        rom[i] = c as u8;
        i = i + 1;
    }
    while i < 12
        invariant
            prefix@.len() == 6,
            6 <= i <= 12,
            rom@.len() == 12,
            forall|k: int| 0 <= k < 6 ==> (prefix@[k] as int) < 128 && rom@[k] as int == prefix@[k] as int,
            forall|k: int| 6 <= k < i ==> rom@[k] == tail@[k - 6],
        decreases 12 - i,
    {
        rom[i] = tail[i - 6];
        i = i + 1;
    }
    assert forall|k: int| 0 <= k < 6 implies rom@[k] == ascii_bytes(prefix@)[k] by {
        let c = prefix@[k];
        assert(c as u8 == (c as int) as u8);
    }
    assert(rom@ =~= ascii_bytes(prefix@) + tail@);
    Ok(rom)
}

/// The vendor address prefixes (OUIs) a ROM token may start with, as
/// upper-case hex text.
pub open spec fn vendor_prefix_table() -> Seq<Seq<char>> {
    seq![
        "000393"@,
        "000A27"@,
        "000A95"@,
        "000D93"@,
        "0010FA"@,
        "001124"@,
        "001451"@,
        "0016CB"@,
        "0017F2"@,
        "0019E3"@,
        "001B63"@,
        "001CB3"@,
        "001D4F"@,
        "001E52"@,
        "001EC2"@,
        "001F5B"@,
        "001FF3"@,
        "0021E9"@,
        "002241"@,
        "002312"@,
        "002332"@,
        "00236C"@,
        "0023DF"@,
        "002436"@,
        "002500"@,
        "00254B"@,
        "0025BC"@,
        "002608"@,
        "00264A"@,
        "0026B0"@,
        "0026BB"@,
        "003065"@,
        "0050E4"@,
        "00A040"@,
        "080007"@,
    ]
}

/// A ROM token that starts with the ASCII bytes of one of the vendor prefixes.
pub open spec fn has_vendor_prefix(r: Seq<u8>) -> bool {
    exists|i: int|
        0 <= i < vendor_prefix_table().len() && r.subrange(0, 6) == ascii_bytes(
            #[trigger] vendor_prefix_table()[i],
        )
}

/// The vendor prefix table, in order.
pub fn vendor_prefixes() -> (r: Vec<&'static str>)
    ensures
        r@.len() == vendor_prefix_table().len(),
        forall|i: int| 0 <= i < r@.len() ==> (#[trigger] r@[i])@ == vendor_prefix_table()[i],
        forall|i: int| 0 <= i < r@.len() ==> (#[trigger] r@[i])@.len() == 6 && is_ascii_text(r@[i]@),
{
    let mut r: Vec<&'static str> = Vec::new();
    r.push("000393");
    r.push("000A27");
    r.push("000A95");
    r.push("000D93");
    r.push("0010FA");
    r.push("001124");
    r.push("001451");
    r.push("0016CB");
    r.push("0017F2");
    r.push("0019E3");
    r.push("001B63");
    r.push("001CB3");
    r.push("001D4F");
    r.push("001E52");
    r.push("001EC2");
    r.push("001F5B");
    r.push("001FF3");
    r.push("0021E9");
    r.push("002241");
    r.push("002312");
    r.push("002332");
    r.push("00236C");
    r.push("0023DF");
    r.push("002436");
    r.push("002500");
    r.push("00254B");
    r.push("0025BC");
    r.push("002608");
    r.push("00264A");
    r.push("0026B0");
    r.push("0026BB");
    r.push("003065");
    r.push("0050E4");
    r.push("00A040");
    r.push("080007");
    proof {
        reveal_strlit("000393");
        reveal_strlit("000A27");
        reveal_strlit("000A95");
        reveal_strlit("000D93");
        reveal_strlit("0010FA");
        reveal_strlit("001124");
        reveal_strlit("001451");
        reveal_strlit("0016CB");
        reveal_strlit("0017F2");
        reveal_strlit("0019E3");
        reveal_strlit("001B63");
        reveal_strlit("001CB3");
        reveal_strlit("001D4F");
        reveal_strlit("001E52");
        reveal_strlit("001EC2");
        reveal_strlit("001F5B");
        reveal_strlit("001FF3");
        reveal_strlit("0021E9");
        reveal_strlit("002241");
        reveal_strlit("002312");
        reveal_strlit("002332");
        reveal_strlit("00236C");
        reveal_strlit("0023DF");
        reveal_strlit("002436");
        reveal_strlit("002500");
        reveal_strlit("00254B");
        reveal_strlit("0025BC");
        reveal_strlit("002608");
        reveal_strlit("00264A");
        reveal_strlit("0026B0");
        reveal_strlit("0026BB");
        reveal_strlit("003065");
        reveal_strlit("0050E4");
        reveal_strlit("00A040");
        reveal_strlit("080007");
    }
    r
}

/// A fresh ROM token: a vendor prefix drawn from `vendor_prefixes`, then six
/// hex digits, each drawn on its own.
pub fn generate_rom() -> (r: [u8; 12])
    ensures
        is_rom_token(r@),
        has_vendor_prefix(r@),
{
    let prefixes = vendor_prefixes();
    let prefix = match choose_from(&prefixes) {
        Some(p) => p,
        None => {
            proof {
                assert(false);
            }
            "000000"
        },
    };
    let ghost pi = choose|i: int| 0 <= i < prefixes@.len() && prefixes@[i] == prefix;
    proof {
        assert(prefix@.len() == 6 && is_ascii_text(prefix@)) by {
            assert((prefixes@[pi])@.len() == 6);
        }
        assert(prefix@ == vendor_prefix_table()[pi]);
    }
    let digits = hex_digits();
    let mut tail: [u8; 6] = [48; 6];
    let mut i: usize = 0;
    while i < 6
        invariant
            i <= 6,
            tail@.len() == 6,
            digits@.len() == 16,
            forall|k: int| 0 <= k < 16 ==> is_hex_digit_byte(#[trigger] digits@[k]),
            forall|k: int| 0 <= k < 6 ==> is_hex_digit_byte(#[trigger] tail@[k]),
        decreases 6 - i,
    {
        match choose_from(&digits) {
            Some(b) => {
                tail[i] = b;
            },
            None => {
                proof {
                    assert(false);
                }
            },
        }
        i = i + 1;
    }
    match build_rom(prefix, tail) {
        Ok(rom) => {
            assert forall|k: int| 0 <= k < 6 implies #[trigger] rom@[k] < 128 by {
                assert(rom@[k] as int == prefix@[k] as int);
            }
            assert forall|k: int| 6 <= k < 12 implies is_hex_digit_byte(#[trigger] rom@[k]) by {
                assert(rom@[k] == tail@[k - 6]);
            }
            assert(rom@.subrange(0, 6) =~= ascii_bytes(vendor_prefix_table()[pi]));
            rom
        },
        Err(_) => {
            proof {
                assert(false);
            }
            [48; 12]
        },
    }
}

/// A complete identity for the serial pair handed in: a fresh UUID and a
/// fresh ROM token go with it. A pair that is empty or a factory placeholder
/// is refused.
pub fn generate_identity(serial: Serial) -> (r: Result<Identity, GenError>)
    ensures
        r is Ok <==> valid_serials(serial.serial_number@, serial.board_serial@),
        r matches Ok(id) ==> id.serial == serial && is_uuid_text(id.uuid@) && is_rom_token(id.rom@)
            && has_vendor_prefix(id.rom@),
        r matches Err(e) ==> e == GenError::InvalidSerial,
{
    if !valid_serial_pair(&serial.serial_number, &serial.board_serial) {
        return Err(GenError::InvalidSerial);
    }
    let uuid = fresh_uuid();
    let rom = generate_rom();
    Ok(Identity { serial, uuid, rom })
}

} // verus!
