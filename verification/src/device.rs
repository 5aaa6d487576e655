//! Device identity: a stable identifier derived from the machine's network
//! address and host name.
//!
//! The two machine reads come from outside crates and promise nothing about
//! their values; everything after them — the fallbacks for a missing
//! address or name, the joined device name, and the rendering of the
//! version-5 identifier — is verified, so the identifier is exactly the
//! stated function of whatever the machine reported.

use vstd::prelude::*;
use vstd::string::StringExecFns;
use vstd::utf8::encode_utf8;

verus! {

broadcast use vstd::array::group_array_axioms;

/// The version-5 (name-based) identifier that the `uuid` crate derives from
/// a sixteen-byte namespace and a name.
pub uninterp spec fn uuid5_of(namespace: Seq<u8>, name: Seq<u8>) -> Seq<u8>;

/// Relies on `uuid::Uuid::new_v5`: a version-5 identifier is sixteen bytes
/// and a pure function of namespace and name.
#[verifier::external_body]
fn uuid_v5(namespace: &[u8; 16], name: &[u8]) -> (r: Vec<u8>)
    ensures
        r@ == uuid5_of(namespace@, name@),
        r@.len() == 16,
{
    uuid::Uuid::new_v5(&uuid::Uuid::from_bytes(*namespace), name).as_bytes().to_vec()
}

/// Relies on `mac_address::get_mac_address`: reads the machine's first
/// network interface address. The value depends on the machine, so nothing
/// is promised of it.
#[verifier::external_body]
fn read_mac_address() -> Option<String> {
    match mac_address::get_mac_address() {
        Ok(Some(ma)) => Some(ma.to_string()),
        Ok(None) => None,
        Err(_) => None,
    }
}

/// Relies on `hostname::get`: reads the system host name. The value depends
/// on the machine, so nothing is promised of it.
#[verifier::external_body]
fn read_hostname() -> Option<String> {
    match hostname::get() {
        Ok(h) => Some(h.to_string_lossy().into_owned()),
        Err(_) => None,
    }
}

/// The hexadecimal digit character for a value below sixteen.
pub open spec fn hex_digit(d: nat) -> char
    recommends
        d < 16,
{
    if d == 0 {
        '0'
    } else if d == 1 {
        '1'
    } else if d == 2 {
        '2'
    } else if d == 3 {
        '3'
    } else if d == 4 {
        '4'
    } else if d == 5 {
        '5'
    } else if d == 6 {
        '6'
    } else if d == 7 {
        '7'
    } else if d == 8 {
        '8'
    } else if d == 9 {
        '9'
    } else if d == 10 {
        'a'
    } else if d == 11 {
        'b'
    } else if d == 12 {
        'c'
    } else if d == 13 {
        'd'
    } else if d == 14 {
        'e'
    } else {
        'f'
    }
}

/// The two lower-case hexadecimal digits of one byte.
pub open spec fn hex_byte(b: u8) -> Seq<char> {
    seq![hex_digit(b as nat / 16), hex_digit(b as nat % 16)]
}

/// The lower-case hexadecimal rendering of a byte run.
pub open spec fn hex_run(s: Seq<u8>) -> Seq<char>
    decreases s.len(),
{
    if s.len() == 0 {
        Seq::<char>::empty()
    } else {
        hex_byte(s[0]) + hex_run(s.skip(1))
    }
}

/// The customary hyphenated rendering of a sixteen-byte identifier: groups
/// of four, two, two, two, and six bytes in lower-case hexadecimal.
pub open spec fn spec_hyphenated(b: Seq<u8>) -> Seq<char>
    recommends
        b.len() == 16,
{
    hex_run(b.subrange(0, 4)) + "-"@ + hex_run(b.subrange(4, 6)) + "-"@ + hex_run(b.subrange(6, 8))
        + "-"@ + hex_run(b.subrange(8, 10)) + "-"@ + hex_run(b.subrange(10, 16))
}

/// The one-character string for a hexadecimal digit.
fn hex_digit_str(d: u8) -> (r: &'static str)
    requires
        d < 16,
    ensures
        r@ == seq![hex_digit(d as nat)],
{
    if d < 10 {
        crate::text::digit_str(d as u64)
    } else if d == 10 {
        proof {
            reveal_strlit("a");
        }
        "a"
    } else if d == 11 {
        proof {
            reveal_strlit("b");
        }
        "b"
    } else if d == 12 {
        proof {
            reveal_strlit("c");
        }
        "c"
    } else if d == 13 {
        proof {
            reveal_strlit("d");
        }
        "d"
    } else if d == 14 {
        proof {
            reveal_strlit("e");
        }
        "e"
    } else {
        proof {
            reveal_strlit("f");
        }
        "f"
    }
}

/// Appends the hexadecimal rendering of `b[from..to]` to `out`.
fn push_hex_run(out: &mut String, b: &[u8], from: usize, to: usize)
    requires
        from <= to <= b@.len(),
    ensures
        final(out)@ == old(out)@ + hex_run(b@.subrange(from as int, to as int)),
    decreases to - from,
{
    if from == to {
        assert(out@ =~= old(out)@ + hex_run(b@.subrange(from as int, to as int)));
    } else {
        let byte = b[from];
        out.append(hex_digit_str(byte / 16));
        out.append(hex_digit_str(byte % 16));
        push_hex_run(out, b, from + 1, to);
        assert(b@.subrange(from as int, to as int).skip(1) =~= b@.subrange(
            from as int + 1,
            to as int,
        ));
        assert(b@.subrange(from as int, to as int)[0] == byte);
        assert(out@ =~= old(out)@ + hex_run(b@.subrange(from as int, to as int)));
    }
}

/// Renders a sixteen-byte identifier in its hyphenated form.
pub fn hyphenated_string(b: &[u8]) -> (r: String)
    requires
        b@.len() == 16,
    ensures
        r@ == spec_hyphenated(b@),
{
    let mut out = String::new();
    push_hex_run(&mut out, b, 0, 4);
    out.append("-");
    push_hex_run(&mut out, b, 4, 6);
    out.append("-");
    push_hex_run(&mut out, b, 6, 8);
    out.append("-");
    push_hex_run(&mut out, b, 8, 10);
    out.append("-");
    push_hex_run(&mut out, b, 10, 16);
    assert(out@ =~= spec_hyphenated(b@));
    out
}

/// The namespace for Domain Name System names, the fixed sixteen bytes that
/// the name-based identifier scheme assigns to it.
pub open spec fn dns_namespace_bytes() -> Seq<u8> {
    seq![
        0x6bu8,
        0xa7u8,
        0xb8u8,
        0x10u8,
        0x9du8,
        0xadu8,
        0x11u8,
        0xd1u8,
        0x80u8,
        0xb4u8,
        0x00u8,
        0xc0u8,
        0x4fu8,
        0xd4u8,
        0x30u8,
        0xc8u8,
    ]
}

/// The Domain Name System namespace as an in-memory array.
fn dns_namespace() -> (r: [u8; 16])
    ensures
        r@ == dns_namespace_bytes(),
{
    let r: [u8; 16] = [
        0x6b,
        0xa7,
        0xb8,
        0x10,
        0x9d,
        0xad,
        0x11,
        0xd1,
        0x80,
        0xb4,
        0x00,
        0xc0,
        0x4f,
        0xd4,
        0x30,
        0xc8,
    ];
    assert(r@ =~= dns_namespace_bytes());
    r
}

/// The machine's address text: the reported address, or a fixed fallback
/// where the machine reported none.
pub open spec fn spec_mac_text(mac: Option<String>) -> Seq<char> {
    match mac {
        Some(s) => s@,
        None => "unknown"@,
    }
}

/// The machine's host-name text: the reported name, or a fixed fallback
/// where the machine reported none.
pub open spec fn spec_host_text(host: Option<String>) -> Seq<char> {
    match host {
        Some(s) => s@,
        None => "unknown-host"@,
    }
}

/// The device name: host name and address joined by a colon.
pub open spec fn spec_device_name(mac: Option<String>, host: Option<String>) -> Seq<char> {
    spec_host_text(host) + ":"@ + spec_mac_text(mac)
}

/// The device identifier's text: a name-based identifier under a private
/// namespace (itself derived from the Domain Name System namespace and a
/// fixed label), applied to the device name, rendered hyphenated.
pub open spec fn spec_device_id(mac: Option<String>, host: Option<String>) -> Seq<char> {
    spec_hyphenated(
        uuid5_of(
            uuid5_of(dns_namespace_bytes(), encode_utf8("tauri.device.id"@)),
            encode_utf8(spec_device_name(mac, host)),
        ),
    )
}

/// A device's identity: its address text and its derived identifier.
pub struct DeviceInfo {
    pub mac_address: String,
    pub device_id: String,
}

/// True when the identity is the one derived from the given machine reads.
pub open spec fn device_info_for(
    d: DeviceInfo,
    mac: Option<String>,
    host: Option<String>,
) -> bool {
    &&& d.mac_address@ == spec_mac_text(mac)
    &&& d.device_id@ == spec_device_id(mac, host)
}

/// Derives the device identity from the machine's reads, supplying the
/// fixed fallbacks where a read reported nothing.
pub fn device_info_from(mac: Option<String>, host: Option<String>) -> (r: DeviceInfo)
    ensures
        device_info_for(r, mac, host),
{
    let ghost mac0 = mac;
    let ghost host0 = host;
    let mac_text = match mac {
        Some(s) => s,
        None => String::from_str("unknown"),
    };
    let mut name = match host {
        Some(s) => s,
        None => String::from_str("unknown-host"),
    };
    name.append(":");
    name.append(mac_text.as_str());
    assert(name@ =~= spec_device_name(mac0, host0));
    let ns = dns_namespace();
    let label = String::from_str("tauri.device.id");
    let inner = uuid_v5(&ns, label.as_str().as_bytes());
    let inner_ns = copy_namespace(&inner);
    let id_bytes = uuid_v5(&inner_ns, name.as_str().as_bytes());
    let device_id = hyphenated_string(id_bytes.as_slice());
    DeviceInfo { mac_address: mac_text, device_id }
}

/// Copies a sixteen-byte identifier out of a vector into an array.
fn copy_namespace(v: &Vec<u8>) -> (r: [u8; 16])
    requires
        v@.len() == 16,
    ensures
        r@ == v@,
{
    let r: [u8; 16] = [
        v[0],
        v[1],
        v[2],
        v[3],
        v[4],
        v[5],
        v[6],
        v[7],
        v[8],
        v[9],
        v[10],
        v[11],
        v[12],
        v[13],
        v[14],
        v[15],
    ];
    assert(r@ =~= v@);
    r
}

/// True when the identity is the stated derivation of some pair of machine
/// reads.
pub open spec fn is_derived_device_info(d: DeviceInfo) -> bool {
    exists|mac: Option<String>, host: Option<String>| #[trigger] device_info_for(d, mac, host)
}

/// Reads the machine's address and host name and derives the device
/// identity from them. The reads are machine-dependent, so the contract
/// promises exactly that the result is the stated derivation of some pair
/// of reads.
pub fn get_device_info() -> (r: Result<DeviceInfo, String>)
    ensures
        r matches Ok(d) ==> is_derived_device_info(d),
        r is Ok,
{
    let mac = read_mac_address();
    let host = read_hostname();
    let ghost mac0 = mac;
    let ghost host0 = host;
    let d = device_info_from(mac, host);
    proof {
        assert(device_info_for(d, mac0, host0));
        assert(is_derived_device_info(d));
    }
    Ok(d)
}

} // verus!
