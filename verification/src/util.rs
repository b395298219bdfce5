//! Small conversions: device types, operating system names, fingerprints.
use vstd::prelude::*;

use crate::ids::{is_lower_hex, is_simple_uuid, new_uuid_simple};
use crate::text::{ascii_upper, concat2, from_chars, is_prefix_of, lower_seq, push_char, replace_all, str_replace, str_to_lower, str_eq, subrange_chars, to_chars};

verus! {

broadcast use vstd::string::group_string_axioms;

/// The kinds of device the protocol knows.
#[derive(Clone, Copy, Debug, PartialEq, Eq, Structural)]
pub enum DeviceType {
    Mobile,
    Desktop,
    Web,
    Headless,
    Server,
}

/// A device type named in any letter case.
pub open spec fn device_type_spec(value: Seq<char>) -> Option<DeviceType> {
    let l = lower_seq(value);
    if l == "mobile"@ {
        Some(DeviceType::Mobile)
    } else if l == "desktop"@ {
        Some(DeviceType::Desktop)
    } else if l == "web"@ {
        Some(DeviceType::Web)
    } else if l == "headless"@ {
        Some(DeviceType::Headless)
    } else if l == "server"@ {
        Some(DeviceType::Server)
    } else {
        None
    }
}

/// Reads a device type; official clients send lowercase names.
pub fn parse_device_type(value: &str) -> (r: Option<DeviceType>)
    ensures
        r == device_type_spec(value@),
{
    let l = str_to_lower(value);
    let s = l.as_str();
    if str_eq(s, "mobile") {
        Some(DeviceType::Mobile)
    } else if str_eq(s, "desktop") {
        Some(DeviceType::Desktop)
    } else if str_eq(s, "web") {
        Some(DeviceType::Web)
    } else if str_eq(s, "headless") {
        Some(DeviceType::Headless)
    } else if str_eq(s, "server") {
        Some(DeviceType::Server)
    } else {
        None
    }
}

/// The lowercase name of a device type.
pub open spec fn device_type_name(t: DeviceType) -> Seq<char> {
    match t {
        DeviceType::Mobile => "mobile"@,
        DeviceType::Desktop => "desktop"@,
        DeviceType::Web => "web"@,
        DeviceType::Headless => "headless"@,
        DeviceType::Server => "server"@,
    }
}

/// The lowercase name of a device type, as the protocol writes it.
pub fn device_type_label(t: &DeviceType) -> (r: String)
    ensures
        r@ == device_type_name(*t),
{
    match t {
        DeviceType::Mobile => String::from_str("mobile"),
        DeviceType::Desktop => String::from_str("desktop"),
        DeviceType::Web => String::from_str("web"),
        DeviceType::Headless => String::from_str("headless"),
        DeviceType::Server => String::from_str("server"),
    }
}

// ---------------------------------------------------------------- OS names

/// What `char::to_uppercase` yields for a character.
pub uninterp spec fn char_uppercase(c: char) -> Seq<char>;

/// `char::to_uppercase`, collected into a `String`. For an ASCII character
/// the mapping is the ASCII one: `a` to `z` become `A` to `Z`, every other
/// ASCII character stays as it is.
#[verifier::external_body]
fn uppercase_char(c: char) -> (r: String)
    ensures
        r@ == char_uppercase(c),
        (c as u32) < 128 ==> r@ == seq![ascii_upper(c)],
{
    c.to_uppercase().collect::<String>()
}

/// The conventional spelling of a known operating system name.
pub open spec fn os_brand(os: Seq<char>) -> Option<Seq<char>> {
    if os == "macos"@ { Some("macOS"@) }
    else if os == "ios"@ { Some("iOS"@) }
    else if os == "tvos"@ { Some("tvOS"@) }
    else if os == "watchos"@ { Some("watchOS"@) }
    else if os == "visionos"@ { Some("visionOS"@) }
    else if os == "linux"@ { Some("Linux"@) }
    else if os == "windows"@ { Some("Windows"@) }
    else if os == "android"@ { Some("Android"@) }
    else if os == "freebsd"@ { Some("FreeBSD"@) }
    else if os == "openbsd"@ { Some("OpenBSD"@) }
    else if os == "netbsd"@ { Some("NetBSD"@) }
    else if os == "dragonfly"@ { Some("DragonFly BSD"@) }
    else if os == "solaris"@ { Some("Solaris"@) }
    else if os == "illumos"@ { Some("illumos"@) }
    else if os == "haiku"@ { Some("Haiku"@) }
    else if os == "fuchsia"@ { Some("Fuchsia"@) }
    else if os == "redox"@ { Some("Redox"@) }
    else if os == "hurd"@ { Some("GNU Hurd"@) }
    else if os == "aix"@ { Some("AIX"@) }
    else if os == "apple"@ { Some("Apple"@) }
    else if os == "espidf"@ { Some("ESP-IDF"@) }
    else if os == "vxworks"@ { Some("VxWorks"@) }
    else if os == "wasm32"@ { Some("WebAssembly"@) }
    else if os == "cloudabi"@ { Some("CloudABI"@) }
    else { None }
}

/// The display name of an operating system: its brand spelling, or else the
/// name with its first character in upper case.
pub open spec fn os_display_spec(os: Seq<char>) -> Seq<char> {
    match os_brand(os) {
        Some(b) => b,
        None => if os.len() == 0 {
            Seq::empty()
        } else {
            char_uppercase(os[0]) + os.drop_first()
        },
    }
}

/// Maps `std::env::consts::OS` values to their display names.
pub fn os_display_name_for(os: &str) -> (r: String)
    ensures
        r@ == os_display_spec(os@),
        os_brand(os@) is None && os@.len() > 0 && (os@[0] as u32) < 128 ==> r@ == seq![ascii_upper(os@[0])]
            + os@.drop_first(),
{
    if str_eq(os, "macos") {
        return String::from_str("macOS");
    }
    if str_eq(os, "ios") {
        return String::from_str("iOS");
    }
    if str_eq(os, "tvos") {
        return String::from_str("tvOS");
    }
    if str_eq(os, "watchos") {
        return String::from_str("watchOS");
    }
    if str_eq(os, "visionos") {
        return String::from_str("visionOS");
    }
    if str_eq(os, "linux") {
        return String::from_str("Linux");
    }
    if str_eq(os, "windows") {
        return String::from_str("Windows");
    }
    if str_eq(os, "android") {
        return String::from_str("Android");
    }
    if str_eq(os, "freebsd") {
        return String::from_str("FreeBSD");
    }
    if str_eq(os, "openbsd") {
        return String::from_str("OpenBSD");
    }
    if str_eq(os, "netbsd") {
        return String::from_str("NetBSD");
    }
    if str_eq(os, "dragonfly") {
        return String::from_str("DragonFly BSD");
    }
    if str_eq(os, "solaris") {
        return String::from_str("Solaris");
    }
    if str_eq(os, "illumos") {
        return String::from_str("illumos");
    }
    if str_eq(os, "haiku") {
        return String::from_str("Haiku");
    }
    if str_eq(os, "fuchsia") {
        return String::from_str("Fuchsia");
    }
    if str_eq(os, "redox") {
        return String::from_str("Redox");
    }
    if str_eq(os, "hurd") {
        return String::from_str("GNU Hurd");
    }
    if str_eq(os, "aix") {
        return String::from_str("AIX");
    }
    if str_eq(os, "apple") {
        return String::from_str("Apple");
    }
    if str_eq(os, "espidf") {
        return String::from_str("ESP-IDF");
    }
    if str_eq(os, "vxworks") {
        return String::from_str("VxWorks");
    }
    if str_eq(os, "wasm32") {
        return String::from_str("WebAssembly");
    }
    if str_eq(os, "cloudabi") {
        return String::from_str("CloudABI");
    }
    let chars = to_chars(os);
    if chars.len() == 0 {
        return String::new();
    }
    let first = uppercase_char(chars[0]);
    let rest = subrange_chars(chars.as_slice(), 1, chars.len());
    let rest = from_chars(rest.as_slice());
    assert(rest@ == os@.drop_first());
    concat2(first.as_str(), rest.as_str())
}

// ---------------------------------------------------------------- fingerprints

/// What base64 (standard alphabet, with padding) decoding makes of a text:
/// the bytes, or the rendered decoding error.
pub uninterp spec fn base64_decoded(text: Seq<char>) -> Result<Seq<u8>, Seq<char>>;

/// `base64::engine::general_purpose::STANDARD.decode`.
#[verifier::external_body]
fn base64_decode(text: &str) -> (r: Result<Vec<u8>, String>)
    ensures
        match r {
            Ok(b) => base64_decoded(text@) == Ok::<Seq<u8>, Seq<char>>(b@),
            Err(e) => base64_decoded(text@) == Err::<Seq<u8>, Seq<char>>(e@),
        },
{
    match base64::Engine::decode(&base64::engine::general_purpose::STANDARD, text) {
        Ok(b) => Ok(b),
        Err(e) => Err(e.to_string()),
    }
}

/// The SHA-256 digest of some bytes.
pub uninterp spec fn sha256_digest(data: Seq<u8>) -> Seq<u8>;

/// `sha2::Sha256::digest`: the 32-byte SHA-256 digest.
#[verifier::external_body]
fn sha256(data: &[u8]) -> (r: Vec<u8>)
    ensures
        r@ == sha256_digest(data@),
        r@.len() == 32,
{
    <sha2::Sha256 as sha2::Digest>::digest(data).to_vec()
}

pub open spec fn hex_digit(n: u8) -> char {
    if n < 10 {
        (('0' as u8) + n) as char
    } else {
        (('a' as u8) + n - 10) as char
    }
}

/// Lowercase hexadecimal, two digits per byte, high digit first.
pub open spec fn hex_spec(b: Seq<u8>) -> Seq<char>
    decreases b.len(),
{
    if b.len() == 0 {
        Seq::empty()
    } else {
        hex_spec(b.drop_last()) + seq![hex_digit(b.last() / 16), hex_digit(b.last() % 16)]
    }
}

/// A SHA-256 fingerprint as text: 64 lowercase hexadecimal digits.
pub open spec fn is_hex_fingerprint(s: Seq<char>) -> bool {
    &&& s.len() == 64
    &&& forall|i: int| 0 <= i < s.len() ==> is_lower_hex(#[trigger] s[i])
}

/// Hexadecimal text has two lowercase hex digits per byte.
pub proof fn lemma_hex_spec_shape(b: Seq<u8>)
    ensures
        hex_spec(b).len() == 2 * b.len(),
        forall|i: int| 0 <= i < hex_spec(b).len() ==> is_lower_hex(#[trigger] hex_spec(b)[i]),
    decreases b.len(),
{
    if b.len() > 0 {
        lemma_hex_spec_shape(b.drop_last());
        let p = hex_spec(b.drop_last());
        let hi = b.last() / 16;
        let lo = b.last() % 16;
        assert(hi < 16 && lo < 16);
        let d = seq![hex_digit(hi), hex_digit(lo)];
        assert(is_lower_hex(hex_digit(hi)));
        assert(is_lower_hex(hex_digit(lo)));
        assert forall|i: int| 0 <= i < hex_spec(b).len() implies is_lower_hex(#[trigger] hex_spec(b)[i]) by {
            if i < p.len() {
                assert(hex_spec(b)[i] == p[i]);
            } else {
                assert(hex_spec(b)[i] == d[i - p.len()]);
            }
        }
    }
}

/// `hex::encode`: lowercase hexadecimal, two digits per byte.
#[verifier::external_body]
fn hex_encode(data: &[u8]) -> (r: String)
    ensures
        r@ == hex_spec(data@),
{
    hex::encode(data)
}

/// A line minus the carriage return of a `\r\n` ending.
pub open spec fn strip_cr(l: Seq<char>) -> Seq<char> {
    if l.len() > 0 && l.last() == '\r' {
        l.drop_last()
    } else {
        l
    }
}

/// A line of a PEM document is kept unless it is an armour line (`---...`).
pub open spec fn keep_line(l: Seq<char>) -> Seq<char> {
    if is_prefix_of("---"@, l) {
        Seq::empty()
    } else {
        l
    }
}

/// The kept lines of `rest` concatenated, `cur` being the start of the current
/// line; lines end at `\n` (a `\r` before it is dropped), the last one may
/// end at the end of the text.
pub open spec fn pem_lines(cur: Seq<char>, rest: Seq<char>) -> Seq<char>
    decreases rest.len(),
{
    if rest.len() == 0 {
        keep_line(cur)
    } else if rest[0] == '\n' {
        keep_line(strip_cr(cur)) + pem_lines(Seq::empty(), rest.drop_first())
    } else {
        pem_lines(cur.push(rest[0]), rest.drop_first())
    }
}

/// The base64 body of a PEM text: `\r\n` made `\n`, then the lines that
/// are not armour lines, joined.
pub open spec fn pem_body(pem: Seq<char>) -> Seq<char> {
    pem_lines(Seq::empty(), replace_all(pem, "\r\n"@, "\n"@))
}

fn keep_line_exec(l: &Vec<char>, out: &mut Vec<char>)
    ensures
        final(out)@ == old(out)@ + keep_line(l@),
{
    let dashes = to_chars("---");
    if crate::text::starts_with(l.as_slice(), dashes.as_slice()) {
        assert(old(out)@ + keep_line(l@) =~= old(out)@);
        return;
    }
    let mut i: usize = 0;
    let ghost o = out@;
    while i < l.len()
        invariant
            i <= l@.len(),
            out@ == o + l@.take(i as int),
        decreases l@.len() - i,
    {
        out.push(l[i]);
        assert(l@.take(i + 1) == l@.take(i as int).push(l@[i as int]));
        i = i + 1;
    }
    assert(l@.take(l@.len() as int) == l@);
}

/// The base64 body of a PEM text.
pub fn pem_body_text(pem: &str) -> (r: String)
    ensures
        r@ == pem_body(pem@),
{
    proof {
        reveal_strlit("\r\n");
    }
    let text = str_replace(pem, "\r\n", "\n");
    let s = to_chars(text.as_str());
    let mut out: Vec<char> = Vec::new();
    let mut cur: Vec<char> = Vec::new();
    let mut i: usize = 0;
    assert(s@.skip(0) == s@);
    while i < s.len()
        invariant
            i <= s@.len(),
            s@ == replace_all(pem@, "\r\n"@, "\n"@),
            out@ + pem_lines(cur@, s@.skip(i as int)) == pem_body(pem@),
        decreases s@.len() - i,
    {
        let ghost rest = s@.skip(i as int);
        assert(rest.drop_first() == s@.skip(i + 1));
        assert(rest[0] == s@[i as int]);
        if s[i] == '\n' {
            let n = cur.len();
            if n > 0 && cur[n - 1] == '\r' {
                cur.pop();
            }
            let ghost o = out@;
            keep_line_exec(&cur, &mut out);
            assert(out@ + pem_lines(Seq::empty(), s@.skip(i + 1)) == o + (keep_line(cur@) + pem_lines(Seq::empty(), s@.skip(i + 1))));
            cur = Vec::new();
        } else {
            cur.push(s[i]);
        }
        i = i + 1;
    }
    keep_line_exec(&cur, &mut out);
    from_chars(out.as_slice())
}

/// The DER bytes of a PEM certificate.
pub fn pem_to_der(pem: &str) -> (r: Result<Vec<u8>, String>)
    ensures
        match r {
            Ok(b) => base64_decoded(pem_body(pem@)) == Ok::<Seq<u8>, Seq<char>>(b@),
            Err(e) => base64_decoded(pem_body(pem@)) == Err::<Seq<u8>, Seq<char>>(e@),
        },
{
    let body = pem_body_text(pem);
    base64_decode(body.as_str())
}

/// The fingerprint of a PEM certificate: the lowercase hexadecimal SHA-256 of
/// its DER bytes; the error is the base64 decoding error.
pub fn fingerprint_from_cert_pem(cert_pem: &str) -> (r: Result<String, String>)
    ensures
        match base64_decoded(pem_body(cert_pem@)) {
            Ok(der) => r matches Ok(f) && f@ == hex_spec(sha256_digest(der)) && is_hex_fingerprint(f@),
            Err(e) => r matches Err(m) && m@ == e,
        },
{
    let der = pem_to_der(cert_pem)?;
    let hash = sha256(der.as_slice());
    proof {
        lemma_hex_spec_shape(hash@);
    }
    Ok(hex_encode(hash.as_slice()))
}

/// A random fingerprint for a device without a certificate: a fresh UUID
/// without hyphens.
pub fn random_fingerprint() -> (r: String)
    ensures
        is_simple_uuid(r@),
{
    new_uuid_simple()
}

} // verus!
