//! Stored images of artists and albums: where they go, how they are named,
//! and which URLs they may be fetched from.

use vstd::prelude::*;
use std::hash::{Hash, Hasher};
use crate::media::{asset_extension_for_mime, extension_for_mime, opt_str_view};
use crate::paths::{join, join_spec};
use crate::strings::{chars_of, string_from_chars};
use crate::text::{before_first, before_first_chars, decimal, lower_chars, lower_seq, push_decimal_i64, push_str_chars, trim, trim_chars};

verus! {

/// Directory of stored assets under the media root.
pub const ASSETS_DIR: &'static str = ".audio-hub/assets";

/// Largest image accepted, in bytes.
pub const MAX_IMAGE_BYTES: usize = 6000000;

/// An image stored under the media root.
#[derive(Debug, Clone)]
pub struct StoredAsset {
    /// Path relative to the media root.
    pub local_path: String,
    pub checksum: String,
    pub source_url: String,
    pub updated_at_ms: i64,
}

/// What `DefaultHasher` gives for a byte slice hashed into a fresh hasher.
pub uninterp spec fn default_hash(data: Seq<u8>) -> u64;

/// Hashes a byte slice with a fresh `std::collections::hash_map::DefaultHasher`
/// (whose instances all start alike) and returns `finish`.
#[verifier::external_body]
fn default_hash_of(data: &[u8]) -> (r: u64)
    ensures
        r == default_hash(data@),
{
    let mut hasher = std::collections::hash_map::DefaultHasher::new();
    data.hash(&mut hasher);
    hasher.finish()
}

/// Lowercase hex digit of a value below sixteen.
pub open spec fn hex_digit(d: nat) -> char {
    if d < 10 {
        (('0' as u32) + d) as char
    } else {
        (('a' as u32) + d - 10) as char
    }
}

/// The last `n` hex digits of `v`, most significant first, zero-padded.
pub open spec fn hex_digits(v: nat, n: nat) -> Seq<char>
    decreases n,
{
    if n == 0 {
        Seq::empty()
    } else {
        hex_digits(v / 16, (n - 1) as nat) + seq![hex_digit(v % 16)]
    }
}

fn hex_digit_of(d: u64) -> (c: char)
    requires
        d < 16,
    ensures
        c == hex_digit(d as nat),
{
    let table: [char; 16] = [
        '0', '1', '2', '3', '4', '5', '6', '7', '8', '9', 'a', 'b', 'c', 'd', 'e', 'f',
    ];
    let c = table[d as usize];
    assert(c == hex_digit(d as nat)) by {
        assert(table@[d as int] == c);
    }
    c
}

fn push_hex(out: &mut Vec<char>, v: u64, n: usize)
    ensures
        final(out)@ == old(out)@ + hex_digits(v as nat, n as nat),
    decreases n,
{
    if n > 0 {
        push_hex(out, v / 16, n - 1);
        out.push(hex_digit_of(v % 16));
    }
    assert(out@ =~= old(out)@ + hex_digits(v as nat, n as nat));
}

/// Sixteen lowercase hex digits of a value (`format!("{:016x}", v)`).
pub fn hex16(v: u64) -> (r: String)
    ensures
        r@ == hex_digits(v as nat, 16),
{
    let mut out: Vec<char> = Vec::new();
    push_hex(&mut out, v, 16);
    string_from_chars(out.as_slice())
}

/// Checksum of an image: its default hash as sixteen hex digits.
pub fn hash_bytes(data: &[u8]) -> (r: String)
    ensures
        r@ == hex_digits(default_hash(data@) as nat, 16),
{
    hex16(default_hash_of(data))
}

/// MIME type of a `Content-Type` header: the part before `;`, trimmed and
/// lowercased.
pub open spec fn mime_essence_spec(header: Seq<char>) -> Seq<char> {
    lower_seq(trim(before_first(header, ';')))
}

/// Reads the MIME type of a `Content-Type` header.
pub fn mime_essence(header: &str) -> (r: String)
    ensures
        r@ == mime_essence_spec(header@),
{
    let c = chars_of(header);
    let head = before_first_chars(c.as_slice(), ';');
    let t = trim_chars(head.as_slice());
    let l = lower_chars(t.as_slice());
    string_from_chars(l.as_slice())
}

/// Where an image is stored, relative to the media root:
/// `.audio-hub/assets/{owner_type}/{owner_id}/{kind}-{checksum}.{ext}`.
pub open spec fn asset_path_spec(owner_type: Seq<char>, owner_id: i64, kind: Seq<char>, checksum: Seq<char>, ext: Seq<char>) -> Seq<char> {
    join_spec(
        join_spec(join_spec(ASSETS_DIR@, owner_type), decimal(owner_id as int)),
        kind + "-"@ + checksum + "."@ + ext,
    )
}

/// Builds the relative path of a stored image.
pub fn asset_relative_path(owner_type: &str, owner_id: i64, kind: &str, checksum: &str, ext: &str) -> (r: String)
    ensures
        r@ == asset_path_spec(owner_type@, owner_id, kind@, checksum@, ext@),
{
    let root = chars_of(ASSETS_DIR);
    let owner = chars_of(owner_type);
    let a = join(root.as_slice(), owner.as_slice());
    let mut id: Vec<char> = Vec::new();
    push_decimal_i64(&mut id, owner_id);
    assert(id@ =~= decimal(owner_id as int));
    let b = join(a.as_slice(), id.as_slice());
    let mut name: Vec<char> = Vec::new();
    push_str_chars(&mut name, kind);
    push_str_chars(&mut name, "-");
    push_str_chars(&mut name, checksum);
    push_str_chars(&mut name, ".");
    push_str_chars(&mut name, ext);
    let p = join(b.as_slice(), name.as_slice());
    string_from_chars(p.as_slice())
}

/// Why an image is refused.
#[derive(Debug, Clone, Copy, PartialEq, Eq, Structural)]
pub enum ImageRejection {
    /// The URL is blank.
    MissingUrl,
    /// The response type is not JPEG, PNG or WebP.
    UnsupportedType,
    /// The image is larger than the limit.
    TooLarge,
}

/// The extension of a fetched image of this `Content-Type`, unless it is
/// not a supported image type or has more than the allowed bytes.
pub open spec fn image_extension_spec(content_type: Seq<char>, len: nat) -> Result<Seq<char>, ImageRejection> {
    match asset_extension_for_mime(mime_essence_spec(content_type)) {
        None => Err(ImageRejection::UnsupportedType),
        Some(ext) => if len > MAX_IMAGE_BYTES {
            Err(ImageRejection::TooLarge)
        } else {
            Ok(ext)
        },
    }
}

/// Checks a fetched image: its type gives the file extension, and it must
/// not exceed the size limit.
pub fn image_extension(content_type: &str, len: usize) -> (r: Result<&'static str, ImageRejection>)
    ensures
        match r {
            Ok(ext) => image_extension_spec(content_type@, len as nat) == Ok::<Seq<char>, ImageRejection>(ext@),
            Err(e) => image_extension_spec(content_type@, len as nat) == Err::<Seq<char>, ImageRejection>(e),
        },
{
    let mime = mime_essence(content_type);
    match extension_for_mime(mime.as_str()) {
        None => Err(ImageRejection::UnsupportedType),
        Some(ext) => {
            if len > MAX_IMAGE_BYTES {
                Err(ImageRejection::TooLarge)
            } else {
                Ok(ext)
            }
        },
    }
}

/// An IP address, as far as the URL policy reads it.
#[derive(Debug, Clone, Copy, PartialEq, Eq, Structural)]
pub enum IpAddress {
    V4(u8, u8, u8, u8),
    V6(u16, u16, u16, u16, u16, u16, u16, u16),
}

/// Whether an IPv4 address is private, loopback, link-local, broadcast,
/// unspecified, shared (100.64/10), documentation, benchmarking, multicast
/// or reserved.
pub open spec fn v4_non_public(a: u8, b: u8, c: u8, d: u8) -> bool {
    ||| a == 10
    ||| (a == 172 && 16 <= b <= 31)
    ||| (a == 192 && b == 168)
    ||| a == 127
    ||| (a == 169 && b == 254)
    ||| (a == 255 && b == 255 && c == 255 && d == 255)
    ||| (a == 0 && b == 0 && c == 0 && d == 0)
    ||| (a == 100 && 64 <= b <= 127)
    ||| (a == 192 && b == 0 && c == 2)
    ||| (a == 198 && b == 51 && c == 100)
    ||| (a == 203 && b == 0 && c == 113)
    ||| (a == 198 && (b == 18 || b == 19))
    ||| (224 <= a <= 239)
    ||| a == 0
    ||| a >= 240
}

/// Whether an IPv6 address is loopback, unspecified, multicast, unique
/// local, link-local or documentation.
pub open spec fn v6_non_public(s0: u16, s1: u16, s2: u16, s3: u16, s4: u16, s5: u16, s6: u16, s7: u16) -> bool {
    let rest_zero = s1 == 0 && s2 == 0 && s3 == 0 && s4 == 0 && s5 == 0 && s6 == 0;
    ||| (s0 == 0 && rest_zero && s7 == 1)
    ||| (s0 == 0 && rest_zero && s7 == 0)
    ||| s0 & 0xff00 == 0xff00
    ||| s0 & 0xfe00 == 0xfc00
    ||| s0 & 0xffc0 == 0xfe80
    ||| (s0 == 0x2001 && s1 == 0x0db8)
}

/// Whether an address may be fetched from: a public one.
pub open spec fn public_ip_spec(ip: IpAddress) -> bool {
    match ip {
        IpAddress::V4(a, b, c, d) => !v4_non_public(a, b, c, d),
        IpAddress::V6(s0, s1, s2, s3, s4, s5, s6, s7) => !v6_non_public(s0, s1, s2, s3, s4, s5, s6, s7),
    }
}

/// Whether an address is public.
pub fn is_public_ip(ip: IpAddress) -> (r: bool)
    ensures
        r == public_ip_spec(ip),
{
    match ip {
        IpAddress::V4(a, b, c, d) => {
            let non_public = a == 10 || (a == 172 && 16 <= b && b <= 31) || (a == 192 && b == 168)
                || a == 127 || (a == 169 && b == 254) || (a == 255 && b == 255 && c == 255 && d == 255)
                || (a == 0 && b == 0 && c == 0 && d == 0) || (a == 100 && 64 <= b && b <= 127)
                || (a == 192 && b == 0 && c == 2) || (a == 198 && b == 51 && c == 100)
                || (a == 203 && b == 0 && c == 113) || (a == 198 && (b == 18 || b == 19))
                || (224 <= a && a <= 239) || a == 0 || a >= 240;
            !non_public
        },
        IpAddress::V6(s0, s1, s2, s3, s4, s5, s6, s7) => {
            let rest_zero = s1 == 0 && s2 == 0 && s3 == 0 && s4 == 0 && s5 == 0 && s6 == 0;
            let non_public = (s0 == 0 && rest_zero && s7 == 1) || (s0 == 0 && rest_zero && s7 == 0)
                || s0 & 0xff00 == 0xff00 || s0 & 0xfe00 == 0xfc00 || s0 & 0xffc0 == 0xfe80 || (s0
                == 0x2001 && s1 == 0x0db8);
            !non_public
        },
    }
}

/// Why a URL may not be fetched from.
#[derive(Debug, Clone, Copy, PartialEq, Eq, Structural)]
pub enum UrlRejection {
    /// Neither `http` nor `https`.
    Scheme,
    /// It carries a user name or password.
    Credentials,
    /// It has no host.
    MissingHost,
    /// `localhost` or a `.local` name.
    HostNotAllowed,
    /// Its host is an address that is not public.
    HostNotPublic,
}

/// Whether a host name may be fetched from by name: not `localhost` and
/// not under `.local` (lowercased).
pub open spec fn host_allowed_spec(host: Seq<char>) -> bool {
    let h = lower_seq(host);
    h != "localhost"@ && !(".local"@.is_suffix_of(h))
}

/// The policy for a parsed URL: the scheme, whether it carries credentials,
/// its host and, when the host is an address, that address.
pub open spec fn url_policy_spec(scheme: Seq<char>, has_credentials: bool, host: Option<Seq<char>>, host_ip: Option<IpAddress>) -> Result<(), UrlRejection> {
    if scheme != "http"@ && scheme != "https"@ {
        Err(UrlRejection::Scheme)
    } else if has_credentials {
        Err(UrlRejection::Credentials)
    } else {
        match host {
            None => Err(UrlRejection::MissingHost),
            Some(h) => if !host_allowed_spec(h) {
                Err(UrlRejection::HostNotAllowed)
            } else {
                match host_ip {
                    Some(ip) => if !public_ip_spec(ip) {
                        Err(UrlRejection::HostNotPublic)
                    } else {
                        Ok(())
                    },
                    None => Ok(()),
                }
            },
        }
    }
}

/// Checks a parsed URL against the fetch policy (the addresses its host
/// resolves to are checked with [`is_public_ip`] afterwards).
pub fn url_policy(scheme: &str, has_credentials: bool, host: Option<&str>, host_ip: Option<IpAddress>) -> (r: Result<(), UrlRejection>)
    ensures
        r == url_policy_spec(scheme@, has_credentials, opt_str_view(host), host_ip),
{
    let s = chars_of(scheme);
    if !crate::text::chars_eq_str(s.as_slice(), "http") && !crate::text::chars_eq_str(s.as_slice(), "https") {
        return Err(UrlRejection::Scheme);
    }
    if has_credentials {
        return Err(UrlRejection::Credentials);
    }
    let h = match host {
        None => {
            return Err(UrlRejection::MissingHost);
        },
        Some(h) => h,
    };
    let hc = chars_of(h);
    let l = lower_chars(hc.as_slice());
    let is_localhost = crate::text::chars_eq_str(l.as_slice(), "localhost");
    let suffix = chars_of(".local");
    let ends_local = if suffix.len() <= l.len() {
        let tail = crate::text::sub_chars(l.as_slice(), l.len() - suffix.len(), l.len());
        let e = crate::text::chars_eq(tail.as_slice(), suffix.as_slice());
        assert(e == ".local"@.is_suffix_of(l@)) by {
            assert(tail@ =~= l@.subrange(l@.len() - suffix@.len(), l@.len() as int));
        }
        e
    } else {
        false
    };
    if is_localhost || ends_local {
        return Err(UrlRejection::HostNotAllowed);
    }
    match host_ip {
        Some(ip) => {
            if !is_public_ip(ip) {
                Err(UrlRejection::HostNotPublic)
            } else {
                Ok(())
            }
        },
        None => Ok(()),
    }
}

} // verus!
