//! Export of authenticator entries as an `otpauth-migration://` URI: a
//! protobuf `MigrationPayload`, base64-encoded and form-urlencoded.
use base64::engine::general_purpose;
use base64::Engine;
use vstd::prelude::*;
use vstd::string::*;
use vstd::utf8::encode_utf8;
use crate::totp::str_result_view;

verus! {

/// Number of digits of a code, as the payload's `DigitCount` enumeration
/// has it.
#[derive(Clone, Copy, Debug, PartialEq, Eq, Structural)]
pub enum DigitCount {
    Unspecified,
    Six,
    Eight,
}

/// One authenticator entry to export.
pub struct OtpCode {
    pub digit_count: DigitCount,
    pub secret: Vec<u8>,
    pub issuer: Option<String>,
    pub account_name: String,
}

/// The scheme, host and query key of a migration URI.
pub const MIGRATION_URI_PREFIX: &'static str = "otpauth-migration://offline?data=";

/// Wire type of varint fields.
pub const WIRE_VARINT: u64 = 0;

/// Wire type of length-delimited fields.
pub const WIRE_LEN: u64 = 2;

/// The `Algorithm` enumeration's value for SHA-1.
pub const ALGORITHM_SHA1: u64 = 1;

/// The `OtpType` enumeration's value for time-based codes.
pub const OTP_TYPE_TOTP: u64 = 2;

/// Base-128 little-endian encoding of `v`, high bit set on every byte but
/// the last.
pub open spec fn varint(v: nat) -> Seq<u8>
    decreases v,
{
    if v < 128 {
        seq![v as u8]
    } else {
        seq![(v % 128 + 128) as u8] + varint(v / 128)
    }
}

/// A field key: field number and wire type.
pub open spec fn field_key(field: nat, wire: nat) -> Seq<u8> {
    varint(field * 8 + wire)
}

/// A varint field.
pub open spec fn varint_field(field: nat, v: nat) -> Seq<u8> {
    field_key(field, WIRE_VARINT as nat) + varint(v)
}

/// A length-delimited field.
pub open spec fn len_field(field: nat, bytes: Seq<u8>) -> Seq<u8> {
    field_key(field, WIRE_LEN as nat) + varint(bytes.len()) + bytes
}

/// The `DigitCount` enumeration's value.
pub open spec fn digit_count_value(d: DigitCount) -> nat {
    match d {
        DigitCount::Unspecified => 0,
        DigitCount::Six => 1,
        DigitCount::Eight => 2,
    }
}

/// The digit count of a code with `n_digits` digits.
pub open spec fn digit_count_of(n_digits: usize) -> DigitCount {
    if n_digits == 6 {
        DigitCount::Six
    } else if n_digits == 8 {
        DigitCount::Eight
    } else {
        DigitCount::Unspecified
    }
}

/// The `OtpParameters` message of one entry: secret, name, issuer if any,
/// SHA-1, digit count and the time-based type; no counter.
pub open spec fn params_bytes(c: OtpCode) -> Seq<u8> {
    len_field(1, c.secret@) + len_field(2, encode_utf8(c.account_name@)) + match c.issuer {
        Some(i) => len_field(3, encode_utf8(i@)),
        None => Seq::empty(),
    } + varint_field(4, ALGORITHM_SHA1 as nat) + varint_field(5, digit_count_value(c.digit_count))
        + varint_field(6, OTP_TYPE_TOTP as nat)
}

/// The repeated `otp_parameters` field, one entry after another.
pub open spec fn entries_bytes(codes: Seq<OtpCode>) -> Seq<u8>
    decreases codes.len(),
{
    if codes.len() == 0 {
        Seq::empty()
    } else {
        entries_bytes(codes.drop_last()) + len_field(1, params_bytes(codes.last()))
    }
}

/// The `MigrationPayload` message: the entries, then version 1, batch size
/// 1, batch index 0 and batch id 1.
pub open spec fn payload_bytes(codes: Seq<OtpCode>) -> Seq<u8> {
    entries_bytes(codes) + varint_field(2, 1) + varint_field(3, 1) + varint_field(4, 0)
        + varint_field(5, 1)
}

/// The standard base64 alphabet.
pub const BASE64_ALPHABET: &'static str =
    "ABCDEFGHIJKLMNOPQRSTUVWXYZabcdefghijklmnopqrstuvwxyz0123456789+/";

/// Upper-case hexadecimal digits.
pub const HEX_UPPER: &'static str = "0123456789ABCDEF";

pub open spec fn base64_digit(i: int) -> char {
    BASE64_ALPHABET@[i]
}

/// Padded standard base64: each group of three bytes becomes four
/// characters; a last group of one or two bytes is padded with `=`.
pub open spec fn base64_standard(b: Seq<u8>) -> Seq<char>
    decreases b.len(),
{
    if b.len() == 0 {
        Seq::empty()
    } else if b.len() == 1 {
        seq![base64_digit((b[0] as int) / 4), base64_digit(((b[0] as int) % 4) * 16), '=', '=']
    } else if b.len() == 2 {
        seq![
            base64_digit((b[0] as int) / 4),
            base64_digit(((b[0] as int) % 4) * 16 + (b[1] as int) / 16),
            base64_digit(((b[1] as int) % 16) * 4),
            '=',
        ]
    } else {
        seq![
            base64_digit((b[0] as int) / 4),
            base64_digit(((b[0] as int) % 4) * 16 + (b[1] as int) / 16),
            base64_digit(((b[1] as int) % 16) * 4 + (b[2] as int) / 64),
            base64_digit((b[2] as int) % 64),
        ] + base64_standard(b.subrange(3, b.len() as int))
    }
}

/// Bytes that form-urlencoding keeps: ASCII letters and digits, `*`, `-`,
/// `.` and `_`.
pub open spec fn form_urlencoded_unchanged(b: u8) -> bool {
    ||| b == 42 || b == 45 || b == 46 || b == 95
    ||| 48 <= b <= 57
    ||| 65 <= b <= 90
    ||| 97 <= b <= 122
}

/// One byte form-urlencoded: kept, a space as `+`, else `%` and two
/// upper-case hexadecimal digits.
pub open spec fn form_urlencoded_byte(b: u8) -> Seq<char> {
    if form_urlencoded_unchanged(b) {
        seq![b as char]
    } else if b == 32 {
        seq!['+']
    } else {
        seq!['%', HEX_UPPER@[(b as int) / 16], HEX_UPPER@[(b as int) % 16]]
    }
}

/// `application/x-www-form-urlencoded` serialization of `bytes`.
pub open spec fn form_urlencoded(bytes: Seq<u8>) -> Seq<char>
    decreases bytes.len(),
{
    if bytes.len() == 0 {
        Seq::empty()
    } else {
        form_urlencoded_byte(bytes[0]) + form_urlencoded(bytes.drop_first())
    }
}

/// What `qrcodegen_image::draw_base64` gives for `text`: a base64 PNG of
/// its QR code, or an error when the text does not fit in one.
pub uninterp spec fn qr_png_base64(text: Seq<char>) -> Result<Seq<char>, Seq<char>>;

/// The migration URI of a list of entries.
pub open spec fn migration_uri(codes: Seq<OtpCode>) -> Seq<char> {
    MIGRATION_URI_PREFIX@ + form_urlencoded(encode_utf8(base64_standard(payload_bytes(codes))))
}

/// Relies on `prost::encoding::encode_varint`: it appends the base-128
/// encoding of `value`, low groups first.
#[verifier::external_body]
fn put_varint(value: u64, buf: &mut Vec<u8>)
    ensures
        final(buf)@ == old(buf)@ + varint(value as nat),
{
    prost::encoding::encode_varint(value, buf)
}

/// Relies on `base64`'s `general_purpose::STANDARD` engine: standard
/// alphabet, with padding.
#[verifier::external_body]
fn base64_encode(bytes: &Vec<u8>) -> (r: String)
    ensures
        r@ == base64_standard(bytes@),
{
    general_purpose::STANDARD.encode(bytes)
}

/// Relies on `form_urlencoded::byte_serialize`, collected into a `String`:
/// it keeps letters, digits and `*-._`, writes a space as `+` and every
/// other byte as `%XX` with upper-case hex digits.
#[verifier::external_body]
fn form_urlencode(bytes: &[u8]) -> (r: String)
    ensures
        r@ == form_urlencoded(bytes@),
{
    url::form_urlencoded::byte_serialize(bytes).collect::<String>()
}

/// Relies on `qrcodegen_image::draw_base64`: the outcome, image or error,
/// depends on `text` alone.
#[verifier::external_body]
fn draw_qr_base64(text: &str) -> (r: Result<String, String>)
    ensures
        str_result_view(r) == qr_png_base64(text@),
{
    totp_rs::qrcodegen_image::draw_base64(text)
}

impl DigitCount {
    /// The value this digit count has on the wire.
    pub fn wire_value(&self) -> (r: u64)
        ensures
            r == digit_count_value(*self),
    {
        match self {
            DigitCount::Unspecified => 0,
            DigitCount::Six => 1,
            DigitCount::Eight => 2,
        }
    }
}

impl OtpCode {
    /// An entry with 6 or 8 digits; any other count is stored as
    /// unspecified.
    pub fn new(secret: Vec<u8>, issuer: Option<String>, account_name: String, n_digits: usize) -> (r: Self)
        ensures
            r.digit_count == digit_count_of(n_digits),
            r.secret == secret,
            r.issuer == issuer,
            r.account_name == account_name,
    {
        let digit_count = if n_digits == 6 {
            DigitCount::Six
        } else if n_digits == 8 {
            DigitCount::Eight
        } else {
            DigitCount::Unspecified
        };
        OtpCode { digit_count, secret, issuer, account_name }
    }
}

/// Appends a varint field.
fn put_varint_field(field: u64, value: u64, buf: &mut Vec<u8>)
    requires
        field < 16,
    ensures
        final(buf)@ == old(buf)@ + varint_field(field as nat, value as nat),
{
    put_varint(field * 8 + WIRE_VARINT, buf);
    put_varint(value, buf);
}

/// Appends a length-delimited field.
fn put_len_field(field: u64, bytes: &[u8], buf: &mut Vec<u8>)
    requires
        field < 16,
    ensures
        final(buf)@ == old(buf)@ + len_field(field as nat, bytes@),
{
    put_varint(field * 8 + WIRE_LEN, buf);
    put_varint(bytes.len() as u64, buf);
    let ghost mid = buf@;
    buf.extend_from_slice(bytes);
    assert(buf@ =~= mid + bytes@);
}

/// The `OtpParameters` message of one entry.
pub fn encode_params(code: &OtpCode) -> (r: Vec<u8>)
    ensures
        r@ == params_bytes(*code),
{
    let mut buf: Vec<u8> = Vec::new();
    put_len_field(1, code.secret.as_slice(), &mut buf);
    put_len_field(2, code.account_name.as_str().as_bytes(), &mut buf);
    let ghost named = buf@;
    match &code.issuer {
        Some(issuer) => {
            put_len_field(3, issuer.as_str().as_bytes(), &mut buf);
        },
        None => {},
    }
    put_varint_field(4, ALGORITHM_SHA1, &mut buf);
    put_varint_field(5, code.digit_count.wire_value(), &mut buf);
    put_varint_field(6, OTP_TYPE_TOTP, &mut buf);
    assert(buf@ =~= params_bytes(*code));
    buf
}

/// The `MigrationPayload` message of a list of entries.
pub fn encode_payload(codes: &Vec<OtpCode>) -> (r: Vec<u8>)
    ensures
        r@ == payload_bytes(codes@),
{
    let mut buf: Vec<u8> = Vec::new();
    let mut i: usize = 0;
    assert(codes@.subrange(0, 0) =~= Seq::<OtpCode>::empty());
    while i < codes.len()
        invariant
            i <= codes@.len(),
            buf@ == entries_bytes(codes@.subrange(0, i as int)),
        decreases codes@.len() - i,
    {
        let params = encode_params(&codes[i]);
        put_len_field(1, params.as_slice(), &mut buf);
        assert(codes@.subrange(0, i + 1).drop_last() =~= codes@.subrange(0, i as int));
        i = i + 1;
    }
    assert(codes@.subrange(0, codes@.len() as int) =~= codes@);
    put_varint_field(2, 1, &mut buf);
    put_varint_field(3, 1, &mut buf);
    put_varint_field(4, 0, &mut buf);
    put_varint_field(5, 1, &mut buf);
    assert(buf@ =~= payload_bytes(codes@));
    buf
}

/// The URI that carries already encoded `data`.
pub fn migration_uri_from_data(data: &str) -> (r: String)
    ensures
        r@ == MIGRATION_URI_PREFIX@ + data@,
{
    let mut uri = String::from_str(MIGRATION_URI_PREFIX);
    uri.append(data);
    uri
}

/// The `otpauth-migration://offline?data=...` URI of `codes`.
pub fn create_migration_uri(codes: Vec<OtpCode>) -> (r: String)
    ensures
        r@ == migration_uri(codes@),
{
    let payload = encode_payload(&codes);
    let text = base64_encode(&payload);
    let data = form_urlencode(text.as_str().as_bytes());
    migration_uri_from_data(data.as_str())
}

/// A QR code, as a base64 PNG, of the migration URI of `codes`.
pub fn create_migration_qr(codes: Vec<OtpCode>) -> (r: Result<String, String>)
    ensures
        str_result_view(r) == qr_png_base64(migration_uri(codes@)),
{
    let uri = create_migration_uri(codes);
    draw_qr_base64(uri.as_str())
}

} // verus!
