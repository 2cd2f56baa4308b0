//! Encodings that the bot borrows from outside crates and from std, each
//! behind a trusted item whose contract says what the call returns.

use vstd::prelude::*;
use vstd::utf8::{decode_utf8, encode_utf8, valid_utf8};
use crate::text::decimal;

verus! {

/// The character with the given ASCII code.
pub open spec fn ascii(code: nat) -> char {
    (code as u8) as char
}

/// An upper-case hexadecimal digit.
pub open spec fn hex_upper(d: nat) -> char {
    if d < 10 {
        ascii(d + 48)
    } else {
        ascii(d + 55)
    }
}

/// A lower-case hexadecimal digit.
pub open spec fn hex_lower(d: nat) -> char {
    if d < 10 {
        ascii(d + 48)
    } else {
        ascii(d + 87)
    }
}

// ---------------------------------------------------------------- base64

/// A character of the standard base64 alphabet.
pub open spec fn base64_char(v: nat) -> char {
    if v < 26 {
        ascii(v + 65)
    } else if v < 52 {
        ascii(v + 71)
    } else if v < 62 {
        ascii((v - 4) as nat)
    } else if v == 62 {
        '+'
    } else {
        '/'
    }
}

/// Standard base64 with '=' padding (RFC 4648, section 4).
pub open spec fn base64_standard(b: Seq<u8>) -> Seq<char>
    decreases b.len(),
{
    if b.len() == 0 {
        seq![]
    } else if b.len() == 1 {
        seq![base64_char(b[0] as nat / 4), base64_char((b[0] as nat % 4) * 16), '=', '=']
    } else if b.len() == 2 {
        seq![
            base64_char(b[0] as nat / 4),
            base64_char((b[0] as nat % 4) * 16 + b[1] as nat / 16),
            base64_char((b[1] as nat % 16) * 4),
            '=',
        ]
    } else {
        seq![
            base64_char(b[0] as nat / 4),
            base64_char((b[0] as nat % 4) * 16 + b[1] as nat / 16),
            base64_char((b[1] as nat % 16) * 4 + b[2] as nat / 64),
            base64_char(b[2] as nat % 64),
        ] + base64_standard(b.skip(3))
    }
}

/// Calls `base64::encode`, which uses the standard alphabet with '=' padding.
/// Trusted: the result is `base64_standard` of the bytes.
#[verifier::external_body]
pub(crate) fn base64_encode(bytes: &[u8]) -> (r: String)
    ensures
        r@ == base64_standard(bytes@),
{
    base64::encode(bytes)
}

// ------------------------------------------- application/x-www-form-urlencoded

/// Bytes that form-urlencoding leaves as they are.
pub open spec fn form_unreserved(b: u8) -> bool {
    ||| b == 42
    ||| b == 45
    ||| b == 46
    ||| (48 <= b && b <= 57)
    ||| (65 <= b && b <= 90)
    ||| b == 95
    ||| (97 <= b && b <= 122)
}

/// How form-urlencoding writes one byte.
pub open spec fn form_byte(b: u8) -> Seq<char> {
    if form_unreserved(b) {
        seq![ascii(b as nat)]
    } else if b == 32 {
        seq!['+']
    } else {
        seq!['%', hex_upper(b as nat / 16), hex_upper(b as nat % 16)]
    }
}

/// The application/x-www-form-urlencoded form of some bytes.
pub open spec fn form_encoded(b: Seq<u8>) -> Seq<char>
    decreases b.len(),
{
    if b.len() == 0 {
        seq![]
    } else {
        form_encoded(b.drop_last()) + form_byte(b.last())
    }
}

/// Calls `url::form_urlencoded::byte_serialize` on the UTF-8 bytes of `s`,
/// which is what `Serializer::append_pair` writes for a name or a value.
/// Trusted: the result is `form_encoded` of those bytes.
#[verifier::external_body]
pub(crate) fn form_urlencode(s: &str) -> (r: String)
    ensures
        r@ == form_encoded(encode_utf8(s@)),
{
    url::form_urlencoded::byte_serialize(s.as_bytes()).collect()
}

// ------------------------------------------------------------ JSON strings

/// How serde_json writes one character inside a string literal.
pub open spec fn json_char(c: char) -> Seq<char> {
    if c == '"' {
        seq!['\\', '"']
    } else if c == '\\' {
        seq!['\\', '\\']
    } else if c == '\u{8}' {
        seq!['\\', 'b']
    } else if c == '\u{c}' {
        seq!['\\', 'f']
    } else if c == '\n' {
        seq!['\\', 'n']
    } else if c == '\r' {
        seq!['\\', 'r']
    } else if c == '\t' {
        seq!['\\', 't']
    } else if (c as nat) < 32 {
        seq!['\\', 'u', '0', '0', hex_lower(c as nat / 16), hex_lower(c as nat % 16)]
    } else {
        seq![c]
    }
}

/// The escaped characters of a string, without the quotes.
pub open spec fn json_escaped(s: Seq<char>) -> Seq<char>
    decreases s.len(),
{
    if s.len() == 0 {
        seq![]
    } else {
        json_escaped(s.drop_last()) + json_char(s.last())
    }
}

/// A JSON string literal as serde_json writes it.
pub open spec fn json_string(s: Seq<char>) -> Seq<char> {
    seq!['"'] + json_escaped(s) + seq!['"']
}

/// Calls `serde_json::to_string` on a string, which cannot fail for one.
/// Trusted: the result is the quoted literal with serde_json's escapes
/// (`json_string`).
#[verifier::external_body]
pub(crate) fn json_quote(s: &str) -> (r: String)
    ensures
        r@ == json_string(s@),
{
    match serde_json::to_string(s) {
        Ok(text) => text,
        Err(_) => String::new(),
    }
}

// ------------------------------------------------------------- SI sizes

/// How many times 1000 divides into `n` before the quotient drops below 1000.
pub open spec fn si_exponent(n: nat) -> nat
    decreases n,
{
    if n < 1000 {
        0
    } else {
        1 + si_exponent(n / 1000)
    }
}

/// 1000 to the power `d`.
pub open spec fn thousand_pow(d: nat) -> nat
    decreases d,
{
    if d == 0 {
        1
    } else {
        1000 * thousand_pow((d - 1) as nat)
    }
}

/// The SI prefix for 1000 to the power `d`.
pub open spec fn si_prefix(d: nat) -> Seq<char> {
    if d == 0 {
        seq![]
    } else if d == 1 {
        seq!['k']
    } else if d == 2 {
        seq!['M']
    } else if d == 3 {
        seq!['G']
    } else if d == 4 {
        seq!['T']
    } else if d == 5 {
        seq!['P']
    } else if d == 6 {
        seq!['E']
    } else if d == 7 {
        seq!['Z']
    } else {
        seq!['Y']
    }
}

/// A size with an SI prefix and one decimal, rounded down, as
/// `SizeFormatterSI` displays it: "999", "1.0k", "42.5M".
pub open spec fn si_size(n: nat) -> Seq<char> {
    if n < 1000 {
        decimal(n)
    } else {
        let d = si_exponent(n);
        let p = thousand_pow(d);
        decimal(n / p) + seq!['.'] + decimal((n % p) * 10 / p) + si_prefix(d)
    }
}

/// Displays `size_format::SizeFormatterSI::new(n)` with its default precision.
/// Trusted: the result is `si_size(n)`, one decimal rounded down.
#[verifier::external_body]
pub(crate) fn si_size_text(n: u64) -> (r: String)
    ensures
        r@ == si_size(n as nat),
{
    format!("{}", size_format::SizeFormatterSI::new(n))
}

// ---------------------------------------------------------------- UTF-8

/// Calls `String::from_utf8`. Trusted: some text exactly when the bytes are
/// valid UTF-8, and then the text they encode.
#[verifier::external_body]
pub(crate) fn utf8_text(bytes: Vec<u8>) -> (r: Option<String>)
    ensures
        r is Some <==> valid_utf8(bytes@),
        r matches Some(s) ==> s@ == decode_utf8(bytes@),
{
    String::from_utf8(bytes).ok()
}

// ----------------------------------------------------------- Debug text

/// What `format!("{:?}", s)` writes for a string slice.
pub uninterp spec fn str_debug(s: Seq<char>) -> Seq<char>;

/// Formats a string slice with `{:?}` (`<str as Debug>::fmt`). Trusted: the
/// result is the named `str_debug` of the text; nothing more is stated of it.
#[verifier::external_body]
pub(crate) fn debug_text(s: &str) -> (r: String)
    ensures
        r@ == str_debug(s@),
{
    format!("{:?}", s)
}

// ----------------------------------------------------------------- URIs

/// Whether `hyper::Uri::from_str` accepts the text.
pub uninterp spec fn uri_accepts(text: Seq<char>) -> bool;

/// `Uri::path` of the URI that the text parses to.
pub uninterp spec fn uri_path(text: Seq<char>) -> Seq<char>;

/// The `Display` text of the `InvalidUri` error that the text parses to.
pub uninterp spec fn invalid_uri_text(text: Seq<char>) -> Seq<char>;

/// Calls `<hyper::Uri as FromStr>::from_str`, then `Uri::path` on success or
/// the error's `Display` on failure. Trusted: success exactly when
/// `uri_accepts`, and the path or message are the named `uri_path` and
/// `invalid_uri_text` of the text; the parsing rules are not stated.
#[verifier::external_body]
pub(crate) fn parse_uri_path(text: &str) -> (r: Result<String, String>)
    ensures
        r is Ok <==> uri_accepts(text@),
        r matches Ok(p) ==> p@ == uri_path(text@),
        r matches Err(e) ==> e@ == invalid_uri_text(text@),
{
    match text.parse::<hyper::Uri>() {
        Ok(uri) => Ok(uri.path().to_string()),
        Err(err) => Err(err.to_string()),
    }
}

// ---------------------------------------------------------- HTTP status

/// `StatusCode::canonical_reason` of a status code.
pub uninterp spec fn canonical_reason(code: u16) -> Option<Seq<char>>;

/// Calls `hyper::StatusCode::from_u16`, which accepts 100 to 999, and displays
/// the status. Trusted: the text is the code, a space, and the canonical
/// reason (named `canonical_reason`) or "<unknown status code>".
#[verifier::external_body]
pub(crate) fn status_text(code: u16) -> (r: String)
    requires
        100 <= code <= 999,
    ensures
        r@ == decimal(code as nat) + seq![' '] + match canonical_reason(code) {
            Some(reason) => reason,
            None => "<unknown status code>"@,
        },
{
    match hyper::StatusCode::from_u16(code) {
        Ok(status) => status.to_string(),
        Err(_) => String::new(),
    }
}

// ---------------------------------------------------------- JSON lookup

/// Whether `serde_json::from_str::<serde_json::Value>` accepts the text.
pub uninterp spec fn json_accepts(text: Seq<char>) -> bool;

/// The `Display` text of the error that `serde_json::from_str` gives for the text.
pub uninterp spec fn json_error_text(text: Seq<char>) -> Seq<char>;

/// Whether `value[key]` is `Value::Null` for the value the text parses to.
pub uninterp spec fn json_member_is_null(text: Seq<char>, key: Seq<char>) -> bool;

/// The string held by `value[key]`, when it holds one.
pub uninterp spec fn json_member_string(text: Seq<char>, key: Seq<char>) -> Option<Seq<char>>;

/// What a JSON text holds under a key.
pub enum JsonMember {
    /// The text is not JSON; the parser's message.
    Invalid(String),
    /// No such member, or a null one.
    Null,
    /// A string member.
    Text(String),
    /// A member of another kind.
    Other,
}

/// Calls `serde_json::from_str::<serde_json::Value>`, then indexes the value
/// with `value[key]` (null for a missing key or a non-object) and tells its
/// kind apart. Trusted: the outcome follows the named `json_accepts`,
/// `json_error_text`, `json_member_is_null` and `json_member_string`; the JSON
/// grammar itself is not stated.
#[verifier::external_body]
pub(crate) fn json_member(text: &str, key: &str) -> (r: JsonMember)
    ensures
        r is Invalid <==> !json_accepts(text@),
        r matches JsonMember::Invalid(m) ==> m@ == json_error_text(text@),
        json_accepts(text@) ==> (r is Null <==> json_member_is_null(text@, key@)),
        json_accepts(text@) ==> (r is Text <==> json_member_string(text@, key@) is Some),
        r matches JsonMember::Text(s) ==> json_member_string(text@, key@) == Some(s@),
{
    let value: serde_json::Value = match serde_json::from_str(text) {
        Ok(v) => v,
        Err(err) => return JsonMember::Invalid(err.to_string()),
    };
    match &value[key] {
        serde_json::Value::Null => JsonMember::Null,
        serde_json::Value::String(s) => JsonMember::Text(s.clone()),
        _ => JsonMember::Other,
    }
}

} // verus!
