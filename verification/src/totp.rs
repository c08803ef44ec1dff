//! Time-based one-time passwords (RFC 6238: HMAC-SHA1, 6 digits, 30 second
//! steps, one step of tolerance each way) for two-factor authentication.

use vstd::prelude::*;
use vstd::utf8::{encode_utf8, is_ascii_chars};

use crate::text::{
    chars_of, has_char, is_ascii_digit, is_digit_char, is_white_space, lemma_trim_padded, owned, push_char, push_str,
    trim, trim_end_seq, trim_seq, trim_start_seq,
};

verus! {

broadcast use vstd::string::group_string_axioms;

/// The issuer shown by authenticator apps.
pub const ISSUER: &'static str = "FinanciAr";

/// Length of a TOTP step in seconds.
pub const STEP_SECS: u64 = 30;

/// Number of digits of a TOTP code.
pub const CODE_DIGITS: usize = 6;

/// Steps of tolerance on each side when a code is checked.
pub const SKEW_STEPS: u8 = 1;

/// Most bytes a QR code holds in one byte segment at medium error
/// correction (version 40).
pub const QR_MAX_BYTES: usize = 2331;

/// The bytes that the unpadded RFC 4648 base32 text `s` decodes to, `None`
/// when it is not valid base32 (`totp_rs::Secret::Encoded(s).to_bytes()`).
pub uninterp spec fn base32_secret_bytes(s: Seq<char>) -> Option<Seq<u8>>;

/// Bit `i` of `bytes`, most significant bit of each byte first; 0 past
/// their end.
pub open spec fn bit_at(bytes: Seq<u8>, i: int) -> int {
    if 0 <= i < 8 * bytes.len() {
        (bytes[i / 8] as int / bit_weight(i % 8)) % 2
    } else {
        0
    }
}

/// The weight of bit `j` of a byte, most significant first: 2 to the power
/// `7 - j`.
pub open spec fn bit_weight(j: int) -> int {
    if j == 0 {
        128
    } else if j == 1 {
        64
    } else if j == 2 {
        32
    } else if j == 3 {
        16
    } else if j == 4 {
        8
    } else if j == 5 {
        4
    } else if j == 6 {
        2
    } else {
        1
    }
}

/// The `k`th group of five bits of `bytes`, as a number below 32.
pub open spec fn quintet(bytes: Seq<u8>, k: int) -> int {
    16 * bit_at(bytes, 5 * k) + 8 * bit_at(bytes, 5 * k + 1) + 4 * bit_at(bytes, 5 * k + 2) + 2
        * bit_at(bytes, 5 * k + 3) + bit_at(bytes, 5 * k + 4)
}

/// The RFC 4648 base32 digit of `v` (below 32): `A`-`Z`, then `2`-`7`.
pub open spec fn base32_digit(v: int) -> char {
    if v < 26 {
        (65 + v) as char
    } else {
        (24 + v) as char
    }
}

/// The unpadded RFC 4648 base32 text of `bytes` (`base32::encode` with
/// `Rfc4648 { padding: false }`): one digit for each group of five bits,
/// the last group filled up with zero bits.
pub open spec fn base32_text(bytes: Seq<u8>) -> Seq<char> {
    Seq::new(((8 * bytes.len() + 4) / 5) as nat, |k: int| base32_digit(quintet(bytes, k)))
}

/// A byte that URL encoding keeps as it is: an ASCII letter or digit, `-`,
/// `.`, `_` or `~`.
pub open spec fn url_safe_byte(b: u8) -> bool {
    ||| 48 <= b <= 57
    ||| 65 <= b <= 90
    ||| 97 <= b <= 122
    ||| b == 45 || b == 46 || b == 95 || b == 126
}

/// The uppercase hexadecimal digit of `d` (below 16).
pub open spec fn hex_digit(d: u8) -> char {
    if d < 10 {
        (48 + d) as char
    } else {
        (55 + d) as char
    }
}

/// One byte URL-encoded: itself when it is safe, else `%` and its two
/// uppercase hexadecimal digits.
pub open spec fn url_encoded_byte(b: u8) -> Seq<char> {
    if url_safe_byte(b) {
        seq![b as char]
    } else {
        seq!['%', hex_digit(b / 16), hex_digit(b % 16)]
    }
}

/// The bytes URL-encoded one by one.
pub open spec fn url_encoded_bytes(bytes: Seq<u8>) -> Seq<char>
    decreases bytes.len(),
{
    if bytes.len() == 0 {
        Seq::empty()
    } else {
        url_encoded_byte(bytes[0]) + url_encoded_bytes(bytes.drop_first())
    }
}

/// `s` percent-encoded for a URL (`urlencoding::encode`): its UTF-8 bytes
/// URL-encoded one by one.
pub open spec fn url_encoded(s: Seq<char>) -> Seq<char> {
    url_encoded_bytes(encode_utf8(s))
}

/// The 6-digit HMAC-SHA1 code of `secret` for time step number `step`
/// (what `TOTP::generate` returns for any time in that step).
pub uninterp spec fn totp_step_code(secret: Seq<u8>, step: u64) -> Seq<char>;

/// The base64 text of the PNG image of a QR code for `text`.
pub uninterp spec fn qr_png_base64(text: Seq<char>) -> Seq<char>;

/// The current unix time in whole seconds: `SystemTime::now()` measured with
/// `duration_since(UNIX_EPOCH)`, `None` when the clock reads a time before
/// 1970. It depends on the clock, so nothing is stated of it.
#[verifier::external_body]
pub(crate) fn unix_now() -> Option<u64> {
    std::time::SystemTime::now().duration_since(std::time::UNIX_EPOCH).ok().map(|d| d.as_secs())
}

/// `Secret::Encoded(s).to_bytes()`: the base32 decoding of `s`.
#[verifier::external_body]
fn decode_base32_secret(s: &str) -> (r: Option<Vec<u8>>)
    ensures
        match r {
            Some(b) => base32_secret_bytes(s@) == Some(b@),
            None => base32_secret_bytes(s@) is None,
        },
{
    totp_rs::Secret::Encoded(s.to_string()).to_bytes().ok()
}

/// `Secret::Raw(bytes).to_encoded()`: the base32 text of `bytes`, which
/// decodes back to `bytes`.
#[verifier::external_body]
fn encode_base32_secret(bytes: &[u8]) -> (r: String)
    ensures
        r@ == base32_text(bytes@),
        base32_secret_bytes(r@) == Some(bytes@),
{
    totp_rs::Secret::Raw(bytes.to_vec()).to_encoded().to_string()
}

/// `Secret::generate_secret().to_bytes()`: 20 random bytes. The generated
/// secret is always a raw one, so turning it into bytes succeeds.
#[verifier::external_body]
fn random_secret_bytes() -> (r: Result<Vec<u8>, totp_rs::SecretParseError>)
    ensures
        r is Ok,
        r matches Ok(b) ==> b@.len() == 20,
{
    totp_rs::Secret::generate_secret().to_bytes()
}

#[verifier::external_type_specification]
#[verifier::external_body]
pub struct ExSecretParseError(totp_rs::SecretParseError);

/// `TOTP::new(SHA1, 6, 1, 30, secret, Some(issuer), account)`: refuses a
/// secret shorter than 16 bytes and an issuer or account name holding `:`,
/// with the text of its error.
#[verifier::external_body]
fn totp_params_check(secret: &[u8], issuer: &str, account: &str) -> (r: Result<(), String>)
    ensures
        r is Ok <==> (secret@.len() >= 16 && !has_char(issuer@, ':') && !has_char(account@, ':')),
{
    totp_rs::TOTP::new(
        totp_rs::Algorithm::SHA1,
        CODE_DIGITS,
        SKEW_STEPS,
        STEP_SECS,
        secret.to_vec(),
        Some(issuer.to_string()),
        account.to_string(),
    ).map(|_| ()).map_err(|err| err.to_string())
}

/// `TOTP::generate(time)` for SHA1, 6 digits and 30 second steps: the code of
/// the step that `time` falls in, which is six ASCII digits.
#[verifier::external_body]
fn totp_generate(secret: &[u8], time: u64) -> (r: String)
    ensures
        r@ == totp_step_code(secret@, time / STEP_SECS),
        r@.len() == 6,
        forall|i: int| 0 <= i < 6 ==> is_digit_char(#[trigger] r@[i]),
{
    totp_rs::TOTP::new_unchecked(
        totp_rs::Algorithm::SHA1,
        CODE_DIGITS,
        SKEW_STEPS,
        STEP_SECS,
        secret.to_vec(),
        None,
        String::new(),
    ).generate(time)
}

/// The token is the code of the step of `time`, or of the step just before
/// or just after it.
pub open spec fn totp_accepts(secret: Seq<u8>, token: Seq<char>, time: u64) -> bool {
    let s = time / STEP_SECS;
    ||| token == totp_step_code(secret, (s - 1) as u64)
    ||| token == totp_step_code(secret, s)
    ||| token == totp_step_code(secret, (s + 1) as u64)
}

/// `TOTP::check(token, time)` with a skew of one step.
#[verifier::external_body]
fn totp_check(secret: &[u8], token: &str, time: u64) -> (b: bool)
    requires
        STEP_SECS <= time <= u64::MAX - 2 * STEP_SECS,
    ensures
        b == totp_accepts(secret@, token@, time),
{
    totp_rs::TOTP::new_unchecked(
        totp_rs::Algorithm::SHA1,
        CODE_DIGITS,
        SKEW_STEPS,
        STEP_SECS,
        secret.to_vec(),
        None,
        String::new(),
    ).check(token, time)
}

/// The `otpauth://` URL of a SHA1, 6 digit, 30 second TOTP.
pub open spec fn otpauth_url_of(secret: Seq<u8>, issuer: Seq<char>, account: Seq<char>) -> Seq<char> {
    "otpauth://totp/"@ + url_encoded(issuer) + ":"@ + url_encoded(account) + "?secret="@
        + base32_text(secret) + "&issuer="@ + url_encoded(issuer)
}

/// `TOTP::get_url()`.
#[verifier::external_body]
fn totp_url(secret: &[u8], issuer: &str, account: &str) -> (r: String)
    ensures
        r@ == "otpauth://totp/"@ + url_encoded(issuer@) + ":"@ + url_encoded(account@) + "?secret="@
            + base32_text(secret@) + "&issuer="@ + url_encoded(issuer@),
{
    totp_rs::TOTP::new_unchecked(
        totp_rs::Algorithm::SHA1,
        CODE_DIGITS,
        SKEW_STEPS,
        STEP_SECS,
        secret.to_vec(),
        Some(issuer.to_string()),
        account.to_string(),
    ).get_url()
}

/// `TOTP::get_qr_base64()`: the QR code of the `otpauth://` URL as a
/// base64 PNG. `qrcodegen::QrCode::encode_text` with medium error
/// correction writes the URL (which holds lowercase letters) as one byte
/// segment, and the largest QR code holds 2331 bytes of it there: the URL is
/// drawn exactly when it is at most `QR_MAX_BYTES` bytes long.
#[verifier::external_body]
fn totp_qr(secret: &[u8], issuer: &str, account: &str) -> (r: Result<String, String>)
    ensures
        r matches Ok(q) ==> q@ == qr_png_base64(otpauth_url_of(secret@, issuer@, account@)),
        r is Ok <==> encode_utf8(otpauth_url_of(secret@, issuer@, account@)).len() <= QR_MAX_BYTES,
{
    totp_rs::TOTP::new_unchecked(
        totp_rs::Algorithm::SHA1,
        CODE_DIGITS,
        SKEW_STEPS,
        STEP_SECS,
        secret.to_vec(),
        Some(issuer.to_string()),
        account.to_string(),
    ).get_qr_base64()
}

/// `email` without its `:` characters (the label of an `otpauth` URL cannot
/// hold one).
pub open spec fn account_label(email: Seq<char>) -> Seq<char> {
    email.filter(|c: char| c != ':')
}

fn remove_colons(s: &str) -> (r: String)
    ensures
        r@ == account_label(s@),
{
    let v = chars_of(s);
    let mut out = String::new();
    let mut i: usize = 0;
    while i < v.len()
        invariant
            i <= v@.len(),
            v@ == s@,
            out@ == v@.take(i as int).filter(|c: char| c != ':'),
        decreases v@.len() - i,
    {
        proof {
            assert(v@.take(i + 1) =~= v@.take(i as int).push(v@[i as int]));
            v@.take(i as int).lemma_filter_push(v@[i as int], |c: char| c != ':');
        }
        if v[i] != ':' {
            push_char(&mut out, v[i]);
        }
        i = i + 1;
    }
    assert(v@.take(i as int) =~= v@);
    out
}

/// The secret that a base32 text stands for, when it decodes and is at
/// least 16 bytes (128 bits) long.
pub open spec fn usable_secret(secret_base32: Seq<char>) -> Option<Seq<u8>> {
    match base32_secret_bytes(secret_base32) {
        Some(b) => if b.len() >= 16 {
            Some(b)
        } else {
            None
        },
        None => None,
    }
}

proof fn lemma_issuer_has_no_colon()
    ensures
        !has_char(ISSUER@, ':'),
{
    reveal_strlit("FinanciAr");
}

proof fn lemma_label_has_no_colon(email: Seq<char>)
    ensures
        !has_char(account_label(email), ':'),
{
    broadcast use vstd::seq_lib::group_filter_ensures;

    let l = account_label(email);
    assert forall|i: int| 0 <= i < l.len() implies l[i] != ':' by {
        assert(email.filter(|c: char| c != ':').contains(l[i]));
    }
}

/// Decodes the secret and checks it with `TOTP::new`; returns the secret
/// bytes and the account label.
fn build(secret_base32: &str, email: &str) -> (r: Result<(Vec<u8>, String), String>)
    ensures
        r is Ok <==> usable_secret(secret_base32@) is Some,
        r matches Ok((b, a)) ==> (usable_secret(secret_base32@) == Some(b@) && a@ == account_label(
            email@,
        )),
        base32_secret_bytes(secret_base32@) is None ==> (r matches Err(e) && e@
            == "Secreto TOTP invalido: ParseBase32"@),
{
    let bytes = match decode_base32_secret(secret_base32) {
        Some(b) => b,
        None => return Err(owned("Secreto TOTP invalido: ParseBase32")),
    };
    let account = remove_colons(email);
    proof {
        lemma_issuer_has_no_colon();
        lemma_label_has_no_colon(email@);
    }
    match totp_params_check(bytes.as_slice(), ISSUER, account.as_str()) {
        Ok(()) => Ok((bytes, account)),
        Err(e) => {
            let mut msg = owned("No se pudo construir el TOTP: ");
            push_str(&mut msg, e.as_str());
            Err(msg)
        },
    }
}

/// Generates a random secret (20 bytes, base32) for enrolling an
/// authenticator app.
pub fn generate_secret() -> (r: String)
    ensures
        (usable_secret(r@) matches Some(b) && b.len() == 20),
{
    match random_secret_bytes() {
        Ok(bytes) => encode_base32_secret(bytes.as_slice()),
        Err(_) => String::new(),
    }
}

/// The `otpauth://` URL that authenticator apps import.
pub fn otpauth_url(secret_base32: &str, email: &str) -> (r: Result<String, String>)
    ensures
        r is Ok <==> usable_secret(secret_base32@) is Some,
        r matches Ok(u) ==> u@ == otpauth_url_of(
            usable_secret(secret_base32@)->0,
            ISSUER@,
            account_label(email@),
        ),
{
    let (bytes, account) = build(secret_base32, email)?;
    Ok(totp_url(bytes.as_slice(), ISSUER, account.as_str()))
}

/// The QR code (base64 PNG) of `otpauth_url`. It is drawn exactly for the
/// usable secrets whose URL fits in a QR code (`QR_MAX_BYTES`).
pub fn qr_base64(secret_base32: &str, email: &str) -> (r: Result<String, String>)
    ensures
        r is Ok <==> (usable_secret(secret_base32@) matches Some(b) && encode_utf8(
            otpauth_url_of(b, ISSUER@, account_label(email@)),
        ).len() <= QR_MAX_BYTES),
        r matches Ok(q) ==> q@ == qr_png_base64(
            otpauth_url_of(usable_secret(secret_base32@)->0, ISSUER@, account_label(email@)),
        ),
        usable_secret(secret_base32@) matches Some(b) && b.len() <= 467 && encode_utf8(email@).len()
            < 500 ==> r is Ok,
{
    proof {
        if let Some(b) = usable_secret(secret_base32@) {
            if b.len() <= 467 && encode_utf8(email@).len() < 500 {
                otpauth_url_fits_qr(b, email@);
            }
        }
    }
    let (bytes, account) = build(secret_base32, email)?;
    totp_qr(bytes.as_slice(), ISSUER, account.as_str())
}

proof fn lemma_ascii_concat(a: Seq<char>, b: Seq<char>)
    requires
        is_ascii_chars(a),
        is_ascii_chars(b),
    ensures
        is_ascii_chars(a + b),
{
    assert forall|i: int| 0 <= i < (a + b).len() implies '\0' <= #[trigger] (a + b)[i] <= '\u{7f}' by {
        if i < a.len() {
            assert((a + b)[i] == a[i]);
        } else {
            assert((a + b)[i] == b[i - a.len()]);
        }
    }
}

proof fn lemma_url_encoded_bytes(b: Seq<u8>)
    ensures
        url_encoded_bytes(b).len() <= 3 * b.len(),
        is_ascii_chars(url_encoded_bytes(b)),
    decreases b.len(),
{
    if b.len() > 0 {
        lemma_url_encoded_bytes(b.drop_first());
        let h = url_encoded_byte(b[0]);
        assert(is_ascii_chars(h));
        lemma_ascii_concat(h, url_encoded_bytes(b.drop_first()));
    }
}

proof fn lemma_encode_utf8_concat(a: Seq<char>, b: Seq<char>)
    ensures
        encode_utf8(a + b) == encode_utf8(a) + encode_utf8(b),
    decreases a.len(),
{
    if a.len() == 0 {
        assert(a + b =~= b);
        assert(encode_utf8(a) + encode_utf8(b) =~= encode_utf8(b));
    } else {
        lemma_encode_utf8_concat(a.drop_first(), b);
        assert((a + b).drop_first() =~= a.drop_first() + b);
        assert((a + b)[0] == a[0]);
        let e = vstd::utf8::encode_scalar(a[0] as u32);
        assert(e + (encode_utf8(a.drop_first()) + encode_utf8(b)) =~= (e + encode_utf8(
            a.drop_first(),
        )) + encode_utf8(b));
    }
}

proof fn lemma_encode_utf8_filter_len(s: Seq<char>, p: spec_fn(char) -> bool)
    ensures
        encode_utf8(s.filter(p)).len() <= encode_utf8(s).len(),
    decreases s.len(),
{
    reveal(Seq::filter);
    if s.len() > 0 {
        let d = s.drop_last();
        let last = s.last();
        lemma_encode_utf8_filter_len(d, p);
        assert(s =~= d + seq![last]);
        lemma_encode_utf8_concat(d, seq![last]);
        if p(last) {
            assert(d.filter(p).push(last) =~= d.filter(p) + seq![last]);
            lemma_encode_utf8_concat(d.filter(p), seq![last]);
        }
    }
}

proof fn lemma_base32_text_ascii(b: Seq<u8>)
    ensures
        is_ascii_chars(base32_text(b)),
        base32_text(b).len() == (8 * b.len() + 4) / 5,
{
    let t = base32_text(b);
    assert forall|k: int| 0 <= k < t.len() implies '\0' <= #[trigger] t[k] <= '\u{7f}' by {
        let q = quintet(b, k);
        assert(0 <= bit_at(b, 5 * k) <= 1);
        assert(0 <= bit_at(b, 5 * k + 1) <= 1);
        assert(0 <= bit_at(b, 5 * k + 2) <= 1);
        assert(0 <= bit_at(b, 5 * k + 3) <= 1);
        assert(0 <= bit_at(b, 5 * k + 4) <= 1);
        assert(0 <= q < 32);
    }
}

/// The QR code of an enrollment is always drawn for e-mail addresses
/// shorter than 500 bytes and secrets of at most 467 bytes: their
/// `otpauth://` URL stays within the `QR_MAX_BYTES` that a QR code holds.
pub proof fn otpauth_url_fits_qr(secret: Seq<u8>, email: Seq<char>)
    requires
        encode_utf8(email).len() < 500,
        secret.len() <= 467,
    ensures
        encode_utf8(otpauth_url_of(secret, ISSUER@, account_label(email))).len() <= QR_MAX_BYTES,
{
    reveal_strlit("FinanciAr");
    reveal_strlit("otpauth://totp/");
    reveal_strlit(":");
    reveal_strlit("?secret=");
    reveal_strlit("&issuer=");
    let label = account_label(email);
    lemma_encode_utf8_filter_len(email, |c: char| c != ':');
    lemma_url_encoded_bytes(encode_utf8(label));
    let iss = ISSUER@;
    assert(is_ascii_chars(iss));
    vstd::utf8::is_ascii_chars_encode_utf8(iss);
    lemma_url_encoded_bytes(encode_utf8(iss));
    lemma_base32_text_ascii(secret);
    let p0 = "otpauth://totp/"@;
    let p1 = ":"@;
    let p2 = "?secret="@;
    let p3 = "&issuer="@;
    assert(is_ascii_chars(p0));
    assert(is_ascii_chars(p1));
    assert(is_ascii_chars(p2));
    assert(is_ascii_chars(p3));
    let ei = url_encoded(iss);
    let el = url_encoded(label);
    let b32 = base32_text(secret);
    lemma_ascii_concat(p0, ei);
    lemma_ascii_concat(p0 + ei, p1);
    lemma_ascii_concat(p0 + ei + p1, el);
    lemma_ascii_concat(p0 + ei + p1 + el, p2);
    lemma_ascii_concat(p0 + ei + p1 + el + p2, b32);
    lemma_ascii_concat(p0 + ei + p1 + el + p2 + b32, p3);
    lemma_ascii_concat(p0 + ei + p1 + el + p2 + b32 + p3, ei);
    let url = otpauth_url_of(secret, iss, label);
    assert(url == p0 + ei + p1 + el + p2 + b32 + p3 + ei);
    vstd::utf8::is_ascii_chars_encode_utf8(url);
    assert(url.len() <= 15 + 27 + 1 + 3 * 499 + 8 + 748 + 8 + 27);
}

/// Six bytes, all of them ASCII digits.
pub open spec fn is_code_shaped(code: Seq<char>) -> bool {
    &&& encode_utf8(code).len() == 6
    &&& forall|i: int| 0 <= i < code.len() ==> is_digit_char(#[trigger] code[i])
}

/// Times at which the one-step tolerance stays within `u64`.
pub open spec fn checkable_time(time: u64) -> bool {
    STEP_SECS <= time <= u64::MAX - 2 * STEP_SECS
}

/// Whether `code` (surrounding whitespace ignored) is accepted at `time` for
/// the given secret.
pub open spec fn code_verifies(secret_base32: Seq<char>, code: Seq<char>, time: u64) -> bool {
    let c = trim_seq(code);
    &&& is_code_shaped(c)
    &&& checkable_time(time)
    &&& usable_secret(secret_base32) matches Some(b) && totp_accepts(b, c, time)
}

fn all_ascii_digits(v: &Vec<char>) -> (b: bool)
    ensures
        b == forall|i: int| 0 <= i < v@.len() ==> is_digit_char(#[trigger] v@[i]),
{
    let mut i: usize = 0;
    while i < v.len()
        invariant
            i <= v@.len(),
            forall|k: int| 0 <= k < i ==> is_digit_char(#[trigger] v@[k]),
        decreases v@.len() - i,
    {
        if !is_ascii_digit(v[i]) {
            return false;
        }
        i = i + 1;
    }
    true
}

/// Checks a 6-digit code at `time` (unix seconds), with a tolerance of one
/// 30 second step each way. A code that is not six digits, an unusable
/// secret, or a time outside `checkable_time` is refused.
pub fn verify_code_at(secret_base32: &str, email: &str, code: &str, time: u64) -> (b: bool)
    ensures
        b == code_verifies(secret_base32@, code@, time),
{
    let code = trim(code);
    if code.as_str().as_bytes().len() != 6 {
        return false;
    }
    let chars = chars_of(code.as_str());
    if !all_ascii_digits(&chars) {
        return false;
    }
    if time < STEP_SECS || time > u64::MAX - 2 * STEP_SECS {
        return false;
    }
    match build(secret_base32, email) {
        Ok((bytes, _)) => totp_check(bytes.as_slice(), code.as_str(), time),
        Err(_) => false,
    }
}

/// Checks a 6-digit code against the current time (see `verify_code_at`).
/// A clock before 1970 refuses every code.
pub fn verify_code(secret_base32: &str, email: &str, code: &str) -> (b: bool)
    ensures
        b ==> exists|t: u64| code_verifies(secret_base32@, code@, t),
        !is_code_shaped(trim_seq(code@)) ==> !b,
        usable_secret(secret_base32@) is None ==> !b,
{
    match unix_now() {
        Some(t) => verify_code_at(secret_base32, email, code, t),
        None => false,
    }
}

/// The code in force at `time` for the secret.
pub open spec fn is_current_code(secret_base32: Seq<char>, time: u64, code: Seq<char>) -> bool {
    &&& usable_secret(secret_base32) matches Some(b) && code == totp_step_code(b, time / STEP_SECS)
    &&& code.len() == 6
    &&& forall|i: int| 0 <= i < 6 ==> is_digit_char(#[trigger] code[i])
}

/// The code in force at `time` (unix seconds) for the secret.
pub fn current_code_at(secret_base32: &str, email: &str, time: u64) -> (r: Result<String, String>)
    ensures
        r is Ok <==> usable_secret(secret_base32@) is Some,
        r matches Ok(c) ==> is_current_code(secret_base32@, time, c@),
        base32_secret_bytes(secret_base32@) is None ==> (r matches Err(e) && e@
            == "Secreto TOTP invalido: ParseBase32"@),
{
    let (bytes, _) = build(secret_base32, email)?;
    Ok(totp_generate(bytes.as_slice(), time))
}

/// The code in force now for the secret; an authenticator app shows the same.
/// A secret that is not usable is refused as `current_code_at` refuses it;
/// a usable one fails only when the clock reads a time before 1970.
pub fn current_code(secret_base32: &str, email: &str) -> (r: Result<String, String>)
    ensures
        r is Ok ==> usable_secret(secret_base32@) is Some,
        r matches Ok(c) ==> exists|t: u64| is_current_code(secret_base32@, t, c@),
        r matches Err(e) ==> (usable_secret(secret_base32@) is None || e@
            == "No se pudo generar el codigo: second time provided was later than self"@),
        base32_secret_bytes(secret_base32@) is None ==> (r matches Err(e) && e@
            == "Secreto TOTP invalido: ParseBase32"@),
{
    match unix_now() {
        Some(t) => current_code_at(secret_base32, email, t),
        None => {
            build(secret_base32, email)?;
            Err(owned("No se pudo generar el codigo: second time provided was later than self"))
        },
    }
}

/// A code that is in force at a time is accepted at that time: what an
/// authenticator app shows verifies.
pub proof fn current_code_verifies(secret_base32: Seq<char>, time: u64, code: Seq<char>)
    requires
        is_current_code(secret_base32, time, code),
        checkable_time(time),
    ensures
        code_verifies(secret_base32, code, time),
{
    assert(vstd::utf8::is_ascii_chars(code));
    vstd::utf8::is_ascii_chars_encode_utf8(code);
    assert(!is_white_space(code[0]));
    assert(trim_start_seq(code) == code);
    assert(!is_white_space(code.last()));
    assert(trim_end_seq(code) == code);
}

/// A code in force at `time` is accepted at any checkable time of the same
/// 30 second step, the step before or the step after, also with whitespace
/// around it: the one-step tolerance each way of `verify_code_at`.
pub proof fn current_code_verifies_nearby(
    secret_base32: Seq<char>,
    time: u64,
    code: Seq<char>,
    check_time: u64,
    before: Seq<char>,
    after: Seq<char>,
)
    requires
        is_current_code(secret_base32, time, code),
        checkable_time(check_time),
        time / STEP_SECS <= check_time / STEP_SECS + 1,
        check_time / STEP_SECS <= time / STEP_SECS + 1,
        forall|k: int| 0 <= k < before.len() ==> is_white_space(#[trigger] before[k]),
        forall|k: int| 0 <= k < after.len() ==> is_white_space(#[trigger] after[k]),
    ensures
        code_verifies(secret_base32, before + code + after, check_time),
{
    assert(vstd::utf8::is_ascii_chars(code));
    vstd::utf8::is_ascii_chars_encode_utf8(code);
    assert(!is_white_space(code[0]));
    assert(!is_white_space(code.last()));
    lemma_trim_padded(before, code, after);
    let b = usable_secret(secret_base32)->0;
    let s = check_time / STEP_SECS;
    assert(s >= 1);
    let t = time / STEP_SECS;
    if t + 1 == s {
        assert(((s - 1) as u64) == t);
    } else if t == s + 1 {
        assert(((s + 1) as u64) == t);
    }
    assert(totp_accepts(b, code, check_time));
}

/// The account label of an enrollment drops the `:` characters of the
/// e-mail and nothing else: labels of joined texts join, a single `:` gives
/// nothing, any other character stays, and an e-mail without `:` is its own
/// label.
pub proof fn account_label_drops_only_colons(a: Seq<char>, b: Seq<char>, c: char)
    ensures
        account_label(a + b) == account_label(a) + account_label(b),
        c == ':' ==> account_label(seq![c]) == Seq::<char>::empty(),
        c != ':' ==> account_label(seq![c]) == seq![c],
        (forall|i: int| 0 <= i < a.len() ==> a[i] != ':') ==> account_label(a) == a,
        account_label(a).len() <= a.len(),
{
    Seq::filter_distributes_over_add(a, b, |x: char| x != ':');
    reveal(Seq::filter);
    assert(seq![c].drop_last() =~= Seq::<char>::empty());
    assert(Seq::<char>::empty().filter(|x: char| x != ':') =~= Seq::<char>::empty());
    if c != ':' {
        assert(Seq::<char>::empty().push(c) =~= seq![c]);
    }
    a.lemma_filter_len(|x: char| x != ':');
    if forall|i: int| 0 <= i < a.len() ==> a[i] != ':' {
        lemma_filter_keeps_all(a);
    }
}

proof fn lemma_filter_keeps_all(a: Seq<char>)
    requires
        forall|i: int| 0 <= i < a.len() ==> a[i] != ':',
    ensures
        a.filter(|x: char| x != ':') == a,
    decreases a.len(),
{
    reveal(Seq::filter);
    if a.len() > 0 {
        let d = a.drop_last();
        assert forall|i: int| 0 <= i < d.len() implies d[i] != ':' by {
            assert(d[i] == a[i]);
        }
        lemma_filter_keeps_all(d);
        assert(a.last() == a[a.len() - 1]);
        assert(d.push(a.last()) =~= a);
    }
}

} // verus!
