//! Sign-up requests and the rules a new account must meet.

use vstd::prelude::*;

use crate::text::{
    char_is_lowercase, char_is_uppercase, chars_of, owned, is_ascii_digit, is_digit_char, str_eq, trim,
    trim_seq, unicode_lowercase, unicode_uppercase,
};

verus! {

broadcast use vstd::string::group_string_axioms;

/// A sign-up request.
pub struct RegisterUserRequest {
    pub email: String,
    pub password: String,
    pub full_name: String,
    /// Optional. Must be 'conservative', 'moderate', or 'aggressive'.
    pub risk_profile: Option<String>,
}

/// The answer to a sign-up request.
pub struct RegisterUserResponse {
    pub code: u16,
    pub message: String,
}

/// A rule that a sign-up request is checked against.
pub trait Validator {
    fn validate(&self, payload: &RegisterUserRequest) -> Result<(), String>;
}

/// One of the characters that counts as a special character in a password:
/// ``!@#$%^&*()_+-=[]{}|;':\",.<>/?``.
pub open spec fn is_password_special(c: char) -> bool {
    ||| c == '!' || c == '@' || c == '#' || c == '$' || c == '%' || c == '^' || c == '&'
    ||| c == '*' || c == '(' || c == ')' || c == '_' || c == '+' || c == '-' || c == '='
    ||| c == '[' || c == ']' || c == '{' || c == '}' || c == '|' || c == ';' || c == '\''
    ||| c == ':' || c == '\\' || c == '"' || c == ',' || c == '.' || c == '<' || c == '>'
    ||| c == '/' || c == '?'
}

fn is_special(c: char) -> (b: bool)
    ensures
        b == is_password_special(c),
{
    c == '!' || c == '@' || c == '#' || c == '$' || c == '%' || c == '^' || c == '&' || c == '*'
        || c == '(' || c == ')' || c == '_' || c == '+' || c == '-' || c == '=' || c == '['
        || c == ']' || c == '{' || c == '}' || c == '|' || c == ';' || c == '\'' || c == ':'
        || c == '\\' || c == '"' || c == ',' || c == '.' || c == '<' || c == '>' || c == '/'
        || c == '?'
}

/// Some character of `s` satisfies `p`.
pub open spec fn any_char(s: Seq<char>, p: spec_fn(char) -> bool) -> bool {
    exists|i: int| 0 <= i < s.len() && #[trigger] p(s[i])
}

/// The first password rule that `raw` breaks, as the message that reports
/// it; `None` when it meets them all. The password is judged after trimming
/// surrounding whitespace, and its length is counted in characters.
pub open spec fn password_problem(raw: Seq<char>) -> Option<Seq<char>> {
    let t = trim_seq(raw);
    if t.len() < 8 {
        Some("Password must be at least 8 characters long"@)
    } else if !any_char(t, |c: char| unicode_uppercase(c)) {
        Some("Password must contain at least one uppercase letter"@)
    } else if !any_char(t, |c: char| unicode_lowercase(c)) {
        Some("Password must contain at least one lowercase letter"@)
    } else if !any_char(t, |c: char| is_digit_char(c)) {
        Some("Password must contain at least one digit"@)
    } else if !any_char(t, |c: char| is_password_special(c)) {
        Some("Password must contain at least one special character"@)
    } else {
        None
    }
}

/// The password rules: at least 8 characters, an uppercase and a lowercase
/// letter, a digit and a special character.
pub struct PasswordValidator;

/// Which of the character classes of the password rules occur in `v`.
fn char_classes(v: &Vec<char>) -> (r: (bool, bool, bool, bool))
    ensures
        r.0 == any_char(v@, |c: char| unicode_uppercase(c)),
        r.1 == any_char(v@, |c: char| unicode_lowercase(c)),
        r.2 == any_char(v@, |c: char| is_digit_char(c)),
        r.3 == any_char(v@, |c: char| is_password_special(c)),
{
    let mut upper = false;
    let mut lower = false;
    let mut digit = false;
    let mut special = false;
    let mut i: usize = 0;
    while i < v.len()
        invariant
            i <= v@.len(),
            upper == any_char(v@.take(i as int), |c: char| unicode_uppercase(c)),
            lower == any_char(v@.take(i as int), |c: char| unicode_lowercase(c)),
            digit == any_char(v@.take(i as int), |c: char| is_digit_char(c)),
            special == any_char(v@.take(i as int), |c: char| is_password_special(c)),
        decreases v@.len() - i,
    {
        let c = v[i];
        let u = char_is_uppercase(c);
        let l = char_is_lowercase(c);
        let d = is_ascii_digit(c);
        let s = is_special(c);
        proof {
            let t0 = v@.take(i as int);
            let t1 = v@.take(i + 1);
            assert(t1 =~= t0.push(c));
            assert(t1[i as int] == c);
            assert forall|p: spec_fn(char) -> bool| any_char(t1, p) == (any_char(t0, p) || p(c)) by {
                if any_char(t0, p) {
                    let k = choose|k: int| 0 <= k < t0.len() && #[trigger] p(t0[k]);
                    assert(t1[k] == t0[k]);
                }
                if any_char(t1, p) {
                    let k = choose|k: int| 0 <= k < t1.len() && #[trigger] p(t1[k]);
                    if k < i {
                        assert(t0[k] == t1[k]);
                    }
                }
            }
        }
        upper = upper || u;
        lower = lower || l;
        digit = digit || d;
        special = special || s;
        i = i + 1;
    }
    assert(v@.take(i as int) =~= v@);
    (upper, lower, digit, special)
}

impl Validator for PasswordValidator {
    fn validate(&self, payload: &RegisterUserRequest) -> (r: Result<(), String>)
        ensures
            match password_problem(payload.password@) {
                None => r is Ok,
                Some(m) => r matches Err(e) && e@ == m,
            },
    {
        let text = trim(payload.password.as_str());
        let v = chars_of(text.as_str());
        if v.len() < 8 {
            return Err(owned("Password must be at least 8 characters long"));
        }
        let (upper, lower, digit, special) = char_classes(&v);
        if !upper {
            return Err(owned("Password must contain at least one uppercase letter"));
        }
        if !lower {
            return Err(owned("Password must contain at least one lowercase letter"));
        }
        if !digit {
            return Err(owned("Password must contain at least one digit"));
        }
        if !special {
            return Err(owned("Password must contain at least one special character"));
        }
        Ok(())
    }
}

#[verifier::external_type_specification]
#[verifier::external_body]
pub struct ExRegex(regex::Regex);

/// The pattern that an e-mail address must match somewhere in it.
pub const EMAIL_PATTERN: &'static str = r"\b[A-Za-z0-9._%+-]+@[A-Za-z0-9.-]+\.[A-Z|a-z]{2,}\b";

/// Whether the regular expression `pattern` finds a match somewhere in
/// `text` (what `regex::Regex::new(pattern)` then `is_match(text)` answers).
pub uninterp spec fn regex_finds(pattern: Seq<char>, text: Seq<char>) -> bool;

/// `regex::Regex::new` on `EMAIL_PATTERN`. The pattern is a valid regular
/// expression of fixed size, so compiling it succeeds.
#[verifier::external_body]
fn compile_email_pattern() -> regex::Regex {
    regex::Regex::new(EMAIL_PATTERN).unwrap()
}

/// The e-mail format rule: a compiled regular expression and the pattern it
/// was compiled from.
pub struct EmailValidator {
    re_mail: regex::Regex,
    pattern: &'static str,
}

impl EmailValidator {
    /// The pattern the validator looks for.
    pub closed spec fn pattern_text(&self) -> Seq<char> {
        self.pattern@
    }
}

/// `regex::Regex::is_match` on the validator's compiled expression. The
/// fields are private and `EmailValidator::new` is the only place that fills
/// them, with `compile_email_pattern` and `EMAIL_PATTERN`, so the expression
/// is always the one compiled from the validator's pattern: the answer is
/// `regex_finds` of that pattern.
#[verifier::external_body]
fn email_regex_is_match(validator: &EmailValidator, text: &str) -> (b: bool)
    ensures
        b == regex_finds(validator.pattern_text(), text@),
{
    validator.re_mail.is_match(text)
}

impl EmailValidator {
    /// The validator of the e-mail rule, looking for `EMAIL_PATTERN`.
    pub fn new() -> (v: Self)
        ensures
            v.pattern_text() == EMAIL_PATTERN@,
    {
        EmailValidator { re_mail: compile_email_pattern(), pattern: EMAIL_PATTERN }
    }
}

impl Default for EmailValidator {
    fn default() -> Self {
        Self::new()
    }
}

impl Validator for EmailValidator {
    fn validate(&self, payload: &RegisterUserRequest) -> (r: Result<(), String>)
        ensures
            regex_finds(self.pattern_text(), trim_seq(payload.email@)) ==> r is Ok,
            !regex_finds(self.pattern_text(), trim_seq(payload.email@)) ==> (r matches Err(e)
                && e@ == "Invalid email format"@),
    {
        let text = trim(payload.email.as_str());
        if email_regex_is_match(self, text.as_str()) {
            Ok(())
        } else {
            Err(owned("Invalid email format"))
        }
    }
}

/// One of the accepted risk profiles.
pub open spec fn is_risk_profile(p: Seq<char>) -> bool {
    p == "conservative"@ || p == "moderate"@ || p == "aggressive"@
}

/// Whether `profile` is `conservative`, `moderate` or `aggressive`.
pub fn is_valid_risk_profile(profile: &str) -> (b: bool)
    ensures
        b == is_risk_profile(profile@),
{
    str_eq(profile, "conservative") || str_eq(profile, "moderate") || str_eq(profile, "aggressive")
}

/// The message for a risk profile that is not one of the accepted ones.
pub open spec fn invalid_risk_profile_message() -> Seq<char> {
    "Invalid risk profile. Must be 'conservative', 'moderate', or 'aggressive'."@
}

/// What a sign-up request is answered when it breaks a rule, checked in the
/// order e-mail format, password, risk profile; `None` when it meets them all.
pub open spec fn registration_problem(payload: RegisterUserRequest) -> Option<Seq<char>> {
    if !regex_finds(EMAIL_PATTERN@, trim_seq(payload.email@)) {
        Some("Invalid email format"@)
    } else if password_problem(payload.password@) is Some {
        password_problem(payload.password@)
    } else if payload.risk_profile matches Some(p) && !is_risk_profile(p@) {
        Some(invalid_risk_profile_message())
    } else {
        None
    }
}

/// Checks a sign-up request against the e-mail, password and risk-profile
/// rules and returns the message of the first one it breaks.
pub fn validate_registration(payload: &RegisterUserRequest) -> (r: Result<(), String>)
    ensures
        match registration_problem(*payload) {
            None => r is Ok,
            Some(m) => r matches Err(e) && e@ == m,
        },
{
    let email_validator = EmailValidator::new();
    email_validator.validate(payload)?;
    PasswordValidator.validate(payload)?;
    if let Some(profile) = &payload.risk_profile {
        if !is_valid_risk_profile(profile.as_str()) {
            return Err(
                owned("Invalid risk profile. Must be 'conservative', 'moderate', or 'aggressive'."),
            );
        }
    }
    Ok(())
}

/// A request to change the user's risk profile.
pub struct UpdateRiskProfileRequest {
    pub risk_profile: String,
}

/// A new risk profile must be `conservative`, `moderate` or `aggressive`;
/// otherwise the request is answered with this message.
pub fn validate_risk_profile_update(req: &UpdateRiskProfileRequest) -> (r: Result<(), String>)
    ensures
        r is Ok <==> is_risk_profile(req.risk_profile@),
        r matches Err(m) ==> m@ == "Invalid risk_profile value"@,
{
    if is_valid_risk_profile(req.risk_profile.as_str()) {
        Ok(())
    } else {
        Err(owned("Invalid risk_profile value"))
    }
}

/// Exactly the characters of the documented set
/// ``!@#$%^&*()_+-=[]{}|;':\",.<>/?`` count as special characters.
pub proof fn special_characters_are_the_documented_set(c: char)
    ensures
        is_password_special(c) <==> "!@#$%^&*()_+-=[]{}|;':\\\",.<>/?"@.contains(c),
{
    reveal_strlit("!@#$%^&*()_+-=[]{}|;':\\\",.<>/?");
    let s = "!@#$%^&*()_+-=[]{}|;':\\\",.<>/?"@;
    assert(s.len() == 30);
    if is_password_special(c) {
        let i: int = if c == '!' { 0 } else if c == '@' { 1 } else if c == '#' { 2 } else if c == '$' {
            3
        } else if c == '%' { 4 } else if c == '^' { 5 } else if c == '&' { 6 } else if c == '*' {
            7
        } else if c == '(' { 8 } else if c == ')' { 9 } else if c == '_' { 10 } else if c == '+' {
            11
        } else if c == '-' { 12 } else if c == '=' { 13 } else if c == '[' { 14 } else if c == ']' {
            15
        } else if c == '{' { 16 } else if c == '}' { 17 } else if c == '|' { 18 } else if c == ';' {
            19
        } else if c == '\'' { 20 } else if c == ':' { 21 } else if c == '\\' { 22 } else if c == '"' {
            23
        } else if c == ',' { 24 } else if c == '.' { 25 } else if c == '<' { 26 } else if c == '>' {
            27
        } else if c == '/' { 28 } else { 29 };
        assert(s[i] == c);
    }
    if s.contains(c) {
        let i = choose|i: int| 0 <= i < s.len() && s[i] == c;
        assert(0 <= i < 30);
    }
}

/// A password that, once trimmed, has at least 8 characters, an uppercase
/// letter, a lowercase letter, an ASCII digit and any character of the
/// documented special set meets every rule.
pub proof fn complete_password_is_accepted(raw: Seq<char>, u: int, l: int, d: int, x: int)
    requires
        trim_seq(raw).len() >= 8,
        0 <= u < trim_seq(raw).len() && unicode_uppercase(trim_seq(raw)[u]),
        0 <= l < trim_seq(raw).len() && unicode_lowercase(trim_seq(raw)[l]),
        0 <= d < trim_seq(raw).len() && '0' <= trim_seq(raw)[d] <= '9',
        0 <= x < trim_seq(raw).len() && "!@#$%^&*()_+-=[]{}|;':\\\",.<>/?"@.contains(trim_seq(raw)[x]),
    ensures
        password_problem(raw) is None,
{
    let t = trim_seq(raw);
    special_characters_are_the_documented_set(t[x]);
    assert((|c: char| unicode_uppercase(c))(t[u]));
    assert((|c: char| unicode_lowercase(c))(t[l]));
    assert((|c: char| is_digit_char(c))(t[d]));
    assert((|c: char| is_password_special(c))(t[x]));
}

/// A password whose trimmed text holds no character of the documented
/// special set is refused, by one of the rules.
pub proof fn password_without_special_is_refused(raw: Seq<char>)
    requires
        forall|i: int|
            0 <= i < trim_seq(raw).len() ==> !"!@#$%^&*()_+-=[]{}|;':\\\",.<>/?"@.contains(
                #[trigger] trim_seq(raw)[i],
            ),
    ensures
        password_problem(raw) is Some,
{
    let t = trim_seq(raw);
    if any_char(t, |c: char| is_password_special(c)) {
        let i = choose|i: int| 0 <= i < t.len() && is_password_special(#[trigger] t[i]);
        special_characters_are_the_documented_set(t[i]);
    }
}

} // verus!
