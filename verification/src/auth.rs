//! Sign-in, sign-up, password and account forms: what each field's error
//! says, the form-encoded credentials body, and how server errors read.

use vstd::prelude::*;
use vstd::string::StringSliceAdditionalSpecFns;
use crate::play::{eq_ignore_ascii_case, eq_ignore_ascii_case_spec};
use crate::text::{
    contains_str, has_substring, join, lowercase, push_char, to_lower, trim_str, trimmed,
};

verus! {

/// A byte that form encoding keeps as is: ASCII letter or digit, `-`, `_`,
/// `.` or `~`.
pub open spec fn unreserved(b: u8) -> bool {
    (65 <= b <= 90) || (97 <= b <= 122) || (48 <= b <= 57) || b == 45 || b == 95 || b == 46 || b
        == 126
}

/// Upper-case hex digit of a nibble.
pub open spec fn hex_upper(n: int) -> char {
    if n < 10 {
        (48 + n) as char
    } else {
        (55 + n) as char
    }
}

/// How one byte is written in an `application/x-www-form-urlencoded` value.
pub open spec fn encode_byte(b: u8) -> Seq<char> {
    if unreserved(b) {
        seq![b as char]
    } else if b == 32 {
        seq!['+']
    } else {
        seq!['%', hex_upper(b as int / 16), hex_upper(b as int % 16)]
    }
}

/// A byte string, form-encoded.
pub open spec fn form_encode_bytes(bs: Seq<u8>) -> Seq<char>
    decreases bs.len(),
{
    if bs.len() == 0 {
        Seq::empty()
    } else {
        form_encode_bytes(bs.drop_last()) + encode_byte(bs.last())
    }
}

/// The `key=value` pieces of a form body.
pub open spec fn form_pairs(pairs: Seq<(&str, &str)>) -> Seq<Seq<char>> {
    pairs.map_values(
        |p: (&str, &str)| form_encode_bytes(p.0.spec_bytes()) + seq!['='] + form_encode_bytes(
            p.1.spec_bytes(),
        ),
    )
}

fn hex_char(n: u8) -> (c: char)
    requires
        n < 16,
    ensures
        c == hex_upper(n as int),
{
    if n < 10 {
        (48 + n) as char
    } else {
        (55 + n) as char
    }
}

fn push_encoded(out: &mut String, s: &str)
    ensures
        final(out)@ == old(out)@ + form_encode_bytes(s.spec_bytes()),
{
    let bytes = s.as_bytes();
    let ghost start = out@;
    for i in 0..bytes.len()
        invariant
            bytes@ == s.spec_bytes(),
            out@ == start + form_encode_bytes(bytes@.take(i as int)),
    {
        let b = bytes[i];
        let ghost before = out@;
        if (65 <= b && b <= 90) || (97 <= b && b <= 122) || (48 <= b && b <= 57) || b == 45 || b
            == 95 || b == 46 || b == 126 {
            push_char(out, b as char);
        } else if b == 32 {
            push_char(out, '+');
        } else {
            push_char(out, '%');
            push_char(out, hex_char(b / 16));
            push_char(out, hex_char(b % 16));
        }
        proof {
            assert(bytes@.take(i + 1).drop_last() =~= bytes@.take(i as int));
            assert(out@ =~= before + encode_byte(b));
        }
    }
    assert(bytes@.take(bytes@.len() as int) =~= bytes@);
}

/// `application/x-www-form-urlencoded` body of the key/value pairs: each
/// byte of keys and values percent-encoded except the unreserved ones, space
/// as `+`, pairs joined with `&`.
pub fn form_encode(pairs: &[(&str, &str)]) -> (r: String)
    ensures
        r@ == join(form_pairs(pairs@), "&"@),
{
    let mut out = String::new();
    let n = pairs.len();
    for i in 0..n
        invariant
            n == pairs@.len(),
            out@ == join(form_pairs(pairs@.take(i as int)), "&"@),
    {
        let ghost before = out@;
        let ghost prev = form_pairs(pairs@.take(i as int));
        if i > 0 {
            out.append("&");
        }
        let (k, v) = pairs[i];
        let ghost mid = out@;
        push_encoded(&mut out, k);
        push_char(&mut out, '=');
        push_encoded(&mut out, v);
        proof {
            let piece = form_encode_bytes(k.spec_bytes()) + seq!['='] + form_encode_bytes(v.spec_bytes());
            let now = form_pairs(pairs@.take(i + 1));
            assert(now =~= prev.push(piece));
            assert(now.drop_last() =~= prev);
            assert(out@ =~= mid + piece);
            if i == 0 {
                assert(out@ =~= piece);
            } else {
                assert(out@ =~= before + "&"@ + piece);
            }
        }
    }
    assert(pairs@.take(n as int) =~= pairs@);
    out
}

/// Whether a string holds `@` and `.` (the forms' plausibility check for an
/// email address).
pub open spec fn looks_like_email(e: Seq<char>) -> bool {
    has_substring(e, "@"@) && has_substring(e, "."@)
}

fn email_like(e: &str) -> (r: bool)
    ensures
        r == looks_like_email(e@),
{
    contains_str(e, "@") && contains_str(e, ".")
}

/// The email field's error ("" when valid).
pub fn email_error(email: &str) -> (r: &'static str)
    ensures
        r@ == if email@.len() == 0 {
            "Email address is required."@
        } else if !looks_like_email(email@) {
            "Please enter a valid email address."@
        } else {
            ""@
        },
{
    if email.is_empty() {
        "Email address is required."
    } else if !email_like(email) {
        "Please enter a valid email address."
    } else {
        ""
    }
}

/// The sign-in password field's error ("" when filled in).
pub fn login_password_error(password: &str) -> (r: &'static str)
    ensures
        r@ == if password@.len() == 0 {
            "Password is required."@
        } else {
            ""@
        },
{
    if password.is_empty() {
        "Password is required."
    } else {
        ""
    }
}

/// The sign-up name field's error: required, at least 2 bytes once trimmed.
pub fn name_error(name: &str) -> (r: &'static str)
    ensures
        r@ == if trimmed(name@).len() == 0 {
            "Full Name is required."@
        } else if encode_utf8_len(trimmed(name@)) < 2 {
            "Full Name must be at least 2 characters."@
        } else {
            ""@
        },
{
    let t = trim_str(name);
    if t.is_empty() {
        "Full Name is required."
    } else if t.as_bytes().len() < 2 {
        "Full Name must be at least 2 characters."
    } else {
        ""
    }
}

/// UTF-8 length in bytes of a string.
pub open spec fn encode_utf8_len(s: Seq<char>) -> int {
    vstd::utf8::encode_utf8(s).len() as int
}

/// The sign-up username field's error: required, at least 3 bytes once
/// trimmed.
pub fn username_error(username: &str) -> (r: &'static str)
    ensures
        r@ == if trimmed(username@).len() == 0 {
            "Username is required."@
        } else if encode_utf8_len(trimmed(username@)) < 3 {
            "Username must be at least 3 characters."@
        } else {
            ""@
        },
{
    let t = trim_str(username);
    if t.is_empty() {
        "Username is required."
    } else if t.as_bytes().len() < 3 {
        "Username must be at least 3 characters."
    } else {
        ""
    }
}

/// Whether the username is long enough to be checked for uniqueness.
pub fn username_checkable(username: &str) -> (r: bool)
    ensures
        r == (encode_utf8_len(trimmed(username@)) >= 3),
{
    trim_str(username).as_bytes().len() >= 3
}

/// Whether the email is plausible enough to be checked for uniqueness.
pub fn email_checkable(email: &str) -> (r: bool)
    ensures
        r == looks_like_email(email@),
{
    email_like(email)
}

/// The sign-up password field's error: required, at least 8 bytes.
pub fn signup_password_error(password: &str) -> (r: &'static str)
    ensures
        r@ == if password@.len() == 0 {
            "Password is required."@
        } else if encode_utf8_len(password@) < 8 {
            "Password must be at least 8 characters."@
        } else {
            ""@
        },
{
    if password.is_empty() {
        "Password is required."
    } else if password.as_bytes().len() < 8 {
        "Password must be at least 8 characters."
    } else {
        ""
    }
}

/// The sign-up confirmation field's error: required, equal to the password.
pub fn confirm_error(confirm: &str, password: &str) -> (r: &'static str)
    ensures
        r@ == if confirm@.len() == 0 {
            "Please re-enter your password."@
        } else if confirm@ != password@ {
            "Passwords do not match."@
        } else {
            ""@
        },
{
    if confirm.is_empty() {
        "Please re-enter your password."
    } else if !crate::text::same_str(confirm, password) {
        "Passwords do not match."
    } else {
        ""
    }
}

/// The state of the sign-up form.
#[derive(Debug, PartialEq, Eq)]
pub struct SignupForm {
    pub name: String,
    pub username: String,
    pub email: String,
    pub password: String,
    pub confirm: String,
    pub username_unique: bool,
    pub email_unique: bool,
    pub checking_username: bool,
    pub checking_email: bool,
}

/// The field errors of the sign-up form, "" for a valid field.
#[derive(Debug, PartialEq, Eq)]
pub struct SignupErrors {
    pub name: &'static str,
    pub username: &'static str,
    pub email: &'static str,
    pub password: &'static str,
    pub confirm: &'static str,
}

impl SignupForm {
    /// Every field's error.
    pub fn errors(&self) -> (r: SignupErrors)
        ensures
            r.name@ == if trimmed(self.name@).len() == 0 {
                "Full Name is required."@
            } else if encode_utf8_len(trimmed(self.name@)) < 2 {
                "Full Name must be at least 2 characters."@
            } else {
                ""@
            },
            r.username@ == if trimmed(self.username@).len() == 0 {
                "Username is required."@
            } else if encode_utf8_len(trimmed(self.username@)) < 3 {
                "Username must be at least 3 characters."@
            } else {
                ""@
            },
            r.email@ == if self.email@.len() == 0 {
                "Email address is required."@
            } else if !looks_like_email(self.email@) {
                "Please enter a valid email address."@
            } else {
                ""@
            },
            r.password@ == if self.password@.len() == 0 {
                "Password is required."@
            } else if encode_utf8_len(self.password@) < 8 {
                "Password must be at least 8 characters."@
            } else {
                ""@
            },
            r.confirm@ == if self.confirm@.len() == 0 {
                "Please re-enter your password."@
            } else if self.confirm@ != self.password@ {
                "Passwords do not match."@
            } else {
                ""@
            },
    {
        SignupErrors {
            name: name_error(self.name.as_str()),
            username: username_error(self.username.as_str()),
            email: email_error(self.email.as_str()),
            password: signup_password_error(self.password.as_str()),
            confirm: confirm_error(self.confirm.as_str(), self.password.as_str()),
        }
    }

    /// Whether submitting is blocked: some field is invalid, the username or
    /// email is taken, or a uniqueness check is still running.
    pub fn is_invalid(&self) -> (r: bool)
        ensures
            ({
                let e = (
                    if trimmed(self.name@).len() == 0 || encode_utf8_len(trimmed(self.name@)) < 2 { 1int } else { 0 },
                    if trimmed(self.username@).len() == 0 || encode_utf8_len(trimmed(self.username@)) < 3 { 1int } else { 0 },
                );
                r == (e.0 == 1 || e.1 == 1 || self.email@.len() == 0 || !looks_like_email(self.email@)
                    || self.password@.len() == 0 || encode_utf8_len(self.password@) < 8
                    || self.confirm@.len() == 0 || self.confirm@ != self.password@
                    || !self.username_unique || !self.email_unique || self.checking_username
                    || self.checking_email)
            }),
    {
        let e = self.errors();
        proof {
            reveal_strlit("");
            reveal_strlit("Full Name is required.");
            reveal_strlit("Full Name must be at least 2 characters.");
            reveal_strlit("Username is required.");
            reveal_strlit("Username must be at least 3 characters.");
            reveal_strlit("Email address is required.");
            reveal_strlit("Please enter a valid email address.");
            reveal_strlit("Password is required.");
            reveal_strlit("Password must be at least 8 characters.");
            reveal_strlit("Please re-enter your password.");
            reveal_strlit("Passwords do not match.");
        }
        !e.name.is_empty() || !e.username.is_empty() || !e.email.is_empty()
            || !e.password.is_empty() || !e.confirm.is_empty() || !self.username_unique
            || !self.email_unique || self.checking_username || self.checking_email
    }
}


/// What the JSON text `text` holds under the string field `key` of its top
/// level object, as `serde_json` parses it (`None` when the text is not JSON,
/// not an object, or the field is missing or not a string).
pub uninterp spec fn json_str_field_of(text: Seq<char>, key: Seq<char>) -> Option<Seq<char>>;

/// `serde_json::from_str` of the text, then the string at `key` of the
/// resulting object.
#[verifier::external_body]
fn json_str_field(text: &str, key: &str) -> (r: Option<String>)
    ensures
        match r {
            Some(v) => json_str_field_of(text@, key@) == Some(v@),
            None => json_str_field_of(text@, key@) is None,
        },
{
    match serde_json::from_str::<serde_json::Value>(text) {
        Ok(v) => match v.get(key) {
            Some(serde_json::Value::String(m)) => Some(m.clone()),
            _ => None,
        },
        Err(_) => None,
    }
}

/// The human-readable message of a server error: the `message` field when
/// the error text is a JSON object carrying one, else the text itself.
pub fn trpc_err_msg(e: String) -> (r: String)
    ensures
        r@ == match json_str_field_of(e@, "message"@) {
            Some(m) => m,
            None => e@,
        },
{
    let m = json_str_field(e.as_str(), "message");
    err_msg_from(e, m)
}

/// A server error's message from its text and the `message` field that
/// text carries as JSON, if any: the field, else the text.
pub fn err_msg_from(e: String, message: Option<String>) -> (r: String)
    ensures
        r@ == match message {
            Some(m) => m@,
            None => e@,
        },
{
    match message {
        Some(m) => m,
        None => e,
    }
}

/// Whether the sign-in callback answered with an error: its JSON reply's
/// `url` carries `error=`.
pub fn credentials_rejected(reply: &str) -> (r: bool)
    ensures
        r == (json_str_field_of(reply@, "url"@) matches Some(u) && has_substring(u, "error="@)),
{
    url_rejected(json_str_field(reply, "url"))
}

/// Whether the callback's `url` (when it sent one) reports an error.
pub fn url_rejected(url: Option<String>) -> (r: bool)
    ensures
        r == (url matches Some(u) && has_substring(u@, "error="@)),
{
    match url {
        Some(u) => contains_str(u.as_str(), "error="),
        None => false,
    }
}

/// The router's fallthrough for procedures that have not landed yet.
pub fn proc_missing(msg: &str) -> (r: bool)
    ensures
        r == has_substring(msg@, "procedure not implemented"@),
{
    contains_str(msg, "procedure not implemented")
}

/// Whether a `user.resetPassword` error means the token itself is dead
/// (expired, or an invalid or used token), compared in lowercase.
pub fn is_token_error(e: &str) -> (r: bool)
    ensures
        ({
            let l = lowercase(e@);
            r == (has_substring(l, "expired"@) || (has_substring(l, "token"@) && (has_substring(
                l,
                "invalid"@,
            ) || has_substring(l, "used"@))))
        }),
{
    let l = to_lower(e);
    token_dead(l.as_str())
}

/// Whether a lowercased reset error names a dead token: `expired`, or
/// `token` with `invalid` or `used`.
pub fn token_dead(l: &str) -> (r: bool)
    ensures
        r == (has_substring(l@, "expired"@) || (has_substring(l@, "token"@) && (has_substring(
            l@,
            "invalid"@,
        ) || has_substring(l@, "used"@)))),
{
    contains_str(l, "expired") || (contains_str(l, "token") && (contains_str(l, "invalid")
        || contains_str(l, "used")))
}

/// The reset-request form: the address sent (trimmed, lowercased), or the
/// error when it holds no `@`.
pub fn reset_request_email(email: &str) -> (r: Result<String, &'static str>)
    ensures
        ({
            let e = lowercase(trimmed(email@));
            match r {
                Ok(v) => v@ == e && has_substring(e, "@"@),
                Err(m) => !has_substring(e, "@"@) && m@ == "Enter the email you signed up with."@,
            }
        }),
{
    reset_email_from(to_lower(trim_str(email)))
}

/// The reset-request decision on the trimmed, lowercased address: sent
/// when it holds an `@`.
pub fn reset_email_from(e: String) -> (r: Result<String, &'static str>)
    ensures
        match r {
            Ok(v) => v == e && has_substring(e@, "@"@),
            Err(m) => !has_substring(e@, "@"@) && m@ == "Enter the email you signed up with."@,
        },
{
    if !contains_str(e.as_str(), "@") {
        return Err("Enter the email you signed up with.");
    }
    Ok(e)
}

/// The new-password form of a reset: at least 8 bytes, confirmed.
pub fn reset_password_check(password: &str, confirm: &str) -> (r: Result<(), &'static str>)
    ensures
        match r {
            Ok(()) => encode_utf8_len(password@) >= 8 && password@ == confirm@,
            Err(m) => if encode_utf8_len(password@) < 8 {
                m@ == "Password must be at least 8 characters."@
            } else {
                password@ != confirm@ && m@ == "Passwords don't match."@
            },
        },
{
    if password.as_bytes().len() < 8 {
        return Err("Password must be at least 8 characters.");
    }
    if !crate::text::same_str(password, confirm) {
        return Err("Passwords don't match.");
    }
    Ok(())
}

/// Whether the reset page shows the email-request form: no token in the
/// address, or the visitor asked for a new link.
pub fn in_request_mode(has_token: bool, request_mode: bool) -> (r: bool)
    ensures
        r == (!has_token || request_mode),
{
    !has_token || request_mode
}

/// The change-password form's field errors (new, confirmation); "" where
/// the field is fine.
pub fn change_password_errors(new: &str, confirm: &str) -> (r: (&'static str, &'static str))
    ensures
        r.0@ == if encode_utf8_len(new@) < 8 {
            "New password must be at least 8 characters."@
        } else {
            ""@
        },
        r.1@ == if confirm@ != new@ {
            "Passwords don't match."@
        } else {
            ""@
        },
{
    let a = if new.as_bytes().len() < 8 {
        "New password must be at least 8 characters."
    } else {
        ""
    };
    let b = if !crate::text::same_str(confirm, new) {
        "Passwords don't match."
    } else {
        ""
    };
    (a, b)
}

/// How a failed password change reads.
#[derive(Debug, PartialEq, Eq)]
pub enum PasswordChangeError {
    /// The procedure is not available yet: the form gives way to a notice.
    Unavailable,
    /// The account has no password yet: the message plus the reset hint.
    NoPassword(String),
    /// Anything else, shown as is.
    Other(String),
}

/// Classifies a password-change error message.
pub fn classify_password_error(msg: String) -> (r: PasswordChangeError)
    ensures
        if has_substring(msg@, "procedure not implemented"@) {
            r == PasswordChangeError::Unavailable
        } else if has_substring(lowercase(msg@), "no password"@) {
            r matches PasswordChangeError::NoPassword(t) && t@ == msg@
                + " Use “Forgot password” on the sign-in page to set one via an email reset instead."@
        } else {
            r == PasswordChangeError::Other(msg)
        },
{
    let lowered = to_lower(msg.as_str());
    classify_lowered(msg, lowered.as_str())
}

/// Classifies a password-change error from its text and that text
/// lowercased.
pub fn classify_lowered(msg: String, lowered: &str) -> (r: PasswordChangeError)
    ensures
        if has_substring(msg@, "procedure not implemented"@) {
            r == PasswordChangeError::Unavailable
        } else if has_substring(lowered@, "no password"@) {
            r matches PasswordChangeError::NoPassword(t) && t@ == msg@
                + " Use “Forgot password” on the sign-in page to set one via an email reset instead."@
        } else {
            r == PasswordChangeError::Other(msg)
        },
{
    if proc_missing(msg.as_str()) {
        PasswordChangeError::Unavailable
    } else if contains_str(lowered, "no password") {
        let mut t = msg;
        t.append(" Use “Forgot password” on the sign-in page to set one via an email reset instead.");
        PasswordChangeError::NoPassword(t)
    } else {
        PasswordChangeError::Other(msg)
    }
}

/// The display-name form: the trimmed name, or the error for an empty one.
pub fn display_name_input(name: &str) -> (r: Result<String, &'static str>)
    ensures
        match r {
            Ok(n) => n@ == trimmed(name@) && n@.len() > 0,
            Err(m) => trimmed(name@).len() == 0 && m@ == "Display name can't be empty."@,
        },
{
    let t = trim_str(name);
    if t.is_empty() {
        return Err("Display name can't be empty.");
    }
    Ok(String::from_str(t))
}

/// The delete-account button arms once the typed confirmation matches the
/// account's email, both trimmed, ignoring ASCII case.
pub fn delete_ready(typed: &str, email: &str) -> (r: bool)
    ensures
        r == eq_ignore_ascii_case_spec(trimmed(typed@), trimmed(email@)),
{
    eq_ignore_ascii_case(trim_str(typed), trim_str(email))
}

/// The cancel-subscription confirmation text, with the renewal date when
/// known.
pub fn cancel_confirm_body(renew_label: Option<&str>) -> (r: String)
    ensures
        r@ == match renew_label {
            Some(d) => "Your Pro access stays active until "@ + d@
                + ", then you'll move to the Free plan. No further charges."@,
            None => "Your Pro access stays active until the end of the current billing period, then you'll move to the Free plan."@,
        },
{
    match renew_label {
        Some(d) => {
            let mut s = String::from_str("Your Pro access stays active until ");
            s.append(d);
            s.append(", then you'll move to the Free plan. No further charges.");
            s
        },
        None => String::from_str(
            "Your Pro access stays active until the end of the current billing period, then you'll move to the Free plan.",
        ),
    }
}


/// The panels of the profile page.
#[derive(Debug, Clone, Copy, PartialEq, Eq, Structural)]
pub enum ProfilePanel {
    Identity,
    Security,
    Subscription,
    Preferences,
    Danger,
}

impl ProfilePanel {
    /// Panel caption.
    pub fn title(self) -> (r: &'static str)
        ensures
            r@ == match self {
                ProfilePanel::Identity => "Identity"@,
                ProfilePanel::Security => "Security"@,
                ProfilePanel::Subscription => "Subscription"@,
                ProfilePanel::Preferences => "Preferences"@,
                ProfilePanel::Danger => "Danger Zone"@,
            },
    {
        match self {
            ProfilePanel::Identity => "Identity",
            ProfilePanel::Security => "Security",
            ProfilePanel::Subscription => "Subscription",
            ProfilePanel::Preferences => "Preferences",
            ProfilePanel::Danger => "Danger Zone",
        }
    }
}


/// What the sign-in page does next.
#[derive(Debug, PartialEq, Eq)]
pub enum SignInAction {
    /// Fetch the CSRF token (which also sets its cookie).
    FetchCsrf,
    /// POST the form body to the callback address.
    Post { url: &'static str, body: String },
    /// Signed in: refresh the session and go back where the guard came from.
    Finish,
    /// Stop; the error (if any) is on the form.
    Stop,
}

/// The sign-in request in flight: whether it is the developer bypass, the
/// spinner, and the error under the form.
#[derive(Debug, PartialEq, Eq)]
pub struct SignIn {
    pub dev: bool,
    pub loading: bool,
    pub error: String,
}

/// One `key=value` piece of a form body.
pub open spec fn form_piece(k: Seq<char>, v: Seq<char>) -> Seq<char> {
    form_encode_bytes(vstd::utf8::encode_utf8(k)) + seq!['='] + form_encode_bytes(vstd::utf8::encode_utf8(v))
}

/// The sign-in form is blocked: an email or password error shows.
pub fn login_invalid(email: &str, password: &str) -> (r: bool)
    ensures
        r == (email@.len() == 0 || !looks_like_email(email@) || password@.len() == 0),
{
    let e = email_error(email);
    let p = login_password_error(password);
    proof {
        reveal_strlit("");
        reveal_strlit("Email address is required.");
        reveal_strlit("Please enter a valid email address.");
        reveal_strlit("Password is required.");
    }
    !e.is_empty() || !p.is_empty()
}

impl SignIn {
    /// Submit (or the developer bypass) was pressed on a valid form.
    pub fn start(dev: bool) -> (r: (SignIn, SignInAction))
        ensures
            r.0.dev == dev && r.0.loading && r.0.error@.len() == 0,
            r.1 == SignInAction::FetchCsrf,
    {
        (SignIn { dev, loading: true, error: String::new() }, SignInAction::FetchCsrf)
    }

    /// The CSRF fetch came back: post the credentials (the bypass sends an
    /// empty email and no password), or show why the token is missing.
    pub fn on_csrf(&mut self, csrf: Result<String, String>, email: &str, password: &str) -> (a: SignInAction)
        ensures
            final(self).dev == old(self).dev,
            match csrf {
                Ok(t) => {
                    &&& *final(self) == *old(self)
                    &&& a matches SignInAction::Post { url, body } && if old(self).dev {
                        url@ == "/api/auth/callback/local-dev"@ && body@ == join(
                            seq![
                                form_piece("csrfToken"@, t@),
                                form_piece("email"@, ""@),
                                form_piece("callbackUrl"@, "/"@),
                                form_piece("json"@, "true"@),
                            ],
                            "&"@,
                        )
                    } else {
                        url@ == "/api/auth/callback/credentials"@ && body@ == join(
                            seq![
                                form_piece("csrfToken"@, t@),
                                form_piece("email"@, email@),
                                form_piece("password"@, password@),
                                form_piece("callbackUrl"@, "/"@),
                                form_piece("json"@, "true"@),
                            ],
                            "&"@,
                        )
                    }
                },
                Err(e) => {
                    &&& a == SignInAction::Stop
                    &&& !final(self).loading
                    &&& final(self).error@ == "Failed to fetch CSRF token: "@ + e@
                },
            },
    {
        match csrf {
            Ok(t) => {
                if self.dev {
                    let pairs = [("csrfToken", t.as_str()), ("email", ""), ("callbackUrl", "/"), ("json", "true")];
                    let body = form_encode(&pairs);
                    assert(form_pairs(pairs@) =~= seq![
                        form_piece("csrfToken"@, t@),
                        form_piece("email"@, ""@),
                        form_piece("callbackUrl"@, "/"@),
                        form_piece("json"@, "true"@),
                    ]);
                    SignInAction::Post { url: "/api/auth/callback/local-dev", body }
                } else {
                    let pairs = [
                        ("csrfToken", t.as_str()),
                        ("email", email),
                        ("password", password),
                        ("callbackUrl", "/"),
                        ("json", "true"),
                    ];
                    let body = form_encode(&pairs);
                    assert(form_pairs(pairs@) =~= seq![
                        form_piece("csrfToken"@, t@),
                        form_piece("email"@, email@),
                        form_piece("password"@, password@),
                        form_piece("callbackUrl"@, "/"@),
                        form_piece("json"@, "true"@),
                    ]);
                    SignInAction::Post { url: "/api/auth/callback/credentials", body }
                }
            },
            Err(e) => {
                let mut m = String::from_str("Failed to fetch CSRF token: ");
                m.append(e.as_str());
                self.error = m;
                self.loading = false;
                SignInAction::Stop
            },
        }
    }

    /// The callback answered: a transport error or a rejected sign-in
    /// (its JSON `url` carries `error=`) stops with a message; anything else
    /// signs in.
    pub fn on_reply(&mut self, reply: Result<String, String>) -> (a: SignInAction)
        ensures
            final(self).dev == old(self).dev,
            match reply {
                Err(e) => a == SignInAction::Stop && !final(self).loading && final(self).error == e,
                Ok(text) => if json_str_field_of(text@, "url"@) matches Some(u) && has_substring(u, "error="@) {
                    &&& a == SignInAction::Stop
                    &&& !final(self).loading
                    &&& final(self).error@ == if old(self).dev {
                        "Dev bypass unavailable (production build?)."@
                    } else {
                        "Invalid email or password."@
                    }
                } else {
                    a == SignInAction::Finish && *final(self) == *old(self)
                },
            },
    {
        match reply {
            Err(e) => {
                self.error = e;
                self.loading = false;
                SignInAction::Stop
            },
            Ok(text) => {
                if credentials_rejected(text.as_str()) {
                    self.error = if self.dev {
                        String::from_str("Dev bypass unavailable (production build?).")
                    } else {
                        String::from_str("Invalid email or password.")
                    };
                    self.loading = false;
                    SignInAction::Stop
                } else {
                    SignInAction::Finish
                }
            },
        }
    }
}


/// A field hint under the sign-up form: its CSS class and its text.
pub type Hint = Option<(&'static str, &'static str)>;

/// The hint shows text `t` styled `c`.
pub open spec fn hint_is(r: Hint, c: Seq<char>, t: Seq<char>) -> bool {
    r matches Some(h) && h.0@ == c && h.1@ == t
}

/// The hint under the username field once it was touched: its error, else
/// the availability check's state (only for a long enough name).
pub fn username_hint(f: &SignupForm, touched: bool) -> (r: Hint)
    ensures
        !touched ==> r is None,
        ({
            let long = encode_utf8_len(trimmed(f.username@)) >= 3;
            let err = if trimmed(f.username@).len() == 0 {
                "Username is required."@
            } else if !long {
                "Username must be at least 3 characters."@
            } else {
                ""@
            };
            &&& (touched && err.len() > 0 ==> hint_is(r, "error auth-hint"@, err))
            &&& (touched && err.len() == 0 && f.checking_username ==> hint_is(r, "muted auth-hint"@, "Checking availability..."@))
            &&& (touched && err.len() == 0 && !f.checking_username && !f.username_unique ==> hint_is(r, "error auth-hint"@, "Username is already taken."@))
            &&& (touched && err.len() == 0 && !f.checking_username && f.username_unique ==> hint_is(r, "success auth-hint"@, "Username is available!"@))
        }),
{
    if !touched {
        return None;
    }
    let e = username_error(f.username.as_str());
    proof {
        reveal_strlit("");
        reveal_strlit("Username is required.");
        reveal_strlit("Username must be at least 3 characters.");
    }
    if !e.is_empty() {
        Some(("error auth-hint", e))
    } else if f.checking_username {
        Some(("muted auth-hint", "Checking availability..."))
    } else if username_checkable(f.username.as_str()) {
        if f.username_unique {
            Some(("success auth-hint", "Username is available!"))
        } else {
            Some(("error auth-hint", "Username is already taken."))
        }
    } else {
        None
    }
}

/// The hint under the email field once it was touched: its error, else the
/// availability check's state (only for a plausible address).
pub fn email_hint(f: &SignupForm, touched: bool) -> (r: Hint)
    ensures
        !touched ==> r is None,
        ({
            let err = if f.email@.len() == 0 {
                "Email address is required."@
            } else if !looks_like_email(f.email@) {
                "Please enter a valid email address."@
            } else {
                ""@
            };
            &&& (touched && err.len() > 0 ==> hint_is(r, "error auth-hint"@, err))
            &&& (touched && err.len() == 0 && f.checking_email ==> hint_is(r, "muted auth-hint"@, "Checking availability..."@))
            &&& (touched && err.len() == 0 && !f.checking_email && !f.email_unique ==> hint_is(r, "error auth-hint"@, "Email is already registered."@))
            &&& (touched && err.len() == 0 && !f.checking_email && f.email_unique ==> hint_is(r, "success auth-hint"@, "Email is available!"@))
        }),
{
    if !touched {
        return None;
    }
    let e = email_error(f.email.as_str());
    proof {
        reveal_strlit("");
        reveal_strlit("Email address is required.");
        reveal_strlit("Please enter a valid email address.");
    }
    if !e.is_empty() {
        Some(("error auth-hint", e))
    } else if f.checking_email {
        Some(("muted auth-hint", "Checking availability..."))
    } else if f.email_unique {
        Some(("success auth-hint", "Email is available!"))
    } else {
        Some(("error auth-hint", "Email is already registered."))
    }
}

/// Whether the name or address is free, from the uniqueness check's reply
/// (its `unique` flag when present): a failed or unclear check counts as
/// free, so the form never blocks on it.
pub fn unique_from(reply: Result<Option<bool>, String>) -> (r: bool)
    ensures
        r == match reply {
            Ok(Some(b)) => b,
            _ => true,
        },
{
    match reply {
        Ok(Some(b)) => b,
        _ => true,
    }
}

/// The sign-up reply, as its `success` flag and `message` when present:
/// success clears the form; otherwise the server's message shows, or a
/// generic one when it sent none.
pub fn signup_outcome(reply: Result<(Option<bool>, Option<String>), String>) -> (r: Result<(), String>)
    ensures
        match reply {
            Err(e) => r == Err::<(), String>(e),
            Ok((Some(true), _)) => r is Ok,
            Ok((_, msg)) => r matches Err(m) && m@ == match msg {
                Some(x) => if x@.len() > 0 {
                    x@
                } else {
                    "Something went wrong — please try again."@
                },
                None => "Something went wrong — please try again."@,
            },
        },
{
    match reply {
        Err(e) => Err(e),
        Ok((success, msg)) => {
            if success == Some(true) {
                return Ok(());
            }
            match msg {
                Some(x) => if x.as_str().is_empty() {
                    Err(String::from_str("Something went wrong — please try again."))
                } else {
                    Err(x)
                },
                None => Err(String::from_str("Something went wrong — please try again.")),
            }
        },
    }
}


/// What the reset page shows.
#[derive(Debug, PartialEq, Eq)]
pub enum ResetView {
    /// The request or the new password went through; the confirmation text.
    Done(&'static str),
    /// The link's token is dead; offer a new link.
    Expired,
    /// The new-password form.
    NewPassword,
    /// The email form that requests a link.
    RequestLink,
}

/// The reset page's body from its state: done first, then a dead token
/// (outside the request form), then the form of the current mode.
pub fn reset_view(has_token: bool, request_mode: bool, done: bool, expired: bool) -> (r: ResetView)
    ensures
        ({
            let req = !has_token || request_mode;
            if done {
                r matches ResetView::Done(m) && m@ == if req {
                    "If that address has an account, a reset link is on its way. It expires in 1 hour."@
                } else {
                    "Password updated. Sign in with your new password."@
                }
            } else if expired && !req {
                r == ResetView::Expired
            } else if !req {
                r == ResetView::NewPassword
            } else {
                r == ResetView::RequestLink
            }
        }),
{
    let req = in_request_mode(has_token, request_mode);
    if done {
        ResetView::Done(
            if req {
                "If that address has an account, a reset link is on its way. It expires in 1 hour."
            } else {
                "Password updated. Sign in with your new password."
            },
        )
    } else if expired && !req {
        ResetView::Expired
    } else if !req {
        ResetView::NewPassword
    } else {
        ResetView::RequestLink
    }
}

/// How a reset request ended.
#[derive(Debug, PartialEq, Eq)]
pub enum ResetReply {
    Done,
    /// The token is dead (only when setting the password).
    Expired,
    Failed(String),
}

/// Classifies the reply to a reset request (`setting` for the new-password
/// form, else the link request): success, a dead token, or the error shown.
pub fn reset_reply(reply: Result<(), String>, setting: bool) -> (r: ResetReply)
    ensures
        match reply {
            Ok(()) => r == ResetReply::Done,
            Err(e) => {
                let l = lowercase(e@);
                let dead = has_substring(l, "expired"@) || (has_substring(l, "token"@) && (has_substring(
                    l,
                    "invalid"@,
                ) || has_substring(l, "used"@)));
                if setting && dead {
                    r == ResetReply::Expired
                } else {
                    r == ResetReply::Failed(e)
                }
            },
        },
{
    match reply {
        Ok(()) => ResetReply::Done,
        Err(e) => if setting && is_token_error(e.as_str()) {
            ResetReply::Expired
        } else {
            ResetReply::Failed(e)
        },
    }
}


/// A toast the profile page raises after a request.
#[derive(Debug, PartialEq, Eq)]
pub enum Notice {
    Success(&'static str),
    /// The procedure has not landed on the server yet.
    Warning(&'static str),
    Error(String),
}

/// The toast after a profile request: `done` on success, `unavailable`
/// when the server lacks the procedure, else the error's message.
pub fn notice_for(reply: Result<(), String>, done: &'static str, unavailable: &'static str) -> (r: Notice)
    ensures
        match reply {
            Ok(()) => r == Notice::Success(done),
            Err(e) => {
                let m = match json_str_field_of(e@, "message"@) {
                    Some(x) => x,
                    None => e@,
                };
                if has_substring(m, "procedure not implemented"@) {
                    r == Notice::Warning(unavailable)
                } else {
                    r matches Notice::Error(t) && t@ == m
                }
            },
        },
{
    match reply {
        Ok(()) => Notice::Success(done),
        Err(e) => {
            let m = trpc_err_msg(e);
            if proc_missing(m.as_str()) {
                Notice::Warning(unavailable)
            } else {
                Notice::Error(m)
            }
        },
    }
}

/// The account's role as the Identity panel names it.
pub fn role_label(is_admin: bool) -> (r: &'static str)
    ensures
        r@ == if is_admin {
            "Admin"@
        } else {
            "Player"@
        },
{
    if is_admin {
        "Admin"
    } else {
        "Player"
    }
}

/// The email status chip.
pub fn verified_label(verified: bool) -> (r: &'static str)
    ensures
        r@ == if verified {
            "Verified"@
        } else {
            "Unverified"@
        },
{
    if verified {
        "Verified"
    } else {
        "Unverified"
    }
}

/// The Generations figure of a Pro plan: used, out of no limit.
pub fn quota_text(used: i64) -> (r: String)
    ensures
        r@ == crate::text::dec(used as int) + " / ∞"@,
{
    let mut s = String::new();
    crate::text::push_dec(&mut s, used);
    s.append(" / ∞");
    s
}

} // verus!
