//! The rules that the contact form's fields are held to.

use crate::app::{FormData, FormDataView};
use crate::text::{
    char_is_ascii_alphanumeric, char_is_ascii_digit, chars_of, is_ascii_alphanumeric,
    is_ascii_digit, is_blank, str_is_blank,
};
use vstd::prelude::*;

verus! {

/// The characters that may stand before the `@` of an address.
pub open spec fn is_local_char(c: char) -> bool {
    is_ascii_alphanumeric(c) || c == '.' || c == '_' || c == '%' || c == '+' || c == '-'
}

/// The characters that may stand after the `@` of an address.
pub open spec fn is_domain_char(c: char) -> bool {
    is_ascii_alphanumeric(c) || c == '.' || c == '-'
}

/// `s` is an address whose only `@` stands at `at` and whose last `.` stands
/// at `dot`: a non-empty local part of local characters, then a domain of
/// domain characters that holds a `.` followed by two characters or more.
pub open spec fn email_parts(s: Seq<char>, at: int, dot: int) -> bool {
    &&& 0 < at < dot < s.len()
    &&& s[at] == '@'
    &&& forall|i: int| 0 <= i < s.len() && i != at ==> #[trigger] s[i] != '@'
    &&& forall|i: int| 0 <= i < at ==> is_local_char(#[trigger] s[i])
    &&& forall|i: int| at < i < s.len() ==> is_domain_char(#[trigger] s[i])
    &&& s[dot] == '.'
    &&& forall|i: int| dot < i < s.len() ==> #[trigger] s[i] != '.'
    &&& s.len() - dot - 1 >= 2
}

/// Whether `s` is an acceptable e-mail address.
pub open spec fn valid_email(s: Seq<char>) -> bool {
    exists|at: int, dot: int| email_parts(s, at, dot)
}

/// The characters that a telephone number may hold.
pub open spec fn is_phone_char(c: char) -> bool {
    is_ascii_digit(c) || c == '+' || c == ' ' || c == '-' || c == '(' || c == ')' || c == '.'
}

/// How many of the characters of `s` are digits.
pub open spec fn count_digits(s: Seq<char>) -> nat
    decreases s.len(),
{
    if s.len() == 0 {
        0
    } else {
        count_digits(s.drop_last()) + if is_ascii_digit(s.last()) {
            1nat
        } else {
            0nat
        }
    }
}

/// Whether `s` is an acceptable telephone number: empty, or 8 to 15 digits
/// among nothing but telephone characters.
pub open spec fn valid_phone(s: Seq<char>) -> bool {
    s.len() == 0 || (8 <= count_digits(s) <= 15 && forall|i: int|
        0 <= i < s.len() ==> is_phone_char(#[trigger] s[i]))
}

fn char_is_local(c: char) -> (r: bool)
    ensures
        r == is_local_char(c),
{
    char_is_ascii_alphanumeric(c) || c == '.' || c == '_' || c == '%' || c == '+' || c == '-'
}

fn char_is_domain(c: char) -> (r: bool)
    ensures
        r == is_domain_char(c),
{
    char_is_ascii_alphanumeric(c) || c == '.' || c == '-'
}

fn char_is_phone(c: char) -> (r: bool)
    ensures
        r == is_phone_char(c),
{
    char_is_ascii_digit(c) || c == '+' || c == ' ' || c == '-' || c == '(' || c == ')' || c == '.'
}

/// A required field is filled in when its value is not blank.
pub fn validate_required(value: &str) -> (valid: bool)
    ensures
        valid == !is_blank(value@),
{
    !str_is_blank(value)
}

/// Checks an e-mail address. The value is taken as it stands: whitespace
/// around the address is not stripped and makes it unacceptable.
pub fn is_valid_email(email: &str) -> (valid: bool)
    ensures
        valid == valid_email(email@),
{
    let chars = chars_of(email);
    let n = chars.len();
    let ghost s = email@;
    // The local part: everything up to the first `@`.
    let mut at: usize = 0;
    while at < n && chars[at] != '@'
        invariant
            at <= n,
            n == chars.len(),
            chars@ == s,
            s == email@,
            forall|i: int| 0 <= i < at ==> is_local_char(#[trigger] s[i]) && s[i] != '@',
        decreases n - at,
    {
        if !char_is_local(chars[at]) {
            assert forall|a: int, d: int| !email_parts(s, a, d) by {
                if email_parts(s, a, d) {
                    assert(is_local_char(s[at as int]) || is_domain_char(s[at as int]));
                }
            }
            return false;
        }
        at += 1;
    }
    if at == n || at == 0 {
        assert forall|a: int, d: int| !email_parts(s, a, d) by {
            if email_parts(s, a, d) {
                assert(s[a] == '@');
            }
        }
        return false;
    }
    // The domain: everything after it.
    let mut last_dot: usize = at;
    let mut i: usize = at + 1;
    while i < n
        invariant
            0 < at < i <= n,
            n == chars.len(),
            chars@ == s,
            s == email@,
            s[at as int] == '@',
            at <= last_dot < i,
            last_dot > at ==> s[last_dot as int] == '.',
            forall|j: int| 0 <= j < at ==> is_local_char(#[trigger] s[j]) && s[j] != '@',
            forall|j: int| at < j < i ==> is_domain_char(#[trigger] s[j]),
            forall|j: int| last_dot < j < i ==> #[trigger] s[j] != '.',
        decreases n - i,
    {
        if !char_is_domain(chars[i]) {
            assert forall|a: int, d: int| !email_parts(s, a, d) by {
                if email_parts(s, a, d) {
                    assert(s[a] == '@');
                    assert(is_domain_char(s[i as int]));
                }
            }
            return false;
        }
        if chars[i] == '.' {
            last_dot = i;
        }
        i += 1;
    }
    if last_dot == at || n - last_dot - 1 < 2 {
        assert forall|a: int, d: int| !email_parts(s, a, d) by {
            if email_parts(s, a, d) {
                assert(s[a] == '@');
                assert(s[d] == '.');
            }
        }
        return false;
    }
    assert(email_parts(s, at as int, last_dot as int));
    true
}

/// Checks a telephone number. The field is optional, so the empty value is
/// acceptable; any other value is taken as it stands.
pub fn is_valid_phone(phone: &str) -> (valid: bool)
    ensures
        valid == valid_phone(phone@),
{
    let chars = chars_of(phone);
    let n = chars.len();
    if n == 0 {
        return true;
    }
    let ghost s = phone@;
    let mut digits: usize = 0;
    let mut i: usize = 0;
    while i < n
        invariant
            i <= n,
            n == chars.len(),
            chars@ == s,
            s == phone@,
            n > 0,
            digits == count_digits(s.take(i as int)),
            digits <= i,
            forall|j: int| 0 <= j < i ==> is_phone_char(#[trigger] s[j]),
        decreases n - i,
    {
        let c = chars[i];
        if !char_is_phone(c) {
            return false;
        }
        proof {
            assert(s.take(i + 1).drop_last() =~= s.take(i as int));
        }
        if char_is_ascii_digit(c) {
            digits += 1;
        }
        i += 1;
    }
    assert(s.take(n as int) =~= s);
    8 <= digits && digits <= 15
}

/// What keeps a contact form from being sent.
#[derive(Clone, Copy, Debug, PartialEq, Eq, Structural)]
pub enum FormError {
    StartupNameRequired,
    ContactNameRequired,
    EmailRequired,
    EmailFormat,
    PhoneFormat,
}

/// The message for a startup name that is missing.
pub const MSG_STARTUP_NAME_REQUIRED: &'static str = "Le nom de la startup est requis";

/// The message for a contact name that is missing.
pub const MSG_CONTACT_NAME_REQUIRED: &'static str = "Votre nom est requis";

/// The message for an e-mail address that is missing.
pub const MSG_EMAIL_REQUIRED: &'static str = "L'email est requis";

/// The message for an e-mail address that is not acceptable.
pub const MSG_EMAIL_FORMAT: &'static str = "Format d'email invalide";

/// The message for a telephone number that is not acceptable.
pub const MSG_PHONE_FORMAT: &'static str =
    "Format de téléphone invalide. Format attendu : +33 6 12 34 56 78 ou 06 12 34 56 78";

impl FormError {
    /// The message shown to the user for this error.
    pub open spec fn text(self) -> Seq<char> {
        match self {
            FormError::StartupNameRequired => MSG_STARTUP_NAME_REQUIRED@,
            FormError::ContactNameRequired => MSG_CONTACT_NAME_REQUIRED@,
            FormError::EmailRequired => MSG_EMAIL_REQUIRED@,
            FormError::EmailFormat => MSG_EMAIL_FORMAT@,
            FormError::PhoneFormat => MSG_PHONE_FORMAT@,
        }
    }

    /// The message shown to the user for this error.
    pub fn message(&self) -> (message: String)
        ensures
            message@ == self.text(),
    {
        match self {
            FormError::StartupNameRequired => MSG_STARTUP_NAME_REQUIRED.to_string(),
            FormError::ContactNameRequired => MSG_CONTACT_NAME_REQUIRED.to_string(),
            FormError::EmailRequired => MSG_EMAIL_REQUIRED.to_string(),
            FormError::EmailFormat => MSG_EMAIL_FORMAT.to_string(),
            FormError::PhoneFormat => MSG_PHONE_FORMAT.to_string(),
        }
    }
}

/// The first thing that keeps a form from being sent, the fields taken in
/// this order: the startup's name, the contact's name and the e-mail address
/// must not be blank, the address must be acceptable, and so must the
/// telephone number. The message is never looked at.
pub open spec fn first_error(form: FormDataView) -> Option<FormError> {
    if is_blank(form.startup_name) {
        Some(FormError::StartupNameRequired)
    } else if is_blank(form.contact_name) {
        Some(FormError::ContactNameRequired)
    } else if is_blank(form.contact_email) {
        Some(FormError::EmailRequired)
    } else if !valid_email(form.contact_email) {
        Some(FormError::EmailFormat)
    } else if !valid_phone(form.contact_phone) {
        Some(FormError::PhoneFormat)
    } else {
        None
    }
}

/// Checks a contact form: the first error that blocks it, or `None` where
/// it can be sent.
pub fn validate_form(form: &FormData) -> (error: Option<FormError>)
    ensures
        error == first_error(form@),
{
    if !validate_required(form.startup_name.as_str()) {
        Some(FormError::StartupNameRequired)
    } else if !validate_required(form.contact_name.as_str()) {
        Some(FormError::ContactNameRequired)
    } else if !validate_required(form.contact_email.as_str()) {
        Some(FormError::EmailRequired)
    } else if !is_valid_email(form.contact_email.as_str()) {
        Some(FormError::EmailFormat)
    } else if !is_valid_phone(form.contact_phone.as_str()) {
        Some(FormError::PhoneFormat)
    } else {
        None
    }
}

} // verus!
