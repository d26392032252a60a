use mini_audit::app::FormData;
use mini_audit::validation::{
    is_valid_email, is_valid_phone, validate_form, validate_required, FormError,
};

fn form(startup: &str, name: &str, email: &str, phone: &str) -> FormData {
    FormData {
        startup_name: startup.to_string(),
        contact_name: name.to_string(),
        contact_email: email.to_string(),
        contact_phone: phone.to_string(),
        message: String::new(),
    }
}

#[test]
fn email_with_local_part_and_dotted_domain_is_valid() {
    assert!(is_valid_email("a@b.com"));
}

#[test]
fn email_without_dot_in_domain_is_invalid() {
    assert!(!is_valid_email("a@b"));
}

#[test]
fn email_with_empty_local_part_is_invalid() {
    assert!(!is_valid_email("@b.com"));
}

#[test]
fn email_with_one_character_after_last_dot_is_invalid() {
    assert!(!is_valid_email("a@b.c"));
}

#[test]
fn phone_with_ten_digits_and_spaces_is_valid() {
    assert!(is_valid_phone("06 12 34 56 78"));
}

#[test]
fn phone_made_of_letters_is_invalid() {
    assert!(!is_valid_phone("abc"));
}

#[test]
fn empty_phone_is_valid() {
    assert!(is_valid_phone(""));
}

#[test]
fn required_value_must_hold_more_than_whitespace() {
    assert!(validate_required("x"));
    assert!(validate_required("  x  "));
    assert!(!validate_required(""));
    assert!(!validate_required(" \t\n"));
}

#[test]
fn email_needs_exactly_one_at_sign() {
    assert!(!is_valid_email("ab.com"));
    assert!(!is_valid_email("a@b@c.com"));
    assert!(!is_valid_email("a@@b.com"));
    assert!(!is_valid_email(""));
    assert!(!is_valid_email("@"));
}

#[test]
fn email_local_part_takes_its_characters_only() {
    assert!(is_valid_email("A.z_0%+-9@b.com"));
    assert!(!is_valid_email("a b@b.com"));
    assert!(!is_valid_email("a!b@b.com"));
    assert!(!is_valid_email("é@b.com"));
}

#[test]
fn email_domain_takes_its_characters_only() {
    assert!(is_valid_email("a@sub-1.Example.org"));
    assert!(!is_valid_email("a@b_c.com"));
    assert!(!is_valid_email("a@b+c.com"));
    assert!(!is_valid_email("a@b.cöm"));
    assert!(!is_valid_email("a@b.c m"));
}

#[test]
fn email_needs_two_characters_after_the_last_dot() {
    assert!(is_valid_email("a@b.co"));
    assert!(is_valid_email("a@.co"));
    assert!(is_valid_email("a@b..co"));
    assert!(!is_valid_email("a@b.com."));
    assert!(!is_valid_email("a@b.com.c"));
    assert!(!is_valid_email("a@."));
}

#[test]
fn email_is_taken_as_it_stands() {
    assert!(!is_valid_email(" a@b.com"));
    assert!(!is_valid_email("a@b.com "));
    assert!(!is_valid_email("a@b.com\n"));
}

#[test]
fn phone_needs_8_to_15_digits() {
    assert!(!is_valid_phone("1234567"));
    assert!(is_valid_phone("12345678"));
    assert!(is_valid_phone("123456789012345"));
    assert!(!is_valid_phone("1234567890123456"));
    assert!(is_valid_phone("+33 (0)6.12-34-56-78"));
    assert!(!is_valid_phone("+ () . -"));
    assert!(!is_valid_phone("   "));
}

#[test]
fn phone_takes_its_characters_only() {
    assert!(!is_valid_phone("06 12 34 56 78 x"));
    assert!(!is_valid_phone("06/12/34/56/78"));
    assert!(!is_valid_phone("06\t12345678"));
    assert!(!is_valid_phone("٠٦١٢٣٤٥٦٧٨"));
}

#[test]
fn form_errors_come_in_the_order_of_the_fields() {
    assert_eq!(validate_form(&form("", "", "", "x")), Some(FormError::StartupNameRequired));
    assert_eq!(validate_form(&form("  ", "Ada", "a@b.com", "")), Some(FormError::StartupNameRequired));
    assert_eq!(validate_form(&form("Acme", " ", "", "x")), Some(FormError::ContactNameRequired));
    assert_eq!(validate_form(&form("Acme", "Ada", "\t", "x")), Some(FormError::EmailRequired));
    assert_eq!(validate_form(&form("Acme", "Ada", "a@b", "x")), Some(FormError::EmailFormat));
    assert_eq!(validate_form(&form("Acme", "Ada", "a@b.com", "x")), Some(FormError::PhoneFormat));
    assert_eq!(validate_form(&form("Acme", "Ada", "a@b.com", "")), None);
    assert_eq!(validate_form(&form("Acme", "Ada", "a@b.com", "06 12 34 56 78")), None);
}

#[test]
fn form_does_not_need_a_message() {
    let mut data = form("Acme", "Ada", "a@b.com", "");
    assert_eq!(validate_form(&data), None);
    data.message = "Bonjour".to_string();
    assert_eq!(validate_form(&data), None);
}

#[test]
fn form_errors_have_their_messages() {
    assert_eq!(FormError::StartupNameRequired.message(), "Le nom de la startup est requis");
    assert_eq!(FormError::ContactNameRequired.message(), "Votre nom est requis");
    assert_eq!(FormError::EmailRequired.message(), "L'email est requis");
    assert_eq!(FormError::EmailFormat.message(), "Format d'email invalide");
    assert_eq!(
        FormError::PhoneFormat.message(),
        "Format de téléphone invalide. Format attendu : +33 6 12 34 56 78 ou 06 12 34 56 78"
    );
}
