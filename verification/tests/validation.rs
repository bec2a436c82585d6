use airstrip_ops::message::{validate_string_field, Message};

#[test]
fn empty_field_is_rejected() {
    assert_eq!(
        validate_string_field("", "Pilot name"),
        Err(Message::InvalidPayload("Pilot name cannot be empty".to_string()))
    );
}

#[test]
fn blank_field_is_rejected() {
    assert_eq!(
        validate_string_field("   ", "Contact"),
        Err(Message::InvalidPayload("Contact cannot be empty".to_string()))
    );
}

#[test]
fn tabs_and_newlines_count_as_blank() {
    assert!(validate_string_field("\t\r\n ", "Email").is_err());
}

#[test]
fn unicode_white_space_counts_as_blank() {
    assert!(validate_string_field("\u{00A0}\u{2003}\u{3000}\u{0085}", "Email").is_err());
}

#[test]
fn zero_width_space_is_not_white_space() {
    assert_eq!(validate_string_field("\u{200B}", "Email"), Ok(()));
}

#[test]
fn padded_text_is_accepted() {
    assert_eq!(validate_string_field("  Juba  ", "Airstrip name"), Ok(()));
}

#[test]
fn field_name_is_used_verbatim() {
    assert_eq!(
        validate_string_field(" ", ""),
        Err(Message::InvalidPayload(" cannot be empty".to_string()))
    );
}
