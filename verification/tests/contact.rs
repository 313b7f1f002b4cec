use fazuh_utils::contact::{ContactForm, ContactFormBuilder};
use fazuh_utils::smtp::EmailData;
use fazuh_utils::validation::{format_errors, ValidationErrors};

fn valid_form() -> ContactForm {
    ContactForm {
        name: "John Doe".to_string(),
        email: Some("john@example.com".to_string()),
        phone: None,
        subject: None,
        message: "I would like to discuss a project.".to_string(),
    }
}

// ── Struct validation ──────────────────────────────────────────────────

#[test]
fn valid_form_passes() {
    assert!(valid_form().validate().is_ok());
}

#[test]
fn rejects_email_only_with_invalid_email() {
    let form = ContactForm {
        email: Some("bad".into()),
        phone: Some("08123456789".into()),
        ..valid_form()
    };
    assert!(form.validate().is_err());
}

#[test]
fn phone_only_without_email_passes() {
    let form = ContactForm {
        email: None,
        phone: Some("08123456789".into()),
        ..valid_form()
    };
    assert!(form.validate().is_ok());
}

#[test]
fn email_only_without_phone_passes() {
    let form = ContactForm {
        email: Some("user@example.com".into()),
        phone: None,
        ..valid_form()
    };
    assert!(form.validate().is_ok());
}

#[test]
fn rejects_neither_email_nor_phone() {
    let form = ContactForm {
        email: None,
        phone: None,
        ..valid_form()
    };
    assert!(form.validate().is_err());
}

#[test]
fn rejects_name_shorter_than_2() {
    let form = ContactForm {
        name: "J".into(),
        ..valid_form()
    };
    assert!(form.validate().is_err());
}

#[test]
fn rejects_name_longer_than_100() {
    let form = ContactForm {
        name: "a".repeat(101),
        ..valid_form()
    };
    assert!(form.validate().is_err());
}

#[test]
fn rejects_message_shorter_than_10() {
    let form = ContactForm {
        message: "ab".into(),
        ..valid_form()
    };
    assert!(form.validate().is_err());
}

#[test]
fn rejects_message_longer_than_1000() {
    let form = ContactForm {
        message: "a".repeat(1001),
        ..valid_form()
    };
    assert!(form.validate().is_err());
}

#[test]
fn subject_none_passes() {
    let form = ContactForm {
        subject: None,
        ..valid_form()
    };
    assert!(form.validate().is_ok());
}

#[test]
fn rejects_subject_shorter_than_2() {
    let form = ContactForm {
        subject: Some("a".into()),
        ..valid_form()
    };
    assert!(form.validate().is_err());
}

#[test]
fn rejects_subject_longer_than_200() {
    let form = ContactForm {
        subject: Some("a".repeat(201)),
        ..valid_form()
    };
    assert!(form.validate().is_err());
}

#[test]
fn subject_min_length_passes() {
    let form = ContactForm {
        subject: Some("ab".into()),
        ..valid_form()
    };
    assert!(form.validate().is_ok());
}

#[test]
fn subject_max_length_passes() {
    let form = ContactForm {
        subject: Some("a".repeat(200)),
        ..valid_form()
    };
    assert!(form.validate().is_ok());
}

#[test]
fn lengths_count_characters_not_bytes() {
    // 100 two-byte characters: 200 bytes, but a valid 100-character name.
    let form = ContactForm {
        name: "é".repeat(100),
        ..valid_form()
    };
    assert!(form.validate().is_ok());
    let form = ContactForm {
        name: "é".repeat(101),
        ..valid_form()
    };
    assert!(form.validate().is_err());
}

#[test]
fn name_and_message_bounds_are_inclusive() {
    let form = ContactForm {
        name: "ab".into(),
        message: "a".repeat(10),
        ..valid_form()
    };
    assert!(form.validate().is_ok());
    let form = ContactForm {
        name: "a".repeat(100),
        message: "a".repeat(1000),
        ..valid_form()
    };
    assert!(form.validate().is_ok());
}

#[test]
fn field_errors_hide_the_contact_requirement() {
    let form = ContactForm {
        name: "J".into(),
        email: None,
        phone: None,
        ..valid_form()
    };
    let formatted = format_errors(&form.validate().unwrap_err());
    assert!(formatted.contains_key("name"));
    assert!(!formatted.contains_key("__all__"));
    assert_eq!(formatted.len(), 1);
}

// ── Builder ─────────────────────────────────────────────────────────

#[test]
fn builder_produces_valid_form_with_email() {
    let form = ContactForm::builder("Alice")
        .email("alice@example.com")
        .message("Hello world, this is a test message!")
        .build()
        .unwrap();

    assert_eq!(form.name, "Alice");
    assert_eq!(form.email, Some("alice@example.com".into()));
    assert!(form.phone.is_none());
    assert_eq!(form.message, "Hello world, this is a test message!");
}

#[test]
fn builder_produces_valid_form_with_phone() {
    let form = ContactForm::builder("Bob")
        .phone("08123456789")
        .message("Hello world, this is a test message!")
        .build()
        .unwrap();

    assert_eq!(form.name, "Bob");
    assert!(form.email.is_none());
    assert_eq!(form.phone, Some("08123456789".into()));
}

#[test]
fn builder_rejects_no_email_or_phone() {
    let result = ContactForm::builder("Charlie")
        .message("Hello world, this is a test message!")
        .build();

    assert!(result.is_err());
}

#[test]
fn builder_rejects_bad_email() {
    let result = ContactForm::builder("Alice")
        .email("not-an-email")
        .phone("08123456789")
        .message("Hello world, this is a test message!")
        .build();

    assert!(result.is_err());
}

#[test]
fn builder_assembles_message_from_extras() {
    let form = ContactForm::builder("Parent")
        .email("p@example.com")
        .extra("Ananda", "Budi")
        .extra("Usia/Kelas", "5 tahun")
        .build()
        .unwrap();

    assert_eq!(form.message, "Ananda: Budi\nUsia/Kelas: 5 tahun");
}

#[test]
fn builder_assembles_message_from_extras_and_explicit() {
    let form = ContactForm::builder("Parent")
        .email("p@example.com")
        .extra("Ananda", "Budi")
        .message("Some extra notes")
        .build()
        .unwrap();

    assert_eq!(form.message, "Ananda: Budi\n\nSome extra notes");
}

#[test]
fn builder_defaults_message_when_no_extras_and_empty_message() {
    // message() with empty string is treated as unset
    let result = ContactForm::builder("Parent")
        .email("p@example.com")
        .message("")
        .build();

    // message is empty, which fails length validation
    assert!(result.is_err());
}

#[test]
fn builder_extras_only_meets_message_length_requirement() {
    // Extras alone should produce a message long enough for validation.
    let form = ContactForm::builder("Parent")
        .email("p@example.com")
        .extra("Ananda", "Budi Santoso")
        .extra("Program", "Calistung")
        .build()
        .unwrap();

    assert!(
        form.message.len() >= 10,
        "extras-only message must meet 10-char minimum"
    );
}

#[test]
fn builder_accepts_unicode_email() {
    let form = ContactForm::builder("User")
        .email("user@пример.com")
        .message("Hello everyone, this is a test message.")
        .build()
        .unwrap();

    assert_eq!(form.email, Some("user@пример.com".into()));
}

#[test]
fn builder_phone_without_email_passes_if_extras_sufficient() {
    // Phone-only form with generous extras should pass length validation.
    let form = ContactForm::builder("Charlie")
        .phone("08123456789")
        .extra(
            "Alamat",
            "Kp. Bojongkulur, RT 01/02, Kec. Cileungsi, Kab. Bogor",
        )
        .extra("Catatan", "Prefensi jadwal sore hari setelah maghrib")
        .build()
        .unwrap();

    assert!(form.email.is_none());
    assert_eq!(form.phone, Some("08123456789".into()));
}

#[test]
fn builder_email_opt_override() {
    // Later .email() should override earlier .email_opt().
    let form = ContactForm::builder("Alice")
        .email_opt(Some("old@example.com".into()))
        .email("new@example.com")
        .message("Hello world, this is a test message!")
        .build()
        .unwrap();

    assert_eq!(form.email, Some("new@example.com".into()));
}

#[test]
fn builder_produces_valid_form_with_opt_helpers() {
    let email_val: Option<String> = None;
    let phone_val: Option<String> = Some("08123456789".into());

    let form = ContactForm::builder("Alice")
        .email_opt(email_val)
        .phone_opt(phone_val)
        .message("Hello world, this is a test message!")
        .build()
        .unwrap();

    assert!(form.email.is_none());
    assert_eq!(form.phone, Some("08123456789".into()));
}

#[test]
fn builder_keeps_subject_and_later_message_wins() {
    let form = ContactFormBuilder::new("Dana")
        .phone("0811")
        .subject("Enrollment")
        .message("first message text")
        .message("second message text")
        .message("")
        .build()
        .unwrap();

    assert_eq!(form.subject, Some("Enrollment".into()));
    assert_eq!(form.message, "second message text");
}

#[test]
fn builder_with_nothing_in_message_body_is_rejected_with_message_error() {
    let errors = ContactForm::builder("Eve").phone("0811").build().unwrap_err();
    let formatted = format_errors(&errors);
    assert_eq!(
        formatted.get("message").unwrap()[0],
        "Message must be between 10 and 1000 characters"
    );
}

// ── Error formatting ────────────────────────────────────────────────

#[test]
fn formats_schema_error_when_no_email_or_phone() {
    let form = ContactForm {
        email: None,
        phone: None,
        ..valid_form()
    };
    let errors = form.validate().unwrap_err();
    let formatted = format_errors(&errors);

    assert!(
        formatted.contains_key("__all__"),
        "schema-level 'contact_required' error should appear under key '__all__'"
    );
    assert_eq!(
        formatted.get("__all__").unwrap()[0],
        "Please provide at least one of email or phone number"
    );
}

#[test]
fn formats_field_errors() {
    let form = ContactForm {
        name: "J".into(),
        email: Some("bad".into()),
        phone: Some("08123456789".into()),
        ..valid_form()
    };
    let errors = form.validate().unwrap_err();
    let formatted = format_errors(&errors);

    assert!(formatted.contains_key("name"));
    assert!(formatted.contains_key("email"));
    assert!(!formatted.contains_key("message"));
}

#[test]
fn formats_empty_errors_returns_empty_map() {
    let empty = ValidationErrors::new();
    let formatted = format_errors(&empty);
    assert!(formatted.is_empty());
}

#[test]
fn formats_field_errors_with_correct_messages() {
    let form = ContactForm {
        name: "J".into(),
        email: Some("bad".into()),
        phone: Some("08123456789".into()),
        ..valid_form()
    };
    let errors = form.validate().unwrap_err();
    let formatted = format_errors(&errors);

    assert_eq!(
        formatted.get("name").unwrap()[0],
        "Name must be between 2 and 100 characters"
    );
    assert_eq!(
        formatted.get("email").unwrap()[0],
        "Please enter a valid email address"
    );
}

// ── SMTP conversion ─────────────────────────────────────────────────

#[test]
fn converts_to_email_data() {
    let form = ContactForm {
        name: "Alice".into(),
        email: Some("alice@test.com".into()),
        phone: None,
        subject: Some("Hi".into()),
        message: "Hello there!".into(),
    };
    let data: EmailData = form.into();

    assert_eq!(data.name, "Alice");
    assert_eq!(data.email, Some("alice@test.com".into()));
    assert_eq!(data.phone, None);
    assert_eq!(data.subject, Some("Hi".into()));
    assert_eq!(data.message, "Hello there!");
}

#[test]
fn converts_phone_only_form_to_email_data() {
    let form = ContactForm {
        name: "Bob".into(),
        email: None,
        phone: Some("08123456789".into()),
        subject: None,
        message: "No subject here.".into(),
    };
    let data: EmailData = form.into();

    assert_eq!(data.name, "Bob");
    assert!(data.email.is_none());
    assert_eq!(data.phone, Some("08123456789".into()));
}
