use fazuh_utils::contact::{submit_contact_finish, submit_contact_start, ContactForm, SubmitAction};
use fazuh_utils::rate_limit::RateLimiter;
use http::{HeaderMap, HeaderValue};

fn form() -> ContactForm {
    ContactForm {
        name: "John Doe".to_string(),
        email: Some("john@example.com".to_string()),
        phone: None,
        subject: Some("Project".to_string()),
        message: "I would like to discuss a project.".to_string(),
    }
}

#[test]
fn submission_is_sent_until_the_limit_then_refused() {
    let mut limits = RateLimiter::new();
    let mut headers = HeaderMap::new();
    headers.insert("X-Real-Ip", HeaderValue::from_static("203.0.113.9"));

    for _ in 0..5 {
        match submit_contact_start(&mut limits, &headers, form(), 7) {
            SubmitAction::Send(data) => {
                assert_eq!(data.name, "John Doe");
                assert_eq!(data.subject, Some("Project".to_string()));
            }
            SubmitAction::Respond(_) => panic!("should be sent"),
        }
    }
    match submit_contact_start(&mut limits, &headers, form(), 8) {
        SubmitAction::Respond(resp) => {
            assert!(!resp.success);
            assert_eq!(resp.message, "Too many requests. Please try again later.");
            assert!(resp.errors.is_none());
        }
        SubmitAction::Send(_) => panic!("should be refused"),
    }
    // Another client is not affected.
    let mut other = HeaderMap::new();
    other.insert("X-Forwarded-For", HeaderValue::from_static("198.51.100.1"));
    assert!(matches!(
        submit_contact_start(&mut limits, &other, form(), 8),
        SubmitAction::Send(_)
    ));
}

#[test]
fn answers_after_sending() {
    let ok = submit_contact_finish(&Ok(()));
    assert!(ok.success);
    assert_eq!(ok.message, "Message sent successfully!");
    assert!(ok.errors.is_none());

    let failed = submit_contact_finish(&Err("SMTP send failed: timeout".to_string()));
    assert!(!failed.success);
    assert_eq!(failed.message, "Failed to send message. Please try again later.");
    assert!(failed.errors.is_none());
}
