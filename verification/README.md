# fazuh_utils

The backend pieces of a personal site's contact form, written in Verus with
their behaviour stated in `requires`/`ensures` contracts and proved.

- `src/contact.rs` — the contact form, its checks, the form builder, the
  conversion into email data and the two decision steps of a submission.
- `src/validation.rs` — validation errors and how they are turned into
  per-field messages.
- `src/rate_limit.rs` — per-address request counting in five-minute windows.
- `src/utils.rs` — finding the client address in request headers.
- `src/smtp/` — SMTP configuration, the email built for a message, and the
  transport set-up.
- `src/config.rs`, `src/logging.rs` — configuration read from the
  environment.
- `src/embed.rs` — the link-preview `<meta>` tags of a page.
- `app/` — the unverified edges: environment access, process-wide state,
  logging set-up, the Dioxus server function and component, and sending mail.
