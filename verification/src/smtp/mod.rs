use vstd::prelude::*;
use vstd::string::StringExecFns;

use std::str::FromStr;

use lettre::address::AddressError;
use lettre::message::header::ContentType;
use lettre::message::{Mailbox, MessageBuilder};
use lettre::transport::smtp::authentication::Credentials;
use lettre::transport::smtp::client::{Tls, TlsParameters};
use lettre::transport::smtp::AsyncSmtpTransportBuilder;
use lettre::{AsyncSmtpTransport, Message, Tokio1Executor};

use crate::smtp::config::{SmtpConfig, SmtpSecurity};
use crate::text::string_or;

pub mod config;

verus! {

/// What a contact message carries into the email sent for it.
#[derive(Debug)]
pub struct EmailData {
    pub name: String,
    pub email: Option<String>,
    pub phone: Option<String>,
    pub subject: Option<String>,
    pub message: String,
}

// ── Outside types ─────────────────────────────────────────────────────────

#[verifier::external_type_specification]
#[verifier::external_body]
pub struct ExMailbox(Mailbox);

#[verifier::external_type_specification]
#[verifier::external_body]
pub struct ExAddressError(AddressError);

#[verifier::external_type_specification]
#[verifier::external_body]
pub struct ExMessageBuilder(MessageBuilder);

#[verifier::external_type_specification]
#[verifier::external_body]
pub struct ExMessage(Message);

#[verifier::external_type_specification]
#[verifier::external_body]
pub struct ExEmailError(lettre::error::Error);

#[verifier::external_type_specification]
#[verifier::external_body]
pub struct ExSmtpError(lettre::transport::smtp::Error);

#[verifier::external_type_specification]
#[verifier::external_body]
pub struct ExAsyncSmtpTransportBuilder(AsyncSmtpTransportBuilder);

#[verifier::external_type_specification]
#[verifier::external_body]
pub struct ExTlsParameters(TlsParameters);

// ── Mailboxes ─────────────────────────────────────────────────────────────

/// The mailbox that `lettre` parses from `s` (`Name <user@domain>` or a bare
/// address), as lettre writes it out; `None` when `s` is not a mailbox.
pub uninterp spec fn parsed_mailbox(s: Seq<char>) -> Option<Seq<char>>;

/// A mailbox, as lettre writes it out (its `Display` text).
pub uninterp spec fn mailbox_text(m: Mailbox) -> Seq<char>;

/// Whether `lettre` parses `s` as a mailbox.
pub open spec fn mailbox_parses(s: Seq<char>) -> bool {
    parsed_mailbox(s) is Some
}

/// `<Mailbox as FromStr>::from_str`. Claims that the outcome is determined
/// by the text alone: on success, the mailbox parsed from it.
#[verifier::external_body]
fn parse_mailbox(s: &str) -> (r: Result<Mailbox, AddressError>)
    ensures
        r is Ok == (parsed_mailbox(s@) is Some),
        r matches Ok(m) ==> parsed_mailbox(s@) == Some(mailbox_text(m)),
{
    Mailbox::from_str(s)
}

/// `<Mailbox as Clone>::clone` (derived): the same mailbox.
#[verifier::external_body]
fn copy_mailbox(m: &Mailbox) -> (r: Mailbox)
    ensures
        mailbox_text(r) == mailbox_text(*m),
{
    m.clone()
}

/// `AddressError`'s `Display` text; nothing is claimed of it.
#[verifier::external_body]
fn address_error_text(e: &AddressError) -> String {
    format!("{e}")
}

// ── Message builder ───────────────────────────────────────────────────────

/// What a message builder holds of the headers `From`, `To`, `Reply-To`,
/// `Subject`, `Content-Type` and `Content-Transfer-Encoding`: for each one
/// set so far, its values in order (mailboxes as lettre writes them, the
/// subject text, the media type, the encoding's name).
pub uninterp spec fn builder_headers(b: MessageBuilder) -> Map<Seq<char>, Seq<Seq<char>>>;

/// What a built message holds of the headers `From`, `To`, `Reply-To`,
/// `Subject` and `Content-Type`, read as `builder_headers` reads a builder.
pub uninterp spec fn message_headers(m: Message) -> Map<Seq<char>, Seq<Seq<char>>>;

/// The text of a built message's body: what its stored body decodes to
/// under the message's transfer encoding.
pub uninterp spec fn message_body_text(m: Message) -> Seq<char>;

/// `s` with CRLF line endings: a `\r` goes in before every `\n` that does
/// not already follow one.
pub open spec fn crlf_line_endings(s: Seq<char>) -> Seq<char>
    decreases s.len(),
{
    if s.len() == 0 {
        s
    } else {
        let head = crlf_line_endings(s.drop_last());
        let bare_lf = s.last() == '\n' && !(s.len() >= 2 && s[s.len() - 2] == '\r');
        if bare_lf {
            head + seq!['\r', '\n']
        } else {
            head.push(s.last())
        }
    }
}

/// The values header `h` holds in `m` (none when it is not set).
pub open spec fn header_values(m: Map<Seq<char>, Seq<Seq<char>>>, h: Seq<char>) -> Seq<Seq<char>> {
    if m.dom().contains(h) {
        m[h]
    } else {
        Seq::empty()
    }
}

/// No header set.
pub open spec fn no_headers() -> Map<Seq<char>, Seq<Seq<char>>> {
    Map::empty()
}

/// `m` with `v` added after the values of header `h`.
pub open spec fn with_value(m: Map<Seq<char>, Seq<Seq<char>>>, h: Seq<char>, v: Seq<char>) -> Map<Seq<char>, Seq<Seq<char>>> {
    m.insert(h, header_values(m, h).push(v))
}

/// How `ContentType::TEXT_PLAIN` is written.
pub open spec fn plain_text_type() -> Seq<char> {
    "text/plain; charset=utf-8"@
}

/// `Message::builder`: a builder with none of these headers set.
#[verifier::external_body]
fn message_builder() -> (r: MessageBuilder)
    ensures
        builder_headers(r) == no_headers(),
{
    Message::builder()
}

/// `MessageBuilder::from`: adds the mailbox to the `From` header.
#[verifier::external_body]
fn builder_from(b: MessageBuilder, m: Mailbox) -> (r: MessageBuilder)
    ensures
        builder_headers(r) == with_value(builder_headers(b), "From"@, mailbox_text(m)),
{
    b.from(m)
}

/// `MessageBuilder::to`: adds the mailbox to the `To` header.
#[verifier::external_body]
fn builder_to(b: MessageBuilder, m: Mailbox) -> (r: MessageBuilder)
    ensures
        builder_headers(r) == with_value(builder_headers(b), "To"@, mailbox_text(m)),
{
    b.to(m)
}

/// `MessageBuilder::reply_to`: adds the mailbox to the `Reply-To` header.
#[verifier::external_body]
fn builder_reply_to(b: MessageBuilder, m: Mailbox) -> (r: MessageBuilder)
    ensures
        builder_headers(r) == with_value(builder_headers(b), "Reply-To"@, mailbox_text(m)),
{
    b.reply_to(m)
}

/// `MessageBuilder::subject`: sets the `Subject` header to the text.
#[verifier::external_body]
fn builder_subject(b: MessageBuilder, s: String) -> (r: MessageBuilder)
    ensures
        builder_headers(r) == builder_headers(b).insert("Subject"@, seq![s@]),
{
    b.subject(s)
}

/// `MessageBuilder::header` with `ContentType::TEXT_PLAIN`: sets the
/// `Content-Type` header to `text/plain; charset=utf-8`.
#[verifier::external_body]
fn builder_plain_text(b: MessageBuilder) -> (r: MessageBuilder)
    ensures
        builder_headers(r) == builder_headers(b).insert("Content-Type"@, seq![plain_text_type()]),
{
    b.header(ContentType::TEXT_PLAIN)
}

/// `MessageBuilder::body` on a `String`. Claims that it succeeds when
/// `From` lists one mailbox and `To` at least one (it fails only for a
/// missing or doubled originator, or no recipient), that the message keeps
/// the builder's headers, and that its body is the text with CRLF line
/// endings. Only a builder without a `Content-Transfer-Encoding` header is
/// admitted: with one set, lettre encodes the body as that header says and
/// panics where the text does not fit it.
#[verifier::external_body]
fn builder_body(b: MessageBuilder, body: String) -> (r: Result<Message, lettre::error::Error>)
    requires
        !builder_headers(b).dom().contains("Content-Transfer-Encoding"@),
    ensures
        header_values(builder_headers(b), "From"@).len() == 1 && header_values(builder_headers(b), "To"@).len() >= 1 ==> r is Ok,
        r matches Ok(m) ==> message_headers(m) == builder_headers(b),
        r matches Ok(m) ==> message_body_text(m) == crlf_line_endings(body@),
{
    b.body(body)
}

/// `lettre::error::Error`'s `Display` text; nothing is claimed of it.
#[verifier::external_body]
fn email_error_text(e: &lettre::error::Error) -> String {
    format!("{e}")
}

// ── What the message says ─────────────────────────────────────────────────

/// The reply-to mailbox text for `data`: `Name <email>` when an email
/// address was given.
pub open spec fn reply_to_text(name: Seq<char>, email: Option<Seq<char>>) -> Option<Seq<char>> {
    match email {
        Some(e) => Some(name + " <"@ + e + ">"@),
        None => None,
    }
}

/// The subject of the email: the one given, else
/// `[fazuh-site] Message from <name>`.
pub open spec fn email_subject(name: Seq<char>, subject: Option<Seq<char>>) -> Seq<char> {
    match subject {
        Some(s) => s,
        None => "[fazuh-site] Message from "@ + name,
    }
}

/// The body of the email: who sent it (`no-reply` for a missing address),
/// their phone number (`-` when missing), a blank line, then the message.
pub open spec fn email_body(
    name: Seq<char>,
    email: Option<Seq<char>>,
    phone: Option<Seq<char>>,
    message: Seq<char>,
) -> Seq<char> {
    let email_shown = match email {
        Some(e) => e,
        None => "no-reply"@,
    };
    let phone_shown = match phone {
        Some(p) => p,
        None => "-"@,
    };
    "From: "@ + name + " <"@ + email_shown + ">\nPhone: "@ + phone_shown + "\n\n"@ + message
}

/// The body names the sender by the address given: it opens with
/// `From: <name> <address>` whatever the phone number, and `no-reply`
/// stands in for the address only when none was given. The phone number
/// (`-` when missing) follows on the next line, and the message comes last,
/// after a blank line.
pub proof fn law_body_names_sender(name: Seq<char>, email: Option<Seq<char>>, phone: Option<Seq<char>>, message: Seq<char>)
    ensures
        email matches Some(e) ==> starts_with(email_body(name, email, phone, message), "From: "@ + name + " <"@ + e + ">"@),
        email is None ==> starts_with(email_body(name, email, phone, message), "From: "@ + name + " <no-reply>"@),
        phone matches Some(p) ==> contains_at(email_body(name, email, phone, message), "\nPhone: "@ + p + "\n\n"@ + message),
        phone is None ==> contains_at(email_body(name, email, phone, message), "\nPhone: -\n\n"@ + message),
{
    reveal_strlit(">");
    reveal_strlit(" <");
    reveal_strlit(" <no-reply>");
    reveal_strlit("no-reply");
    reveal_strlit(">\nPhone: ");
    reveal_strlit("\nPhone: ");
    reveal_strlit("\nPhone: -\n\n");
    reveal_strlit("-");
    reveal_strlit("\n\n");
    let shown = match email {
        Some(e) => e,
        None => "no-reply"@,
    };
    let shown_phone = match phone {
        Some(p) => p,
        None => "-"@,
    };
    let body = email_body(name, email, phone, message);
    let head = "From: "@ + name + " <"@ + shown + ">"@;
    let tail = "\nPhone: "@ + shown_phone + "\n\n"@ + message;
    assert(body =~= head + tail);
    assert(body.take(head.len() as int) =~= head);
    assert(body.skip(head.len() as int) =~= tail);
    assert(body.skip(head.len() as int).take(tail.len() as int) =~= tail);
    if email is None {
        assert(head =~= "From: "@ + name + " <no-reply>"@);
    }
    if phone is None {
        assert(tail =~= "\nPhone: -\n\n"@ + message);
    }
}

/// Whether `s` holds `part` somewhere.
pub open spec fn contains_at(s: Seq<char>, part: Seq<char>) -> bool {
    exists|i: int| 0 <= i <= s.len() - part.len() && #[trigger] s.skip(i).take(part.len() as int) == part
}

/// The contents of an optional string.
pub open spec fn opt_chars(s: Option<String>) -> Option<Seq<char>> {
    match s {
        Some(v) => Some(v@),
        None => None,
    }
}

/// The reply-to mailbox text for `data`, as `reply_to_text` states.
pub fn reply_to_address(data: &EmailData) -> (r: Option<String>)
    ensures
        opt_chars(r) == reply_to_text(data.name@, opt_chars(data.email)),
{
    match &data.email {
        Some(e) => {
            let mut s = data.name.clone();
            s.append(" <");
            s.append(e.as_str());
            s.append(">");
            Some(s)
        },
        None => None,
    }
}

/// The subject of the email for `data`, as `email_subject` states.
pub fn message_subject(data: &EmailData) -> (r: String)
    ensures
        r@ == email_subject(data.name@, opt_chars(data.subject)),
{
    match &data.subject {
        Some(s) => s.clone(),
        None => {
            let mut s = "[fazuh-site] Message from ".to_owned();
            s.append(data.name.as_str());
            s
        },
    }
}

/// The body of the email for `data`, as `email_body` states.
pub fn message_body(data: &EmailData) -> (r: String)
    ensures
        r@ == email_body(data.name@, opt_chars(data.email), opt_chars(data.phone), data.message@),
{
    let mut s = "From: ".to_owned();
    s.append(data.name.as_str());
    s.append(" <");
    let email = string_or(&data.email, "no-reply");
    s.append(email.as_str());
    s.append(">\nPhone: ");
    let phone = string_or(&data.phone, "-");
    s.append(phone.as_str());
    s.append("\n\n");
    s.append(data.message.as_str());
    s
}

/// `prefix` followed by `detail`.
fn prefixed(prefix: &str, detail: String) -> (r: String)
    ensures
        r@ == prefix@ + detail@,
        starts_with(r@, prefix@),
{
    let mut s = prefix.to_owned();
    s.append(detail.as_str());
    assert(s@.take(prefix@.len() as int) =~= prefix@);
    s
}

/// The reply-to mailbox of the email for `data` under `config`: the
/// sender's `Name <email>` when an address was given, else `SMTP_FROM`.
pub open spec fn reply_to_mailbox(data: EmailData, config: SmtpConfig) -> Seq<char> {
    match reply_to_text(data.name@, opt_chars(data.email)) {
        Some(t) => parsed_mailbox(t)->0,
        None => parsed_mailbox(config.smtp_from@)->0,
    }
}

/// The headers of the email for `data` under `config`: `From` the mailbox
/// of `SMTP_FROM`, `To` that of `SMTP_TO`, `Reply-To` as
/// `reply_to_mailbox`, the subject `email_subject`, and plain text.
pub open spec fn expected_headers(data: EmailData, config: SmtpConfig) -> Map<Seq<char>, Seq<Seq<char>>> {
    Map::empty()
        .insert("From"@, seq![parsed_mailbox(config.smtp_from@)->0])
        .insert("To"@, seq![parsed_mailbox(config.smtp_to@)->0])
        .insert("Reply-To"@, seq![reply_to_mailbox(data, config)])
        .insert("Subject"@, seq![email_subject(data.name@, opt_chars(data.subject))])
        .insert("Content-Type"@, seq![plain_text_type()])
}

/// Builds the email for `data` under `config`: from `SMTP_FROM` to
/// `SMTP_TO`, replying to the sender when an address was given (else to
/// `SMTP_FROM`), plain text, with `message_subject` and `message_body`
/// (its line endings made CRLF, as email wants them).
///
/// Fails, naming what is wrong, exactly when `SMTP_FROM`, `SMTP_TO` or the
/// sender's `Name <email>` is not a mailbox, checked in that order.
pub fn build_message(data: &EmailData, config: &SmtpConfig) -> (r: Result<Message, String>)
    ensures
        r is Ok <==> {
            &&& mailbox_parses(config.smtp_from@)
            &&& mailbox_parses(config.smtp_to@)
            &&& (reply_to_text(data.name@, opt_chars(data.email)) matches Some(t) ==> mailbox_parses(t))
        },
        !mailbox_parses(config.smtp_from@) ==> (r matches Err(e) && starts_with(e@, "Invalid SMTP_FROM address: "@)),
        mailbox_parses(config.smtp_from@) && !mailbox_parses(config.smtp_to@) ==> (r matches Err(e) && starts_with(e@, "Invalid SMTP_TO address: "@)),
        mailbox_parses(config.smtp_from@) && mailbox_parses(config.smtp_to@) && (reply_to_text(data.name@, opt_chars(data.email)) matches Some(t) && !mailbox_parses(t)) ==> (r matches Err(e) && starts_with(e@, "Invalid reply-to address: "@)),
        r matches Ok(m) ==> message_headers(m) == expected_headers(*data, *config),
        r matches Ok(m) ==> message_body_text(m) == crlf_line_endings(email_body(data.name@, opt_chars(data.email), opt_chars(data.phone), data.message@)),
{
    let from = match parse_mailbox(config.smtp_from.as_str()) {
        Ok(m) => m,
        Err(e) => {
            return Err(prefixed("Invalid SMTP_FROM address: ", address_error_text(&e)));
        },
    };
    let to = match parse_mailbox(config.smtp_to.as_str()) {
        Ok(m) => m,
        Err(e) => {
            return Err(prefixed("Invalid SMTP_TO address: ", address_error_text(&e)));
        },
    };
    let reply_to = match reply_to_address(data) {
        Some(text) => match parse_mailbox(text.as_str()) {
            Ok(m) => m,
            Err(e) => {
                return Err(prefixed("Invalid reply-to address: ", address_error_text(&e)));
            },
        },
        None => copy_mailbox(&from),
    };
    let subject = message_subject(data);
    let body = message_body(data);
    proof {
        reveal_strlit("From");
        reveal_strlit("To");
        reveal_strlit("Reply-To");
        reveal_strlit("Subject");
        reveal_strlit("Content-Type");
        reveal_strlit("Content-Transfer-Encoding");
        assert("Content-Transfer-Encoding"@.len() == 25);
        assert("From"@.len() == 4);
        assert("To"@.len() == 2);
        assert("Reply-To"@.len() == 8);
        assert("Subject"@.len() == 7);
        assert("Content-Type"@.len() == 12);
    }
    let b = message_builder();
    let b = builder_from(b, from);
    let b = builder_to(b, to);
    let b = builder_reply_to(b, reply_to);
    let b = builder_subject(b, subject);
    let b = builder_plain_text(b);
    assert(header_values(builder_headers(b), "From"@).len() == 1);
    assert(header_values(builder_headers(b), "To"@).len() == 1);
    assert(builder_headers(b) =~= expected_headers(*data, *config));
    assert(!expected_headers(*data, *config).dom().contains("Content-Transfer-Encoding"@));
    match builder_body(b, body) {
        Ok(m) => Ok(m),
        Err(e) => Err(prefixed("Failed to build email: ", email_error_text(&e))),
    }
}

// ── Transport ─────────────────────────────────────────────────────────────

/// The relay constructor a transport starts from.
#[derive(Debug, Clone, Copy, PartialEq, Eq, Structural)]
pub enum RelayKind {
    /// `AsyncSmtpTransport::starttls_relay`: submission port, STARTTLS required.
    StartTls,
    /// `AsyncSmtpTransport::relay`: submissions port, TLS from the start.
    Tls,
}

/// The TLS setting that replaces the relay's own, if any.
#[derive(Debug, Clone, Copy, PartialEq, Eq, Structural)]
pub enum TlsOverride {
    /// Keep the relay's TLS setting.
    Keep,
    /// TLS from the start, with parameters for the host.
    Wrapper,
    /// STARTTLS when the server offers it, with parameters for the host.
    Opportunistic,
}

/// How a transport is put together for a configuration.
#[derive(Debug, Clone, Copy, PartialEq, Eq, Structural)]
pub struct TransportPlan {
    pub relay: RelayKind,
    pub tls: TlsOverride,
    pub with_credentials: bool,
}

/// The plan for a security mode: STARTTLS uses the STARTTLS relay, TLS the
/// TLS relay wrapped in TLS, plain the STARTTLS relay made opportunistic;
/// the first two log in when a password is set, plain never does.
pub open spec fn plan_for(security: SmtpSecurity, password: Seq<char>) -> TransportPlan {
    match security {
        SmtpSecurity::StartTls => TransportPlan {
            relay: RelayKind::StartTls,
            tls: TlsOverride::Keep,
            with_credentials: password.len() > 0,
        },
        SmtpSecurity::Tls => TransportPlan {
            relay: RelayKind::Tls,
            tls: TlsOverride::Wrapper,
            with_credentials: password.len() > 0,
        },
        SmtpSecurity::Plain => TransportPlan {
            relay: RelayKind::StartTls,
            tls: TlsOverride::Opportunistic,
            with_credentials: false,
        },
    }
}

/// The plan `build_transport` follows for `config`.
pub fn transport_plan(config: &SmtpConfig) -> (r: TransportPlan)
    ensures
        r == plan_for(config.smtp_security, config.smtp_password@),
{
    let has_password = !config.smtp_password.as_str().is_empty();
    match config.smtp_security {
        SmtpSecurity::StartTls => TransportPlan {
            relay: RelayKind::StartTls,
            tls: TlsOverride::Keep,
            with_credentials: has_password,
        },
        SmtpSecurity::Tls => TransportPlan {
            relay: RelayKind::Tls,
            tls: TlsOverride::Wrapper,
            with_credentials: has_password,
        },
        SmtpSecurity::Plain => TransportPlan {
            relay: RelayKind::StartTls,
            tls: TlsOverride::Opportunistic,
            with_credentials: false,
        },
    }
}

/// The decimal digits of `n`.
pub open spec fn decimal_text(n: nat) -> Seq<char>
    decreases n,
{
    let digit = (('0' as u32) + (n % 10) as u32) as char;
    if n < 10 {
        seq![digit]
    } else {
        decimal_text(n / 10).push(digit)
    }
}

/// What a transport builder is set to connect with, by setting:
/// `server` (the host), `port` (in decimal), `tls` (`required`, `wrapper`
/// or `opportunistic`), `tls_domain` (the domain its TLS parameters check
/// certificates against), and `username` and `password` once credentials
/// are set.
pub uninterp spec fn transport_settings(b: AsyncSmtpTransportBuilder) -> Map<Seq<char>, Seq<char>>;

/// The settings a relay constructor starts with: the host, the relay's
/// port and TLS mode with parameters for the host, no credentials.
pub open spec fn relay_settings(host: Seq<char>, port: u16, tls: Seq<char>) -> Map<Seq<char>, Seq<char>> {
    Map::empty().insert("server"@, host).insert("port"@, decimal_text(port as nat)).insert("tls"@, tls).insert("tls_domain"@, host)
}

/// The domain that TLS parameters check the server's certificate against.
pub uninterp spec fn tls_domain(p: TlsParameters) -> Seq<char>;

/// `AsyncSmtpTransport::<Tokio1Executor>::starttls_relay`: on success, a
/// builder for `host` on port 587 that requires STARTTLS.
#[verifier::external_body]
fn starttls_relay(host: &str) -> (r: Result<AsyncSmtpTransportBuilder, lettre::transport::smtp::Error>)
    ensures
        r matches Ok(b) ==> transport_settings(b) == relay_settings(host@, 587, "required"@),
{
    AsyncSmtpTransport::<Tokio1Executor>::starttls_relay(host)
}

/// `AsyncSmtpTransport::<Tokio1Executor>::relay`: on success, a builder
/// for `host` on port 465 wrapped in TLS.
#[verifier::external_body]
fn tls_relay(host: &str) -> (r: Result<AsyncSmtpTransportBuilder, lettre::transport::smtp::Error>)
    ensures
        r matches Ok(b) ==> transport_settings(b) == relay_settings(host@, 465, "wrapper"@),
{
    AsyncSmtpTransport::<Tokio1Executor>::relay(host)
}

/// `AsyncSmtpTransportBuilder::port`: sets the port.
#[verifier::external_body]
fn with_port(b: AsyncSmtpTransportBuilder, port: u16) -> (r: AsyncSmtpTransportBuilder)
    ensures
        transport_settings(r) == transport_settings(b).insert("port"@, decimal_text(port as nat)),
{
    b.port(port)
}

/// `AsyncSmtpTransportBuilder::tls` with `Tls::Wrapper`: TLS from the
/// start, with the parameters' domain.
#[verifier::external_body]
fn with_tls_wrapper(b: AsyncSmtpTransportBuilder, p: TlsParameters) -> (r: AsyncSmtpTransportBuilder)
    ensures
        transport_settings(r) == transport_settings(b).insert("tls"@, "wrapper"@).insert("tls_domain"@, tls_domain(p)),
{
    b.tls(Tls::Wrapper(p))
}

/// `AsyncSmtpTransportBuilder::tls` with `Tls::Opportunistic`: STARTTLS
/// when offered, with the parameters' domain.
#[verifier::external_body]
fn with_tls_opportunistic(b: AsyncSmtpTransportBuilder, p: TlsParameters) -> (r: AsyncSmtpTransportBuilder)
    ensures
        transport_settings(r) == transport_settings(b).insert("tls"@, "opportunistic"@).insert("tls_domain"@, tls_domain(p)),
{
    b.tls(Tls::Opportunistic(p))
}

/// `AsyncSmtpTransportBuilder::credentials` with `Credentials::new`: logs
/// in with the user name and password.
#[verifier::external_body]
fn with_login(b: AsyncSmtpTransportBuilder, username: String, password: String) -> (r: AsyncSmtpTransportBuilder)
    ensures
        transport_settings(r) == transport_settings(b).insert("username"@, username@).insert("password"@, password@),
{
    b.credentials(Credentials::new(username, password))
}

/// `TlsParameters::new`, which is `TlsParameters::builder(domain).build()`.
/// Claims that parameters it builds are for `domain`; nothing is claimed of
/// when it succeeds.
#[verifier::external_body]
fn tls_parameters(domain: String) -> (r: Result<TlsParameters, lettre::transport::smtp::Error>)
    ensures
        r matches Ok(p) ==> tls_domain(p) == domain@,
{
    TlsParameters::new(domain)
}

/// `lettre::transport::smtp::Error`'s `Display` text; nothing is claimed of
/// it.
#[verifier::external_body]
fn smtp_error_text(e: &lettre::transport::smtp::Error) -> String {
    format!("{e}")
}

/// Whether `e` starts with `prefix`.
pub open spec fn starts_with(e: Seq<char>, prefix: Seq<char>) -> bool {
    prefix.len() <= e.len() && e.take(prefix.len() as int) == prefix
}

/// The TLS mode a plan ends with.
pub open spec fn plan_tls(plan: TransportPlan) -> Seq<char> {
    match plan.tls {
        TlsOverride::Keep => match plan.relay {
            RelayKind::StartTls => "required"@,
            RelayKind::Tls => "wrapper"@,
        },
        TlsOverride::Wrapper => "wrapper"@,
        TlsOverride::Opportunistic => "opportunistic"@,
    }
}

/// The settings of the transport built for `config`: its host and port,
/// the TLS mode of its plan, and its credentials when the plan logs in.
pub open spec fn expected_settings(config: SmtpConfig) -> Map<Seq<char>, Seq<char>> {
    let plan = plan_for(config.smtp_security, config.smtp_password@);
    let base = Map::empty()
        .insert("server"@, config.smtp_host@)
        .insert("port"@, decimal_text(config.smtp_port as nat))
        .insert("tls"@, plan_tls(plan))
        .insert("tls_domain"@, config.smtp_host@);
    if plan.with_credentials {
        base.insert("username"@, config.smtp_username@).insert("password"@, config.smtp_password@)
    } else {
        base
    }
}

/// The transport connects to the configured host and port, with the TLS
/// mode of the configured security (`wrapper` for TLS, `required` for
/// STARTTLS, `opportunistic` for plain), checks certificates against the
/// host, and logs in with the configured username and password exactly when
/// a password is set and the security is not plain.
pub proof fn law_transport_follows_config(config: SmtpConfig)
    ensures
        expected_settings(config)["server"@] == config.smtp_host@,
        expected_settings(config)["port"@] == decimal_text(config.smtp_port as nat),
        expected_settings(config)["tls_domain"@] == config.smtp_host@,
        config.smtp_security == SmtpSecurity::Tls ==> expected_settings(config)["tls"@] == "wrapper"@,
        config.smtp_security == SmtpSecurity::StartTls ==> expected_settings(config)["tls"@] == "required"@,
        config.smtp_security == SmtpSecurity::Plain ==> expected_settings(config)["tls"@] == "opportunistic"@,
        expected_settings(config).dom().contains("password"@) <==> (config.smtp_password@.len() > 0 && config.smtp_security != SmtpSecurity::Plain),
        expected_settings(config).dom().contains("password"@) ==> expected_settings(config)["password"@] == config.smtp_password@ && expected_settings(config)["username"@] == config.smtp_username@,
{
    reveal_strlit("server");
    reveal_strlit("port");
    reveal_strlit("tls");
    reveal_strlit("tls_domain");
    reveal_strlit("username");
    reveal_strlit("password");
    assert("server"@.len() == 6 && "port"@.len() == 4 && "tls"@.len() == 3);
    assert("tls_domain"@.len() == 10 && "username"@.len() == 8 && "password"@.len() == 8);
    assert("username"@[0] != "password"@[0]);
}

/// The subject and reply-to address of the email: a given subject is used
/// as it is, whatever the name; without one the subject is
/// `[fazuh-site] Message from ` followed by the name. The reply-to address
/// exists exactly when an email address was given, and is the name
/// followed by that address in angle brackets.
pub proof fn law_subject_and_reply_to(name: Seq<char>, email: Option<Seq<char>>, subject: Option<Seq<char>>)
    ensures
        subject matches Some(s) ==> email_subject(name, subject) == s,
        subject is None ==> starts_with(email_subject(name, subject), "[fazuh-site] Message from "@),
        subject is None ==> email_subject(name, subject).skip(email_subject(name, subject).len() - name.len()) == name,
        reply_to_text(name, email) is Some <==> email is Some,
        email matches Some(e) ==> reply_to_text(name, email) == Some(name + " <"@ + e + ">"@),
{
    if subject is None {
        let t = email_subject(name, subject);
        let p = "[fazuh-site] Message from "@;
        assert(t.take(p.len() as int) =~= p);
        assert(t.skip(t.len() - name.len()) =~= name);
    }
}

/// Sets up the SMTP transport for `config` as `transport_plan` says, on the
/// configured host and port; the caller builds it with
/// `AsyncSmtpTransportBuilder::build`. A failure comes from setting up the
/// relay or the TLS parameters, and says which.
pub fn build_transport(config: &SmtpConfig) -> (r: Result<AsyncSmtpTransportBuilder, String>)
    ensures
        r matches Ok(b) ==> transport_settings(b) == expected_settings(*config),
        r matches Err(e) ==> starts_with(e@, "Failed to configure SMTP relay: "@) || starts_with(e@, "Failed to build TLS parameters: "@),
{
    proof {
        reveal_strlit("server");
        reveal_strlit("port");
        reveal_strlit("tls");
        reveal_strlit("username");
        reveal_strlit("password");
        reveal_strlit("tls_domain");
        assert("tls_domain"@.len() == 10);
        assert("server"@.len() == 6);
        assert("port"@.len() == 4);
        assert("tls"@.len() == 3);
        assert("username"@.len() == 8);
        assert("password"@.len() == 8);
        assert("username"@[0] == 'u');
        assert("password"@[0] == 'p');
    }
    let plan = transport_plan(config);
    let host = config.smtp_host.as_str();
    let wrapper_params = match plan.tls {
        TlsOverride::Wrapper => match tls_parameters(config.smtp_host.clone()) {
            Ok(p) => Some(p),
            Err(e) => {
                return Err(prefixed("Failed to build TLS parameters: ", smtp_error_text(&e)));
            },
        },
        _ => None,
    };
    let relay = match plan.relay {
        RelayKind::StartTls => starttls_relay(host),
        RelayKind::Tls => tls_relay(host),
    };
    let b = match relay {
        Ok(b) => b,
        Err(e) => {
            return Err(prefixed("Failed to configure SMTP relay: ", smtp_error_text(&e)));
        },
    };
    let b = with_port(b, config.smtp_port);
    let b = match wrapper_params {
        Some(p) => with_tls_wrapper(b, p),
        None => match plan.tls {
            TlsOverride::Opportunistic => match tls_parameters(config.smtp_host.clone()) {
                Ok(p) => with_tls_opportunistic(b, p),
                Err(e) => {
                    return Err(prefixed("Failed to build TLS parameters: ", smtp_error_text(&e)));
                },
            },
            _ => b,
        },
    };
    assert(transport_settings(b) =~= Map::empty()
        .insert("server"@, config.smtp_host@)
        .insert("port"@, decimal_text(config.smtp_port as nat))
        .insert("tls"@, plan_tls(plan))
        .insert("tls_domain"@, config.smtp_host@));
    if plan.with_credentials {
        Ok(with_login(b, config.smtp_username.clone(), config.smtp_password.clone()))
    } else {
        Ok(b)
    }
}

} // verus!
