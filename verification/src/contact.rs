use vstd::prelude::*;
use vstd::string::{StrSliceExecFns, StringExecFns};
use validator::ValidateEmail;

use http::HeaderMap;

use crate::rate_limit::{check_contact_rate_limit, rate_step, RateLimiter};
use crate::smtp::EmailData;
use crate::utils::{client_ip, first_value, get_client_ip};
use crate::validation::{fields_distinct, FormattedErrors, ValidationError, ValidationErrors, ValidationErrorsKind};

verus! {

/// A message sent through the contact form.
#[derive(Debug)]
pub struct ContactForm {
    pub name: String,
    pub email: Option<String>,
    pub phone: Option<String>,
    pub subject: Option<String>,
    pub message: String,
}

/// Whether the `validator` crate accepts `s` as an email address (the
/// HTML5 form of an address, or an internationalised domain that converts
/// to one).
pub uninterp spec fn email_accepted(s: Seq<char>) -> bool;

/// `validator::ValidateEmail::validate_email` on a string slice. Claims
/// that the answer is determined by the text alone, and that a text without
/// `@` is never accepted (the function rejects it before anything else).
#[verifier::external_body]
fn email_is_valid(s: &str) -> (r: bool)
    ensures
        r == email_accepted(s@),
        !s@.contains('@') ==> !r,
{
    s.validate_email()
}

/// Whether the character count of `s` lies between `min` and `max`.
pub open spec fn length_between(s: Seq<char>, min: int, max: int) -> bool {
    min <= s.len() <= max
}

/// A failed check: the field, the code of the check, and its message.
pub type Failure = (Seq<char>, Seq<char>, Seq<char>);

/// The failed field checks of a form, in field order: `name` of 2 to 100
/// characters, `email` (when given) an accepted address, `subject` (when
/// given) of 2 to 200 characters, `message` of 10 to 1000 characters.
pub open spec fn field_failures(
    name: Seq<char>,
    email: Option<Seq<char>>,
    subject: Option<Seq<char>>,
    message: Seq<char>,
) -> Seq<Failure> {
    let name_f: Seq<Failure> = if length_between(name, 2, 100) {
        Seq::empty()
    } else {
        seq![("name"@, "length"@, "Name must be between 2 and 100 characters"@)]
    };
    let email_f: Seq<Failure> = match email {
        Some(e) => if email_accepted(e) {
            Seq::empty()
        } else {
            seq![("email"@, "email"@, "Please enter a valid email address"@)]
        },
        None => Seq::empty(),
    };
    let subject_f: Seq<Failure> = match subject {
        Some(s) => if length_between(s, 2, 200) {
            Seq::empty()
        } else {
            seq![("subject"@, "length"@, "Subject must be between 2 and 200 characters"@)]
        },
        None => Seq::empty(),
    };
    let message_f: Seq<Failure> = if length_between(message, 10, 1000) {
        Seq::empty()
    } else {
        seq![("message"@, "length"@, "Message must be between 10 and 1000 characters"@)]
    };
    name_f + email_f + subject_f + message_f
}

/// All failed checks of a form: its field failures, or, when there are
/// none, the form-level failure (recorded under `__all__`) of giving
/// neither an email address nor a phone number.
pub open spec fn failures_of(
    name: Seq<char>,
    email: Option<Seq<char>>,
    phone: Option<Seq<char>>,
    subject: Option<Seq<char>>,
    message: Seq<char>,
) -> Seq<Failure> {
    let fields = field_failures(name, email, subject, message);
    if fields.len() > 0 {
        fields
    } else if email is None && phone is None {
        seq![("__all__"@, "contact_required"@, "Please provide at least one of email or phone number"@)]
    } else {
        Seq::empty()
    }
}

/// All failed checks of the form `f`.
pub open spec fn contact_failures(f: ContactForm) -> Seq<Failure> {
    failures_of(f.name@, opt_view(f.email), opt_view(f.phone), opt_view(f.subject), f.message@)
}

/// A form that passes every check has a name of 2 to 100 characters, a
/// message of 10 to 1000, a subject (when given) of 2 to 200, an accepted
/// email address when one is given, and an email address or a phone
/// number.
pub proof fn law_valid_form_meets_checks(f: ContactForm)
    requires
        contact_failures(f).len() == 0,
    ensures
        length_between(f.name@, 2, 100),
        length_between(f.message@, 10, 1000),
        f.subject matches Some(s) ==> length_between(s@, 2, 200),
        f.email matches Some(e) ==> email_accepted(e@),
        f.email is Some || f.phone is Some,
{
}

/// A form that meets every check passes them all: a name of 2 to 100
/// characters, a message of 10 to 1000, a subject (when given) of 2 to 200,
/// an accepted email address when one is given, and an email address or a
/// phone number (either, or both) leave nothing to report.
pub proof fn law_form_meeting_checks_passes(f: ContactForm)
    requires
        length_between(f.name@, 2, 100),
        length_between(f.message@, 10, 1000),
        f.subject matches Some(s) ==> length_between(s@, 2, 200),
        f.email matches Some(e) ==> email_accepted(e@),
        f.email is Some || f.phone is Some,
    ensures
        contact_failures(f).len() == 0,
{
}

proof fn lemma_failure_fields_distinct(
    name: Seq<char>,
    email: Option<Seq<char>>,
    phone: Option<Seq<char>>,
    subject: Option<Seq<char>>,
    message: Seq<char>,
)
    ensures
        forall|i: int, j: int| 0 <= i < failures_of(name, email, phone, subject, message).len() && 0 <= j < failures_of(name, email, phone, subject, message).len() && i != j ==> #[trigger] failures_of(name, email, phone, subject, message)[i].0 != #[trigger] failures_of(name, email, phone, subject, message)[j].0,
{
    reveal_strlit("name");
    reveal_strlit("email");
    reveal_strlit("subject");
    reveal_strlit("message");
    assert("name"@.len() == 4);
    assert("email"@.len() == 5);
    assert("subject"@[0] == 's');
    assert("message"@[0] == 'm');
    let f = field_failures(name, email, subject, message);
    assert(f.len() <= 4);
    assert forall|i: int, j: int| 0 <= i < f.len() && 0 <= j < f.len() && i < j implies #[trigger] f[i].0 != #[trigger] f[j].0 by {
        assert(f[i].0 == "name"@ || f[i].0 == "email"@ || f[i].0 == "subject"@ || f[i].0 == "message"@);
    }
}

/// `errors` records exactly `failures`, in order, each as the one check
/// failed on its field.
pub open spec fn records_failures(errors: ValidationErrors, failures: Seq<Failure>) -> bool {
    &&& errors.0@.len() == failures.len()
    &&& forall|i: int| 0 <= i < failures.len() ==> {
        let (field, kind) = #[trigger] errors.0@[i];
        &&& field@ == failures[i].0
        &&& kind matches ValidationErrorsKind::Field(errs)
        &&& errs@.len() == 1
        &&& errs@[0].code@ == failures[i].1
        &&& errs@[0].message matches Some(m)
        &&& m@ == failures[i].2
    }
}

/// The record of one failed check on `field`.
fn failure(field: &str, code: &str, message: &str) -> (r: (String, ValidationErrorsKind))
    ensures
        r.0@ == field@,
        ({
            &&& r.1 matches ValidationErrorsKind::Field(errs)
            &&& errs@.len() == 1
            &&& errs@[0].code@ == code@
            &&& errs@[0].message matches Some(m)
            &&& m@ == message@
        }),
{
    let mut errs: Vec<ValidationError> = Vec::new();
    errs.push(ValidationError { code: code.to_owned(), message: Some(message.to_owned()) });
    (field.to_owned(), ValidationErrorsKind::Field(errs))
}

impl ContactForm {
    /// Checks the form: `Ok` when no check fails, else every failed check.
    pub fn validate(&self) -> (r: Result<(), ValidationErrors>)
        ensures
            r is Ok <==> contact_failures(*self).len() == 0,
            r matches Err(e) ==> records_failures(e, contact_failures(*self)),
            r matches Err(e) ==> fields_distinct(e.0@),
            self.email matches Some(e) ==> (!e@.contains('@') ==> (r is Err && !email_accepted(e@))),
    {
        let ghost failures = field_failures(
            self.name@,
            opt_view(self.email),
            opt_view(self.subject),
            self.message@,
        );
        let mut errors: Vec<(String, ValidationErrorsKind)> = Vec::new();
        let name_len: usize = self.name.as_str().unicode_len();
        if !(2 <= name_len && name_len <= 100) {
            errors.push(failure("name", "length", "Name must be between 2 and 100 characters"));
        }
        match &self.email {
            Some(e) => {
                if !email_is_valid(e.as_str()) {
                    errors.push(failure("email", "email", "Please enter a valid email address"));
                }
            },
            None => {},
        }
        match &self.subject {
            Some(s) => {
                let n: usize = s.as_str().unicode_len();
                if !(2 <= n && n <= 200) {
                    errors.push(failure("subject", "length", "Subject must be between 2 and 200 characters"));
                }
            },
            None => {},
        }
        let message_len: usize = self.message.as_str().unicode_len();
        if !(10 <= message_len && message_len <= 1000) {
            errors.push(failure("message", "length", "Message must be between 10 and 1000 characters"));
        }
        proof {
            assert(records_failures(ValidationErrors(errors), failures));
        }
        if errors.len() == 0 && self.email.is_none() && self.phone.is_none() {
            errors.push(failure("__all__", "contact_required", "Please provide at least one of email or phone number"));
        }
        proof {
            lemma_failure_fields_distinct(
                self.name@,
                opt_view(self.email),
                opt_view(self.phone),
                opt_view(self.subject),
                self.message@,
            );
        }
        if errors.len() == 0 {
            Ok(())
        } else {
            assert(records_failures(ValidationErrors(errors), contact_failures(*self)));
            assert forall|i: int, j: int| 0 <= i < errors@.len() && 0 <= j < errors@.len() && i != j implies #[trigger] errors@[i].0@ != #[trigger] errors@[j].0@ by {
                assert(errors@[i].0@ == contact_failures(*self)[i].0);
                assert(errors@[j].0@ == contact_failures(*self)[j].0);
            }
            Err(ValidationErrors(errors))
        }
    }

    /// Starts building a form for the sender `name`.
    pub fn builder(name: &str) -> (r: ContactFormBuilder)
        ensures
            r.spec_name() == name@,
            r.spec_email() is None,
            r.spec_phone() is None,
            r.spec_subject() is None,
            r.spec_message() is None,
            r.spec_extras().len() == 0,
    {
        ContactFormBuilder::new(name)
    }
}

impl From<ContactForm> for EmailData {
    fn from(value: ContactForm) -> (r: EmailData) {
        EmailData {
            name: value.name,
            email: value.email,
            phone: value.phone,
            subject: value.subject,
            message: value.message,
        }
    }
}

impl vstd::std_specs::convert::FromSpecImpl<ContactForm> for EmailData {
    open spec fn obeys_from_spec() -> bool {
        true
    }

    /// Every field of the form carries over unchanged.
    open spec fn from_spec(v: ContactForm) -> EmailData {
        email_data_of(v)
    }
}

/// The email data for a form: every field carried over unchanged.
pub open spec fn email_data_of(v: ContactForm) -> EmailData {
    EmailData {
        name: v.name,
        email: v.email,
        phone: v.phone,
        subject: v.subject,
        message: v.message,
    }
}

/// `key: value`, the line that an extra field adds to the message.
pub open spec fn extra_line(kv: (Seq<char>, Seq<char>)) -> Seq<char> {
    kv.0 + ": "@ + kv.1
}

/// The pieces `parts` joined with `sep` between each two.
pub open spec fn join_with(parts: Seq<Seq<char>>, sep: Seq<char>) -> Seq<char>
    decreases parts.len(),
{
    if parts.len() == 0 {
        Seq::empty()
    } else if parts.len() == 1 {
        parts[0]
    } else {
        join_with(parts.drop_last(), sep) + sep + parts.last()
    }
}

/// The message body a builder assembles: the extra fields, one
/// `key: value` line each, then the explicit message, the two parts
/// separated by a blank line.
pub open spec fn assembled_message(extras: Seq<(Seq<char>, Seq<char>)>, explicit: Option<Seq<char>>) -> Seq<char> {
    let extras_part: Seq<Seq<char>> = if extras.len() > 0 {
        seq![join_with(extras.map_values(|kv: (Seq<char>, Seq<char>)| extra_line(kv)), "\n"@)]
    } else {
        Seq::empty()
    };
    let message_part: Seq<Seq<char>> = match explicit {
        Some(m) => seq![m],
        None => Seq::empty(),
    };
    join_with(extras_part + message_part, "\n\n"@)
}

/// How a message is assembled from the extra fields and the explicit
/// message: with neither it is empty, with only a message it is that
/// message, one extra field gives its `key: value` line, each further extra
/// field adds a line break and its own line, and an explicit message comes
/// after the extra lines, one blank line between them.
pub proof fn law_assembled_message_shape(extras: Seq<(Seq<char>, Seq<char>)>, kv: (Seq<char>, Seq<char>), m: Seq<char>)
    ensures
        assembled_message(Seq::empty(), None) == Seq::<char>::empty(),
        assembled_message(Seq::empty(), Some(m)) == m,
        assembled_message(seq![kv], None) == kv.0 + ": "@ + kv.1,
        extras.len() > 0 ==> assembled_message(extras.push(kv), None) == assembled_message(extras, None) + "\n"@ + (kv.0 + ": "@ + kv.1),
        extras.len() > 0 ==> assembled_message(extras, Some(m)) == assembled_message(extras, None) + "\n\n"@ + m,
{
    let no_extras = Seq::<(Seq<char>, Seq<char>)>::empty();
    let none_part = Seq::<Seq<char>>::empty();
    assert(none_part + none_part =~= none_part);
    assert(none_part + seq![m] =~= seq![m]);
    assert(assembled_message(no_extras, Some(m)) == join_with(seq![m], "\n\n"@));
    let one = seq![kv];
    let one_lines = one.map_values(|kv: (Seq<char>, Seq<char>)| extra_line(kv));
    assert(one_lines =~= seq![extra_line(kv)]);
    let one_x = join_with(one_lines, "\n"@);
    assert(seq![one_x] + none_part =~= seq![one_x]);
    if extras.len() > 0 {
        let lines = extras.map_values(|kv: (Seq<char>, Seq<char>)| extra_line(kv));
        let more = extras.push(kv).map_values(|kv: (Seq<char>, Seq<char>)| extra_line(kv));
        assert(more =~= lines.push(extra_line(kv)));
        assert(more.drop_last() =~= lines);
        let x = join_with(lines, "\n"@);
        let y = join_with(more, "\n"@);
        assert(y == x + "\n"@ + extra_line(kv));
        assert(seq![x] + none_part =~= seq![x]);
        assert(seq![y] + none_part =~= seq![y]);
        assert(assembled_message(extras, None) == x);
        assert(assembled_message(extras.push(kv), None) == y);
        let both = seq![x] + seq![m];
        assert(both.drop_last() =~= seq![x]);
        assert(join_with(both, "\n\n"@) == x + "\n\n"@ + m);
    }
}

/// Turning a form into email data keeps every field as it is: the name,
/// email address, phone number, subject and message of the data are those
/// of the form, each whatever the others hold.
pub proof fn law_email_data_keeps_every_field(f: ContactForm)
    ensures
        email_data_of(f).name == f.name,
        email_data_of(f).email == f.email,
        email_data_of(f).phone == f.phone,
        email_data_of(f).subject == f.subject,
        email_data_of(f).message == f.message,
{
}

/// The contents of an optional string.
pub open spec fn opt_view(s: Option<String>) -> Option<Seq<char>> {
    match s {
        Some(v) => Some(v@),
        None => None,
    }
}

/// Collects the parts of a contact form, then checks it.
pub struct ContactFormBuilder {
    name: String,
    email: Option<String>,
    phone: Option<String>,
    subject: Option<String>,
    explicit_message: Option<String>,
    extras: Vec<(String, String)>,
}

impl ContactFormBuilder {
    /// The sender's name.
    pub closed spec fn spec_name(&self) -> Seq<char> {
        self.name@
    }

    /// The sender's email address, if given.
    pub closed spec fn spec_email(&self) -> Option<Seq<char>> {
        opt_view(self.email)
    }

    /// The sender's phone number, if given.
    pub closed spec fn spec_phone(&self) -> Option<Seq<char>> {
        opt_view(self.phone)
    }

    /// The subject, if given.
    pub closed spec fn spec_subject(&self) -> Option<Seq<char>> {
        opt_view(self.subject)
    }

    /// The explicit message text, if a non-empty one was given.
    pub closed spec fn spec_message(&self) -> Option<Seq<char>> {
        opt_view(self.explicit_message)
    }

    /// The extra fields, as (key, value) pairs in the order given.
    pub closed spec fn spec_extras(&self) -> Seq<(Seq<char>, Seq<char>)> {
        self.extras@.map_values(|kv: (String, String)| (kv.0@, kv.1@))
    }

    /// Every failed check of the form that this builder describes.
    pub open spec fn spec_failures(&self) -> Seq<Failure> {
        failures_of(
            self.spec_name(),
            self.spec_email(),
            self.spec_phone(),
            self.spec_subject(),
            assembled_message(self.spec_extras(), self.spec_message()),
        )
    }

    /// A builder for the sender `name`, with nothing else set.
    pub fn new(name: &str) -> (r: ContactFormBuilder)
        ensures
            r.spec_name() == name@,
            r.spec_email() is None,
            r.spec_phone() is None,
            r.spec_subject() is None,
            r.spec_message() is None,
            r.spec_extras().len() == 0,
    {
        ContactFormBuilder {
            name: name.to_owned(),
            email: None,
            phone: None,
            subject: None,
            explicit_message: None,
            extras: Vec::new(),
        }
    }

    /// Sets the email address, replacing any earlier one.
    pub fn email(self, v: &str) -> (r: ContactFormBuilder)
        ensures
            r.spec_email() == Some(v@),
            r.spec_name() == self.spec_name(),
            r.spec_phone() == self.spec_phone(),
            r.spec_subject() == self.spec_subject(),
            r.spec_message() == self.spec_message(),
            r.spec_extras() == self.spec_extras(),
    {
        ContactFormBuilder { email: Some(v.to_owned()), ..self }
    }

    /// Sets or clears the email address, replacing any earlier one.
    pub fn email_opt(self, v: Option<String>) -> (r: ContactFormBuilder)
        ensures
            r.spec_email() == opt_view(v),
            r.spec_name() == self.spec_name(),
            r.spec_phone() == self.spec_phone(),
            r.spec_subject() == self.spec_subject(),
            r.spec_message() == self.spec_message(),
            r.spec_extras() == self.spec_extras(),
    {
        ContactFormBuilder { email: v, ..self }
    }

    /// Sets the phone number, replacing any earlier one.
    pub fn phone(self, v: &str) -> (r: ContactFormBuilder)
        ensures
            r.spec_phone() == Some(v@),
            r.spec_name() == self.spec_name(),
            r.spec_email() == self.spec_email(),
            r.spec_subject() == self.spec_subject(),
            r.spec_message() == self.spec_message(),
            r.spec_extras() == self.spec_extras(),
    {
        ContactFormBuilder { phone: Some(v.to_owned()), ..self }
    }

    /// Sets or clears the phone number, replacing any earlier one.
    pub fn phone_opt(self, v: Option<String>) -> (r: ContactFormBuilder)
        ensures
            r.spec_phone() == opt_view(v),
            r.spec_name() == self.spec_name(),
            r.spec_email() == self.spec_email(),
            r.spec_subject() == self.spec_subject(),
            r.spec_message() == self.spec_message(),
            r.spec_extras() == self.spec_extras(),
    {
        ContactFormBuilder { phone: v, ..self }
    }

    /// Sets the subject, replacing any earlier one.
    pub fn subject(self, v: &str) -> (r: ContactFormBuilder)
        ensures
            r.spec_subject() == Some(v@),
            r.spec_name() == self.spec_name(),
            r.spec_email() == self.spec_email(),
            r.spec_phone() == self.spec_phone(),
            r.spec_message() == self.spec_message(),
            r.spec_extras() == self.spec_extras(),
    {
        ContactFormBuilder { subject: Some(v.to_owned()), ..self }
    }

    /// Sets the explicit message text; an empty text leaves the builder as
    /// it was.
    pub fn message(self, v: &str) -> (r: ContactFormBuilder)
        ensures
            r.spec_message() == (if v@.len() == 0 { self.spec_message() } else { Some(v@) }),
            r.spec_name() == self.spec_name(),
            r.spec_email() == self.spec_email(),
            r.spec_phone() == self.spec_phone(),
            r.spec_subject() == self.spec_subject(),
            r.spec_extras() == self.spec_extras(),
    {
        if v.is_empty() {
            self
        } else {
            ContactFormBuilder { explicit_message: Some(v.to_owned()), ..self }
        }
    }

    /// Adds a `key: value` line to the message body, after those added
    /// before.
    pub fn extra(self, key: &str, val: &str) -> (r: ContactFormBuilder)
        ensures
            r.spec_extras() == self.spec_extras().push((key@, val@)),
            r.spec_name() == self.spec_name(),
            r.spec_email() == self.spec_email(),
            r.spec_phone() == self.spec_phone(),
            r.spec_subject() == self.spec_subject(),
            r.spec_message() == self.spec_message(),
    {
        let mut b = self;
        b.extras.push((key.to_owned(), val.to_owned()));
        proof {
            assert(b.spec_extras() =~= self.spec_extras().push((key@, val@)));
        }
        b
    }

    /// The message body: the extra lines joined by newlines, then the
    /// explicit message, with a blank line between the two parts.
    fn assemble_message(&self) -> (r: String)
        ensures
            r@ == assembled_message(self.spec_extras(), self.spec_message()),
    {
        let ghost lines = self.spec_extras().map_values(|kv: (Seq<char>, Seq<char>)| extra_line(kv));
        let mut extras_str = String::new();
        let mut i: usize = 0;
        while i < self.extras.len()
            invariant
                i <= self.extras@.len(),
                lines == self.spec_extras().map_values(|kv: (Seq<char>, Seq<char>)| extra_line(kv)),
                extras_str@ == join_with(lines.take(i as int), "\n"@),
            decreases self.extras.len() - i,
        {
            assert(lines.take(i + 1).drop_last() =~= lines.take(i as int));
            if i > 0 {
                extras_str.append("\n");
            }
            extras_str.append(self.extras[i].0.as_str());
            extras_str.append(": ");
            extras_str.append(self.extras[i].1.as_str());
            proof {
                assert(lines[i as int] == extra_line(self.spec_extras()[i as int]));
                if i == 0 {
                    assert(join_with(lines.take(1), "\n"@) == lines.take(1)[0]);
                }
            }
            i = i + 1;
        }
        assert(lines.take(self.extras@.len() as int) =~= lines);
        let mut out = String::new();
        let has_extras = self.extras.len() > 0;
        if has_extras {
            out.append(extras_str.as_str());
        }
        match &self.explicit_message {
            Some(m) => {
                if has_extras {
                    out.append("\n\n");
                }
                out.append(m.as_str());
            },
            None => {},
        }
        proof {
            let extras_part: Seq<Seq<char>> = if self.spec_extras().len() > 0 {
                seq![join_with(lines, "\n"@)]
            } else {
                Seq::empty()
            };
            let message_part: Seq<Seq<char>> = match self.spec_message() {
                Some(m) => seq![m],
                None => Seq::empty(),
            };
            let parts = extras_part + message_part;
            assert(extras_str@ == join_with(lines, "\n"@));
            if parts.len() == 2 {
                assert(parts.drop_last() =~= extras_part);
                assert(join_with(parts.drop_last(), "\n\n"@) == extras_str@);
                assert(parts.last() == self.spec_message()->0);
            } else if parts.len() == 1 {
                if has_extras {
                    assert(parts[0] == extras_str@);
                } else {
                    assert(parts[0] == self.spec_message()->0);
                }
            } else {
                assert(parts.len() == 0);
            }
            assert(out@ == join_with(parts, "\n\n"@));
        }
        out
    }

    /// Assembles the message and checks the form: the form when every check
    /// passes, else every failed check.
    pub fn build(self) -> (r: Result<ContactForm, ValidationErrors>)
        ensures
            r is Ok <==> self.spec_failures().len() == 0,
            r matches Ok(f) ==> {
                &&& f.name@ == self.spec_name()
                &&& opt_view(f.email) == self.spec_email()
                &&& opt_view(f.phone) == self.spec_phone()
                &&& opt_view(f.subject) == self.spec_subject()
                &&& f.message@ == assembled_message(self.spec_extras(), self.spec_message())
            },
            r matches Err(e) ==> records_failures(e, self.spec_failures()),
            r matches Err(e) ==> fields_distinct(e.0@),
    {
        let message = self.assemble_message();
        let form = ContactForm {
            name: self.name,
            email: self.email,
            phone: self.phone,
            subject: self.subject,
            message,
        };
        match form.validate() {
            Ok(()) => Ok(form),
            Err(e) => Err(e),
        }
    }
}

/// Building checks the assembled form exactly as `validate` checks a form:
/// a form with the builder's fields and its assembled message fails the
/// same checks as the builder reports.
pub proof fn law_build_checks_as_validate(b: ContactFormBuilder, f: ContactForm)
    requires
        f.name@ == b.spec_name(),
        opt_view(f.email) == b.spec_email(),
        opt_view(f.phone) == b.spec_phone(),
        opt_view(f.subject) == b.spec_subject(),
        f.message@ == assembled_message(b.spec_extras(), b.spec_message()),
    ensures
        contact_failures(f) == b.spec_failures(),
{
}

// ── Submitting ────────────────────────────────────────────────────────────

/// The answer to a contact-form submission.
#[derive(Debug, Clone)]
pub struct ContactResponse {
    pub success: bool,
    pub message: String,
    pub errors: Option<FormattedErrors>,
}

/// A failed submission answered with `message` and no field errors.
fn refusal(message: &str) -> (r: ContactResponse)
    ensures
        !r.success,
        r.message@ == message@,
        r.errors is None,
{
    ContactResponse { success: false, message: message.to_owned(), errors: None }
}

/// What to do with a submission once its sender has been counted.
pub enum SubmitAction {
    /// Answer at once.
    Respond(ContactResponse),
    /// Send this email, then answer by `submit_contact_finish`.
    Send(EmailData),
}

/// The address whose request count a submission with `headers` is charged
/// to.
pub open spec fn sender_key(headers: HeaderMap) -> Seq<char> {
    client_ip(first_value(headers, "X-Forwarded-For"@), first_value(headers, "X-Real-Ip"@))
}

/// The first step of handling a submission: charges it to the client's
/// address (as `get_client_ip` finds it) at time `now`; refuses it with
/// `Too many requests. Please try again later.` over the limit, else asks
/// for the form to be sent as an email.
pub fn submit_contact_start(limits: &mut RateLimiter, headers: &HeaderMap, form: ContactForm, now: u64) -> (r: SubmitAction)
    ensures
        final(limits).entry(sender_key(*headers)) == Some(rate_step(old(limits).entry(sender_key(*headers)), now).1),
        forall|k: Seq<char>| k != sender_key(*headers) ==> #[trigger] final(limits).entry(k) == old(limits).entry(k),
        rate_step(old(limits).entry(sender_key(*headers)), now).0 ==> (r matches SubmitAction::Send(d) && d == email_data_of(form)),
        !rate_step(old(limits).entry(sender_key(*headers)), now).0 ==> (r matches SubmitAction::Respond(resp) && !resp.success && resp.errors is None && resp.message@ == "Too many requests. Please try again later."@),
{
    let ip = get_client_ip(headers);
    if !check_contact_rate_limit(limits, ip.as_str(), now) {
        return SubmitAction::Respond(refusal("Too many requests. Please try again later."));
    }
    SubmitAction::Send(EmailData::from(form))
}

/// The last step of handling a submission: the answer once the email was
/// sent (`Message sent successfully!`) or failed to send
/// (`Failed to send message. Please try again later.`).
pub fn submit_contact_finish(sent: &Result<(), String>) -> (r: ContactResponse)
    ensures
        r.success == sent is Ok,
        r.errors is None,
        sent is Ok ==> r.message@ == "Message sent successfully!"@,
        sent is Err ==> r.message@ == "Failed to send message. Please try again later."@,
{
    match sent {
        Ok(()) => ContactResponse { success: true, message: "Message sent successfully!".to_owned(), errors: None },
        Err(_) => refusal("Failed to send message. Please try again later."),
    }
}

} // verus!
