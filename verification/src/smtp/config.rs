use vstd::prelude::*;

use crate::config::EnvVars;
use crate::logging::env_or;
use crate::text::{ascii_lower, chars_of, lower_equals, string_or};

verus! {

/// How the connection to the SMTP server is secured.
#[derive(Debug, Clone, Copy, PartialEq, Eq, Structural)]
pub enum SmtpSecurity {
    /// Plain connection upgraded with a mandatory STARTTLS.
    StartTls,
    /// Connection wrapped in TLS from the start.
    Tls,
    /// Plain connection, upgraded with STARTTLS when the server offers it.
    Plain,
}

/// The security mode named by `s`, compared without regard to ASCII case.
pub open spec fn security_named(s: Seq<char>) -> Option<SmtpSecurity> {
    let l = ascii_lower(s);
    if l == seq!['t', 'l', 's'] || l == seq!['w', 'r', 'a', 'p', 'p', 'e', 'r']
        || l == seq!['i', 'm', 'p', 'l', 'i', 'c', 'i', 't'] {
        Some(SmtpSecurity::Tls)
    } else if l == seq!['s', 't', 'a', 'r', 't', 't', 'l', 's']
        || l == seq!['s', 't', 'a', 'r', 't', '_', 't', 'l', 's'] {
        Some(SmtpSecurity::StartTls)
    } else {
        None
    }
}

/// Security mode names ignore ASCII case: a name and its lower-case form
/// select the same mode.
pub proof fn law_security_name_ignores_case(s: Seq<char>)
    ensures
        security_named(s) == security_named(ascii_lower(s)),
{
    assert(ascii_lower(ascii_lower(s)) =~= ascii_lower(s));
}

/// The port that a security mode uses unless told otherwise.
pub open spec fn security_port(s: SmtpSecurity) -> u16 {
    match s {
        SmtpSecurity::Tls => 465,
        SmtpSecurity::StartTls => 587,
        SmtpSecurity::Plain => 587,
    }
}

impl SmtpSecurity {
    /// Parses a security mode name: `tls`, `wrapper` or `implicit` for TLS,
    /// `starttls` or `start_tls` for STARTTLS; ASCII case does not matter.
    /// No name selects `Plain`.
    pub fn from_security_str(s: &str) -> (r: Option<SmtpSecurity>)
        ensures
            r == security_named(s@),
    {
        let v = chars_of(s);
        if lower_equals(&v, &['t', 'l', 's']) || lower_equals(&v, &['w', 'r', 'a', 'p', 'p', 'e', 'r'])
            || lower_equals(&v, &['i', 'm', 'p', 'l', 'i', 'c', 'i', 't']) {
            Some(SmtpSecurity::Tls)
        } else if lower_equals(&v, &['s', 't', 'a', 'r', 't', 't', 'l', 's'])
            || lower_equals(&v, &['s', 't', 'a', 'r', 't', '_', 't', 'l', 's']) {
            Some(SmtpSecurity::StartTls)
        } else {
            None
        }
    }

    /// 465 for TLS, 587 for the two STARTTLS modes.
    pub fn default_port(&self) -> (r: u16)
        ensures
            r == security_port(*self),
    {
        match self {
            SmtpSecurity::Tls => 465,
            SmtpSecurity::StartTls => 587,
            SmtpSecurity::Plain => 587,
        }
    }
}

/// Whether `c` is an ASCII decimal digit.
pub open spec fn is_digit(c: char) -> bool {
    '0' <= c <= '9'
}

/// The number written by the decimal digits `s`.
pub open spec fn decimal_value(s: Seq<char>) -> nat
    decreases s.len(),
{
    if s.len() == 0 {
        0
    } else {
        decimal_value(s.drop_last()) * 10 + ((s.last() as u32) - ('0' as u32)) as nat
    }
}

/// Whether every character of `s` is an ASCII digit.
pub open spec fn all_digits(s: Seq<char>) -> bool {
    forall|i: int| 0 <= i < s.len() ==> is_digit(#[trigger] s[i])
}

/// `s` without one leading `+`.
pub open spec fn unsigned_part(s: Seq<char>) -> Seq<char> {
    if s.len() > 0 && s[0] == '+' {
        s.drop_first()
    } else {
        s
    }
}

/// What parsing `s` as a `u16` gives: an optional `+`, then at least one
/// ASCII digit and nothing else, for a value that fits in 16 bits.
pub open spec fn parse_u16(s: Seq<char>) -> Option<u16> {
    let digits = unsigned_part(s);
    if digits.len() > 0 && all_digits(digits) && decimal_value(digits) <= u16::MAX {
        Some(decimal_value(digits) as u16)
    } else {
        None
    }
}

proof fn lemma_decimal_value_grows(s: Seq<char>, n: int)
    requires
        0 <= n <= s.len(),
        all_digits(s),
    ensures
        decimal_value(s.take(n)) <= decimal_value(s),
    decreases s.len() - n,
{
    if n < s.len() {
        lemma_decimal_value_grows(s, n + 1);
        assert(s.take(n + 1).drop_last() =~= s.take(n));
    } else {
        assert(s.take(n) =~= s);
    }
}

/// Parses a port number as `str::parse::<u16>` does.
pub fn parse_port(s: &str) -> (r: Option<u16>)
    ensures
        r == parse_u16(s@),
{
    let v = chars_of(s);
    let start: usize = if v.len() > 0 && v[0] == '+' { 1 } else { 0 };
    let ghost digits = unsigned_part(s@);
    assert(digits =~= v@.skip(start as int));
    if start == v.len() {
        return None;
    }
    let mut value: u32 = 0;
    let mut i: usize = start;
    while i < v.len()
        invariant
            start <= i <= v.len(),
            v@ == s@,
            digits =~= v@.skip(start as int),
            digits == unsigned_part(s@),
            forall|j: int| start <= j < i ==> is_digit(#[trigger] v@[j]),
            value as nat == decimal_value(v@.subrange(start as int, i as int)),
            value <= u16::MAX,
        decreases v.len() - i,
    {
        let c = v[i];
        if !(c >= '0' && c <= '9') {
            assert(!is_digit(digits[i - start]));
            assert(!all_digits(digits));
            return None;
        }
        assert(v@.subrange(start as int, i + 1).drop_last() =~= v@.subrange(start as int, i as int));
        let d: u32 = (c as u32) - ('0' as u32);
        value = value * 10 + d;
        if value > 65535 {
            proof {
                if all_digits(digits) {
                    assert(v@.subrange(start as int, i + 1) =~= digits.take(i + 1 - start));
                    lemma_decimal_value_grows(digits, i + 1 - start);
                }
            }
            return None;
        }
        i = i + 1;
    }
    assert(v@.subrange(start as int, v.len() as int) =~= digits);
    assert(all_digits(digits));
    Some(value as u16)
}

/// The SMTP server connection and the addresses that contact mail uses.
pub struct SmtpConfig {
    pub smtp_host: String,
    pub smtp_port: u16,
    pub smtp_username: String,
    pub smtp_password: String,
    pub smtp_from: String,
    pub smtp_to: String,
    pub smtp_security: SmtpSecurity,
}

/// The security mode that the environment selects: a recognised
/// `SMTP_SECURITY`, else STARTTLS.
pub open spec fn env_security(env: &EnvVars) -> SmtpSecurity {
    match env.smtp_security {
        Some(s) => match security_named(s@) {
            Some(m) => m,
            None => SmtpSecurity::StartTls,
        },
        None => SmtpSecurity::StartTls,
    }
}

/// The port that the environment selects: a valid `SMTP_PORT`, else the
/// default port of the security mode.
pub open spec fn env_port(env: &EnvVars) -> u16 {
    match env.smtp_port {
        Some(p) => match parse_u16(p@) {
            Some(n) => n,
            None => security_port(env_security(env)),
        },
        None => security_port(env_security(env)),
    }
}

/// What the environment selects: a recognised `SMTP_SECURITY` is used,
/// anything else (or nothing) means STARTTLS; an `SMTP_PORT` that parses
/// is used as it is, otherwise the port is 465 under TLS and 587 under the
/// other two modes.
pub proof fn law_env_selects_security_and_port(env: &EnvVars)
    ensures
        env.smtp_security matches Some(s) ==> (security_named(s@) matches Some(m) ==> env_security(env) == m),
        (env.smtp_security matches Some(s) ==> security_named(s@) is None) ==> env_security(env) == SmtpSecurity::StartTls,
        env.smtp_port matches Some(p) ==> (parse_u16(p@) matches Some(n) ==> env_port(env) == n),
        (env.smtp_port matches Some(p) ==> parse_u16(p@) is None) ==> env_port(env) == (if env_security(env) == SmtpSecurity::Tls { 465u16 } else { 587u16 }),
{
}

/// A port number reads the same with or without one leading `+`, and a
/// text with anything but digits after that `+` is no port number.
pub proof fn law_port_sign_and_digits(s: Seq<char>)
    ensures
        !(s.len() > 0 && s[0] == '+') ==> parse_u16(seq!['+'] + s) == parse_u16(s),
        (exists|i: int| 0 <= i < unsigned_part(s).len() && !is_digit(#[trigger] unsigned_part(s)[i])) ==> parse_u16(s) is None,
        unsigned_part(s).len() == 0 ==> parse_u16(s) is None,
{
    assert((seq!['+'] + s).drop_first() =~= s);
}

impl SmtpConfig {
    /// Every field as read from `env`, with the defaults `localhost`, empty
    /// credentials, `FAZuH Site <site@fazuh.com>` and `mail@fazuh.com`.
    pub open spec fn spec_matches_env(&self, env: &EnvVars) -> bool {
        &&& self.smtp_security == env_security(env)
        &&& self.smtp_port == env_port(env)
        &&& self.smtp_host@ == env_or(env.smtp_host, "localhost"@)
        &&& self.smtp_username@ == env_or(env.smtp_username, Seq::empty())
        &&& self.smtp_password@ == env_or(env.smtp_password, Seq::empty())
        &&& self.smtp_from@ == env_or(env.smtp_from, "FAZuH Site <site@fazuh.com>"@)
        &&& self.smtp_to@ == env_or(env.smtp_to, "mail@fazuh.com"@)
    }

    /// Reads the SMTP configuration from the given environment.
    pub fn new(env: &EnvVars) -> (r: SmtpConfig)
        ensures
            r.spec_matches_env(env),
    {
        let smtp_security = match &env.smtp_security {
            Some(s) => match SmtpSecurity::from_security_str(s.as_str()) {
                Some(m) => m,
                None => SmtpSecurity::StartTls,
            },
            None => SmtpSecurity::StartTls,
        };
        let smtp_port: u16 = match &env.smtp_port {
            Some(p) => match parse_port(p.as_str()) {
                Some(n) => n,
                None => smtp_security.default_port(),
            },
            None => smtp_security.default_port(),
        };
        proof {
            reveal_strlit("");
        }
        let r = SmtpConfig {
            smtp_host: string_or(&env.smtp_host, "localhost"),
            smtp_port,
            smtp_username: string_or(&env.smtp_username, ""),
            smtp_password: string_or(&env.smtp_password, ""),
            smtp_from: string_or(&env.smtp_from, "FAZuH Site <site@fazuh.com>"),
            smtp_to: string_or(&env.smtp_to, "mail@fazuh.com"),
            smtp_security,
        };
        assert(r.smtp_username@ == env_or(env.smtp_username, Seq::empty()));
        assert(r.smtp_password@ == env_or(env.smtp_password, Seq::empty()));
        r
    }
}

} // verus!
