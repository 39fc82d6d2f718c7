//! The error type of the crate, with the code and the HTTP status under which
//! the API reports it.

use vstd::prelude::*;
use vstd::string::*;

use crate::text::number;
use crate::text::words;

verus! {

/// Every fallible operation of the crate returns this. The variants that stand
/// for a failure outside the crate hold that failure's own message.
#[derive(Debug)]
pub enum Error {
    Db(String),
    Migrate(String),
    Io(String),
    Json(String),
    Parse(String),
    MailboxNotFound(String),
    EmailNotFound(String),
    AttachmentNotFound(String),
    BounceRuleNotFound(String),
    PortInUse(u16),
    PortOutOfRange(u16),
    PortRangeExhausted,
    DuplicateMailbox(String),
    SmtpProto(String),
    Invalid(String),
    NotImplemented(&'static str),
    Internal(String),
}

/// The short machine-readable code of an error.
pub open spec fn code_of(e: Error) -> Seq<char> {
    match e {
        Error::Db(_) => "db_error"@,
        Error::Migrate(_) => "db_error"@,
        Error::Io(_) => "io_error"@,
        Error::Json(_) => "json_error"@,
        Error::Parse(_) => "parse_error"@,
        Error::MailboxNotFound(_) => "mailbox_not_found"@,
        Error::EmailNotFound(_) => "email_not_found"@,
        Error::AttachmentNotFound(_) => "attachment_not_found"@,
        Error::BounceRuleNotFound(_) => "bounce_rule_not_found"@,
        Error::PortInUse(_) => "port_in_use"@,
        Error::PortOutOfRange(_) => "port_out_of_range"@,
        Error::PortRangeExhausted => "port_range_exhausted"@,
        Error::DuplicateMailbox(_) => "duplicate_mailbox"@,
        Error::SmtpProto(_) => "smtp_proto"@,
        Error::Invalid(_) => "invalid_input"@,
        Error::NotImplemented(_) => "not_implemented"@,
        Error::Internal(_) => "internal"@,
    }
}

/// The HTTP status of an error.
pub open spec fn status_of(e: Error) -> u16 {
    match e {
        Error::MailboxNotFound(_)
        | Error::EmailNotFound(_)
        | Error::AttachmentNotFound(_)
        | Error::BounceRuleNotFound(_) => 404,
        Error::DuplicateMailbox(_) | Error::PortInUse(_) => 409,
        Error::Invalid(_) | Error::Parse(_) | Error::PortOutOfRange(_) => 400,
        Error::NotImplemented(_) => 501,
        Error::PortRangeExhausted => 503,
        _ => 500,
    }
}

/// The sentence that describes an error to a person.
pub open spec fn message_of(e: Error) -> Seq<char> {
    match e {
        Error::Db(m) => "database error: "@ + m@,
        Error::Migrate(m) => "database migration error: "@ + m@,
        Error::Io(m) => "io error: "@ + m@,
        Error::Json(m) => "json error: "@ + m@,
        Error::Parse(m) => "parse error: "@ + m@,
        Error::MailboxNotFound(id) => "mailbox not found: "@ + id@,
        Error::EmailNotFound(id) => "email not found: "@ + id@,
        Error::AttachmentNotFound(id) => "attachment not found: "@ + id@,
        Error::BounceRuleNotFound(id) => "bounce rule not found: "@ + id@,
        Error::PortInUse(p) => "port "@ + number::decimal(p as nat) + " is already in use"@,
        Error::PortOutOfRange(p) => "port "@ + number::decimal(p as nat)
            + " not in allowed range"@,
        Error::PortRangeExhausted => "ephemeral port range exhausted"@,
        Error::DuplicateMailbox(n) => "mailbox name '"@ + n@ + "' already exists in project"@,
        Error::SmtpProto(m) => "smtp protocol error: "@ + m@,
        Error::Invalid(m) => "invalid input: "@ + m@,
        Error::NotImplemented(m) => "not implemented: "@ + m@,
        Error::Internal(m) => "internal: "@ + m@,
    }
}

impl Error {
    /// The HTTP status under which the API reports the error.
    pub fn http_status(&self) -> (r: u16)
        ensures
            r == status_of(*self),
    {
        match self {
            Error::MailboxNotFound(_)
            | Error::EmailNotFound(_)
            | Error::AttachmentNotFound(_)
            | Error::BounceRuleNotFound(_) => 404,
            Error::DuplicateMailbox(_) | Error::PortInUse(_) => 409,
            Error::Invalid(_) | Error::Parse(_) | Error::PortOutOfRange(_) => 400,
            Error::NotImplemented(_) => 501,
            Error::PortRangeExhausted => 503,
            _ => 500,
        }
    }

    /// The short machine-readable code for the `{error, message}` body.
    pub fn code(&self) -> (r: &'static str)
        ensures
            r@ == code_of(*self),
    {
        match self {
            Error::Db(_) | Error::Migrate(_) => "db_error",
            Error::Io(_) => "io_error",
            Error::Json(_) => "json_error",
            Error::Parse(_) => "parse_error",
            Error::MailboxNotFound(_) => "mailbox_not_found",
            Error::EmailNotFound(_) => "email_not_found",
            Error::AttachmentNotFound(_) => "attachment_not_found",
            Error::BounceRuleNotFound(_) => "bounce_rule_not_found",
            Error::PortInUse(_) => "port_in_use",
            Error::PortOutOfRange(_) => "port_out_of_range",
            Error::PortRangeExhausted => "port_range_exhausted",
            Error::DuplicateMailbox(_) => "duplicate_mailbox",
            Error::SmtpProto(_) => "smtp_proto",
            Error::Invalid(_) => "invalid_input",
            Error::NotImplemented(_) => "not_implemented",
            Error::Internal(_) => "internal",
        }
    }

    /// The sentence that describes the error to a person.
    pub fn message(&self) -> (r: String)
        ensures
            r@ == message_of(*self),
    {
        match self {
            Error::Db(m) => words::cat("database error: ", m.as_str()),
            Error::Migrate(m) => words::cat("database migration error: ", m.as_str()),
            Error::Io(m) => words::cat("io error: ", m.as_str()),
            Error::Json(m) => words::cat("json error: ", m.as_str()),
            Error::Parse(m) => words::cat("parse error: ", m.as_str()),
            Error::MailboxNotFound(id) => words::cat("mailbox not found: ", id.as_str()),
            Error::EmailNotFound(id) => words::cat("email not found: ", id.as_str()),
            Error::AttachmentNotFound(id) => words::cat("attachment not found: ", id.as_str()),
            Error::BounceRuleNotFound(id) => words::cat("bounce rule not found: ", id.as_str()),
            Error::PortInUse(p) => words::cat3(
                "port ",
                number::to_decimal(*p as u64).as_str(),
                " is already in use",
            ),
            Error::PortOutOfRange(p) => words::cat3(
                "port ",
                number::to_decimal(*p as u64).as_str(),
                " not in allowed range",
            ),
            Error::PortRangeExhausted => "ephemeral port range exhausted".to_owned(),
            Error::DuplicateMailbox(n) => words::cat3(
                "mailbox name '",
                n.as_str(),
                "' already exists in project",
            ),
            Error::SmtpProto(m) => words::cat("smtp protocol error: ", m.as_str()),
            Error::Invalid(m) => words::cat("invalid input: ", m.as_str()),
            Error::NotImplemented(m) => words::cat("not implemented: ", m),
            Error::Internal(m) => words::cat("internal: ", m.as_str()),
        }
    }
}

/// An error is never reported as a success, and never as a redirect.
pub proof fn law_errors_are_failures(e: Error)
    ensures
        400 <= status_of(e) < 600,
{
}

/// What is not there is reported as not found, what collides as a conflict, what is wrong
/// with a request as such, and all else as a failure of the engine.
pub proof fn law_statuses(e: Error)
    ensures
        status_of(e) == 404 <==> e is MailboxNotFound || e is EmailNotFound || e is AttachmentNotFound
            || e is BounceRuleNotFound,
        status_of(e) == 409 <==> e is DuplicateMailbox || e is PortInUse,
        status_of(e) == 400 <==> e is Invalid || e is Parse || e is PortOutOfRange,
        status_of(e) == 501 <==> e is NotImplemented,
        status_of(e) == 503 <==> e is PortRangeExhausted,
        status_of(e) == 500 <==> e is Db || e is Migrate || e is Io || e is Json || e is SmtpProto
            || e is Internal,
{
}

} // verus!
