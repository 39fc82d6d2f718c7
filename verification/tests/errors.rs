use postcrate_core::error::Error;
use postcrate_core::http::error::into_response;

fn s(t: &str) -> String {
    t.to_string()
}

#[test]
fn every_error_has_its_status_code_and_message() {
    let all: Vec<(Error, u16, &str, &str)> = vec![
        (Error::Db(s("x")), 500, "db_error", "database error: x"),
        (Error::Migrate(s("x")), 500, "db_error", "database migration error: x"),
        (Error::Io(s("x")), 500, "io_error", "io error: x"),
        (Error::Json(s("x")), 500, "json_error", "json error: x"),
        (Error::Parse(s("x")), 400, "parse_error", "parse error: x"),
        (Error::MailboxNotFound(s("x")), 404, "mailbox_not_found", "mailbox not found: x"),
        (Error::EmailNotFound(s("x")), 404, "email_not_found", "email not found: x"),
        (Error::AttachmentNotFound(s("x")), 404, "attachment_not_found", "attachment not found: x"),
        (
            Error::BounceRuleNotFound(s("x")),
            404,
            "bounce_rule_not_found",
            "bounce rule not found: x",
        ),
        (Error::PortInUse(25), 409, "port_in_use", "port 25 is already in use"),
        (Error::PortOutOfRange(0), 400, "port_out_of_range", "port 0 not in allowed range"),
        (
            Error::PortRangeExhausted,
            503,
            "port_range_exhausted",
            "ephemeral port range exhausted",
        ),
        (
            Error::DuplicateMailbox(s("x")),
            409,
            "duplicate_mailbox",
            "mailbox name 'x' already exists in project",
        ),
        (Error::SmtpProto(s("x")), 500, "smtp_proto", "smtp protocol error: x"),
        (Error::Invalid(s("x")), 400, "invalid_input", "invalid input: x"),
        (Error::NotImplemented("x"), 501, "not_implemented", "not implemented: x"),
        (Error::Internal(s("x")), 500, "internal", "internal: x"),
    ];
    for (e, status, code, message) in all {
        assert_eq!(e.http_status(), status);
        assert_eq!(e.code(), code);
        assert_eq!(e.message(), message);
        let r = into_response(&e);
        assert_eq!(r.status, status);
        assert_eq!(r.is_internal, status >= 500);
        assert_eq!(r.body.get("error").unwrap().as_str(), Some(code));
        assert_eq!(r.body.get("message").unwrap().as_str(), Some(message));
    }
}
