use postcrate_core::error::Error;
use postcrate_core::fuzz;
use postcrate_core::mail::address::{parse_path, PathExtensions};

#[test]
fn bracketed() {
    let p = parse_path(" <a@b.com>").unwrap();
    assert_eq!(p.mailbox, "a@b.com");
}

#[test]
fn null_sender() {
    let p = parse_path("<>").unwrap();
    assert_eq!(p.mailbox, "");
}

#[test]
fn bare() {
    let p = parse_path("a@b.com SIZE=12 BODY=8BITMIME SMTPUTF8 X-NEW=foo").unwrap();
    assert_eq!(p.mailbox, "a@b.com");
    assert_eq!(p.extensions.size, Some(12));
    assert!(p.extensions.body_8bitmime);
    assert!(p.extensions.smtputf8);
    assert_eq!(p.extensions.extras[0].0, "X-NEW");
}

#[test]
fn quoted_local_part() {
    let p = parse_path("<\"strange@name\"@host>").unwrap();
    assert_eq!(p.mailbox, "\"strange@name\"@host");
}

#[test]
fn bracket_inside_quotes_does_not_close() {
    let p = parse_path("<\"a>b\"@host> SIZE=1").unwrap();
    assert_eq!(p.mailbox, "\"a>b\"@host");
    assert_eq!(p.extensions.size, Some(1));
}

#[test]
fn escaped_quote_does_not_end_the_quotes() {
    let p = parse_path("<\"a\\\">b\"@host>").unwrap();
    assert_eq!(p.mailbox, "\"a\\\">b\"@host");
}

#[test]
fn unterminated_path_is_refused() {
    match parse_path("<a@b.com") {
        Err(Error::SmtpProto(m)) => assert_eq!(m, "unterminated <...> in path"),
        other => panic!("got {:?}", other),
    }
    assert_eq!(
        fuzz::parse_smtp_path("<a@b.com"),
        Err("smtp protocol error: unterminated <...> in path".to_string())
    );
    assert_eq!(fuzz::parse_smtp_path("<a@b.com>"), Ok(()));
}

#[test]
fn malformed_size_is_dropped() {
    assert_eq!(parse_path("<a> SIZE=1x").unwrap().extensions.size, None);
    assert_eq!(parse_path("<a> SIZE=5 SIZE=").unwrap().extensions.size, None);
    assert_eq!(parse_path("<a> size=18446744073709551615").unwrap().extensions.size, Some(u64::MAX));
    assert_eq!(parse_path("<a> SIZE=18446744073709551616").unwrap().extensions.size, None);
}

#[test]
fn unknown_params_are_kept_in_order() {
    let e = parse_path("<a> X=1 BODY=7BIT y  ret=a=b").unwrap().extensions;
    assert!(!e.body_8bitmime);
    assert_eq!(
        e.extras,
        vec![
            ("X".to_string(), Some("1".to_string())),
            ("BODY".to_string(), Some("7BIT".to_string())),
            ("Y".to_string(), None),
            ("RET".to_string(), Some("a=b".to_string())),
        ]
    );
}

#[test]
fn size_without_value_is_unknown() {
    let e = parse_path("a@b SIZE").unwrap().extensions;
    assert_eq!(e.size, None);
    assert_eq!(e.extras, vec![("SIZE".to_string(), None)]);
}

#[test]
fn no_params_by_default() {
    let e = PathExtensions::default();
    assert_eq!(e.size, None);
    assert!(!e.body_8bitmime && !e.smtputf8 && e.extras.is_empty());
}
