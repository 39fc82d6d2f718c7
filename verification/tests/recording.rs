use postcrate_core::db::emails::EmailDetail;
use postcrate_core::error::Error;
use postcrate_core::json::Json;
use postcrate_core::recording::{
    decode_raw, encode_raw, record, replay, RecordedEnvelope, RecordedMessage, Recording, RECORDING_VERSION,
};

fn message(raw_b64: &str) -> RecordedMessage {
    RecordedMessage {
        envelope: RecordedEnvelope {
            mail_from: "a@b".to_string(),
            rcpt_to: vec!["c@d".to_string()],
            received_at: 1,
            ext_smtputf8: false,
            ext_8bitmime: true,
            subject: None,
        },
        raw_b64: raw_b64.to_string(),
    }
}

#[test]
fn base64_is_standard_and_padded() {
    assert_eq!(encode_raw(b""), "");
    assert_eq!(encode_raw(b"f"), "Zg==");
    assert_eq!(encode_raw(b"fo"), "Zm8=");
    assert_eq!(encode_raw(b"foo"), "Zm9v");
    assert_eq!(encode_raw(&[0xfb, 0xff, 0xfe]), "+//+");
}

#[test]
fn recorded_bytes_survive() {
    let raw: Vec<u8> = (0..=255).collect();
    for n in 0..raw.len() {
        let m = message(&encode_raw(&raw[..n]));
        assert_eq!(decode_raw(&m).unwrap(), raw[..n].to_vec());
    }
}

#[test]
fn other_texts_are_refused() {
    for bad in ["Zg", "Zg=", "Zh==", "Zm9v=", "Z m9", "Zm9v\n", "-_-_"] {
        match decode_raw(&message(bad)) {
            Err(Error::Invalid(m)) => assert!(m.starts_with("base64 decode: "), "{}", m),
            other => panic!("{:?} gave {:?}", bad, other),
        }
    }
    match decode_raw(&message("!AAA")) {
        Err(e) => {
            assert_eq!(e.message(), "invalid input: base64 decode: Invalid symbol 33, offset 0.")
        }
        Ok(v) => panic!("got {:?}", v),
    }
}

#[test]
fn replaying_a_record_gives_the_same_message() {
    let d = EmailDetail {
        id: "i".to_string(),
        mailbox_id: "old".to_string(),
        received_at: 3,
        from: "a@b".to_string(),
        to: vec!["c@d".to_string(), "e@f".to_string()],
        subject: Some("hi".to_string()),
        has_html: false,
        has_text: true,
        size_bytes: 4,
        read: true,
        pinned: false,
        starred: false,
        note: None,
        tag: None,
        headers: Json::Null,
        text_body: None,
        html_body: None,
        attachments: Vec::new(),
        message_id: None,
        in_reply_to: None,
        ext_smtputf8: true,
        ext_8bitmime: false,
    };
    let m = record(&d, b"\x00raw");
    assert_eq!((m.envelope.received_at, m.envelope.subject.as_deref()), (3, Some("hi")));
    let (env, raw) = replay(&m, "new", 9).unwrap();
    assert_eq!((env.mailbox_id.as_str(), env.received_at), ("new", 9));
    assert_eq!((env.mail_from, env.rcpt_to), (d.from, d.to));
    assert!(env.ext_smtputf8 && !env.ext_8bitmime);
    assert_eq!(raw, b"\x00raw");
    assert!(matches!(replay(&message("?"), "new", 9), Err(Error::Invalid(_))));
}

#[test]
fn new_recordings_can_be_replayed() {
    let r = Recording::new(Some("label".to_string()));
    assert_eq!(r.version, RECORDING_VERSION);
    assert_eq!(r.label.as_deref(), Some("label"));
    assert!(r.messages.is_empty());
    assert!(r.exported_at > 1_600_000_000_000);
    assert!(r.validate().is_ok());
    assert_eq!(Recording::exported(None, 7).exported_at, 7);
}

#[test]
fn other_versions_are_refused() {
    let mut r = Recording::exported(None, 0);
    r.version = 2;
    match r.validate() {
        Err(Error::Invalid(m)) => assert_eq!(m, "unsupported recording version 2 (expected 1)"),
        other => panic!("got {:?}", other),
    }
}
