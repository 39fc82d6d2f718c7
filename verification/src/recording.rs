//! The `.postcrate` recording format: captured emails, each with its envelope
//! and its raw bytes in base64, in one JSON document. A recording serves as a
//! test fixture or to share captured traffic.

use base64::engine::general_purpose::STANDARD;
use base64::Engine;
use vstd::prelude::*;
use vstd::string::*;

use crate::clock;
use crate::db::emails;
use crate::db::emails::EmailDetail;
use crate::error::Error;
use crate::pipeline::ingest::CapturedEnvelope;
use crate::text::chars;
use crate::text::number;
use crate::text::words;

verus! {

/// The version of the format that is written and read.
pub const RECORDING_VERSION: u32 = 1;

/// A recording.
#[derive(Debug, Clone)]
pub struct Recording {
    pub version: u32,
    pub exported_at: i64,
    /// A label by which a person tells two recordings apart.
    pub label: Option<String>,
    pub messages: Vec<RecordedMessage>,
}

/// An email in a recording.
#[derive(Debug, Clone)]
pub struct RecordedMessage {
    pub envelope: RecordedEnvelope,
    /// The raw bytes of the message in base64.
    pub raw_b64: String,
}

/// The envelope of an email in a recording.
#[derive(Debug, Clone)]
pub struct RecordedEnvelope {
    pub mail_from: String,
    pub rcpt_to: Vec<String>,
    pub received_at: i64,
    pub ext_smtputf8: bool,
    pub ext_8bitmime: bool,
    /// Kept for diagnostics; replaying does not look at it.
    pub subject: Option<String>,
}

/// The base64 digit for six bits.
pub open spec fn base64_digit(n: int) -> char {
    if n < 26 {
        (('A' as u32 + n) as u32) as char
    } else if n < 52 {
        (('a' as u32 + n - 26) as u32) as char
    } else if n < 62 {
        (('0' as u32 + n - 52) as u32) as char
    } else if n == 62 {
        '+'
    } else {
        '/'
    }
}

/// Bytes in base64 with the standard alphabet, padded.
pub open spec fn base64_text(raw: Seq<u8>) -> Seq<char>
    decreases raw.len(),
{
    if raw.len() == 0 {
        Seq::empty()
    } else if raw.len() == 1 {
        seq![base64_digit(raw[0] as int / 4), base64_digit(raw[0] % 4 * 16), '=', '=']
    } else if raw.len() == 2 {
        seq![
            base64_digit(raw[0] as int / 4),
            base64_digit(raw[0] % 4 * 16 + raw[1] / 16),
            base64_digit(raw[1] % 16 * 4),
            '=',
        ]
    } else {
        seq![
            base64_digit(raw[0] as int / 4),
            base64_digit(raw[0] % 4 * 16 + raw[1] / 16),
            base64_digit(raw[1] % 16 * 4 + raw[2] / 64),
            base64_digit(raw[2] as int % 64),
        ] + base64_text(raw.skip(3))
    }
}

/// What decoding a text gives: the bytes whose base64 it is, or nothing where there
/// are none.
pub open spec fn is_decoded(text: Seq<char>, raw: Option<Seq<u8>>) -> bool {
    match raw {
        Some(b) => base64_text(b) == text,
        None => forall|b: Seq<u8>| #[trigger] base64_text(b) != text,
    }
}

/// What the `base64` crate says of a text that is not base64.
pub uninterp spec fn base64_complaint(text: Seq<char>) -> Seq<char>;

/// `Engine::encode` of the standard engine.
#[verifier::external_body]
fn encode_base64(raw: &[u8]) -> (r: String)
    ensures
        r@ == base64_text(raw@),
{
    STANDARD.encode(raw)
}

/// `Engine::decode` of the standard engine. It takes exactly the texts that
/// encoding gives: the padding has to be there, and the bits behind the last
/// byte have to be zero. Any other text is refused, with the crate's message.
#[verifier::external_body]
fn decode_base64(text: &str) -> (r: Result<Vec<u8>, String>)
    ensures
        match r {
            Ok(raw) => is_decoded(text@, Some(raw@)),
            Err(m) => is_decoded(text@, None) && m@ == base64_complaint(text@),
        },
{
    STANDARD.decode(text).map_err(|e| e.to_string())
}

impl Recording {
    /// An empty recording, exported now.
    pub fn new(label: Option<String>) -> (r: Self)
        ensures
            r.version == RECORDING_VERSION,
            0 <= r.exported_at <= clock::LAST_MILLI,
            r.label == label,
            r.messages@.len() == 0,
    {
        Recording::exported(label, clock::now_millis())
    }

    /// An empty recording, exported at the given time.
    pub fn exported(label: Option<String>, at: i64) -> (r: Self)
        ensures
            r.version == RECORDING_VERSION,
            r.exported_at == at,
            r.label == label,
            r.messages@.len() == 0,
    {
        Recording {
            version: RECORDING_VERSION,
            exported_at: at,
            label,
            messages: Vec::new(),
        }
    }

    /// Whether the recording can be replayed: its version has to be the known one.
    pub fn validate(&self) -> (r: Result<(), Error>)
        ensures
            r is Ok == (self.version == RECORDING_VERSION),
            r matches Err(e) ==> (e matches Error::Invalid(m) && m@
                == "unsupported recording version "@ + number::decimal(self.version as nat)
                + " (expected "@ + number::decimal(RECORDING_VERSION as nat) + ")"@),
    {
        if self.version != RECORDING_VERSION {
            return Err(
                Error::Invalid(
                    words::cat3(
                        words::cat3(
                            "unsupported recording version ",
                            number::to_decimal(self.version as u64).as_str(),
                            " (expected ",
                        ).as_str(),
                        number::to_decimal(RECORDING_VERSION as u64).as_str(),
                        ")",
                    ),
                ),
            );
        }
        Ok(())
    }
}

/// The raw bytes of a recorded message.
pub fn decode_raw(msg: &RecordedMessage) -> (r: Result<Vec<u8>, Error>)
    ensures
        match r {
            Ok(raw) => is_decoded(msg.raw_b64@, Some(raw@)),
            Err(e) => is_decoded(msg.raw_b64@, None) && (e matches Error::Invalid(m) && m@
                == "base64 decode: "@ + base64_complaint(msg.raw_b64@)),
        },
{
    match decode_base64(msg.raw_b64.as_str()) {
        Ok(raw) => Ok(raw),
        Err(m) => Err(Error::Invalid(words::cat("base64 decode: ", m.as_str()))),
    }
}

/// Raw bytes as the payload of a recorded message.
pub fn encode_raw(raw: &[u8]) -> (r: String)
    ensures
        r@ == base64_text(raw@),
{
    encode_base64(raw)
}

/// `m` records an email and its raw bytes.
pub open spec fn records(m: RecordedMessage, d: emails::DetailModel, raw: Seq<u8>) -> bool {
    &&& m.envelope.mail_from@ == d.summary.from
    &&& chars::seq_views(m.envelope.rcpt_to@) == d.summary.to
    &&& m.envelope.received_at == d.summary.received_at
    &&& m.envelope.ext_smtputf8 == d.ext_smtputf8
    &&& m.envelope.ext_8bitmime == d.ext_8bitmime
    &&& chars::opt_view(m.envelope.subject) == d.summary.subject
    &&& m.raw_b64@ == base64_text(raw)
}

/// A captured email as a recorded message.
pub fn record(d: &EmailDetail, raw: &[u8]) -> (r: RecordedMessage)
    ensures
        records(r, d@, raw@),
{
    RecordedMessage {
        envelope: RecordedEnvelope {
            mail_from: d.from.clone(),
            rcpt_to: chars::clone_strings(&d.to),
            received_at: d.received_at,
            ext_smtputf8: d.ext_smtputf8,
            ext_8bitmime: d.ext_8bitmime,
            subject: chars::clone_opt(&d.subject),
        },
        raw_b64: encode_raw(raw),
    }
}

/// `env` is the envelope with which a recorded message arrives in a mailbox at `now`.
pub open spec fn is_replayed(
    env: CapturedEnvelope,
    m: RecordedMessage,
    mailbox_id: Seq<char>,
    now: i64,
) -> bool {
    &&& env.mailbox_id@ == mailbox_id
    &&& env.received_at == now
    &&& env.mail_from@ == m.envelope.mail_from@
    &&& chars::seq_views(env.rcpt_to@) == chars::seq_views(m.envelope.rcpt_to@)
    &&& env.ext_smtputf8 == m.envelope.ext_smtputf8
    &&& env.ext_8bitmime == m.envelope.ext_8bitmime
}

/// A recorded message as it arrives in a mailbox at `now`: its envelope and its bytes.
pub fn replay(msg: &RecordedMessage, mailbox_id: &str, now: i64) -> (r: Result<
    (CapturedEnvelope, Vec<u8>),
    Error,
>)
    ensures
        match r {
            Ok(c) => is_replayed(c.0, *msg, mailbox_id@, now) && is_decoded(
                msg.raw_b64@,
                Some(c.1@),
            ),
            Err(e) => is_decoded(msg.raw_b64@, None) && (e matches Error::Invalid(m) && m@
                == "base64 decode: "@ + base64_complaint(msg.raw_b64@)),
        },
{
    let raw: Vec<u8> = match decode_raw(msg) {
        Ok(b) => b,
        Err(e) => {
            return Err(e);
        },
    };
    let env = CapturedEnvelope {
        mailbox_id: mailbox_id.to_owned(),
        received_at: now,
        mail_from: msg.envelope.mail_from.clone(),
        rcpt_to: chars::clone_strings(&msg.envelope.rcpt_to),
        ext_smtputf8: msg.envelope.ext_smtputf8,
        ext_8bitmime: msg.envelope.ext_8bitmime,
    };
    Ok((env, raw))
}

/// Replaying what was recorded gives the same message: the same sender and recipients,
/// the same extensions and the same bytes.
pub proof fn law_replay_is_faithful(
    m: RecordedMessage,
    d: emails::DetailModel,
    raw: Seq<u8>,
    env: CapturedEnvelope,
    mailbox_id: Seq<char>,
    now: i64,
    decoded: Option<Seq<u8>>,
)
    requires
        records(m, d, raw),
        is_replayed(env, m, mailbox_id, now),
        is_decoded(m.raw_b64@, decoded),
    ensures
        env.mail_from@ == d.summary.from,
        chars::seq_views(env.rcpt_to@) == d.summary.to,
        env.ext_smtputf8 == d.ext_smtputf8,
        env.ext_8bitmime == d.ext_8bitmime,
        decoded == Some(raw),
{
    law_recorded_bytes_survive(raw, decoded);
}

/// Two base64 digits are the same only for the same six bits.
proof fn lemma_digit_injective(a: int, b: int)
    requires
        0 <= a < 64,
        0 <= b < 64,
        base64_digit(a) == base64_digit(b),
    ensures
        a == b,
        base64_digit(a) != '=',
{
}

/// Recorded bytes survive: decoding what encoding gave succeeds, and gives the same
/// bytes.
pub proof fn law_recorded_bytes_survive(raw: Seq<u8>, decoded: Option<Seq<u8>>)
    requires
        is_decoded(base64_text(raw), decoded),
    ensures
        decoded == Some(raw),
{
    if let Some(b) = decoded {
        lemma_base64_is_injective(b, raw);
    } else {
        assert(base64_text(raw) != base64_text(raw));
    }
}

/// Different bytes have different base64.
proof fn lemma_base64_is_injective(a: Seq<u8>, b: Seq<u8>)
    requires
        base64_text(a) == base64_text(b),
    ensures
        a == b,
    decreases a.len(),
{
    let s = base64_text(a);
    let t = base64_text(b);
    assert(a.len() > 0 ==> s.len() >= 4);
    assert(b.len() > 0 ==> t.len() >= 4);
    if a.len() == 0 || b.len() == 0 {
        assert(a =~= b);
    } else {
        assert(s[0] == t[0] && s[1] == t[1] && s[2] == t[2] && s[3] == t[3]);
        lemma_digit_injective(a[0] as int / 4, b[0] as int / 4);
        if a.len() == 1 {
            lemma_digit_injective(a[0] % 4 * 16, a[0] % 4 * 16);
            if b.len() == 1 {
                lemma_digit_injective(a[0] % 4 * 16, b[0] % 4 * 16);
                assert(a =~= b);
            } else if b.len() == 2 {
                lemma_digit_injective(b[1] % 16 * 4, b[1] % 16 * 4);
            } else {
                lemma_digit_injective(b[1] % 16 * 4 + b[2] / 64, b[1] % 16 * 4 + b[2] / 64);
            }
        } else if a.len() == 2 {
            lemma_digit_injective(a[1] % 16 * 4, a[1] % 16 * 4);
            if b.len() == 2 {
                lemma_digit_injective(a[0] % 4 * 16 + a[1] / 16, b[0] % 4 * 16 + b[1] / 16);
                lemma_digit_injective(a[1] % 16 * 4, b[1] % 16 * 4);
                assert(a =~= b);
            } else if b.len() > 2 {
                lemma_digit_injective(b[2] as int % 64, b[2] as int % 64);
            }
        } else {
            lemma_digit_injective(a[2] as int % 64, a[2] as int % 64);
            lemma_digit_injective(
                a[1] % 16 * 4 + a[2] / 64,
                a[1] % 16 * 4 + a[2] / 64,
            );
            if b.len() > 2 {
                lemma_digit_injective(a[0] % 4 * 16 + a[1] / 16, b[0] % 4 * 16 + b[1] / 16);
                lemma_digit_injective(
                    a[1] % 16 * 4 + a[2] / 64,
                    b[1] % 16 * 4 + b[2] / 64,
                );
                lemma_digit_injective(a[2] as int % 64, b[2] as int % 64);
                assert(s.skip(4) =~= base64_text(a.skip(3)));
                assert(t.skip(4) =~= base64_text(b.skip(3)));
                lemma_base64_is_injective(a.skip(3), b.skip(3));
                assert(a =~= seq![a[0], a[1], a[2]] + a.skip(3));
                assert(b =~= seq![b[0], b[1], b[2]] + b.skip(3));
            }
        }
    }
}

/// What is recorded of an email: its envelope as it was captured, its subject, and its
/// bytes.
pub proof fn law_recorded_fields(m: RecordedMessage, d: emails::DetailModel, raw: Seq<u8>)
    requires
        records(m, d, raw),
    ensures
        m.envelope.mail_from@ == d.summary.from,
        m.envelope.rcpt_to@.map_values(|t: String| t@) == d.summary.to,
        m.envelope.received_at == d.summary.received_at,
        m.envelope.ext_smtputf8 == d.ext_smtputf8 && m.envelope.ext_8bitmime == d.ext_8bitmime,
        chars::opt_view(m.envelope.subject) == d.summary.subject,
        m.raw_b64@ == base64_text(raw),
{
}

/// A replayed message arrives in the mailbox that it is replayed into, at the time when it
/// is, from the sender and to the recipients of the record.
pub proof fn law_replayed_fields(
    env: CapturedEnvelope,
    m: RecordedMessage,
    mailbox_id: Seq<char>,
    now: i64,
)
    requires
        is_replayed(env, m, mailbox_id, now),
    ensures
        env.mailbox_id@ == mailbox_id && env.received_at == now,
        env.mail_from@ == m.envelope.mail_from@,
        env.rcpt_to@.map_values(|t: String| t@) == m.envelope.rcpt_to@.map_values(|t: String| t@),
        env.ext_smtputf8 == m.envelope.ext_smtputf8 && env.ext_8bitmime == m.envelope.ext_8bitmime,
{
}

} // verus!
