//! A parsed message, as far as the crate looks at it, and the call that parses
//! one.

use mail_parser::MimeHeaders;
use vstd::prelude::*;
use vstd::string::*;

use crate::text::chars;

verus! {

/// A mailbox in an address header.
#[derive(Debug)]
pub struct Recipient {
    pub name: Option<String>,
    pub address: Option<String>,
}

/// A named group of mailboxes.
#[derive(Debug)]
pub struct RecipientGroup {
    pub name: Option<String>,
    pub addresses: Vec<Recipient>,
}

/// The value of an address header.
#[derive(Debug)]
pub enum Recipients {
    List(Vec<Recipient>),
    Group(Vec<RecipientGroup>),
}

/// A content type, with its `name` attribute.
#[derive(Debug)]
pub struct MimeType {
    pub ctype: String,
    pub subtype: Option<String>,
    pub name: Option<String>,
}

/// The value of a header. A date is held as it is written in a message.
#[derive(Debug)]
pub enum FieldValue {
    Recipients(Recipients),
    Text(String),
    TextList(Vec<String>),
    DateTime(String),
    MimeType(MimeType),
    Received,
    Empty,
}

/// A header.
#[derive(Debug)]
pub struct Field {
    pub name: String,
    pub value: FieldValue,
}

/// An attached part.
#[derive(Debug)]
pub struct Part {
    pub name: Option<String>,
    pub content_type: Option<MimeType>,
    pub content_id: Option<String>,
    pub contents: Vec<u8>,
}

/// The well-known headers of a message.
#[derive(Debug)]
pub struct Envelope {
    pub from: Option<Recipients>,
    pub to: Option<Recipients>,
    pub cc: Option<Recipients>,
    pub subject: Option<String>,
    pub message_id: Option<String>,
    pub in_reply_to: FieldValue,
}

/// The bodies of a message: the first one as text and as HTML, and how many there
/// are of each.
#[derive(Debug)]
pub struct Bodies {
    pub text: Option<String>,
    pub html: Option<String>,
    pub text_count: usize,
    pub html_count: usize,
}

/// A parsed message. An attachment that names no part of the message is held as
/// nothing.
#[derive(Debug)]
pub struct ParsedMessage {
    pub envelope: Envelope,
    pub headers: Vec<Field>,
    pub bodies: Bodies,
    pub attachments: Vec<Option<Part>>,
}

/// A mailbox as characters.
pub struct RecipientModel {
    pub name: Option<Seq<char>>,
    pub address: Option<Seq<char>>,
}

/// A group as characters.
pub struct GroupModel {
    pub name: Option<Seq<char>>,
    pub addresses: Seq<RecipientModel>,
}

/// An address header as characters.
pub enum RecipientsModel {
    List(Seq<RecipientModel>),
    Group(Seq<GroupModel>),
}

/// A content type as characters.
pub struct MimeTypeModel {
    pub ctype: Seq<char>,
    pub subtype: Option<Seq<char>>,
    pub name: Option<Seq<char>>,
}

/// A header's value as characters.
pub enum ValueModel {
    Recipients(RecipientsModel),
    Text(Seq<char>),
    TextList(Seq<Seq<char>>),
    DateTime(Seq<char>),
    MimeType(MimeTypeModel),
    Received,
    Empty,
}

/// A header as characters.
pub struct FieldModel {
    pub name: Seq<char>,
    pub value: ValueModel,
}

/// An attached part as characters and bytes.
pub struct PartModel {
    pub name: Option<Seq<char>>,
    pub content_type: Option<MimeTypeModel>,
    pub content_id: Option<Seq<char>>,
    pub contents: Seq<u8>,
}

/// A parsed message as a mathematical value.
pub struct MessageModel {
    pub from: Option<RecipientsModel>,
    pub to: Option<RecipientsModel>,
    pub cc: Option<RecipientsModel>,
    pub subject: Option<Seq<char>>,
    pub message_id: Option<Seq<char>>,
    pub in_reply_to: ValueModel,
    pub headers: Seq<FieldModel>,
    pub text: Option<Seq<char>>,
    pub html: Option<Seq<char>>,
    pub text_count: usize,
    pub html_count: usize,
    pub attachments: Seq<Option<PartModel>>,
}

impl View for Recipient {
    type V = RecipientModel;

    open spec fn view(&self) -> RecipientModel {
        RecipientModel { name: chars::opt_view(self.name), address: chars::opt_view(self.address) }
    }
}

/// The mailboxes of a list.
pub open spec fn addrs(v: Seq<Recipient>) -> Seq<RecipientModel> {
    v.map_values(|a: Recipient| a@)
}

impl View for RecipientGroup {
    type V = GroupModel;

    open spec fn view(&self) -> GroupModel {
        GroupModel { name: chars::opt_view(self.name), addresses: addrs(self.addresses@) }
    }
}

/// The groups of a list.
pub open spec fn groups(v: Seq<RecipientGroup>) -> Seq<GroupModel> {
    v.map_values(|g: RecipientGroup| g@)
}

impl View for Recipients {
    type V = RecipientsModel;

    open spec fn view(&self) -> RecipientsModel {
        match self {
            Recipients::List(v) => RecipientsModel::List(addrs(v@)),
            Recipients::Group(v) => RecipientsModel::Group(groups(v@)),
        }
    }
}

impl View for MimeType {
    type V = MimeTypeModel;

    open spec fn view(&self) -> MimeTypeModel {
        MimeTypeModel {
            ctype: self.ctype@,
            subtype: chars::opt_view(self.subtype),
            name: chars::opt_view(self.name),
        }
    }
}

impl View for FieldValue {
    type V = ValueModel;

    open spec fn view(&self) -> ValueModel {
        match self {
            FieldValue::Recipients(a) => ValueModel::Recipients(a@),
            FieldValue::Text(s) => ValueModel::Text(s@),
            FieldValue::TextList(v) => ValueModel::TextList(chars::seq_views(v@)),
            FieldValue::DateTime(s) => ValueModel::DateTime(s@),
            FieldValue::MimeType(c) => ValueModel::MimeType(c@),
            FieldValue::Received => ValueModel::Received,
            FieldValue::Empty => ValueModel::Empty,
        }
    }
}

impl View for Field {
    type V = FieldModel;

    open spec fn view(&self) -> FieldModel {
        FieldModel { name: self.name@, value: self.value@ }
    }
}

/// The headers of a list.
pub open spec fn headers(v: Seq<Field>) -> Seq<FieldModel> {
    v.map_values(|h: Field| h@)
}

/// A content type that may be absent.
pub open spec fn opt_type(c: Option<MimeType>) -> Option<MimeTypeModel> {
    match c {
        Some(t) => Some(t@),
        None => None,
    }
}

/// An address header that may be absent.
pub open spec fn opt_address(a: Option<Recipients>) -> Option<RecipientsModel> {
    match a {
        Some(x) => Some(x@),
        None => None,
    }
}

impl View for Part {
    type V = PartModel;

    open spec fn view(&self) -> PartModel {
        PartModel {
            name: chars::opt_view(self.name),
            content_type: opt_type(self.content_type),
            content_id: chars::opt_view(self.content_id),
            contents: self.contents@,
        }
    }
}

/// An attachment that may name no part.
pub open spec fn opt_part(p: Option<Part>) -> Option<PartModel> {
    match p {
        Some(x) => Some(x@),
        None => None,
    }
}

/// The attachments of a list.
pub open spec fn parts(v: Seq<Option<Part>>) -> Seq<Option<PartModel>> {
    v.map_values(|p: Option<Part>| opt_part(p))
}

impl View for ParsedMessage {
    type V = MessageModel;

    open spec fn view(&self) -> MessageModel {
        MessageModel {
            from: opt_address(self.envelope.from),
            to: opt_address(self.envelope.to),
            cc: opt_address(self.envelope.cc),
            subject: chars::opt_view(self.envelope.subject),
            message_id: chars::opt_view(self.envelope.message_id),
            in_reply_to: self.envelope.in_reply_to@,
            headers: headers(self.headers@),
            text: chars::opt_view(self.bodies.text),
            html: chars::opt_view(self.bodies.html),
            text_count: self.bodies.text_count,
            html_count: self.bodies.html_count,
            attachments: parts(self.attachments@),
        }
    }
}

/// A message that may not have been recognised.
pub open spec fn opt_message(m: Option<ParsedMessage>) -> Option<MessageModel> {
    match m {
        Some(x) => Some(x@),
        None => None,
    }
}

/// What the `mail-parser` crate reads out of the bytes of a message, if it
/// recognises one at all.
pub uninterp spec fn message_in(raw: Seq<u8>) -> Option<MessageModel>;

/// `mail_parser::Message`, opaque.
#[verifier::external_type_specification]
#[verifier::external_body]
pub struct ExMessage<'x>(mail_parser::Message<'x>);

/// `mail_parser::MessagePart`, opaque.
#[verifier::external_type_specification]
#[verifier::external_body]
pub struct ExMessagePart<'x>(mail_parser::MessagePart<'x>);

/// `mail_parser::Address`, opaque.
#[verifier::external_type_specification]
#[verifier::external_body]
pub struct ExAddress<'x>(mail_parser::Address<'x>);

/// `mail_parser::Addr`, opaque.
#[verifier::external_type_specification]
#[verifier::external_body]
pub struct ExAddr<'x>(mail_parser::Addr<'x>);

/// `mail_parser::HeaderValue`, opaque.
#[verifier::external_type_specification]
#[verifier::external_body]
pub struct ExHeaderValue<'x>(mail_parser::HeaderValue<'x>);

/// `mail_parser::ContentType`, opaque.
#[verifier::external_type_specification]
#[verifier::external_body]
pub struct ExContentType<'x>(mail_parser::ContentType<'x>);

/// The name and the address of a `mail_parser::Addr`.
#[verifier::external_body]
fn addr_of(a: &mail_parser::Addr<'_>) -> Recipient {
    Recipient {
        name: a.name.as_ref().map(|s| s.to_string()),
        address: a.address.as_ref().map(|s| s.to_string()),
    }
}

/// The mailboxes or the groups of a `mail_parser::Address`.
#[verifier::external_body]
fn address_of(a: &mail_parser::Address<'_>) -> Recipients {
    match a {
        mail_parser::Address::List(v) => Recipients::List(v.iter().map(addr_of).collect()),
        mail_parser::Address::Group(v) => Recipients::Group(
            v.iter().map(|g| RecipientGroup {
                name: g.name.as_ref().map(|s| s.to_string()),
                addresses: g.addresses.iter().map(addr_of).collect(),
            }).collect(),
        ),
    }
}

/// `ContentType::ctype`, `ContentType::subtype` and `ContentType::attribute` of
/// `name`.
#[verifier::external_body]
fn content_type_of(c: &mail_parser::ContentType<'_>) -> MimeType {
    MimeType {
        ctype: c.ctype().to_string(),
        subtype: c.subtype().map(|s| s.to_string()),
        name: c.attribute("name").map(|s| s.to_string()),
    }
}

/// The value of a `mail_parser::HeaderValue`; a date by `DateTime::to_rfc822`.
#[verifier::external_body]
fn value_of(v: &mail_parser::HeaderValue<'_>) -> FieldValue {
    match v {
        mail_parser::HeaderValue::Address(a) => FieldValue::Recipients(address_of(a)),
        mail_parser::HeaderValue::Text(s) => FieldValue::Text(s.to_string()),
        mail_parser::HeaderValue::TextList(l) => FieldValue::TextList(
            l.iter().map(|s| s.to_string()).collect(),
        ),
        mail_parser::HeaderValue::DateTime(d) => FieldValue::DateTime(d.to_rfc822()),
        mail_parser::HeaderValue::ContentType(c) => FieldValue::MimeType(content_type_of(c)),
        mail_parser::HeaderValue::Received(_) => FieldValue::Received,
        mail_parser::HeaderValue::Empty => FieldValue::Empty,
    }
}

/// `MimeHeaders::attachment_name`, `MimeHeaders::content_type`,
/// `MimeHeaders::content_id` and `MessagePart::contents`.
#[verifier::external_body]
fn part_of(p: &mail_parser::MessagePart<'_>) -> Part {
    Part {
        name: p.attachment_name().map(|s| s.to_string()),
        content_type: p.content_type().map(content_type_of),
        content_id: p.content_id().map(|s| s.to_string()),
        contents: p.contents().to_vec(),
    }
}

/// `Message::from`, `to`, `cc`, `subject`, `message_id` and `in_reply_to`.
#[verifier::external_body]
fn envelope_of(m: &mail_parser::Message<'_>) -> Envelope {
    Envelope {
        from: m.from().map(address_of),
        to: m.to().map(address_of),
        cc: m.cc().map(address_of),
        subject: m.subject().map(|s| s.to_string()),
        message_id: m.message_id().map(|s| s.to_string()),
        in_reply_to: value_of(m.in_reply_to()),
    }
}

/// `Message::body_text`, `body_html`, `text_body_count` and `html_body_count`.
#[verifier::external_body]
fn bodies_of(m: &mail_parser::Message<'_>) -> Bodies {
    Bodies {
        text: m.body_text(0).map(|s| s.to_string()),
        html: m.body_html(0).map(|s| s.to_string()),
        text_count: m.text_body_count(),
        html_count: m.html_body_count(),
    }
}

/// `MessageParser::parse` with the default parser, and what its result holds:
/// the headers of `Message::headers` in their order, and `Message::attachment`
/// for each number below `Message::attachment_count`. What comes back depends on
/// the bytes alone.
#[verifier::external_body]
pub(crate) fn parse_message(raw: &[u8]) -> (r: Option<ParsedMessage>)
    ensures
        opt_message(r) == message_in(raw@),
{
    let m = mail_parser::MessageParser::default().parse(raw)?;
    Some(ParsedMessage {
        envelope: envelope_of(&m),
        headers: m.headers().iter().map(|h| Field {
            name: h.name.as_str().to_string(),
            value: value_of(&h.value),
        }).collect(),
        bodies: bodies_of(&m),
        attachments: (0..m.attachment_count() as u32).map(|i| m.attachment(i).map(part_of)).collect(),
    })
}

} // verus!
