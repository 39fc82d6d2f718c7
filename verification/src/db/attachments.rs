//! Attachments of captured emails.

use vstd::prelude::*;
use vstd::string::*;

use crate::db::columns;
use crate::db::emails;
use crate::db::emails::AttachmentMeta;
use crate::error::Error;
use crate::text::chars;

verus! {

/// An attachment that is about to be stored.
#[derive(Debug, Clone)]
pub struct AttachmentInsert {
    pub id: String,
    pub filename: Option<String>,
    pub content_type: Option<String>,
    pub content_id: Option<String>,
    pub size_bytes: i64,
    pub blob_path: String,
}

/// The columns of an attachment that a list reads.
#[derive(Debug)]
pub struct AttachmentRow {
    pub id: Option<String>,
    pub filename: Option<String>,
    pub content_type: Option<String>,
    pub content_id: Option<String>,
    pub size_bytes: Option<i64>,
}

/// The columns that lead to the bytes of an attachment.
#[derive(Debug)]
pub struct BlobRow {
    pub blob_path: Option<String>,
    pub filename: Option<String>,
    pub content_type: Option<String>,
}

/// The columns of an attachment as its description.
pub open spec fn meta_of(row: AttachmentRow) -> emails::MetaModel {
    emails::MetaModel {
        id: chars::or_empty(chars::opt_view(row.id)),
        filename: chars::opt_view(row.filename),
        content_type: chars::opt_view(row.content_type),
        content_id: chars::opt_view(row.content_id),
        size_bytes: columns::number_or(row.size_bytes, 0),
    }
}

/// The description of an attachment.
pub fn row_to_meta(row: AttachmentRow) -> (r: AttachmentMeta)
    ensures
        r@ == meta_of(row),
{
    AttachmentMeta {
        id: columns::text(row.id),
        filename: row.filename,
        content_type: row.content_type,
        content_id: row.content_id,
        size_bytes: columns::number(row.size_bytes, 0),
    }
}

/// Where the bytes of an attachment are, and under which name and type. There has
/// to be a row.
pub fn get_blob_path(attachment_id: &str, row: Option<BlobRow>) -> (r: Result<
    (String, Option<String>, Option<String>),
    Error,
>)
    ensures
        match row {
            Some(c) => r matches Ok(b) && b.0@ == chars::or_empty(chars::opt_view(c.blob_path))
                && b.1 == c.filename && b.2 == c.content_type,
            None => r matches Err(Error::AttachmentNotFound(i)) && i@ == attachment_id@,
        },
{
    match row {
        Some(c) => Ok((columns::text(c.blob_path), c.filename, c.content_type)),
        None => Err(Error::AttachmentNotFound(attachment_id.to_owned())),
    }
}

/// What a list reads of an attachment: each column as it is, an empty identifier and a
/// size of zero where the column is absent.
pub proof fn law_attachment_is_read(row: AttachmentRow)
    ensures
        row.id matches Some(t) ==> meta_of(row).id == t@,
        row.id is None ==> meta_of(row).id.len() == 0,
        meta_of(row).filename == chars::opt_view(row.filename),
        meta_of(row).content_type == chars::opt_view(row.content_type),
        meta_of(row).content_id == chars::opt_view(row.content_id),
        row.size_bytes matches Some(n) ==> meta_of(row).size_bytes == n,
        row.size_bytes is None ==> meta_of(row).size_bytes == 0,
{
}

} // verus!
