//! The statements on the store. Rows that are listed are asked for in the order of the
//! list, so that there is little left to arrange.

use vstd::prelude::*;
use vstd::string::*;

verus! {

/// Stores an email.
pub const INSERT_EMAIL: &'static str = r"INSERT INTO emails (
            id, mailbox_id, received_at, smtp_from, smtp_to_json,
            header_from, header_to, header_cc, header_subject,
            message_id, in_reply_to,
            size_bytes, has_html, has_text, raw_path, parsed_json,
            read_flag, ext_smtputf8, ext_8bitmime, tag
        ) VALUES (?, ?, ?, ?, ?, ?, ?, ?, ?, ?, ?, ?, ?, ?, ?, ?, ?, ?, ?, ?)";

/// Stores an attachment.
pub const INSERT_ATTACHMENT: &'static str = r"INSERT INTO attachments
                (id, email_id, filename, content_type, content_id, size_bytes, blob_path)
              VALUES (?, ?, ?, ?, ?, ?, ?)";

/// Enters an email in the search index.
pub const INSERT_INDEX: &'static str = r"INSERT INTO emails_fts(subject, sender, recipients, body, email_id)
          VALUES (?, ?, ?, ?, ?)";

/// Reads the emails of all mailboxes, as a list shows them.
pub const ALL_EMAILS: &'static str = r"SELECT id, mailbox_id, received_at, smtp_from, smtp_to_json,
                 header_subject, has_html, has_text, size_bytes, read_flag,
                 pinned, starred, tag
          FROM emails
          ORDER BY received_at DESC";

/// Reads the emails of a mailbox, as a list shows them.
pub const EMAILS_OF_MAILBOX: &'static str = r"SELECT id, mailbox_id, received_at, smtp_from, smtp_to_json,
                 header_subject, has_html, has_text, size_bytes, read_flag,
                 pinned, starred, tag
          FROM emails
          WHERE mailbox_id = ?
          ORDER BY pinned DESC, received_at DESC";

/// Reads an email in full.
pub const EMAIL_DETAIL: &'static str = r"SELECT id, mailbox_id, received_at, smtp_from, smtp_to_json,
                 header_subject, message_id, in_reply_to,
                 has_html, has_text, size_bytes, parsed_json, read_flag,
                 ext_smtputf8, ext_8bitmime, pinned, starred, note, tag
          FROM emails WHERE id = ?";

/// Reads where the raw message of an email is.
pub const RAW_PATH: &'static str = "SELECT raw_path FROM emails WHERE id = ?";

/// Reads where all raw messages are.
pub const ALL_RAW_PATHS: &'static str = "SELECT raw_path FROM emails";

/// Deletes an email.
pub const DELETE_EMAIL: &'static str = "DELETE FROM emails WHERE id = ?";

/// Takes an email out of the search index.
pub const DELETE_INDEX: &'static str = "DELETE FROM emails_fts WHERE email_id = ?";

/// Marks an email as read or unread.
pub const MARK_READ: &'static str = "UPDATE emails SET read_flag = ? WHERE id = ?";

/// Finds the emails of a mailbox that match.
pub const SEARCH_MAILBOX: &'static str = r"SELECT e.id, e.mailbox_id, e.received_at, e.smtp_from, e.smtp_to_json,
                     e.header_subject, e.has_html, e.has_text, e.size_bytes, e.read_flag
              FROM emails_fts f
              JOIN emails e ON e.id = f.email_id
              WHERE emails_fts MATCH ?1 AND e.mailbox_id = ?2
              ORDER BY e.received_at DESC";

/// Finds all emails that match.
pub const SEARCH_ALL: &'static str = r"SELECT e.id, e.mailbox_id, e.received_at, e.smtp_from, e.smtp_to_json,
                     e.header_subject, e.has_html, e.has_text, e.size_bytes, e.read_flag
              FROM emails_fts f
              JOIN emails e ON e.id = f.email_id
              WHERE emails_fts MATCH ?1
              ORDER BY e.received_at DESC";

/// Reads what decides whether the emails of a mailbox are removed.
pub const STORED_OF_MAILBOX: &'static str = r"SELECT id, raw_path, received_at, pinned FROM emails
          WHERE mailbox_id = ?
          ORDER BY received_at DESC";

/// Reads what decides whether the emails of all mailboxes are removed.
pub const ALL_STORED: &'static str = "SELECT id, raw_path, received_at, pinned FROM emails";

/// Pins an email or takes the pin out.
pub const SET_PINNED: &'static str = "UPDATE emails SET pinned = ? WHERE id = ?";

/// Stars an email or takes the star away.
pub const SET_STARRED: &'static str = "UPDATE emails SET starred = ? WHERE id = ?";

/// Writes the note on an email.
pub const SET_NOTE: &'static str = "UPDATE emails SET note = ? WHERE id = ?";

/// Writes the category of an email.
pub const SET_TAG: &'static str = "UPDATE emails SET tag = ? WHERE id = ?";

/// Lists the attachments of an email.
pub const LIST_ATTACHMENTS: &'static str = r"SELECT id, filename, content_type, content_id, size_bytes
          FROM attachments WHERE email_id = ?";

/// Reads where the bytes of an attachment are.
pub const ATTACHMENT_BLOB: &'static str = r"SELECT blob_path, filename, content_type
          FROM attachments WHERE id = ?";

/// Stores a mailbox.
pub const INSERT_MAILBOX: &'static str = r"INSERT INTO mailboxes
            (id, project_id, name, port, kind, ttl_seconds, expires_at, created_at)
          VALUES (?, ?, ?, ?, ?, ?, ?, ?)";

/// Reads a mailbox.
pub const MAILBOX: &'static str = r"SELECT id, project_id, name, port, kind, ttl_seconds, expires_at,
                 failed, fail_reason, created_at
          FROM mailboxes WHERE id = ?";

/// Reads all mailboxes.
pub const ALL_MAILBOXES: &'static str = r"SELECT id, project_id, name, port, kind, ttl_seconds, expires_at,
                 failed, fail_reason, created_at
          FROM mailboxes";

/// Reads all mailboxes, each with the number of its emails.
pub const LIST_MAILBOXES: &'static str = r"SELECT m.id, m.project_id, m.name, m.port, m.kind, m.ttl_seconds, m.expires_at,
                 m.failed, m.fail_reason, m.created_at,
                 COALESCE(c.cnt, 0) AS cnt
          FROM mailboxes m
          LEFT JOIN (SELECT mailbox_id, COUNT(*) AS cnt FROM emails GROUP BY mailbox_id) c
                 ON c.mailbox_id = m.id
          ORDER BY m.created_at ASC";

/// Counts the emails of a mailbox.
pub const COUNT_EMAILS: &'static str = "SELECT COUNT(*) AS c FROM emails WHERE mailbox_id = ?";

/// Changes a mailbox.
pub const UPDATE_MAILBOX: &'static str = r"UPDATE mailboxes
            SET name = ?, port = ?, ttl_seconds = ?
          WHERE id = ?";

/// Deletes a mailbox.
pub const DELETE_MAILBOX: &'static str = "DELETE FROM mailboxes WHERE id = ?";

/// Marks a mailbox as failed.
pub const MARK_FAILED: &'static str = "UPDATE mailboxes SET failed = 1, fail_reason = ? WHERE id = ?";

/// Takes the mark of failure from a mailbox.
pub const CLEAR_FAILED: &'static str = "UPDATE mailboxes SET failed = 0, fail_reason = NULL WHERE id = ?";

/// The ports of all mailboxes.
pub const ALL_PORTS: &'static str = "SELECT port FROM mailboxes";

/// Appends to the audit log.
pub const APPEND_AUDIT: &'static str = r"INSERT INTO audit_log (at, actor, action, target_kind, target_id, metadata_json)
          VALUES (?, ?, ?, ?, ?, ?)";

/// Reads the audit log.
pub const ALL_AUDIT: &'static str = r"SELECT id, at, actor, action, target_kind, target_id, metadata_json
          FROM audit_log
          ORDER BY at DESC";

/// Prunes the audit log.
pub const PRUNE_AUDIT: &'static str = "DELETE FROM audit_log WHERE at < ?";

/// Empties the audit log.
pub const CLEAR_AUDIT: &'static str = "DELETE FROM audit_log";

/// Reads the bounce rules of a mailbox.
pub const BOUNCES_OF_MAILBOX: &'static str = r"SELECT id, mailbox_id, address_pattern, bounce_kind, smtp_code,
                 smtp_message, enabled, created_at
          FROM bounce_rules
          WHERE mailbox_id = ?
          ORDER BY created_at ASC";

/// Stores a bounce rule, in place of the one with the same identifier.
pub const UPSERT_BOUNCE: &'static str = r"INSERT INTO bounce_rules
            (id, mailbox_id, address_pattern, bounce_kind, smtp_code,
             smtp_message, enabled, created_at)
          VALUES (?, ?, ?, ?, ?, ?, ?, ?)
          ON CONFLICT(id) DO UPDATE SET
            address_pattern = excluded.address_pattern,
            bounce_kind     = excluded.bounce_kind,
            smtp_code       = excluded.smtp_code,
            smtp_message    = excluded.smtp_message,
            enabled         = excluded.enabled";

/// Deletes a bounce rule.
pub const DELETE_BOUNCE: &'static str = "DELETE FROM bounce_rules WHERE id = ?";

/// Stores a forwarding rule.
pub const INSERT_FORWARDING: &'static str = r"INSERT INTO forwarding_rules
            (id, mailbox_id, target_addresses, relay_json, enabled, created_at)
          VALUES (?, ?, ?, ?, ?, ?)";

/// Reads the forwarding rules.
pub const ALL_FORWARDING: &'static str = r"SELECT id, mailbox_id, target_addresses, relay_json, enabled, created_at
          FROM forwarding_rules";

/// Deletes a forwarding rule.
pub const DELETE_FORWARDING: &'static str = "DELETE FROM forwarding_rules WHERE id = ?";

/// Stores a webhook.
pub const INSERT_WEBHOOK: &'static str = r"INSERT INTO webhooks (id, mailbox_id, url, auth_header, enabled, created_at)
          VALUES (?, ?, ?, ?, ?, ?)";

/// Reads the webhooks.
pub const ALL_WEBHOOKS: &'static str = "SELECT id, mailbox_id, url, auth_header, enabled, created_at FROM webhooks";

/// Deletes a webhook.
pub const DELETE_WEBHOOK: &'static str = "DELETE FROM webhooks WHERE id = ?";

/// Reads a section of the settings.
pub const READ_SECTION: &'static str = "SELECT key, value FROM settings WHERE section = ?";

/// Empties a section of the settings.
pub const CLEAR_SECTION: &'static str = "DELETE FROM settings WHERE section = ?";

/// Writes a value of a section of the settings.
pub const WRITE_SETTING: &'static str = r"INSERT INTO settings (section, key, value)
              VALUES (?, ?, ?)";

/// The statement that finds emails, in one mailbox or in all of them.
pub fn search_statement(in_mailbox: bool) -> (r: &'static str)
    ensures
        r@ == if in_mailbox {
            SEARCH_MAILBOX@
        } else {
            SEARCH_ALL@
        },
{
    if in_mailbox {
        SEARCH_MAILBOX
    } else {
        SEARCH_ALL
    }
}

} // verus!
