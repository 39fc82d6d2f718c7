//! Email predicates: a cheap filter on summaries, and a full check that reports
//! every clause that failed.

use vstd::prelude::*;
use vstd::string::*;

use crate::db::emails;
use crate::db::emails::{EmailDetail, EmailSummary};
use crate::json;
use crate::patterns;
use crate::text::chars;
use crate::text::search;
use crate::text::unicode;
use crate::text::words;

verus! {

/// A predicate on emails. A clause that is absent holds of every email.
#[derive(Debug, Clone)]
pub struct EmailPredicate {
    /// The email is in this mailbox.
    pub mailbox_id: Option<String>,
    /// The sender contains this, ignoring case.
    pub from: Option<String>,
    /// The sender matches this regular expression.
    pub from_regex: Option<String>,
    /// Some recipient contains this, ignoring case.
    pub to: Option<String>,
    /// The subject contains this, ignoring case.
    pub subject: Option<String>,
    /// The subject matches this regular expression.
    pub subject_regex: Option<String>,
    /// The plain text contains this.
    pub body_contains: Option<String>,
    /// The plain text matches this regular expression.
    pub body_regex: Option<String>,
    /// There is at least one attachment, or there is none.
    pub has_attachment: Option<bool>,
    /// Clauses on single headers.
    pub headers: Vec<HeaderPredicate>,
}

/// A predicate on the value of one header.
#[derive(Debug, Clone)]
pub struct HeaderPredicate {
    pub name: String,
    /// The value contains this, ignoring case.
    pub contains: Option<String>,
    /// The value matches this regular expression.
    pub regex: Option<String>,
}

/// Whether an email matched, and a line for each clause that failed.
#[derive(Debug, Clone)]
pub struct MatchResult {
    pub matched: bool,
    pub mismatches: Vec<String>,
}

/// What waiting for an email gave.
#[derive(Debug, Clone)]
pub struct WaitOutcome {
    /// The first email that satisfied the predicate, if one came in time.
    pub matched: Option<EmailDetail>,
    /// Every email that was captured while waiting.
    pub seen_during_wait: Vec<EmailSummary>,
}

/// A header predicate as characters.
pub struct HeaderClauses {
    pub name: Seq<char>,
    pub contains: Option<Seq<char>>,
    pub regex: Option<Seq<char>>,
}

/// A predicate as characters.
pub struct Clauses {
    pub mailbox_id: Option<Seq<char>>,
    pub from: Option<Seq<char>>,
    pub from_regex: Option<Seq<char>>,
    pub to: Option<Seq<char>>,
    pub subject: Option<Seq<char>>,
    pub subject_regex: Option<Seq<char>>,
    pub body_contains: Option<Seq<char>>,
    pub body_regex: Option<Seq<char>>,
    pub has_attachment: Option<bool>,
    pub headers: Seq<HeaderClauses>,
}

impl View for HeaderPredicate {
    type V = HeaderClauses;

    open spec fn view(&self) -> HeaderClauses {
        HeaderClauses {
            name: self.name@,
            contains: chars::opt_view(self.contains),
            regex: chars::opt_view(self.regex),
        }
    }
}

/// The header predicates of a list.
pub open spec fn header_clauses(v: Seq<HeaderPredicate>) -> Seq<HeaderClauses> {
    v.map_values(|h: HeaderPredicate| h@)
}

impl View for EmailPredicate {
    type V = Clauses;

    open spec fn view(&self) -> Clauses {
        Clauses {
            mailbox_id: chars::opt_view(self.mailbox_id),
            from: chars::opt_view(self.from),
            from_regex: chars::opt_view(self.from_regex),
            to: chars::opt_view(self.to),
            subject: chars::opt_view(self.subject),
            subject_regex: chars::opt_view(self.subject_regex),
            body_contains: chars::opt_view(self.body_contains),
            body_regex: chars::opt_view(self.body_regex),
            has_attachment: self.has_attachment,
            headers: header_clauses(self.headers@),
        }
    }
}

/// The predicate without clauses.
pub open spec fn no_clauses() -> Clauses {
    Clauses {
        mailbox_id: None,
        from: None,
        from_regex: None,
        to: None,
        subject: None,
        subject_regex: None,
        body_contains: None,
        body_regex: None,
        has_attachment: None,
        headers: Seq::empty(),
    }
}

impl Default for EmailPredicate {
    fn default() -> (r: Self)
        ensures
            r@ == no_clauses(),
    {
        let r = EmailPredicate {
            mailbox_id: None,
            from: None,
            from_regex: None,
            to: None,
            subject: None,
            subject_regex: None,
            body_contains: None,
            body_regex: None,
            has_attachment: None,
            headers: Vec::new(),
        };
        assert(r@.headers =~= Seq::empty());
        r
    }
}

/// `needle` occurs in `text`, ignoring case.
pub open spec fn holds_folded(text: Seq<char>, needle: Seq<char>) -> bool {
    search::contains_seq(unicode::lowercase(text), unicode::lowercase(needle))
}

/// `needle` occurs in one of the texts, ignoring case.
pub open spec fn some_holds(texts: Seq<Seq<char>>, needle: Seq<char>) -> bool {
    exists|i: int| 0 <= i < texts.len() && holds_folded(#[trigger] texts[i], needle)
}

/// The filter on summaries: the clauses on the mailbox, the sender, the
/// recipients and the subject that are no regular expressions.
pub open spec fn passes_filter(p: Clauses, s: emails::SummaryModel) -> bool {
    &&& p.mailbox_id matches Some(mb) ==> s.mailbox_id == mb
    &&& p.from matches Some(n) ==> holds_folded(s.from, n)
    &&& p.to matches Some(n) ==> some_holds(s.to, n)
    &&& p.subject matches Some(n) ==> holds_folded(chars::or_empty(s.subject), n)
}

/// A line where something is wrong.
pub open spec fn line_if(wrong: bool, line: Seq<char>) -> Seq<Seq<char>> {
    if wrong {
        seq![line]
    } else {
        Seq::empty()
    }
}

/// The line on a mailbox, of texts in quotes.
pub open spec fn mailbox_text(want: Seq<char>, got: Seq<char>) -> Seq<char> {
    "mailboxId: expected "@ + want + ", got "@ + got
}

/// The line on a text that lacks another, of texts in quotes.
pub open spec fn contains_text(field: Seq<char>, want: Seq<char>, got: Seq<char>) -> Seq<char> {
    field + ": expected to contain "@ + want + ", got "@ + got
}

/// The line on a text and a regular expression, of texts in quotes: what the search
/// came to decides whether there is one.
pub open spec fn regex_lines(
    field: Seq<char>,
    pattern: Seq<char>,
    got: Seq<char>,
    outcome: Result<bool, Seq<char>>,
) -> Seq<Seq<char>> {
    match outcome {
        Ok(true) => Seq::empty(),
        Ok(false) => seq![field + ": regex "@ + pattern + " did not match "@ + got],
        Err(e) => seq![field + ": invalid regex "@ + pattern + ": "@ + e],
    }
}

/// The line on recipients that all lack a text, of texts in quotes.
pub open spec fn to_text(want: Seq<char>, got: Seq<Seq<char>>) -> Seq<char> {
    "to: expected one of "@ + ("["@ + words::joined(got, ", "@) + "]"@) + " to contain "@ + want
}

/// The line on a plain text that lacks another, in quotes.
pub open spec fn body_text(want: Seq<char>) -> Seq<char> {
    "bodyContains: "@ + want + " not found in textBody"@
}

/// The report on the mailbox.
pub open spec fn mailbox_report(want: Option<Seq<char>>, got: Seq<char>) -> Seq<Seq<char>> {
    match want {
        None => Seq::empty(),
        Some(mb) => line_if(got != mb, mailbox_text(unicode::quoted(mb), unicode::quoted(got))),
    }
}

/// The report on a text that has to contain another.
pub open spec fn contains_report(
    field: Seq<char>,
    want: Option<Seq<char>>,
    got: Seq<char>,
) -> Seq<Seq<char>> {
    match want {
        None => Seq::empty(),
        Some(n) => line_if(
            !holds_folded(got, n),
            contains_text(field, unicode::quoted(n), unicode::quoted(got)),
        ),
    }
}

/// What searching a text for a pattern comes to.
pub open spec fn search_outcome(pattern: Seq<char>, text: Seq<char>) -> Result<bool, Seq<char>> {
    match patterns::pattern_error(pattern) {
        Some(e) => Err(e),
        None => Ok(patterns::matches_somewhere(pattern, text)),
    }
}

/// The report on a text that has to match a regular expression.
pub open spec fn regex_report(field: Seq<char>, want: Option<Seq<char>>, got: Seq<char>) -> Seq<
    Seq<char>,
> {
    match want {
        None => Seq::empty(),
        Some(p) => regex_lines(
            field,
            unicode::quoted(p),
            unicode::quoted(got),
            search_outcome(p, got),
        ),
    }
}

/// The texts of a list, each in quotes.
pub open spec fn quoted_each(texts: Seq<Seq<char>>) -> Seq<Seq<char>> {
    texts.map_values(|t: Seq<char>| unicode::quoted(t))
}

/// The report on the recipients.
pub open spec fn to_report(want: Option<Seq<char>>, got: Seq<Seq<char>>) -> Seq<Seq<char>> {
    match want {
        None => Seq::empty(),
        Some(n) => line_if(!some_holds(got, n), to_text(unicode::quoted(n), quoted_each(got))),
    }
}

/// The report on the plain text.
pub open spec fn body_report(want: Option<Seq<char>>, got: Seq<char>) -> Seq<Seq<char>> {
    match want {
        None => Seq::empty(),
        Some(n) => line_if(!search::contains_seq(got, n), body_text(unicode::quoted(n))),
    }
}

/// A truth value as a word.
pub open spec fn word_of(b: bool) -> Seq<char> {
    if b {
        "true"@
    } else {
        "false"@
    }
}

/// The report on the attachments.
pub open spec fn attachment_report(want: Option<bool>, got: bool) -> Seq<Seq<char>> {
    match want {
        None => Seq::empty(),
        Some(b) => line_if(
            got != b,
            "hasAttachment: expected "@ + word_of(b) + ", got "@ + word_of(got),
        ),
    }
}

/// The value of a header that stands alone under its name; empty for any other.
pub open spec fn header_text(headers: json::JsonModel, name: Seq<char>) -> Seq<char> {
    chars::or_empty(json::member_text(headers, name))
}

/// How a report names a header.
pub open spec fn header_label(name: Seq<char>) -> Seq<char> {
    "header "@ + unicode::quoted(name)
}

/// The report on one header.
pub open spec fn header_report(h: HeaderClauses, headers: json::JsonModel) -> Seq<Seq<char>> {
    let got = header_text(headers, h.name);
    contains_report(header_label(h.name), h.contains, got) + regex_report(
        header_label(h.name),
        h.regex,
        got,
    )
}

/// The report on the headers, in the order of the clauses.
pub open spec fn headers_report(hs: Seq<HeaderClauses>, headers: json::JsonModel) -> Seq<Seq<char>>
    decreases hs.len(),
{
    if hs.len() == 0 {
        Seq::empty()
    } else {
        headers_report(hs.drop_last(), headers) + header_report(hs.last(), headers)
    }
}

/// The report on an email: the lines of the clauses that fail, clause by clause.
pub open spec fn report(p: Clauses, d: emails::DetailModel) -> Seq<Seq<char>> {
    let s = d.summary;
    let subject = chars::or_empty(s.subject);
    let body = chars::or_empty(d.text_body);
    mailbox_report(p.mailbox_id, s.mailbox_id) + contains_report("from"@, p.from, s.from)
        + regex_report("from"@, p.from_regex, s.from) + to_report(p.to, s.to) + contains_report(
        "subject"@,
        p.subject,
        subject,
    ) + regex_report("subject"@, p.subject_regex, subject) + body_report(p.body_contains, body)
        + regex_report("bodyRegex"@, p.body_regex, body) + attachment_report(
        p.has_attachment,
        d.attachments.len() > 0,
    ) + headers_report(p.headers, d.headers)
}

impl MatchResult {
    /// A match, with nothing to report.
    pub fn ok() -> (r: Self)
        ensures
            r.matched,
            r.mismatches@.len() == 0,
    {
        MatchResult { matched: true, mismatches: Vec::new() }
    }

    /// Notes that a clause failed.
    fn fail(&mut self, line: String)
        ensures
            !final(self).matched,
            chars::seq_views(final(self).mismatches@) == chars::seq_views(
                old(self).mismatches@,
            ).push(line@),
    {
        self.matched = false;
        self.mismatches.push(line);
        assert(chars::seq_views(self.mismatches@) =~= chars::seq_views(
            old(self).mismatches@,
        ).push(line@));
    }
}

/// The result matches exactly where it has nothing to report.
pub open spec fn consistent(r: MatchResult) -> bool {
    r.matched == (r.mismatches@.len() == 0)
}

fn lower_contains(text: &str, needle: &str) -> (r: bool)
    ensures
        r == holds_folded(text@, needle@),
{
    search::text_contains(text.to_lowercase().as_str(), needle.to_lowercase().as_str())
}

fn any_contains(texts: &Vec<String>, needle: &str) -> (r: bool)
    ensures
        r == some_holds(chars::seq_views(texts@), needle@),
{
    let ghost m = chars::seq_views(texts@);
    let mut i: usize = 0;
    while i < texts.len()
        invariant
            i <= texts@.len(),
            m == chars::seq_views(texts@),
            forall|j: int| 0 <= j < i ==> !holds_folded(#[trigger] m[j], needle@),
        decreases texts@.len() - i,
    {
        if lower_contains(texts[i].as_str(), needle) {
            assert(holds_folded(m[i as int], needle@));
            return true;
        }
        i = i + 1;
    }
    false
}

fn text_or_empty(s: &Option<String>) -> (r: &str)
    ensures
        r@ == chars::or_empty(chars::opt_view(*s)),
{
    match s {
        Some(t) => t.as_str(),
        None => {
            proof {
                reveal_strlit("");
                assert(""@ =~= Seq::empty());
            }
            ""
        },
    }
}

fn quote_each(texts: &Vec<String>) -> (r: Vec<String>)
    ensures
        chars::seq_views(r@) == quoted_each(chars::seq_views(texts@)),
{
    let mut v: Vec<String> = Vec::new();
    let mut i: usize = 0;
    while i < texts.len()
        invariant
            i <= texts@.len(),
            v@.len() == i,
            forall|j: int| 0 <= j < i ==> (#[trigger] v@[j])@ == unicode::quoted(texts@[j]@),
        decreases texts@.len() - i,
    {
        v.push(unicode::quote(texts[i].as_str()));
        i = i + 1;
    }
    assert(chars::seq_views(v@) =~= quoted_each(chars::seq_views(texts@)));
    v
}

/// The line on a mailbox, of texts in quotes.
pub fn mailbox_line(want: &str, got: &str) -> (r: String)
    ensures
        r@ == mailbox_text(want@, got@),
{
    words::cat(words::cat3("mailboxId: expected ", want, ", got ").as_str(), got)
}

/// The line on a text that lacks another, of texts in quotes.
pub fn contains_line(field: &str, want: &str, got: &str) -> (r: String)
    ensures
        r@ == contains_text(field@, want@, got@),
{
    words::cat3(words::cat3(field, ": expected to contain ", want).as_str(), ", got ", got)
}

/// A message in place of its text.
pub open spec fn outcome_view(o: Result<bool, String>) -> Result<bool, Seq<char>> {
    match o {
        Ok(b) => Ok(b),
        Err(m) => Err(m@),
    }
}

/// The line on a text and a regular expression, of texts in quotes, where what the
/// search came to calls for one.
pub fn regex_line(field: &str, pattern: &str, got: &str, outcome: Result<bool, String>) -> (r:
    Option<String>)
    ensures
        match r {
            Some(line) => regex_lines(field@, pattern@, got@, outcome_view(outcome)) == seq![line@],
            None => regex_lines(field@, pattern@, got@, outcome_view(outcome)).len() == 0,
        },
{
    match outcome {
        Ok(true) => None,
        Ok(false) => Some(
            words::cat3(
                words::cat3(field, ": regex ", pattern).as_str(),
                " did not match ",
                got,
            ),
        ),
        Err(e) => Some(
            words::cat3(
                words::cat3(field, ": invalid regex ", pattern).as_str(),
                ": ",
                e.as_str(),
            ),
        ),
    }
}

/// The line on recipients that all lack a text, of texts in quotes.
pub fn to_line(want: &str, got: &Vec<String>) -> (r: String)
    ensures
        r@ == to_text(want@, chars::seq_views(got@)),
{
    let list: String = words::cat3("[", words::join(got, ", ").as_str(), "]");
    words::cat3(words::cat("to: expected one of ", list.as_str()).as_str(), " to contain ", want)
}

/// The line on a plain text that lacks another, in quotes.
pub fn body_line(want: &str) -> (r: String)
    ensures
        r@ == body_text(want@),
{
    words::cat3("bodyContains: ", want, " not found in textBody")
}

fn word(b: bool) -> (r: &'static str)
    ensures
        r@ == word_of(b),
{
    if b {
        "true"
    } else {
        "false"
    }
}

fn check_mailbox(out: &mut MatchResult, want: &Option<String>, got: &str)
    requires
        consistent(*old(out)),
    ensures
        consistent(*final(out)),
        chars::seq_views(final(out).mismatches@) == chars::seq_views(old(out).mismatches@)
            + mailbox_report(chars::opt_view(*want), got@),
{
    if let Some(mb) = want {
        if !chars::str_eq(got, mb.as_str()) {
            out.fail(
                mailbox_line(unicode::quote(mb.as_str()).as_str(), unicode::quote(got).as_str()),
            );
        }
    }
    assert(chars::seq_views(out.mismatches@) =~= chars::seq_views(old(out).mismatches@)
        + mailbox_report(chars::opt_view(*want), got@));
}

fn check_contains(out: &mut MatchResult, field: &str, want: &Option<String>, got: &str)
    requires
        consistent(*old(out)),
    ensures
        consistent(*final(out)),
        chars::seq_views(final(out).mismatches@) == chars::seq_views(old(out).mismatches@)
            + contains_report(field@, chars::opt_view(*want), got@),
{
    if let Some(needle) = want {
        if !lower_contains(got, needle.as_str()) {
            out.fail(
                contains_line(
                    field,
                    unicode::quote(needle.as_str()).as_str(),
                    unicode::quote(got).as_str(),
                ),
            );
        }
    }
    assert(chars::seq_views(out.mismatches@) =~= chars::seq_views(old(out).mismatches@)
        + contains_report(field@, chars::opt_view(*want), got@));
}

fn check_regex(out: &mut MatchResult, field: &str, want: &Option<String>, got: &str)
    requires
        consistent(*old(out)),
    ensures
        consistent(*final(out)),
        chars::seq_views(final(out).mismatches@) == chars::seq_views(old(out).mismatches@)
            + regex_report(field@, chars::opt_view(*want), got@),
{
    if let Some(pat) = want {
        let outcome: Result<bool, String> = patterns::try_match(pat.as_str(), got);
        assert(outcome_view(outcome) == search_outcome(pat@, got@));
        if let Some(line) = regex_line(
            field,
            unicode::quote(pat.as_str()).as_str(),
            unicode::quote(got).as_str(),
            outcome,
        ) {
            out.fail(line);
        }
    }
    assert(chars::seq_views(out.mismatches@) =~= chars::seq_views(old(out).mismatches@)
        + regex_report(field@, chars::opt_view(*want), got@));
}

fn check_to(out: &mut MatchResult, want: &Option<String>, got: &Vec<String>)
    requires
        consistent(*old(out)),
    ensures
        consistent(*final(out)),
        chars::seq_views(final(out).mismatches@) == chars::seq_views(old(out).mismatches@)
            + to_report(chars::opt_view(*want), chars::seq_views(got@)),
{
    if let Some(needle) = want {
        if !any_contains(got, needle.as_str()) {
            out.fail(to_line(unicode::quote(needle.as_str()).as_str(), &quote_each(got)));
        }
    }
    assert(chars::seq_views(out.mismatches@) =~= chars::seq_views(old(out).mismatches@)
        + to_report(chars::opt_view(*want), chars::seq_views(got@)));
}

fn check_body(out: &mut MatchResult, want: &Option<String>, got: &str)
    requires
        consistent(*old(out)),
    ensures
        consistent(*final(out)),
        chars::seq_views(final(out).mismatches@) == chars::seq_views(old(out).mismatches@)
            + body_report(chars::opt_view(*want), got@),
{
    if let Some(needle) = want {
        if !search::text_contains(got, needle.as_str()) {
            out.fail(body_line(unicode::quote(needle.as_str()).as_str()));
        }
    }
    assert(chars::seq_views(out.mismatches@) =~= chars::seq_views(old(out).mismatches@)
        + body_report(chars::opt_view(*want), got@));
}

fn check_attachment(out: &mut MatchResult, want: &Option<bool>, got: bool)
    requires
        consistent(*old(out)),
    ensures
        consistent(*final(out)),
        chars::seq_views(final(out).mismatches@) == chars::seq_views(old(out).mismatches@)
            + attachment_report(*want, got),
{
    if let Some(b) = want {
        if got != *b {
            out.fail(
                words::cat(
                    words::cat3("hasAttachment: expected ", word(*b), ", got ").as_str(),
                    word(got),
                ),
            );
        }
    }
    assert(chars::seq_views(out.mismatches@) =~= chars::seq_views(old(out).mismatches@)
        + attachment_report(*want, got));
}

fn check_header(out: &mut MatchResult, h: &HeaderPredicate, headers: &json::Json)
    requires
        consistent(*old(out)),
    ensures
        consistent(*final(out)),
        chars::seq_views(final(out).mismatches@) == chars::seq_views(old(out).mismatches@)
            + header_report(h@, headers@),
{
    let value: &str = match headers.get(h.name.as_str()) {
        Some(v) => match v.as_str() {
            Some(s) => s,
            None => text_or_empty(&None),
        },
        None => text_or_empty(&None),
    };
    let label: String = words::cat("header ", unicode::quote(h.name.as_str()).as_str());
    check_contains(out, label.as_str(), &h.contains, value);
    check_regex(out, label.as_str(), &h.regex, value);
    assert(chars::seq_views(out.mismatches@) =~= chars::seq_views(old(out).mismatches@)
        + header_report(h@, headers@));
}

fn check_headers(out: &mut MatchResult, hs: &Vec<HeaderPredicate>, headers: &json::Json)
    requires
        consistent(*old(out)),
    ensures
        consistent(*final(out)),
        chars::seq_views(final(out).mismatches@) == chars::seq_views(old(out).mismatches@)
            + headers_report(header_clauses(hs@), headers@),
{
    let ghost m = header_clauses(hs@);
    let ghost before = chars::seq_views(out.mismatches@);
    let mut i: usize = 0;
    assert(before =~= before + headers_report(m.take(0), headers@));
    while i < hs.len()
        invariant
            i <= hs@.len(),
            m == header_clauses(hs@),
            consistent(*out),
            chars::seq_views(out.mismatches@) == before + headers_report(
                m.take(i as int),
                headers@,
            ),
        decreases hs@.len() - i,
    {
        assert(m.take(i + 1).drop_last() =~= m.take(i as int));
        assert(m.take(i + 1).last() == hs@[i as int]@);
        check_header(out, &hs[i], headers);
        i = i + 1;
        assert(chars::seq_views(out.mismatches@) =~= before + headers_report(
            m.take(i as int),
            headers@,
        ));
    }
    assert(m.take(i as int) =~= m);
}

impl EmailPredicate {
    /// The cheap filter: false only of emails that `check` refuses too.
    pub fn matches_summary(&self, s: &EmailSummary) -> (r: bool)
        ensures
            r == passes_filter(self@, s@),
    {
        if let Some(mb) = &self.mailbox_id {
            if !chars::str_eq(s.mailbox_id.as_str(), mb.as_str()) {
                return false;
            }
        }
        if let Some(needle) = &self.from {
            if !lower_contains(s.from.as_str(), needle.as_str()) {
                return false;
            }
        }
        if let Some(needle) = &self.to {
            if !any_contains(&s.to, needle.as_str()) {
                return false;
            }
        }
        if let Some(needle) = &self.subject {
            if !lower_contains(text_or_empty(&s.subject), needle.as_str()) {
                return false;
            }
        }
        true
    }

    /// The full check, with one line for each clause that fails.
    pub fn check(&self, d: &EmailDetail) -> (r: MatchResult)
        ensures
            chars::seq_views(r.mismatches@) == report(self@, d@),
            r.matched == (r.mismatches@.len() == 0),
    {
        let mut out = MatchResult::ok();
        assert(chars::seq_views(out.mismatches@) =~= Seq::empty());
        let subject: &str = text_or_empty(&d.subject);
        let body: &str = text_or_empty(&d.text_body);
        check_mailbox(&mut out, &self.mailbox_id, d.mailbox_id.as_str());
        assert(chars::seq_views(out.mismatches@) =~= mailbox_report(
            self@.mailbox_id,
            d@.summary.mailbox_id,
        ));
        check_contains(&mut out, "from", &self.from, d.from.as_str());
        check_regex(&mut out, "from", &self.from_regex, d.from.as_str());
        check_to(&mut out, &self.to, &d.to);
        check_contains(&mut out, "subject", &self.subject, subject);
        check_regex(&mut out, "subject", &self.subject_regex, subject);
        check_body(&mut out, &self.body_contains, body);
        check_regex(&mut out, "bodyRegex", &self.body_regex, body);
        check_attachment(&mut out, &self.has_attachment, d.attachments.len() > 0);
        check_headers(&mut out, &self.headers, &d.headers);
        out
    }
}

/// An email satisfies the predicate: it passes the filter, and the full check of its
/// detail, where that can be read, has nothing to report.
pub open spec fn satisfies(
    p: Clauses,
    s: emails::SummaryModel,
    detail: Option<emails::DetailModel>,
) -> bool {
    passes_filter(p, s) && (detail matches Some(d) && report(p, d).len() == 0)
}

/// The mathematical value of a detail that may be absent.
pub open spec fn detail_view(d: Option<EmailDetail>) -> Option<emails::DetailModel> {
    match d {
        Some(x) => Some(x@),
        None => None,
    }
}

impl WaitOutcome {
    /// A wait that begins.
    pub fn start() -> (r: Self)
        ensures
            r.matched is None,
            r.seen_during_wait@.len() == 0,
    {
        WaitOutcome { matched: None, seen_during_wait: Vec::new() }
    }

    /// Looks at an email that was there before the wait, with its detail where that
    /// could be read. The first one that satisfies the predicate is the match.
    pub fn look(&mut self, p: &EmailPredicate, email: &EmailSummary, detail: Option<EmailDetail>)
        ensures
            final(self).matched == if old(self).matched is None && satisfies(
                p@,
                email@,
                detail_view(detail),
            ) {
                detail
            } else {
                old(self).matched
            },
            final(self).seen_during_wait == old(self).seen_during_wait,
    {
        if self.matched.is_none() && p.matches_summary(email) {
            if let Some(d) = detail {
                let result: MatchResult = p.check(&d);
                proof {
                    assert(chars::seq_views(result.mismatches@).len() == result.mismatches@.len());
                }
                if result.matched {
                    self.matched = Some(d);
                }
            }
        }
    }

    /// Takes note of an email that came in during the wait, with its detail where that
    /// could be read. It was seen whether or not it satisfies the predicate.
    pub fn observe(&mut self, p: &EmailPredicate, email: EmailSummary, detail: Option<EmailDetail>)
        ensures
            final(self).matched == if old(self).matched is None && satisfies(
                p@,
                email@,
                detail_view(detail),
            ) {
                detail
            } else {
                old(self).matched
            },
            final(self).seen_during_wait@ == old(self).seen_during_wait@.push(email),
    {
        self.look(p, &email, detail);
        self.seen_during_wait.push(email);
    }
}

/// An email that the full check accepts passes the filter on summaries: filtering
/// first loses nothing.
pub proof fn law_filter_is_necessary(
    p: Clauses,
    s: emails::SummaryModel,
    d: emails::DetailModel,
)
    requires
        d.summary == s,
        report(p, d).len() == 0,
    ensures
        passes_filter(p, s),
{
    let subject = chars::or_empty(s.subject);
    assert(mailbox_report(p.mailbox_id, s.mailbox_id).len() == 0);
    assert(contains_report("from"@, p.from, s.from).len() == 0);
    assert(to_report(p.to, s.to).len() == 0);
    assert(contains_report("subject"@, p.subject, subject).len() == 0);
}

/// Where a predicate has no clauses but those of the filter, the filter and the full
/// check agree.
pub proof fn law_filter_decides_its_own_clauses(p: Clauses, d: emails::DetailModel)
    requires
        p.from_regex is None,
        p.subject_regex is None,
        p.body_contains is None,
        p.body_regex is None,
        p.has_attachment is None,
        p.headers.len() == 0,
    ensures
        passes_filter(p, d.summary) == (report(p, d).len() == 0),
{
    if report(p, d).len() == 0 {
        law_filter_is_necessary(p, d.summary, d);
    }
}

/// The predicate without clauses accepts every email.
pub proof fn law_empty_predicate_accepts(d: emails::DetailModel)
    ensures
        report(no_clauses(), d).len() == 0,
        passes_filter(no_clauses(), d.summary),
{
}

/// An email that the full check accepts satisfies each of the header clauses.
pub proof fn law_each_header_clause_holds(p: Clauses, d: emails::DetailModel, i: int)
    requires
        0 <= i < p.headers.len(),
        report(p, d).len() == 0,
    ensures
        header_report(p.headers[i], d.headers).len() == 0,
{
    assert(headers_report(p.headers, d.headers).len() == 0);
    lemma_header_clause(p.headers, d.headers, i);
}

proof fn lemma_header_clause(hs: Seq<HeaderClauses>, headers: json::JsonModel, i: int)
    requires
        0 <= i < hs.len(),
        headers_report(hs, headers).len() == 0,
    ensures
        header_report(hs[i], headers).len() == 0,
    decreases hs.len(),
{
    if i < hs.len() - 1 {
        lemma_header_clause(hs.drop_last(), headers, i);
    }
}

/// A regular expression compiles and matches somewhere in a text, as the text stands.
pub open spec fn finds(pattern: Seq<char>, text: Seq<char>) -> bool {
    patterns::pattern_error(pattern) is None && patterns::matches_of(pattern, text).len() > 0
}

/// The full check accepts an email exactly where every clause of the predicate holds of
/// it: the mailbox is the same, the sender, a recipient and the subject hold their texts
/// whatever the case of letters, the plain text holds its text as it is written, there
/// are attachments or none as asked, the regular expressions match, and each header
/// clause holds of the text under its name.
#[verifier::rlimit(60)]
pub proof fn law_check_accepts_exactly(p: Clauses, d: emails::DetailModel)
    ensures
        report(p, d).len() == 0 <==> {
            let subject = match d.summary.subject {
                Some(s) => s,
                None => Seq::empty(),
            };
            let body = match d.text_body {
                Some(s) => s,
                None => Seq::empty(),
            };
            &&& p.mailbox_id matches Some(m) ==> d.summary.mailbox_id == m
            &&& p.from matches Some(n) ==> search::contains_seq(
                unicode::lowercase(d.summary.from),
                unicode::lowercase(n),
            )
            &&& p.from_regex matches Some(x) ==> finds(x, d.summary.from)
            &&& p.to matches Some(n) ==> exists|i: int|
                0 <= i < d.summary.to.len() && search::contains_seq(
                    unicode::lowercase(#[trigger] d.summary.to[i]),
                    unicode::lowercase(n),
                )
            &&& p.subject matches Some(n) ==> search::contains_seq(
                unicode::lowercase(subject),
                unicode::lowercase(n),
            )
            &&& p.subject_regex matches Some(x) ==> finds(x, subject)
            &&& p.body_contains matches Some(n) ==> search::contains_seq(body, n)
            &&& p.body_regex matches Some(x) ==> finds(x, body)
            &&& p.has_attachment matches Some(b) ==> b == (d.attachments.len() > 0)
            &&& forall|i: int| 0 <= i < p.headers.len() ==> header_holds(#[trigger] p.headers[i], d.headers)
        },
{
    let subject = chars::or_empty(d.summary.subject);
    let body = chars::or_empty(d.text_body);
    if report(p, d).len() == 0 {
        law_filter_is_necessary(p, d.summary, d);
        assert(regex_report("from"@, p.from_regex, d.summary.from).len() == 0);
        assert(regex_report("subject"@, p.subject_regex, subject).len() == 0);
        assert(body_report(p.body_contains, body).len() == 0);
        assert(regex_report("bodyRegex"@, p.body_regex, body).len() == 0);
        assert(attachment_report(p.has_attachment, d.attachments.len() > 0).len() == 0);
        assert forall|i: int| 0 <= i < p.headers.len() implies header_holds(
            #[trigger] p.headers[i],
            d.headers,
        ) by {
            law_each_header_clause_holds(p, d, i);
            lemma_header_holds(p.headers[i], d.headers);
        }
        if let Some(n) = p.to {
            let k = choose|k: int|
                0 <= k < d.summary.to.len() && holds_folded(#[trigger] d.summary.to[k], n);
            assert(search::contains_seq(
                unicode::lowercase(d.summary.to[k]),
                unicode::lowercase(n),
            ));
        }
    }
    if (forall|i: int| 0 <= i < p.headers.len() ==> header_holds(#[trigger] p.headers[i], d.headers)) {
        lemma_all_headers_hold(p.headers, d.headers);
    }
    if let Some(n) = p.to {
        if exists|i: int|
            0 <= i < d.summary.to.len() && search::contains_seq(
                unicode::lowercase(#[trigger] d.summary.to[i]),
                unicode::lowercase(n),
            ) {
            let k = choose|i: int|
                0 <= i < d.summary.to.len() && search::contains_seq(
                    unicode::lowercase(#[trigger] d.summary.to[i]),
                    unicode::lowercase(n),
                );
            assert(holds_folded(d.summary.to[k], n));
        }
    }
}

/// A header clause holds: the text under its name, which is empty where there is none,
/// holds its text whatever the case of letters, and the regular expression matches it.
pub open spec fn header_holds(h: HeaderClauses, headers: json::JsonModel) -> bool {
    let text = match headers {
        json::JsonModel::Object(m) => if m.contains_key(h.name) {
            match m[h.name] {
                json::JsonModel::Text(s) => s,
                _ => Seq::empty(),
            }
        } else {
            Seq::empty()
        },
        _ => Seq::empty(),
    };
    &&& h.contains matches Some(n) ==> search::contains_seq(
        unicode::lowercase(text),
        unicode::lowercase(n),
    )
    &&& h.regex matches Some(x) ==> finds(x, text)
}

proof fn lemma_header_holds(h: HeaderClauses, headers: json::JsonModel)
    ensures
        (header_report(h, headers).len() == 0) == header_holds(h, headers),
{
}

proof fn lemma_all_headers_hold(hs: Seq<HeaderClauses>, headers: json::JsonModel)
    requires
        forall|i: int| 0 <= i < hs.len() ==> header_holds(#[trigger] hs[i], headers),
    ensures
        headers_report(hs, headers).len() == 0,
    decreases hs.len(),
{
    if hs.len() > 0 {
        assert(header_holds(hs[hs.len() - 1], headers));
        lemma_header_holds(hs.last(), headers);
        assert forall|i: int| 0 <= i < hs.drop_last().len() implies header_holds(
            #[trigger] hs.drop_last()[i],
            headers,
        ) by {
            assert(header_holds(hs[i], headers));
        }
        lemma_all_headers_hold(hs.drop_last(), headers);
    }
}

/// The filter on summaries keeps an email exactly where its mailbox, sender, recipients
/// and subject are as asked.
pub proof fn law_filter_keeps_exactly(p: Clauses, s: emails::SummaryModel)
    ensures
        passes_filter(p, s) <==> {
            let subject = match s.subject {
                Some(t) => t,
                None => Seq::empty(),
            };
            &&& p.mailbox_id matches Some(m) ==> s.mailbox_id == m
            &&& p.from matches Some(n) ==> search::contains_seq(
                unicode::lowercase(s.from),
                unicode::lowercase(n),
            )
            &&& p.to matches Some(n) ==> exists|i: int|
                0 <= i < s.to.len() && search::contains_seq(
                    unicode::lowercase(#[trigger] s.to[i]),
                    unicode::lowercase(n),
                )
            &&& p.subject matches Some(n) ==> search::contains_seq(
                unicode::lowercase(subject),
                unicode::lowercase(n),
            )
        },
{
    if let Some(n) = p.to {
        if some_holds(s.to, n) {
            let k = choose|k: int| 0 <= k < s.to.len() && holds_folded(#[trigger] s.to[k], n);
            assert(search::contains_seq(unicode::lowercase(s.to[k]), unicode::lowercase(n)));
        }
        if exists|i: int|
            0 <= i < s.to.len() && search::contains_seq(
                unicode::lowercase(#[trigger] s.to[i]),
                unicode::lowercase(n),
            ) {
            let k = choose|i: int|
                0 <= i < s.to.len() && search::contains_seq(
                    unicode::lowercase(#[trigger] s.to[i]),
                    unicode::lowercase(n),
                );
            assert(holds_folded(s.to[k], n));
        }
    }
}

/// Each clause is reported as it would be alone, and the reports stand in the order of
/// the clauses: mailbox, sender, recipients, subject, plain text, attachments, headers.
#[verifier::rlimit(60)]
pub proof fn law_clauses_are_reported_in_order(p: Clauses, d: emails::DetailModel)
    ensures
        report(p, d) == report((Clauses { mailbox_id: p.mailbox_id, ..no_clauses() }), d) + report(
            (Clauses { from: p.from, ..no_clauses() }),
            d,
        ) + report((Clauses { from_regex: p.from_regex, ..no_clauses() }), d) + report(
            (Clauses { to: p.to, ..no_clauses() }),
            d,
        ) + report((Clauses { subject: p.subject, ..no_clauses() }), d) + report(
            (Clauses { subject_regex: p.subject_regex, ..no_clauses() }),
            d,
        ) + report((Clauses { body_contains: p.body_contains, ..no_clauses() }), d) + report(
            (Clauses { body_regex: p.body_regex, ..no_clauses() }),
            d,
        ) + report((Clauses { has_attachment: p.has_attachment, ..no_clauses() }), d) + report(
            (Clauses { headers: p.headers, ..no_clauses() }),
            d,
        ),
{
    lemma_alone(p, d);
}

proof fn lemma_alone(p: Clauses, d: emails::DetailModel)
    ensures
        report((Clauses { mailbox_id: p.mailbox_id, ..no_clauses() }), d) == mailbox_report(
            p.mailbox_id,
            d.summary.mailbox_id,
        ),
        report((Clauses { from: p.from, ..no_clauses() }), d) == contains_report(
            "from"@,
            p.from,
            d.summary.from,
        ),
        report((Clauses { from_regex: p.from_regex, ..no_clauses() }), d) == regex_report(
            "from"@,
            p.from_regex,
            d.summary.from,
        ),
        report((Clauses { to: p.to, ..no_clauses() }), d) == to_report(p.to, d.summary.to),
        report((Clauses { subject: p.subject, ..no_clauses() }), d) == contains_report(
            "subject"@,
            p.subject,
            chars::or_empty(d.summary.subject),
        ),
        report((Clauses { subject_regex: p.subject_regex, ..no_clauses() }), d) == regex_report(
            "subject"@,
            p.subject_regex,
            chars::or_empty(d.summary.subject),
        ),
        report((Clauses { body_contains: p.body_contains, ..no_clauses() }), d) == body_report(
            p.body_contains,
            chars::or_empty(d.text_body),
        ),
        report((Clauses { body_regex: p.body_regex, ..no_clauses() }), d) == regex_report(
            "bodyRegex"@,
            p.body_regex,
            chars::or_empty(d.text_body),
        ),
        report((Clauses { has_attachment: p.has_attachment, ..no_clauses() }), d)
            == attachment_report(p.has_attachment, d.attachments.len() > 0),
        report((Clauses { headers: p.headers, ..no_clauses() }), d) == headers_report(
            p.headers,
            d.headers,
        ),
{
    let n = Seq::<Seq<char>>::empty();
    assert(headers_report(Seq::empty(), d.headers) =~= n);
    assert(report((Clauses { mailbox_id: p.mailbox_id, ..no_clauses() }), d) =~= mailbox_report(
        p.mailbox_id,
        d.summary.mailbox_id,
    ));
    assert(report((Clauses { from: p.from, ..no_clauses() }), d) =~= contains_report(
        "from"@,
        p.from,
        d.summary.from,
    ));
    assert(report((Clauses { from_regex: p.from_regex, ..no_clauses() }), d) =~= regex_report(
        "from"@,
        p.from_regex,
        d.summary.from,
    ));
    assert(report((Clauses { to: p.to, ..no_clauses() }), d) =~= to_report(p.to, d.summary.to));
    assert(report((Clauses { subject: p.subject, ..no_clauses() }), d) =~= contains_report(
        "subject"@,
        p.subject,
        chars::or_empty(d.summary.subject),
    ));
    assert(report((Clauses { subject_regex: p.subject_regex, ..no_clauses() }), d)
        =~= regex_report("subject"@, p.subject_regex, chars::or_empty(d.summary.subject)));
    assert(report((Clauses { body_contains: p.body_contains, ..no_clauses() }), d) =~= body_report(
        p.body_contains,
        chars::or_empty(d.text_body),
    ));
    assert(report((Clauses { body_regex: p.body_regex, ..no_clauses() }), d) =~= regex_report(
        "bodyRegex"@,
        p.body_regex,
        chars::or_empty(d.text_body),
    ));
    assert(report((Clauses { has_attachment: p.has_attachment, ..no_clauses() }), d)
        =~= attachment_report(p.has_attachment, d.attachments.len() > 0));
    assert(report((Clauses { headers: p.headers, ..no_clauses() }), d) =~= headers_report(
        p.headers,
        d.headers,
    ));
}

/// The header clauses are reported one after the other.
pub proof fn law_headers_are_reported_in_order(
    a: Seq<HeaderClauses>,
    b: Seq<HeaderClauses>,
    d: emails::DetailModel,
)
    ensures
        report((Clauses { headers: a + b, ..no_clauses() }), d) == report(
            (Clauses { headers: a, ..no_clauses() }),
            d,
        ) + report((Clauses { headers: b, ..no_clauses() }), d),
    decreases b.len(),
{
    lemma_alone((Clauses { headers: a + b, ..no_clauses() }), d);
    lemma_alone((Clauses { headers: a, ..no_clauses() }), d);
    lemma_alone((Clauses { headers: b, ..no_clauses() }), d);
    if b.len() == 0 {
        assert(a + b =~= a);
        assert(headers_report(b, d.headers) =~= Seq::empty());
        assert(headers_report(a, d.headers) + headers_report(b, d.headers) =~= headers_report(
            a,
            d.headers,
        ));
    } else {
        law_headers_are_reported_in_order(a, b.drop_last(), d);
        lemma_alone((Clauses { headers: a + b.drop_last(), ..no_clauses() }), d);
        lemma_alone((Clauses { headers: b.drop_last(), ..no_clauses() }), d);
        assert((a + b).drop_last() =~= a + b.drop_last());
        assert(headers_report(a + b, d.headers) =~= headers_report(a, d.headers) + headers_report(
            b,
            d.headers,
        ));
    }
}

/// How a failed clause is worded: what was expected and what was found, each in quotes.
#[verifier::rlimit(60)]
pub proof fn law_lines_say_what_failed(d: emails::DetailModel, n: Seq<char>, name: Seq<char>)
    ensures
        ({
            let q = unicode::quoted(n);
            let s = d.summary;
            &&& s.mailbox_id != n ==> report((Clauses { mailbox_id: Some(n), ..no_clauses() }), d)
                == seq!["mailboxId: expected "@ + q + ", got "@ + unicode::quoted(s.mailbox_id)]
            &&& !search::contains_seq(unicode::lowercase(s.from), unicode::lowercase(n)) ==> report(
                (Clauses { from: Some(n), ..no_clauses() }),
                d,
            ) == seq!["from"@ + ": expected to contain "@ + q + ", got "@ + unicode::quoted(s.from)]
            &&& patterns::pattern_error(n) is None && patterns::matches_of(n, s.from).len() == 0
                ==> report((Clauses { from_regex: Some(n), ..no_clauses() }), d)
                == seq!["from"@ + ": regex "@ + q + " did not match "@ + unicode::quoted(s.from)]
            &&& patterns::pattern_error(n) matches Some(e) ==> report(
                (Clauses { from_regex: Some(n), ..no_clauses() }),
                d,
            ) == seq!["from"@ + ": invalid regex "@ + q + ": "@ + e]
            &&& patterns::pattern_error(n) matches Some(e) ==> report(
                (Clauses { subject_regex: Some(n), ..no_clauses() }),
                d,
            ) == seq!["subject"@ + ": invalid regex "@ + q + ": "@ + e]
            &&& patterns::pattern_error(n) matches Some(e) ==> report(
                (Clauses { body_regex: Some(n), ..no_clauses() }),
                d,
            ) == seq!["bodyRegex"@ + ": invalid regex "@ + q + ": "@ + e]
            &&& d.text_body matches Some(t) ==> (!search::contains_seq(t, n) ==> report(
                (Clauses { body_contains: Some(n), ..no_clauses() }),
                d,
            ) == seq!["bodyContains: "@ + q + " not found in textBody"@])
            &&& s.subject matches Some(t) ==> (!search::contains_seq(
                unicode::lowercase(t),
                unicode::lowercase(n),
            ) ==> report((Clauses { subject: Some(n), ..no_clauses() }), d)
                == seq!["subject"@ + ": expected to contain "@ + q + ", got "@ + unicode::quoted(t)])
            &&& s.subject matches Some(t) ==> (patterns::pattern_error(n) is None
                && patterns::matches_of(n, t).len() == 0 ==> report(
                (Clauses { subject_regex: Some(n), ..no_clauses() }),
                d,
            ) == seq!["subject"@ + ": regex "@ + q + " did not match "@ + unicode::quoted(t)])
            &&& d.text_body matches Some(t) ==> (patterns::pattern_error(n) is None
                && patterns::matches_of(n, t).len() == 0 ==> report(
                (Clauses { body_regex: Some(n), ..no_clauses() }),
                d,
            ) == seq!["bodyRegex"@ + ": regex "@ + q + " did not match "@ + unicode::quoted(t)])
            &&& d.attachments.len() == 0 ==> report(
                (Clauses { has_attachment: Some(true), ..no_clauses() }),
                d,
            ) == seq!["hasAttachment: expected "@ + "true"@ + ", got "@ + "false"@]
            &&& d.attachments.len() > 0 ==> report(
                (Clauses { has_attachment: Some(false), ..no_clauses() }),
                d,
            ) == seq!["hasAttachment: expected "@ + "false"@ + ", got "@ + "true"@]
            &&& d.headers matches json::JsonModel::Object(m) ==> (m.contains_key(name) ==> (
            m[name] matches json::JsonModel::Text(t) ==> (!search::contains_seq(
                unicode::lowercase(t),
                unicode::lowercase(n),
            ) ==> report(
                (Clauses {
                    headers: seq![HeaderClauses { name, contains: Some(n), regex: None }],
                    ..no_clauses()
                }),
                d,
            ) == seq![
                "header "@ + unicode::quoted(name) + ": expected to contain "@ + q + ", got "@
                    + unicode::quoted(t),
            ])))
        }),
{
    lemma_alone((Clauses { mailbox_id: Some(n), ..no_clauses() }), d);
    lemma_alone((Clauses { from: Some(n), ..no_clauses() }), d);
    lemma_alone((Clauses { from_regex: Some(n), ..no_clauses() }), d);
    lemma_alone((Clauses { subject_regex: Some(n), ..no_clauses() }), d);
    lemma_alone((Clauses { body_regex: Some(n), ..no_clauses() }), d);
    lemma_alone((Clauses { body_contains: Some(n), ..no_clauses() }), d);
    lemma_alone((Clauses { subject: Some(n), ..no_clauses() }), d);
    lemma_alone((Clauses { has_attachment: Some(true), ..no_clauses() }), d);
    lemma_alone((Clauses { has_attachment: Some(false), ..no_clauses() }), d);
    let h = HeaderClauses { name, contains: Some(n), regex: None };
    lemma_alone((Clauses { headers: seq![h], ..no_clauses() }), d);
    assert(seq![h].drop_last() =~= Seq::empty());
    assert(headers_report(seq![h], d.headers) =~= header_report(h, d.headers));
    let none = Seq::<Seq<char>>::empty();
    let t = header_text(d.headers, name);
    assert(header_report(h, d.headers) =~= contains_report(header_label(name), Some(n), t));
}

/// What came in during a wait is the match exactly where the full check accepts it; an
/// email whose detail could not be read is not.
pub proof fn law_wait_goes_by_the_check(p: Clauses, s: emails::SummaryModel, d: emails::DetailModel)
    requires
        d.summary == s,
    ensures
        satisfies(p, s, Some(d)) == (report(p, d).len() == 0),
        !satisfies(p, s, None),
{
    if report(p, d).len() == 0 {
        law_filter_is_necessary(p, s, d);
    }
}

/// How it is worded that no recipient holds a text: all of them are named, in quotes.
pub proof fn law_line_on_recipients(d: emails::DetailModel, n: Seq<char>)
    requires
        forall|i: int|
            0 <= i < d.summary.to.len() ==> !search::contains_seq(
                unicode::lowercase(#[trigger] d.summary.to[i]),
                unicode::lowercase(n),
            ),
    ensures
        report((Clauses { to: Some(n), ..no_clauses() }), d) == seq![
            "to: expected one of "@ + ("["@ + words::joined(
                d.summary.to.map_values(|t: Seq<char>| unicode::quoted(t)),
                ", "@,
            ) + "]"@) + " to contain "@ + unicode::quoted(n),
        ],
{
    lemma_alone((Clauses { to: Some(n), ..no_clauses() }), d);
    assert(d.summary.to.map_values(|t: Seq<char>| unicode::quoted(t)) =~= quoted_each(d.summary.to));
    if some_holds(d.summary.to, n) {
        let k = choose|k: int|
            0 <= k < d.summary.to.len() && holds_folded(#[trigger] d.summary.to[k], n);
        assert(search::contains_seq(unicode::lowercase(d.summary.to[k]), unicode::lowercase(n)));
    }
}

/// The values of a predicate are those of its fields.
pub proof fn law_values_of_a_predicate(p: EmailPredicate, i: int)
    ensures
        p@.mailbox_id == chars::opt_view(p.mailbox_id) && p@.from == chars::opt_view(p.from),
        p@.from_regex == chars::opt_view(p.from_regex) && p@.to == chars::opt_view(p.to),
        p@.subject == chars::opt_view(p.subject),
        p@.subject_regex == chars::opt_view(p.subject_regex),
        p@.body_contains == chars::opt_view(p.body_contains),
        p@.body_regex == chars::opt_view(p.body_regex),
        p@.has_attachment == p.has_attachment,
        p@.headers.len() == p.headers@.len(),
        0 <= i < p.headers@.len() ==> {
            &&& p@.headers[i].name == p.headers@[i].name@
            &&& p@.headers[i].contains == chars::opt_view(p.headers@[i].contains)
            &&& p@.headers[i].regex == chars::opt_view(p.headers@[i].regex)
        },
{
}

} // verus!
