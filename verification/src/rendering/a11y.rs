//! Accessibility linter. Light checks on the source: a *warning* shows a problem
//! in the badge, an *error* would likely fail a real audit.

use vstd::prelude::*;
use vstd::string::*;
use vstd::utf8::*;

use crate::patterns;
use crate::rendering::lint;
use crate::text::chars;
use crate::text::search;
use crate::text::unicode;
use crate::text::words;

verus! {

/// An image tag.
pub const IMG_TAG: &'static str = r#"(?is)<img\b[^>]*>"#;

/// The opening tag of a table.
pub const TABLE_TAG: &'static str = r#"(?is)<table\b[^>]*>"#;

/// What the linter found.
#[derive(Debug, Clone)]
pub struct A11yReport {
    pub findings: Vec<A11yFinding>,
}

/// One finding of the linter.
#[derive(Debug, Clone)]
pub struct A11yFinding {
    pub rule: &'static str,
    pub severity: &'static str,
    pub message: String,
}

/// A finding as a mathematical value.
pub struct FindingModel {
    pub rule: Seq<char>,
    pub severity: Seq<char>,
    pub message: Seq<char>,
}

impl View for A11yFinding {
    type V = FindingModel;

    open spec fn view(&self) -> FindingModel {
        FindingModel { rule: self.rule@, severity: self.severity@, message: self.message@ }
    }
}

/// The findings of a report as mathematical values.
pub open spec fn models(fs: Seq<A11yFinding>) -> Seq<FindingModel> {
    fs.map_values(|f: A11yFinding| f@)
}

/// The text of a match.
pub open spec fn tag_text(html: Seq<char>, m: (usize, usize)) -> Seq<char> {
    chars::text_between(html, m.0 as int, m.1 as int)
}

/// `s`, or its first `n` bytes and an ellipsis where it is longer.
pub open spec fn shortened(s: Seq<char>, n: nat) -> Seq<char> {
    if encode_utf8(s).len() > n {
        chars::text_between(s, 0, n as int).push('\u{2026}')
    } else {
        s
    }
}

/// Shortening `s` to `n` bytes splits no character.
pub open spec fn can_shorten(s: Seq<char>, n: nat) -> bool {
    encode_utf8(s).len() > n ==> is_char_boundary(encode_utf8(s), n as int)
}

/// An image tag, in small letters, without an alternative text.
pub open spec fn tag_lacks_alt(lower_tag: Seq<char>) -> bool {
    !search::contains_seq(lower_tag, "alt="@)
}

/// A match that is an image tag without an alternative text.
pub open spec fn lacks_alt(html: Seq<char>, m: (usize, usize)) -> bool {
    tag_lacks_alt(unicode::lowercase(tag_text(html, m)))
}

/// The finding on an image tag without an alternative text.
pub open spec fn alt_finding(tag: Seq<char>) -> FindingModel {
    FindingModel {
        rule: "IMG_MISSING_ALT"@,
        severity: "error"@,
        message: "Image without alt attribute: "@ + shortened(tag, 80),
    }
}

/// The findings on the image tags `ms`, in their order.
pub open spec fn image_findings(html: Seq<char>, ms: Seq<(usize, usize)>) -> Seq<FindingModel>
    decreases ms.len(),
{
    if ms.len() == 0 {
        Seq::empty()
    } else {
        let before = image_findings(html, ms.drop_last());
        if lacks_alt(html, ms.last()) {
            before.push(alt_finding(tag_text(html, ms.last())))
        } else {
            before
        }
    }
}

/// A link whose text is a phrase, either alone or up to a full stop.
pub open spec fn says(lower: Seq<u8>, closed: Seq<char>, stopped: Seq<char>) -> bool {
    lint::has(lower, closed) || lint::has(lower, stopped)
}

/// Link text that does not tell where the link leads, if there is any.
pub open spec fn vague_link(lower: Seq<u8>) -> Option<FindingModel> {
    let message = if says(lower, ">click here<"@, ">click here."@) {
        Some("Link text \"click here\" is uninformative; describe the destination."@)
    } else if says(lower, ">read more<"@, ">read more."@) {
        Some("Link text \"read more\" is uninformative; describe the destination."@)
    } else if says(lower, ">learn more<"@, ">learn more."@) {
        Some("Link text \"learn more\" is uninformative; describe the destination."@)
    } else {
        None
    };
    match message {
        Some(m) => Some(
            FindingModel { rule: "VAGUE_LINK_TEXT"@, severity: "warning"@, message: m },
        ),
        None => None,
    }
}

/// A third-level heading before any second-level one.
pub open spec fn heading_order(lower: Seq<u8>) -> Option<FindingModel> {
    let broken = match (lint::pos(lower, "<h3"@), lint::pos(lower, "<h2"@)) {
        (Some(h3), Some(h2)) => h3 < h2,
        (Some(_), None) => true,
        (None, _) => false,
    };
    if broken {
        Some(
            FindingModel {
                rule: "HEADING_ORDER"@,
                severity: "warning"@,
                message: "Heading order jumps levels (<h3> before any <h2>)."@,
            },
        )
    } else {
        None
    }
}

/// A document that does not name its language.
pub open spec fn missing_lang(lower: Seq<u8>) -> Option<FindingModel> {
    if !lint::has(lower, "<html"@) || !lint::has(lower, " lang="@) {
        Some(
            FindingModel {
                rule: "MISSING_LANG"@,
                severity: "warning"@,
                message: "<html> is missing a `lang` attribute; screen readers default to system locale."@,
            },
        )
    } else {
        None
    }
}

/// A table tag, in small letters, that says the table is for layout.
pub open spec fn tag_is_presentation(lower_tag: Seq<char>) -> bool {
    ||| search::contains_seq(lower_tag, "role=\"presentation\""@)
    ||| search::contains_seq(lower_tag, "role=presentation"@)
}

/// A match that is a table tag for layout.
pub open spec fn is_presentation(html: Seq<char>, m: (usize, usize)) -> bool {
    tag_is_presentation(unicode::lowercase(tag_text(html, m)))
}

/// Where the search for a caption ends: 200 bytes behind the tag, or at the end
/// of the HTML.
pub open spec fn caption_limit(html: Seq<char>, m: (usize, usize)) -> int {
    let n = encode_utf8(html).len();
    if m.1 + 200 <= n {
        m.1 + 200
    } else {
        n as int
    }
}

/// A table that is neither for layout nor followed by a caption.
pub open spec fn lacks_caption(html: Seq<char>, m: (usize, usize)) -> bool {
    &&& !is_presentation(html, m)
    &&& !lint::has(
        lint::folded(html).subrange(m.1 as int, caption_limit(html, m)),
        "<caption"@,
    )
}

/// A table without caption, reported once.
pub open spec fn bare_table(html: Seq<char>) -> Option<FindingModel> {
    let ms = patterns::matches_of(TABLE_TAG@, html);
    if exists|i: int| 0 <= i < ms.len() && lacks_caption(html, #[trigger] ms[i]) {
        Some(
            FindingModel {
                rule: "TABLE_NO_CAPTION"@,
                severity: "warning"@,
                message: "<table> without role=\"presentation\" or <caption>; screen readers will announce it as data."@,
            },
        )
    } else {
        None
    }
}

/// A list with an optional finding put behind it.
pub open spec fn with_finding(fs: Seq<FindingModel>, f: Option<FindingModel>) -> Seq<
    FindingModel,
> {
    match f {
        Some(x) => fs.push(x),
        None => fs,
    }
}

/// The findings of the linter, in the order of its rules.
pub open spec fn audit_findings(html: Seq<char>) -> Seq<FindingModel> {
    let lower = lint::folded(html);
    let a = image_findings(html, patterns::matches_of(IMG_TAG@, html));
    let b = with_finding(a, vague_link(lower));
    let c = with_finding(b, heading_order(lower));
    let d = with_finding(c, missing_lang(lower));
    with_finding(d, bare_table(html))
}

/// The part of an image tag that is reported, where it is, ends between two
/// characters.
pub open spec fn image_cut_clean(html: Seq<char>, m: (usize, usize)) -> bool {
    lacks_alt(html, m) ==> can_shorten(tag_text(html, m), 80)
}

/// The bytes behind the `i`-th table tag that are searched for a caption, where
/// they are searched, end between two characters.
pub open spec fn table_cut_clean(html: Seq<char>, ms: Seq<(usize, usize)>, i: int) -> bool {
    (forall|j: int| 0 <= j < i ==> !lacks_caption(html, #[trigger] ms[j])) && !is_presentation(
        html,
        ms[i],
    ) ==> is_char_boundary(encode_utf8(html), caption_limit(html, ms[i]))
}

/// No cut that the linter makes in the HTML splits a character.
pub open spec fn cuts_are_clean(html: Seq<char>) -> bool {
    let images = patterns::matches_of(IMG_TAG@, html);
    let tables = patterns::matches_of(TABLE_TAG@, html);
    &&& forall|i: int| 0 <= i < images.len() ==> image_cut_clean(html, #[trigger] images[i])
    &&& forall|i: int|
        0 <= i < tables.len() ==> #[trigger] table_cut_clean(html, tables, i)
}

/// The text between two byte offsets that fall between characters.
fn slice(html: &str, m: (usize, usize)) -> (r: &str)
    requires
        patterns::is_span(m, html@),
    ensures
        r@ == tag_text(html@, m),
{
    proof {
        encode_utf8_valid_utf8(html@);
        lemma_inner_boundary(encode_utf8(html@), m.0 as int, m.1 as int);
    }
    let (upto, _) = html.split_at(m.1);
    let (_, r) = upto.split_at(m.0);
    proof {
        let b = encode_utf8(html@);
        assert(b.subrange(0, m.1 as int).subrange(m.0 as int, m.1 as int) =~= b.subrange(
            m.0 as int,
            m.1 as int,
        ));
        encode_utf8_decode_utf8(r@);
    }
    r
}

/// A boundary of a text is one of each beginning of the text that reaches it.
proof fn lemma_inner_boundary(b: Seq<u8>, lo: int, hi: int)
    requires
        valid_utf8(b),
        0 <= lo <= hi <= b.len(),
        is_char_boundary(b, lo),
        is_char_boundary(b, hi),
    ensures
        valid_utf8(b.subrange(0, hi)),
        is_char_boundary(b.subrange(0, hi), lo),
{
    let c = b.subrange(0, hi);
    valid_utf8_split(b, hi);
    if 0 < lo < hi {
        is_char_boundary_iff_not_is_continuation_byte(b, lo);
        is_char_boundary_iff_not_is_continuation_byte(c, lo);
        assert(b[lo] == c[lo]);
    } else {
        is_char_boundary_start_end_of_seq(c);
    }
}

/// `s`, or its first `n` bytes and an ellipsis where it is longer.
pub fn truncate(s: &str, n: usize) -> (r: String)
    requires
        can_shorten(s@, n as nat),
    ensures
        r@ == shortened(s@, n as nat),
{
    if s.as_bytes().len() > n {
        let mut out: String = chars::cut(s, n).0.to_owned();
        out.push('\u{2026}');
        out
    } else {
        s.to_owned()
    }
}

fn image_lacks_alt(html: &str, m: (usize, usize)) -> (r: bool)
    requires
        patterns::is_span(m, html@),
    ensures
        r == lacks_alt(html@, m),
{
    missing_alt(slice(html, m).to_lowercase().as_str())
}

/// Whether an image tag, in small letters, has no alternative text.
pub fn missing_alt(lower_tag: &str) -> (r: bool)
    ensures
        r == tag_lacks_alt(lower_tag@),
{
    !search::text_contains(lower_tag, "alt=")
}

/// The finding on an image tag without an alternative text.
pub fn missing_alt_finding(tag: &str) -> (r: A11yFinding)
    requires
        can_shorten(tag@, 80),
    ensures
        r@ == alt_finding(tag@),
{
    A11yFinding {
        rule: "IMG_MISSING_ALT",
        severity: "error",
        message: words::cat("Image without alt attribute: ", truncate(tag, 80).as_str()),
    }
}

fn check_images(html: &str, ms: &Vec<(usize, usize)>) -> (r: Vec<A11yFinding>)
    requires
        forall|i: int| 0 <= i < ms@.len() ==> patterns::is_span(#[trigger] ms@[i], html@),
        forall|i: int| 0 <= i < ms@.len() ==> image_cut_clean(html@, #[trigger] ms@[i]),
    ensures
        models(r@) == image_findings(html@, ms@),
{
    let mut out: Vec<A11yFinding> = Vec::new();
    let mut i: usize = 0;
    assert(models(out@) =~= Seq::empty());
    while i < ms.len()
        invariant
            i <= ms@.len(),
            forall|i: int| 0 <= i < ms@.len() ==> patterns::is_span(#[trigger] ms@[i], html@),
            forall|i: int| 0 <= i < ms@.len() ==> image_cut_clean(html@, #[trigger] ms@[i]),
            models(out@) == image_findings(html@, ms@.take(i as int)),
        decreases ms@.len() - i,
    {
        let m: (usize, usize) = ms[i];
        let ghost before = out@;
        assert(ms@.take(i + 1).drop_last() =~= ms@.take(i as int));
        assert(ms@.take(i + 1).last() == m);
        if image_lacks_alt(html, m) {
            let f = missing_alt_finding(slice(html, m));
            out.push(f);
            assert(models(out@) =~= models(before).push(f@));
        }
        i = i + 1;
    }
    assert(ms@.take(i as int) =~= ms@);
    out
}

fn contains(lower: &[u8], needle: &str) -> (r: bool)
    ensures
        r == lint::has(lower@, needle@),
{
    search::bytes_contain(lower, needle.as_bytes())
}

fn find(lower: &[u8], needle: &str) -> (r: Option<usize>)
    ensures
        match r {
            Some(i) => lint::pos(lower@, needle@) == Some(i as int),
            None => lint::pos(lower@, needle@) is None,
        },
{
    search::find_bytes(lower, needle.as_bytes(), 0)
}

fn finding(rule: &'static str, severity: &'static str, message: &'static str) -> (r: A11yFinding)
    ensures
        r@ == (FindingModel { rule: rule@, severity: severity@, message: message@ }),
{
    A11yFinding { rule, severity, message: message.to_owned() }
}

/// The finding on vague link texts in HTML with small letters.
pub fn check_links(lower: &[u8]) -> (r: Option<A11yFinding>)
    ensures
        r is Some == vague_link(lower@) is Some,
        r matches Some(f) ==> vague_link(lower@) == Some(f@),
{
    if contains(lower, ">click here<") || contains(lower, ">click here.") {
        Some(
            finding(
                "VAGUE_LINK_TEXT",
                "warning",
                "Link text \"click here\" is uninformative; describe the destination.",
            ),
        )
    } else if contains(lower, ">read more<") || contains(lower, ">read more.") {
        Some(
            finding(
                "VAGUE_LINK_TEXT",
                "warning",
                "Link text \"read more\" is uninformative; describe the destination.",
            ),
        )
    } else if contains(lower, ">learn more<") || contains(lower, ">learn more.") {
        Some(
            finding(
                "VAGUE_LINK_TEXT",
                "warning",
                "Link text \"learn more\" is uninformative; describe the destination.",
            ),
        )
    } else {
        None
    }
}

/// The finding on the order of the headings in HTML with small letters.
pub fn check_headings(lower: &[u8]) -> (r: Option<A11yFinding>)
    ensures
        r is Some == heading_order(lower@) is Some,
        r matches Some(f) ==> heading_order(lower@) == Some(f@),
{
    let broken: bool = match (find(lower, "<h3"), find(lower, "<h2")) {
        (Some(h3), Some(h2)) => h3 < h2,
        (Some(_), None) => true,
        (None, _) => false,
    };
    if broken {
        Some(
            finding(
                "HEADING_ORDER",
                "warning",
                "Heading order jumps levels (<h3> before any <h2>).",
            ),
        )
    } else {
        None
    }
}

/// The finding on the language of HTML with small letters.
pub fn check_lang(lower: &[u8]) -> (r: Option<A11yFinding>)
    ensures
        r is Some == missing_lang(lower@) is Some,
        r matches Some(f) ==> missing_lang(lower@) == Some(f@),
{
    if !contains(lower, "<html") || !contains(lower, " lang=") {
        Some(
            finding(
                "MISSING_LANG",
                "warning",
                "<html> is missing a `lang` attribute; screen readers default to system locale.",
            ),
        )
    } else {
        None
    }
}

fn table_is_presentation(html: &str, m: (usize, usize)) -> (r: bool)
    requires
        patterns::is_span(m, html@),
    ensures
        r == is_presentation(html@, m),
{
    for_layout(slice(html, m).to_lowercase().as_str())
}

/// Whether a table tag, in small letters, says that the table is for layout.
pub fn for_layout(lower_tag: &str) -> (r: bool)
    ensures
        r == tag_is_presentation(lower_tag@),
{
    search::text_contains(lower_tag, "role=\"presentation\"") || search::text_contains(
        lower_tag,
        "role=presentation",
    )
}

fn limit_of(html: &str, m: (usize, usize)) -> (r: usize)
    requires
        patterns::is_span(m, html@),
    ensures
        r == caption_limit(html@, m),
        m.1 <= r <= encode_utf8(html@).len(),
{
    let n: usize = html.as_bytes().len();
    if n - m.1 >= 200 {
        m.1 + 200
    } else {
        n
    }
}

fn table_lacks_caption(html: &str, lower: &[u8], m: (usize, usize)) -> (r: bool)
    requires
        patterns::is_span(m, html@),
        lower@ == lint::folded(html@),
    ensures
        r == lacks_caption(html@, m),
{
    if table_is_presentation(html, m) {
        false
    } else {
        let hi: usize = limit_of(html, m);
        let after: &[u8] = vstd::slice::slice_subrange(lower, m.1, hi);
        !contains(after, "<caption")
    }
}

fn check_tables(html: &str, lower: &[u8]) -> (r: Option<A11yFinding>)
    requires
        lower@ == lint::folded(html@),
    ensures
        r is Some == bare_table(html@) is Some,
        r matches Some(f) ==> bare_table(html@) == Some(f@),
{
    let ms: Vec<(usize, usize)> = patterns::find_all(TABLE_TAG, html);
    let mut i: usize = 0;
    while i < ms.len()
        invariant
            i <= ms@.len(),
            lower@ == lint::folded(html@),
            ms@ == patterns::matches_of(TABLE_TAG@, html@),
            forall|i: int| 0 <= i < ms@.len() ==> patterns::is_span(#[trigger] ms@[i], html@),
            forall|j: int| 0 <= j < i ==> !lacks_caption(html@, #[trigger] ms@[j]),
        decreases ms@.len() - i,
    {
        if table_lacks_caption(html, lower, ms[i]) {
            return Some(
                finding(
                    "TABLE_NO_CAPTION",
                    "warning",
                    "<table> without role=\"presentation\" or <caption>; screen readers will announce it as data.",
                ),
            );
        }
        i = i + 1;
    }
    None
}

fn push_opt(fs: &mut Vec<A11yFinding>, f: Option<A11yFinding>, Ghost(m): Ghost<Option<FindingModel>>)
    requires
        f is Some == m is Some,
        f matches Some(x) ==> m == Some(x@),
    ensures
        models(final(fs)@) == with_finding(models(old(fs)@), m),
{
    match f {
        Some(x) => {
            fs.push(x);
            assert(models(fs@) =~= models(old(fs)@).push(x@));
        },
        None => {},
    }
}

/// The accessibility findings on `html`. The texts that the linter cuts out of
/// the HTML have to end between two characters; `checked_audit` tests that.
pub fn audit(html: &str) -> (r: A11yReport)
    requires
        cuts_are_clean(html@),
    ensures
        models(r.findings@) == audit_findings(html@),
{
    let v: Vec<u8> = unicode::to_lower_bytes(html.as_bytes());
    let lower: &[u8] = v.as_slice();
    let images: Vec<(usize, usize)> = patterns::find_all(IMG_TAG, html);
    let mut fs: Vec<A11yFinding> = check_images(html, &images);
    push_opt(&mut fs, check_links(lower), Ghost(vague_link(lower@)));
    push_opt(&mut fs, check_headings(lower), Ghost(heading_order(lower@)));
    push_opt(&mut fs, check_lang(lower), Ghost(missing_lang(lower@)));
    push_opt(&mut fs, check_tables(html, lower), Ghost(bare_table(html@)));
    A11yReport { findings: fs }
}

fn images_cut_clean(html: &str) -> (r: bool)
    ensures
        r == (forall|i: int|
            0 <= i < patterns::matches_of(IMG_TAG@, html@).len() ==> image_cut_clean(
                html@,
                #[trigger] patterns::matches_of(IMG_TAG@, html@)[i],
            )),
{
    let ms: Vec<(usize, usize)> = patterns::find_all(IMG_TAG, html);
    let mut i: usize = 0;
    while i < ms.len()
        invariant
            i <= ms@.len(),
            ms@ == patterns::matches_of(IMG_TAG@, html@),
            forall|i: int| 0 <= i < ms@.len() ==> patterns::is_span(#[trigger] ms@[i], html@),
            forall|j: int| 0 <= j < i ==> image_cut_clean(html@, #[trigger] ms@[j]),
        decreases ms@.len() - i,
    {
        let m: (usize, usize) = ms[i];
        if image_lacks_alt(html, m) {
            let tag: &str = slice(html, m);
            if tag.as_bytes().len() > 80 && !tag.is_char_boundary(80) {
                assert(!image_cut_clean(html@, ms@[i as int]));
                return false;
            }
        }
        i = i + 1;
    }
    true
}

fn tables_cut_clean(html: &str) -> (r: bool)
    ensures
        r == (forall|i: int|
            0 <= i < patterns::matches_of(TABLE_TAG@, html@).len() ==> #[trigger] table_cut_clean(
                html@,
                patterns::matches_of(TABLE_TAG@, html@),
                i,
            )),
{
    let v: Vec<u8> = unicode::to_lower_bytes(html.as_bytes());
    let lower: &[u8] = v.as_slice();
    let ms: Vec<(usize, usize)> = patterns::find_all(TABLE_TAG, html);
    let mut i: usize = 0;
    while i < ms.len()
        invariant
            i <= ms@.len(),
            lower@ == lint::folded(html@),
            ms@ == patterns::matches_of(TABLE_TAG@, html@),
            forall|i: int| 0 <= i < ms@.len() ==> patterns::is_span(#[trigger] ms@[i], html@),
            forall|j: int| 0 <= j < i ==> !lacks_caption(html@, #[trigger] ms@[j]),
            forall|j: int| 0 <= j < i ==> #[trigger] table_cut_clean(html@, ms@, j),
        decreases ms@.len() - i,
    {
        let m: (usize, usize) = ms[i];
        if !table_is_presentation(html, m) && !html.is_char_boundary(limit_of(html, m)) {
            assert(!table_cut_clean(html@, ms@, i as int));
            return false;
        }
        assert(table_cut_clean(html@, ms@, i as int));
        if table_lacks_caption(html, lower, m) {
            assert forall|k: int| 0 <= k < ms@.len() implies #[trigger] table_cut_clean(
                html@,
                ms@,
                k,
            ) by {
                if k > i {
                    assert(lacks_caption(html@, ms@[i as int]));
                }
            }
            return true;
        }
        i = i + 1;
    }
    true
}

/// The accessibility findings on `html`, or nothing where a text that the linter
/// would cut out of it ends inside a character.
pub fn checked_audit(html: &str) -> (r: Option<A11yReport>)
    ensures
        r is Some == cuts_are_clean(html@),
        r matches Some(report) ==> models(report.findings@) == audit_findings(html@),
{
    if images_cut_clean(html) && tables_cut_clean(html) {
        Some(audit(html))
    } else {
        None
    }
}

/// Every image tag without an alternative text is reported.
pub proof fn law_every_bare_image_is_reported(html: Seq<char>, i: int)
    requires
        0 <= i < patterns::matches_of(IMG_TAG@, html).len(),
        lacks_alt(html, patterns::matches_of(IMG_TAG@, html)[i]),
    ensures
        audit_findings(html).contains(
            alt_finding(tag_text(html, patterns::matches_of(IMG_TAG@, html)[i])),
        ),
{
    let ms = patterns::matches_of(IMG_TAG@, html);
    lemma_image_reported(html, ms, i);
    let a = image_findings(html, ms);
    let f = alt_finding(tag_text(html, ms[i]));
    let k = choose|k: int| 0 <= k < a.len() && a[k] == f;
    let all = audit_findings(html);
    assert(all.len() >= a.len());
    assert(all[k] == f);
}

proof fn lemma_image_reported(html: Seq<char>, ms: Seq<(usize, usize)>, i: int)
    requires
        0 <= i < ms.len(),
        lacks_alt(html, ms[i]),
    ensures
        image_findings(html, ms).contains(alt_finding(tag_text(html, ms[i]))),
    decreases ms.len(),
{
    let f = alt_finding(tag_text(html, ms[i]));
    let all = image_findings(html, ms);
    if i == ms.len() - 1 {
        assert(all[all.len() - 1] == f);
    } else {
        lemma_image_reported(html, ms.drop_last(), i);
        let front = image_findings(html, ms.drop_last());
        let k = choose|k: int| 0 <= k < front.len() && front[k] == f;
        assert(all[k] == f);
    }
}

/// There is a finding of a rule.
pub open spec fn is_reported(fs: Seq<FindingModel>, rule: Seq<char>) -> bool {
    exists|i: int| 0 <= i < fs.len() && (#[trigger] fs[i]).rule == rule
}

proof fn lemma_reported(fs: Seq<FindingModel>, f: Option<FindingModel>, rule: Seq<char>)
    ensures
        is_reported(with_finding(fs, f), rule) == (is_reported(fs, rule) || (f matches Some(x)
            && x.rule == rule)),
{
    let all = with_finding(fs, f);
    if is_reported(fs, rule) {
        let i = choose|i: int| 0 <= i < fs.len() && (#[trigger] fs[i]).rule == rule;
        assert(all[i].rule == rule);
    }
    if let Some(x) = f {
        if x.rule == rule {
            assert(all[fs.len() as int].rule == rule);
        }
        if is_reported(all, rule) {
            let i = choose|i: int| 0 <= i < all.len() && (#[trigger] all[i]).rule == rule;
            if i < fs.len() {
                assert(fs[i].rule == rule);
            }
        }
    }
}

proof fn lemma_rule_names()
    ensures
        "IMG_MISSING_ALT"@.len() == 15,
        "VAGUE_LINK_TEXT"@.len() == 15,
        "IMG_MISSING_ALT"@ != "VAGUE_LINK_TEXT"@,
        "HEADING_ORDER"@.len() == 13,
        "MISSING_LANG"@.len() == 12,
        "TABLE_NO_CAPTION"@.len() == 16,
{
    reveal_strlit("IMG_MISSING_ALT");
    reveal_strlit("VAGUE_LINK_TEXT");
    reveal_strlit("HEADING_ORDER");
    reveal_strlit("MISSING_LANG");
    reveal_strlit("TABLE_NO_CAPTION");
    assert("IMG_MISSING_ALT"@[0] != "VAGUE_LINK_TEXT"@[0]);
}

proof fn lemma_image_rules(html: Seq<char>, ms: Seq<(usize, usize)>)
    ensures
        forall|i: int|
            0 <= i < image_findings(html, ms).len() ==> (#[trigger] image_findings(html, ms)[i]).rule
                == "IMG_MISSING_ALT"@,
    decreases ms.len(),
{
    if ms.len() > 0 {
        lemma_image_rules(html, ms.drop_last());
        let front = image_findings(html, ms.drop_last());
        let all = image_findings(html, ms);
        assert forall|i: int| 0 <= i < all.len() implies (#[trigger] all[i]).rule
            == "IMG_MISSING_ALT"@ by {
            if i < front.len() {
                assert(all[i] == front[i]);
            }
        }
    }
}

/// The rules on the whole document are reported exactly where it breaks them: a link
/// text that says nothing of where it leads, a third-level heading before any
/// second-level one, a document without a language, and a table that is neither for
/// layout nor followed by a caption within two hundred bytes.
#[verifier::rlimit(60)]
pub proof fn law_rules_are_reported_where_broken(html: Seq<char>)
    ensures
        ({
            let fs = audit_findings(html);
            let tables = patterns::matches_of(r#"(?is)<table\b[^>]*>"#@, html);
            &&& is_reported(fs, "VAGUE_LINK_TEXT"@) == (lint::stands(html, ">click here<"@)
                || lint::stands(html, ">click here."@) || lint::stands(html, ">read more<"@)
                || lint::stands(html, ">read more."@) || lint::stands(html, ">learn more<"@)
                || lint::stands(html, ">learn more."@))
            &&& is_reported(fs, "HEADING_ORDER"@) == (lint::stands(html, "<h3"@) && (!lint::stands(
                html,
                "<h2"@,
            ) || exists|a: int, b: int| #[trigger]
                lint::stands_first(html, "<h3"@, 0, a) && #[trigger] lint::stands_first(
                    html,
                    "<h2"@,
                    0,
                    b,
                ) && a < b))
            &&& is_reported(fs, "MISSING_LANG"@) == !(lint::stands(html, "<html"@) && lint::stands(
                html,
                " lang="@,
            ))
            &&& is_reported(fs, "TABLE_NO_CAPTION"@) == (exists|i: int|
                0 <= i < tables.len() && is_bare_table(html, #[trigger] tables[i]))
        }),
{
    let h = lint::small(html);
    assert(lint::folded(html) =~= h);
    lemma_rule_names();
    let images = patterns::matches_of(IMG_TAG@, html);
    let a = image_findings(html, images);
    lemma_image_rules(html, images);
    let b = with_finding(a, vague_link(h));
    let c = with_finding(b, heading_order(h));
    let d = with_finding(c, missing_lang(h));
    assert(!is_reported(a, "VAGUE_LINK_TEXT"@));
    lemma_reported(a, vague_link(h), "VAGUE_LINK_TEXT"@);
    lemma_reported(b, heading_order(h), "VAGUE_LINK_TEXT"@);
    lemma_reported(c, missing_lang(h), "VAGUE_LINK_TEXT"@);
    lemma_reported(d, bare_table(html), "VAGUE_LINK_TEXT"@);
    assert(!is_reported(a, "HEADING_ORDER"@));
    lemma_reported(a, vague_link(h), "HEADING_ORDER"@);
    lemma_reported(b, heading_order(h), "HEADING_ORDER"@);
    lemma_reported(c, missing_lang(h), "HEADING_ORDER"@);
    lemma_reported(d, bare_table(html), "HEADING_ORDER"@);
    assert(!is_reported(a, "MISSING_LANG"@));
    lemma_reported(a, vague_link(h), "MISSING_LANG"@);
    lemma_reported(b, heading_order(h), "MISSING_LANG"@);
    lemma_reported(c, missing_lang(h), "MISSING_LANG"@);
    lemma_reported(d, bare_table(html), "MISSING_LANG"@);
    assert(!is_reported(a, "TABLE_NO_CAPTION"@));
    lemma_reported(a, vague_link(h), "TABLE_NO_CAPTION"@);
    lemma_reported(b, heading_order(h), "TABLE_NO_CAPTION"@);
    lemma_reported(c, missing_lang(h), "TABLE_NO_CAPTION"@);
    lemma_reported(d, bare_table(html), "TABLE_NO_CAPTION"@);
    search::lemma_find_from(h, encode_utf8("<h3"@), 0);
    search::lemma_find_contains(h, encode_utf8("<h3"@));
    search::lemma_find_from(h, encode_utf8("<h2"@), 0);
    search::lemma_find_contains(h, encode_utf8("<h2"@));
    if let Some(x) = lint::pos(h, "<h3"@) {
        assert(lint::stands_first(html, "<h3"@, 0, x));
        assert forall|y: int| #[trigger] lint::stands_first(html, "<h3"@, 0, y) implies y == x by {
            if y < x {
                assert(search::occurs_at(h, encode_utf8("<h3"@), y));
            } else if x < y {
                assert(search::occurs_at(h, encode_utf8("<h3"@), x));
            }
        }
    }
    if let Some(x) = lint::pos(h, "<h2"@) {
        assert(lint::stands_first(html, "<h2"@, 0, x));
        assert forall|y: int| #[trigger] lint::stands_first(html, "<h2"@, 0, y) implies y == x by {
            if y < x {
                assert(search::occurs_at(h, encode_utf8("<h2"@), y));
            } else if x < y {
                assert(search::occurs_at(h, encode_utf8("<h2"@), x));
            }
        }
    }
    let tables = patterns::matches_of(TABLE_TAG@, html);
    assert forall|i: int| 0 <= i < tables.len() implies lacks_caption(html, #[trigger] tables[i])
        == is_bare_table(html, tables[i]) by {}
    if exists|i: int| 0 <= i < tables.len() && lacks_caption(html, #[trigger] tables[i]) {
        let k = choose|i: int| 0 <= i < tables.len() && lacks_caption(html, #[trigger] tables[i]);
        assert(is_bare_table(html, tables[k]));
    }
    if exists|i: int| 0 <= i < tables.len() && is_bare_table(html, #[trigger] tables[i]) {
        let k = choose|i: int| 0 <= i < tables.len() && is_bare_table(html, #[trigger] tables[i]);
        assert(lacks_caption(html, tables[k]));
    }
}

/// The table whose opening tag is `m` does not say in the tag that it is for layout, and
/// no caption begins in the two hundred bytes behind the tag.
pub open spec fn is_bare_table(html: Seq<char>, m: (usize, usize)) -> bool {
    let bytes = encode_utf8(html);
    let tag = unicode::lowercase(decode_utf8(bytes.subrange(m.0 as int, m.1 as int)));
    let end = if m.1 + 200 <= bytes.len() {
        m.1 + 200
    } else {
        bytes.len() as int
    };
    &&& !search::contains_seq(tag, "role=\"presentation\""@)
    &&& !search::contains_seq(tag, "role=presentation"@)
    &&& !search::contains_seq(
        lint::small(html).subrange(m.1 as int, end),
        encode_utf8("<caption"@),
    )
}

/// The findings on images are those on the tags without an alternative text, one for
/// each, in their order and before all other findings. Each shows its tag, of a long one
/// the first eighty bytes and an ellipsis.
#[verifier::rlimit(60)]
pub proof fn law_image_findings(html: Seq<char>)
    ensures
        ({
            let bytes = encode_utf8(html);
            let tags = patterns::matches_of(r#"(?is)<img\b[^>]*>"#@, html).map_values(
                |m: (usize, usize)| decode_utf8(bytes.subrange(m.0 as int, m.1 as int)),
            ).filter(|t: Seq<char>| !search::contains_seq(unicode::lowercase(t), "alt="@));
            &&& audit_findings(html).len() >= tags.len()
            &&& forall|i: int|
                0 <= i < tags.len() ==> (#[trigger] audit_findings(html)[i]) == (FindingModel {
                    rule: "IMG_MISSING_ALT"@,
                    severity: "error"@,
                    message: "Image without alt attribute: "@ + if encode_utf8(tags[i]).len() <= 80 {
                        tags[i]
                    } else {
                        decode_utf8(encode_utf8(tags[i]).subrange(0, 80)).push('\u{2026}')
                    },
                })
            &&& forall|i: int|
                tags.len() <= i < audit_findings(html).len() ==> (#[trigger] audit_findings(
                    html,
                )[i]).rule != "IMG_MISSING_ALT"@
        }),
{
    let images = patterns::matches_of(IMG_TAG@, html);
    lemma_image_tags(html, images);
    lemma_rule_names();
}

proof fn lemma_image_tags(html: Seq<char>, ms: Seq<(usize, usize)>)
    ensures
        ({
            let bytes = encode_utf8(html);
            let tags = ms.map_values(
                |m: (usize, usize)| decode_utf8(bytes.subrange(m.0 as int, m.1 as int)),
            ).filter(|t: Seq<char>| !search::contains_seq(unicode::lowercase(t), "alt="@));
            &&& image_findings(html, ms).len() == tags.len()
            &&& forall|i: int|
                0 <= i < tags.len() ==> #[trigger] image_findings(html, ms)[i] == alt_finding(tags[i])
        }),
    decreases ms.len(),
{
    reveal(Seq::filter);
    let bytes = encode_utf8(html);
    let cut = |m: (usize, usize)| decode_utf8(bytes.subrange(m.0 as int, m.1 as int));
    let bare = |t: Seq<char>| !search::contains_seq(unicode::lowercase(t), "alt="@);
    let all = ms.map_values(cut);
    if ms.len() > 0 {
        lemma_image_tags(html, ms.drop_last());
        assert(all.drop_last() =~= ms.drop_last().map_values(cut));
        assert(all.last() == tag_text(html, ms.last()));
        assert(bare(all.last()) == lacks_alt(html, ms.last()));
    } else {
        assert(all =~= Seq::empty());
        assert(all.filter(bare) =~= Seq::empty());
    }
}

/// The finding on link texts names the phrase, of several the first of the three that
/// are looked for; the other findings on the whole document are worded as follows, and
/// all are warnings.
#[verifier::rlimit(60)]
pub proof fn law_findings_are_worded(html: Seq<char>, i: int)
    requires
        0 <= i < audit_findings(html).len(),
    ensures
        ({
            let f = audit_findings(html)[i];
            &&& f.rule == "VAGUE_LINK_TEXT"@ ==> f.severity == "warning"@ && f.message == (
            if lint::stands(html, ">click here<"@) || lint::stands(html, ">click here."@) {
                "Link text \"click here\" is uninformative; describe the destination."@
            } else if lint::stands(html, ">read more<"@) || lint::stands(html, ">read more."@) {
                "Link text \"read more\" is uninformative; describe the destination."@
            } else {
                "Link text \"learn more\" is uninformative; describe the destination."@
            })
            &&& f.rule == "HEADING_ORDER"@ ==> f.severity == "warning"@ && f.message
                == "Heading order jumps levels (<h3> before any <h2>)."@
            &&& f.rule == "MISSING_LANG"@ ==> f.severity == "warning"@ && f.message
                == "<html> is missing a `lang` attribute; screen readers default to system locale."@
            &&& f.rule == "TABLE_NO_CAPTION"@ ==> f.severity == "warning"@ && f.message
                == "<table> without role=\"presentation\" or <caption>; screen readers will announce it as data."@
            &&& f.rule == "IMG_MISSING_ALT"@ || f.rule == "VAGUE_LINK_TEXT"@ || f.rule
                == "HEADING_ORDER"@ || f.rule == "MISSING_LANG"@ || f.rule == "TABLE_NO_CAPTION"@
        }),
{
    let h = lint::small(html);
    assert(lint::folded(html) =~= h);
    lemma_rule_names();
    let images = patterns::matches_of(IMG_TAG@, html);
    lemma_image_rules(html, images);
    let a = image_findings(html, images);
    let b = with_finding(a, vague_link(h));
    let c = with_finding(b, heading_order(h));
    let d = with_finding(c, missing_lang(h));
    let e = with_finding(d, bare_table(html));
    assert(audit_findings(html) == e);
}

/// The rules on the whole document are reported once at most, in their order.
#[verifier::rlimit(60)]
pub proof fn law_document_rules_stand_in_order(html: Seq<char>, i: int, j: int)
    requires
        0 <= i < j < audit_findings(html).len(),
        audit_findings(html)[j].rule != "IMG_MISSING_ALT"@,
    ensures
        place_of(audit_findings(html)[i].rule) < place_of(audit_findings(html)[j].rule),
{
    let h = lint::folded(html);
    lemma_rule_names();
    let images = patterns::matches_of(IMG_TAG@, html);
    lemma_image_rules(html, images);
    let a = image_findings(html, images);
    assert(forall|k: int| 0 <= k < a.len() ==> place_of((#[trigger] a[k]).rule) == 0);
    let b = with_finding(a, vague_link(h));
    assert(forall|k: int| 0 <= k < b.len() ==> place_of((#[trigger] b[k]).rule) <= 1);
    let c = with_finding(b, heading_order(h));
    assert(forall|k: int| 0 <= k < c.len() ==> place_of((#[trigger] c[k]).rule) <= 2);
    let d = with_finding(c, missing_lang(h));
    assert(forall|k: int| 0 <= k < d.len() ==> place_of((#[trigger] d[k]).rule) <= 3);
}

/// The place of a rule among the rules.
pub open spec fn place_of(rule: Seq<char>) -> int {
    if rule == "IMG_MISSING_ALT"@ {
        0
    } else if rule == "VAGUE_LINK_TEXT"@ {
        1
    } else if rule == "HEADING_ORDER"@ {
        2
    } else if rule == "MISSING_LANG"@ {
        3
    } else {
        4
    }
}

/// The values of a finding are those of its fields.
pub proof fn law_values_of_a_finding(f: A11yFinding)
    ensures
        f@.rule == f.rule@ && f@.severity == f.severity@ && f@.message == f.message@,
{
}

} // verus!
