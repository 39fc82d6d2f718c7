//! HTML linter for captured emails. Each rule is a text pattern and a sentence;
//! the HTML is not parsed, so that the linter is cheap and its warnings point at
//! literal source positions.

use vstd::prelude::*;
use vstd::string::*;
use vstd::utf8::*;

use crate::text::search;
use crate::text::unicode;

verus! {

/// What the linter found.
#[derive(Debug, Clone)]
pub struct LintReport {
    pub warnings: Vec<LintWarning>,
}

/// One finding of the linter.
#[derive(Debug, Clone)]
pub struct LintWarning {
    pub rule: &'static str,
    /// "high", "medium" or "low".
    pub severity: &'static str,
    pub message: &'static str,
    /// Where in the HTML the pattern stands, in bytes.
    pub byte_offset: Option<usize>,
    /// The clients that the issue concerns.
    pub affects: &'static [&'static str],
}

/// A finding as a mathematical value.
pub struct WarningModel {
    pub rule: Seq<char>,
    pub severity: Seq<char>,
    pub message: Seq<char>,
    pub byte_offset: Option<int>,
    pub affects: Seq<Seq<char>>,
}

impl View for LintWarning {
    type V = WarningModel;

    open spec fn view(&self) -> WarningModel {
        WarningModel {
            rule: self.rule@,
            severity: self.severity@,
            message: self.message@,
            byte_offset: match self.byte_offset {
                Some(n) => Some(n as int),
                None => None,
            },
            affects: self.affects@.map_values(|s: &'static str| s@),
        }
    }
}

/// The findings of a report as mathematical values.
pub open spec fn findings(ws: Seq<LintWarning>) -> Seq<WarningModel> {
    ws.map_values(|w: LintWarning| w@)
}

/// The HTML that the rules look at: its bytes with ASCII capitals made small.
pub open spec fn folded(html: Seq<char>) -> Seq<u8> {
    unicode::lower_bytes(encode_utf8(html))
}

/// Where a text first stands in bytes.
pub open spec fn pos(lower: Seq<u8>, needle: Seq<char>) -> Option<int> {
    search::find_seq(lower, encode_utf8(needle))
}

/// Whether a text stands in bytes.
pub open spec fn has(lower: Seq<u8>, needle: Seq<char>) -> bool {
    search::contains_seq(lower, encode_utf8(needle))
}

/// The first of two, if there is one, else the second.
pub open spec fn or_else(a: Option<int>, b: Option<int>) -> Option<int> {
    match a {
        Some(x) => Some(x),
        None => b,
    }
}

/// A `<style>` block after the start of `<body>`.
pub open spec fn style_in_body(lower: Seq<u8>) -> Option<WarningModel> {
    match pos(lower, "<body"@) {
        Some(body) => match search::find_from(lower, encode_utf8("<style"@), body) {
            Some(at) => Some(
                WarningModel {
                    rule: "STYLE_IN_BODY"@,
                    severity: "high"@,
                    message: "Gmail / Outlook Web strip <style> blocks inside <body>. Move them to <head> or inline."@,
                    byte_offset: Some(at),
                    affects: seq!["Gmail Web"@, "Gmail iOS"@, "Outlook Web"@, "Yahoo Mail"@],
                },
            ),
            None => None,
        },
        None => None,
    }
}

/// CSS Grid.
pub open spec fn css_grid(lower: Seq<u8>) -> Option<WarningModel> {
    match or_else(pos(lower, "display: grid"@), pos(lower, "display:grid"@)) {
        Some(at) => Some(
            WarningModel {
                rule: "CSS_GRID"@,
                severity: "high"@,
                message: "CSS Grid is not supported in Outlook or older Gmail clients. Use tables."@,
                byte_offset: Some(at),
                affects: seq!["Outlook Desktop"@, "Outlook Web"@, "Gmail iOS"@],
            },
        ),
        None => None,
    }
}

/// Flexbox.
pub open spec fn css_flex(lower: Seq<u8>) -> Option<WarningModel> {
    match or_else(pos(lower, "display: flex"@), pos(lower, "display:flex"@)) {
        Some(at) => Some(
            WarningModel {
                rule: "CSS_FLEX"@,
                severity: "medium"@,
                message: "Flexbox is unsupported in Outlook Desktop. Provide a table fallback."@,
                byte_offset: Some(at),
                affects: seq!["Outlook Desktop"@],
            },
        ),
        None => None,
    }
}

/// A web font brought in by `@import`.
pub open spec fn web_font(lower: Seq<u8>) -> Option<WarningModel> {
    match pos(lower, "@import url"@) {
        Some(at) => Some(
            WarningModel {
                rule: "WEB_FONT_IMPORT"@,
                severity: "medium"@,
                message: "Outlook ignores @import @font-face. Declare a system-font fallback."@,
                byte_offset: Some(at),
                affects: seq!["Outlook Desktop"@],
            },
        ),
        None => None,
    }
}

/// A linked stylesheet.
pub open spec fn stylesheet(lower: Seq<u8>) -> Option<WarningModel> {
    match or_else(
        or_else(pos(lower, "rel=\"stylesheet\""@), pos(lower, "rel='stylesheet'"@)),
        pos(lower, "rel=stylesheet"@),
    ) {
        Some(at) => Some(
            WarningModel {
                rule: "EXTERNAL_STYLESHEET"@,
                severity: "high"@,
                message: "External stylesheets are not loaded by most email clients. Inline the CSS."@,
                byte_offset: Some(at),
                affects: seq![
                    "Gmail Web"@,
                    "Gmail iOS"@,
                    "Outlook Desktop"@,
                    "Outlook Web"@,
                    "Yahoo Mail"@,
                ],
            },
        ),
        None => None,
    }
}

/// A script.
pub open spec fn script(lower: Seq<u8>) -> Option<WarningModel> {
    match pos(lower, "<script"@) {
        Some(at) => Some(
            WarningModel {
                rule: "SCRIPT_TAG"@,
                severity: "high"@,
                message: "JavaScript is stripped by every major email client. Remove <script> tags."@,
                byte_offset: Some(at),
                affects: seq!["All clients"@],
            },
        ),
        None => None,
    }
}

/// Video or audio.
pub open spec fn media(lower: Seq<u8>) -> Option<WarningModel> {
    if has(lower, "<video"@) || has(lower, "<audio"@) {
        Some(
            WarningModel {
                rule: "MEDIA_TAG"@,
                severity: "medium"@,
                message: "<video>/<audio> are not supported in most clients. Use a static preview image."@,
                byte_offset: None,
                affects: seq!["Outlook Desktop"@, "Outlook Web"@, "Yahoo Mail"@],
            },
        )
    } else {
        None
    }
}

/// Absolute positioning.
pub open spec fn absolute(lower: Seq<u8>) -> Option<WarningModel> {
    if has(lower, "position: absolute"@) || has(lower, "position:absolute"@) {
        Some(
            WarningModel {
                rule: "POSITION_ABSOLUTE"@,
                severity: "high"@,
                message: "Absolute positioning is unreliable across clients; use tables for layout."@,
                byte_offset: None,
                affects: seq!["Outlook Desktop"@, "Outlook Web"@, "Gmail Web"@],
            },
        )
    } else {
        None
    }
}

/// A list with an optional finding put behind it.
pub open spec fn with_finding(ws: Seq<WarningModel>, w: Option<WarningModel>) -> Seq<WarningModel> {
    match w {
        Some(x) => ws.push(x),
        None => ws,
    }
}

/// The findings of the linter: one for each rule that the HTML breaks, in the
/// order of the rules.
pub open spec fn lint_findings(html: Seq<char>) -> Seq<WarningModel> {
    let lower = folded(html);
    let a = with_finding(Seq::empty(), style_in_body(lower));
    let b = with_finding(a, css_grid(lower));
    let c = with_finding(b, css_flex(lower));
    let d = with_finding(c, web_font(lower));
    let e = with_finding(d, stylesheet(lower));
    let f = with_finding(e, script(lower));
    let g = with_finding(f, media(lower));
    with_finding(g, absolute(lower))
}

fn find(lower: &[u8], needle: &str) -> (r: Option<usize>)
    ensures
        match r {
            Some(i) => pos(lower@, needle@) == Some(i as int),
            None => pos(lower@, needle@) is None,
        },
        r matches Some(i) ==> i <= lower@.len(),
{
    proof {
        search::lemma_find_from(lower@, encode_utf8(needle@), 0);
    }
    search::find_bytes(lower, needle.as_bytes(), 0)
}

fn find2(lower: &[u8], first: &str, second: &str) -> (r: Option<usize>)
    ensures
        match r {
            Some(i) => or_else(pos(lower@, first@), pos(lower@, second@)) == Some(i as int),
            None => or_else(pos(lower@, first@), pos(lower@, second@)) is None,
        },
{
    match find(lower, first) {
        Some(i) => Some(i),
        None => find(lower, second),
    }
}

fn contains(lower: &[u8], needle: &str) -> (r: bool)
    ensures
        r == has(lower@, needle@),
{
    search::bytes_contain(lower, needle.as_bytes())
}

/// Puts an optional finding behind the ones there are.
fn push_opt(ws: &mut Vec<LintWarning>, w: Option<LintWarning>, Ghost(m): Ghost<Option<WarningModel>>)
    requires
        w is Some == m is Some,
        w matches Some(x) ==> x@ == m->0,
    ensures
        findings(final(ws)@) == with_finding(findings(old(ws)@), m),
{
    match w {
        Some(x) => {
            ws.push(x);
            assert(findings(ws@) =~= findings(old(ws)@).push(x@));
        },
        None => {},
    }
}

/// A finding built from its parts.
fn warning(
    rule: &'static str,
    severity: &'static str,
    message: &'static str,
    byte_offset: Option<usize>,
    affects: &'static [&'static str],
) -> (r: LintWarning)
    ensures
        r.rule == rule,
        r.severity == severity,
        r.message == message,
        r.byte_offset == byte_offset,
        r.affects == affects,
{
    LintWarning { rule, severity, message, byte_offset, affects }
}

fn check_style_in_body(lower: &[u8]) -> (r: Option<LintWarning>)
    ensures
        r is Some == style_in_body(lower@) is Some,
        r matches Some(w) ==> style_in_body(lower@) == Some(w@),
{
    match find(lower, "<body") {
        Some(body) => {
            match search::find_bytes(lower, "<style".as_bytes(), body) {
                Some(at) => {
                    let w: LintWarning = warning(
                        "STYLE_IN_BODY",
                        "high",
                        "Gmail / Outlook Web strip <style> blocks inside <body>. Move them to <head> or inline.",
                        Some(at),
                        &["Gmail Web", "Gmail iOS", "Outlook Web", "Yahoo Mail"],
                    );
                    assert(w@.affects =~= style_in_body(lower@)->0.affects);
                    Some(w)
                },
                None => None,
            }
        },
        None => None,
    }
}

fn check_grid(lower: &[u8]) -> (r: Option<LintWarning>)
    ensures
        r is Some == css_grid(lower@) is Some,
        r matches Some(w) ==> css_grid(lower@) == Some(w@),
{
    match find2(lower, "display: grid", "display:grid") {
        Some(at) => {
            let w: LintWarning = warning(
                "CSS_GRID",
                "high",
                "CSS Grid is not supported in Outlook or older Gmail clients. Use tables.",
                Some(at),
                &["Outlook Desktop", "Outlook Web", "Gmail iOS"],
            );
            assert(w@.affects =~= css_grid(lower@)->0.affects);
            Some(w)
        },
        None => None,
    }
}

fn check_flex(lower: &[u8]) -> (r: Option<LintWarning>)
    ensures
        r is Some == css_flex(lower@) is Some,
        r matches Some(w) ==> css_flex(lower@) == Some(w@),
{
    match find2(lower, "display: flex", "display:flex") {
        Some(at) => {
            let w: LintWarning = warning(
                "CSS_FLEX",
                "medium",
                "Flexbox is unsupported in Outlook Desktop. Provide a table fallback.",
                Some(at),
                &["Outlook Desktop"],
            );
            assert(w@.affects =~= css_flex(lower@)->0.affects);
            Some(w)
        },
        None => None,
    }
}

fn check_web_font(lower: &[u8]) -> (r: Option<LintWarning>)
    ensures
        r is Some == web_font(lower@) is Some,
        r matches Some(w) ==> web_font(lower@) == Some(w@),
{
    match find(lower, "@import url") {
        Some(at) => {
            let w: LintWarning = warning(
                "WEB_FONT_IMPORT",
                "medium",
                "Outlook ignores @import @font-face. Declare a system-font fallback.",
                Some(at),
                &["Outlook Desktop"],
            );
            assert(w@.affects =~= web_font(lower@)->0.affects);
            Some(w)
        },
        None => None,
    }
}

fn check_stylesheet(lower: &[u8]) -> (r: Option<LintWarning>)
    ensures
        r is Some == stylesheet(lower@) is Some,
        r matches Some(w) ==> stylesheet(lower@) == Some(w@),
{
    let found: Option<usize> = match find2(lower, "rel=\"stylesheet\"", "rel='stylesheet'") {
        Some(i) => Some(i),
        None => find(lower, "rel=stylesheet"),
    };
    match found {
        Some(at) => {
            let w: LintWarning = warning(
                "EXTERNAL_STYLESHEET",
                "high",
                "External stylesheets are not loaded by most email clients. Inline the CSS.",
                Some(at),
                &["Gmail Web", "Gmail iOS", "Outlook Desktop", "Outlook Web", "Yahoo Mail"],
            );
            assert(w@.affects =~= stylesheet(lower@)->0.affects);
            Some(w)
        },
        None => None,
    }
}

fn check_script(lower: &[u8]) -> (r: Option<LintWarning>)
    ensures
        r is Some == script(lower@) is Some,
        r matches Some(w) ==> script(lower@) == Some(w@),
{
    match find(lower, "<script") {
        Some(at) => {
            let w: LintWarning = warning(
                "SCRIPT_TAG",
                "high",
                "JavaScript is stripped by every major email client. Remove <script> tags.",
                Some(at),
                &["All clients"],
            );
            assert(w@.affects =~= script(lower@)->0.affects);
            Some(w)
        },
        None => None,
    }
}

fn check_media(lower: &[u8]) -> (r: Option<LintWarning>)
    ensures
        r is Some == media(lower@) is Some,
        r matches Some(w) ==> media(lower@) == Some(w@),
{
    if contains(lower, "<video") || contains(lower, "<audio") {
        let w: LintWarning = warning(
            "MEDIA_TAG",
            "medium",
            "<video>/<audio> are not supported in most clients. Use a static preview image.",
            None,
            &["Outlook Desktop", "Outlook Web", "Yahoo Mail"],
        );
        assert(w@.affects =~= media(lower@)->0.affects);
        Some(w)
    } else {
        None
    }
}

fn check_absolute(lower: &[u8]) -> (r: Option<LintWarning>)
    ensures
        r is Some == absolute(lower@) is Some,
        r matches Some(w) ==> absolute(lower@) == Some(w@),
{
    if contains(lower, "position: absolute") || contains(lower, "position:absolute") {
        let w: LintWarning = warning(
            "POSITION_ABSOLUTE",
            "high",
            "Absolute positioning is unreliable across clients; use tables for layout.",
            None,
            &["Outlook Desktop", "Outlook Web", "Gmail Web"],
        );
        assert(w@.affects =~= absolute(lower@)->0.affects);
        Some(w)
    } else {
        None
    }
}

/// The rules that `html` breaks.
pub fn lint(html: &str) -> (r: LintReport)
    ensures
        findings(r.warnings@) == lint_findings(html@),
{
    let v: Vec<u8> = unicode::to_lower_bytes(html.as_bytes());
    let lower: &[u8] = v.as_slice();
    let mut ws: Vec<LintWarning> = Vec::new();
    assert(findings(ws@) =~= Seq::empty());
    push_opt(&mut ws, check_style_in_body(lower), Ghost(style_in_body(lower@)));
    push_opt(&mut ws, check_grid(lower), Ghost(css_grid(lower@)));
    push_opt(&mut ws, check_flex(lower), Ghost(css_flex(lower@)));
    push_opt(&mut ws, check_web_font(lower), Ghost(web_font(lower@)));
    push_opt(&mut ws, check_stylesheet(lower), Ghost(stylesheet(lower@)));
    push_opt(&mut ws, check_script(lower), Ghost(script(lower@)));
    push_opt(&mut ws, check_media(lower), Ghost(media(lower@)));
    push_opt(&mut ws, check_absolute(lower), Ghost(absolute(lower@)));
    LintReport { warnings: ws }
}

/// Every position that the findings report lies in a text of `n` bytes.
pub open spec fn offsets_below(ws: Seq<WarningModel>, n: nat) -> bool {
    forall|i: int|
        0 <= i < ws.len() ==> ((#[trigger] ws[i]).byte_offset matches Some(at) ==> 0 <= at < n)
}

/// A reported position lies in the HTML.
pub proof fn law_offsets_lie_in_the_html(html: Seq<char>)
    ensures
        offsets_below(lint_findings(html), encode_utf8(html).len()),
{
    let lower = folded(html);
    let n = lower.len();
    lemma_rule_offsets(lower);
    let a = with_finding(Seq::empty(), style_in_body(lower));
    lemma_with_finding(Seq::empty(), style_in_body(lower), n);
    let b = with_finding(a, css_grid(lower));
    lemma_with_finding(a, css_grid(lower), n);
    let c = with_finding(b, css_flex(lower));
    lemma_with_finding(b, css_flex(lower), n);
    let d = with_finding(c, web_font(lower));
    lemma_with_finding(c, web_font(lower), n);
    let e = with_finding(d, stylesheet(lower));
    lemma_with_finding(d, stylesheet(lower), n);
    let f = with_finding(e, script(lower));
    lemma_with_finding(e, script(lower), n);
    let g = with_finding(f, media(lower));
    lemma_with_finding(f, media(lower), n);
    lemma_with_finding(g, absolute(lower), n);
}

spec fn offset_below(w: Option<WarningModel>, n: nat) -> bool {
    w matches Some(x) ==> (x.byte_offset matches Some(at) ==> 0 <= at < n)
}

proof fn lemma_with_finding(ws: Seq<WarningModel>, w: Option<WarningModel>, n: nat)
    requires
        offsets_below(ws, n),
        offset_below(w, n),
    ensures
        offsets_below(with_finding(ws, w), n),
{
}

proof fn lemma_rule_offsets(lower: Seq<u8>)
    ensures
        offset_below(style_in_body(lower), lower.len()),
        offset_below(css_grid(lower), lower.len()),
        offset_below(css_flex(lower), lower.len()),
        offset_below(web_font(lower), lower.len()),
        offset_below(stylesheet(lower), lower.len()),
        offset_below(script(lower), lower.len()),
        offset_below(media(lower), lower.len()),
        offset_below(absolute(lower), lower.len()),
{
    assert("<style"@.len() > 0 && "<body"@.len() > 0) by {
        reveal_strlit("<style");
        reveal_strlit("<body");
    }
    assert("display: grid"@.len() > 0 && "display:grid"@.len() > 0) by {
        reveal_strlit("display: grid");
        reveal_strlit("display:grid");
    }
    assert("display: flex"@.len() > 0 && "display:flex"@.len() > 0) by {
        reveal_strlit("display: flex");
        reveal_strlit("display:flex");
    }
    assert("@import url"@.len() > 0 && "<script"@.len() > 0) by {
        reveal_strlit("@import url");
        reveal_strlit("<script");
    }
    assert("rel=\"stylesheet\""@.len() > 0 && "rel='stylesheet'"@.len() > 0
        && "rel=stylesheet"@.len() > 0) by {
        reveal_strlit("rel=\"stylesheet\"");
        reveal_strlit("rel='stylesheet'");
        reveal_strlit("rel=stylesheet");
    }
    lemma_found_inside(lower, "<body"@);
    lemma_found_inside(lower, "display: grid"@);
    lemma_found_inside(lower, "display:grid"@);
    lemma_found_inside(lower, "display: flex"@);
    lemma_found_inside(lower, "display:flex"@);
    lemma_found_inside(lower, "@import url"@);
    lemma_found_inside(lower, "rel=\"stylesheet\""@);
    lemma_found_inside(lower, "rel='stylesheet'"@);
    lemma_found_inside(lower, "rel=stylesheet"@);
    lemma_found_inside(lower, "<script"@);
    if let Some(body) = pos(lower, "<body"@) {
        search::lemma_find_from(lower, encode_utf8("<style"@), body);
        lemma_encoded_not_empty("<style"@);
    }
}

proof fn lemma_encoded_not_empty(s: Seq<char>)
    requires
        s.len() > 0,
    ensures
        encode_utf8(s).len() > 0,
{
    encode_utf8_decode_utf8(s);
    if encode_utf8(s).len() == 0 {
        assert(decode_utf8(encode_utf8(s)).len() == 0);
    }
}

proof fn lemma_found_inside(lower: Seq<u8>, needle: Seq<char>)
    ensures
        needle.len() > 0 ==> (pos(lower, needle) matches Some(at) ==> 0 <= at < lower.len()),
{
    if needle.len() > 0 {
        lemma_encoded_not_empty(needle);
        search::lemma_find_from(lower, encode_utf8(needle), 0);
    }
}

/// The bytes of `html` with the capitals from A to Z made small.
pub open spec fn small(html: Seq<char>) -> Seq<u8> {
    Seq::new(
        encode_utf8(html).len(),
        |i: int|
            if 65 <= encode_utf8(html)[i] <= 90 {
                (encode_utf8(html)[i] + 32) as u8
            } else {
                encode_utf8(html)[i]
            },
    )
}

/// The text `n` stands in the HTML, whatever the case of its letters.
pub open spec fn stands(html: Seq<char>, n: Seq<char>) -> bool {
    search::contains_seq(small(html), encode_utf8(n))
}

/// The text `n` stands at the byte `at`, and nowhere from `from` up to there.
pub open spec fn stands_first(html: Seq<char>, n: Seq<char>, from: int, at: int) -> bool {
    &&& from <= at
    &&& search::occurs_at(small(html), encode_utf8(n), at)
    &&& forall|j: int| from <= j < at ==> !search::occurs_at(small(html), encode_utf8(n), j)
}

/// There is a finding of a rule.
pub open spec fn is_reported(ws: Seq<WarningModel>, rule: Seq<char>) -> bool {
    exists|i: int| 0 <= i < ws.len() && (#[trigger] ws[i]).rule == rule
}

proof fn lemma_small(html: Seq<char>)
    ensures
        folded(html) == small(html),
{
    assert(folded(html) =~= small(html));
}

/// Each rule is reported exactly where the HTML holds one of its texts, whatever the case
/// of the letters: a style element behind the body tag, grid and flex in both spellings, a
/// stylesheet that is imported or linked in any of three spellings, a script, video or
/// audio, and absolute positioning in both spellings.
#[verifier::rlimit(60)]
pub proof fn law_rules_are_reported_where_broken(html: Seq<char>)
    ensures
        ({
            let ws = lint_findings(html);
            &&& is_reported(ws, "STYLE_IN_BODY"@) == (exists|b: int, k: int| #[trigger]
                stands_first(html, "<body"@, 0, b) && b <= k && #[trigger] search::occurs_at(
                    small(html),
                    encode_utf8("<style"@),
                    k,
                ))
            &&& is_reported(ws, "CSS_GRID"@) == (stands(html, "display: grid"@) || stands(
                html,
                "display:grid"@,
            ))
            &&& is_reported(ws, "CSS_FLEX"@) == (stands(html, "display: flex"@) || stands(
                html,
                "display:flex"@,
            ))
            &&& is_reported(ws, "WEB_FONT_IMPORT"@) == stands(html, "@import url"@)
            &&& is_reported(ws, "EXTERNAL_STYLESHEET"@) == (stands(html, "rel=\"stylesheet\""@)
                || stands(html, "rel='stylesheet'"@) || stands(html, "rel=stylesheet"@))
            &&& is_reported(ws, "SCRIPT_TAG"@) == stands(html, "<script"@)
            &&& is_reported(ws, "MEDIA_TAG"@) == (stands(html, "<video"@) || stands(
                html,
                "<audio"@,
            ))
            &&& is_reported(ws, "POSITION_ABSOLUTE"@) == (stands(html, "position: absolute"@)
                || stands(html, "position:absolute"@))
        }),
{
    lemma_small(html);
    let h = small(html);
    lemma_rule_names();
    let w0 = Seq::<WarningModel>::empty();
    let w1 = with_finding(w0, style_in_body(h));
    let w2 = with_finding(w1, css_grid(h));
    let w3 = with_finding(w2, css_flex(h));
    let w4 = with_finding(w3, web_font(h));
    let w5 = with_finding(w4, stylesheet(h));
    let w6 = with_finding(w5, script(h));
    let w7 = with_finding(w6, media(h));
    let w8 = with_finding(w7, absolute(h));
    assert(!is_reported(w0, "STYLE_IN_BODY"@));
    assert(!is_reported(w0, "CSS_GRID"@));
    assert(!is_reported(w0, "CSS_FLEX"@));
    assert(!is_reported(w0, "WEB_FONT_IMPORT"@));
    assert(!is_reported(w0, "EXTERNAL_STYLESHEET"@));
    assert(!is_reported(w0, "SCRIPT_TAG"@));
    assert(!is_reported(w0, "MEDIA_TAG"@));
    assert(!is_reported(w0, "POSITION_ABSOLUTE"@));
    lemma_reported(w0, style_in_body(h), "STYLE_IN_BODY"@);
    lemma_reported(w0, style_in_body(h), "CSS_GRID"@);
    lemma_reported(w0, style_in_body(h), "CSS_FLEX"@);
    lemma_reported(w0, style_in_body(h), "WEB_FONT_IMPORT"@);
    lemma_reported(w0, style_in_body(h), "EXTERNAL_STYLESHEET"@);
    lemma_reported(w0, style_in_body(h), "SCRIPT_TAG"@);
    lemma_reported(w0, style_in_body(h), "MEDIA_TAG"@);
    lemma_reported(w0, style_in_body(h), "POSITION_ABSOLUTE"@);
    lemma_reported(w1, css_grid(h), "STYLE_IN_BODY"@);
    lemma_reported(w1, css_grid(h), "CSS_GRID"@);
    lemma_reported(w1, css_grid(h), "CSS_FLEX"@);
    lemma_reported(w1, css_grid(h), "WEB_FONT_IMPORT"@);
    lemma_reported(w1, css_grid(h), "EXTERNAL_STYLESHEET"@);
    lemma_reported(w1, css_grid(h), "SCRIPT_TAG"@);
    lemma_reported(w1, css_grid(h), "MEDIA_TAG"@);
    lemma_reported(w1, css_grid(h), "POSITION_ABSOLUTE"@);
    lemma_reported(w2, css_flex(h), "STYLE_IN_BODY"@);
    lemma_reported(w2, css_flex(h), "CSS_GRID"@);
    lemma_reported(w2, css_flex(h), "CSS_FLEX"@);
    lemma_reported(w2, css_flex(h), "WEB_FONT_IMPORT"@);
    lemma_reported(w2, css_flex(h), "EXTERNAL_STYLESHEET"@);
    lemma_reported(w2, css_flex(h), "SCRIPT_TAG"@);
    lemma_reported(w2, css_flex(h), "MEDIA_TAG"@);
    lemma_reported(w2, css_flex(h), "POSITION_ABSOLUTE"@);
    lemma_reported(w3, web_font(h), "STYLE_IN_BODY"@);
    lemma_reported(w3, web_font(h), "CSS_GRID"@);
    lemma_reported(w3, web_font(h), "CSS_FLEX"@);
    lemma_reported(w3, web_font(h), "WEB_FONT_IMPORT"@);
    lemma_reported(w3, web_font(h), "EXTERNAL_STYLESHEET"@);
    lemma_reported(w3, web_font(h), "SCRIPT_TAG"@);
    lemma_reported(w3, web_font(h), "MEDIA_TAG"@);
    lemma_reported(w3, web_font(h), "POSITION_ABSOLUTE"@);
    lemma_reported(w4, stylesheet(h), "STYLE_IN_BODY"@);
    lemma_reported(w4, stylesheet(h), "CSS_GRID"@);
    lemma_reported(w4, stylesheet(h), "CSS_FLEX"@);
    lemma_reported(w4, stylesheet(h), "WEB_FONT_IMPORT"@);
    lemma_reported(w4, stylesheet(h), "EXTERNAL_STYLESHEET"@);
    lemma_reported(w4, stylesheet(h), "SCRIPT_TAG"@);
    lemma_reported(w4, stylesheet(h), "MEDIA_TAG"@);
    lemma_reported(w4, stylesheet(h), "POSITION_ABSOLUTE"@);
    lemma_reported(w5, script(h), "STYLE_IN_BODY"@);
    lemma_reported(w5, script(h), "CSS_GRID"@);
    lemma_reported(w5, script(h), "CSS_FLEX"@);
    lemma_reported(w5, script(h), "WEB_FONT_IMPORT"@);
    lemma_reported(w5, script(h), "EXTERNAL_STYLESHEET"@);
    lemma_reported(w5, script(h), "SCRIPT_TAG"@);
    lemma_reported(w5, script(h), "MEDIA_TAG"@);
    lemma_reported(w5, script(h), "POSITION_ABSOLUTE"@);
    lemma_reported(w6, media(h), "STYLE_IN_BODY"@);
    lemma_reported(w6, media(h), "CSS_GRID"@);
    lemma_reported(w6, media(h), "CSS_FLEX"@);
    lemma_reported(w6, media(h), "WEB_FONT_IMPORT"@);
    lemma_reported(w6, media(h), "EXTERNAL_STYLESHEET"@);
    lemma_reported(w6, media(h), "SCRIPT_TAG"@);
    lemma_reported(w6, media(h), "MEDIA_TAG"@);
    lemma_reported(w6, media(h), "POSITION_ABSOLUTE"@);
    lemma_reported(w7, absolute(h), "STYLE_IN_BODY"@);
    lemma_reported(w7, absolute(h), "CSS_GRID"@);
    lemma_reported(w7, absolute(h), "CSS_FLEX"@);
    lemma_reported(w7, absolute(h), "WEB_FONT_IMPORT"@);
    lemma_reported(w7, absolute(h), "EXTERNAL_STYLESHEET"@);
    lemma_reported(w7, absolute(h), "SCRIPT_TAG"@);
    lemma_reported(w7, absolute(h), "MEDIA_TAG"@);
    lemma_reported(w7, absolute(h), "POSITION_ABSOLUTE"@);
    search::lemma_find_from(h, encode_utf8("<body"@), 0);
    search::lemma_find_contains(h, encode_utf8("<body"@));
    search::lemma_find_from(h, encode_utf8("display: grid"@), 0);
    search::lemma_find_contains(h, encode_utf8("display: grid"@));
    search::lemma_find_from(h, encode_utf8("display:grid"@), 0);
    search::lemma_find_contains(h, encode_utf8("display:grid"@));
    search::lemma_find_from(h, encode_utf8("display: flex"@), 0);
    search::lemma_find_contains(h, encode_utf8("display: flex"@));
    search::lemma_find_from(h, encode_utf8("display:flex"@), 0);
    search::lemma_find_contains(h, encode_utf8("display:flex"@));
    search::lemma_find_from(h, encode_utf8("@import url"@), 0);
    search::lemma_find_contains(h, encode_utf8("@import url"@));
    search::lemma_find_from(h, encode_utf8("rel=\"stylesheet\""@), 0);
    search::lemma_find_contains(h, encode_utf8("rel=\"stylesheet\""@));
    search::lemma_find_from(h, encode_utf8("rel='stylesheet'"@), 0);
    search::lemma_find_contains(h, encode_utf8("rel='stylesheet'"@));
    search::lemma_find_from(h, encode_utf8("rel=stylesheet"@), 0);
    search::lemma_find_contains(h, encode_utf8("rel=stylesheet"@));
    search::lemma_find_from(h, encode_utf8("<script"@), 0);
    search::lemma_find_contains(h, encode_utf8("<script"@));
    if let Some(b) = pos(h, "<body"@) {
        search::lemma_find_from(h, encode_utf8("<style"@), b);
        assert(stands_first(html, "<body"@, 0, b));
        if let Some(k) = search::find_from(h, encode_utf8("<style"@), b) {
            assert(search::occurs_at(h, encode_utf8("<style"@), k));
        }
        assert forall|c: int| stands_first(html, "<body"@, 0, c) implies c == b by {
            if c < b {
                assert(search::occurs_at(h, encode_utf8("<body"@), c));
            } else if b < c {
                assert(search::occurs_at(h, encode_utf8("<body"@), b));
            }
        }
    }
}

proof fn lemma_reported(ws: Seq<WarningModel>, w: Option<WarningModel>, rule: Seq<char>)
    ensures
        is_reported(with_finding(ws, w), rule) == (is_reported(ws, rule) || (w matches Some(x)
            && x.rule == rule)),
{
    let all = with_finding(ws, w);
    if is_reported(ws, rule) {
        let i = choose|i: int| 0 <= i < ws.len() && (#[trigger] ws[i]).rule == rule;
        assert(all[i].rule == rule);
    }
    if let Some(x) = w {
        if x.rule == rule {
            assert(all[ws.len() as int].rule == rule);
        }
        if is_reported(all, rule) {
            let i = choose|i: int| 0 <= i < all.len() && (#[trigger] all[i]).rule == rule;
            if i < ws.len() {
                assert(ws[i].rule == rule);
            }
        }
    }
}

proof fn lemma_rule_names()
    ensures
        "STYLE_IN_BODY"@ != "CSS_GRID"@,
        "STYLE_IN_BODY"@ != "CSS_FLEX"@,
        "STYLE_IN_BODY"@ != "WEB_FONT_IMPORT"@,
        "STYLE_IN_BODY"@ != "EXTERNAL_STYLESHEET"@,
        "STYLE_IN_BODY"@ != "SCRIPT_TAG"@,
        "STYLE_IN_BODY"@ != "MEDIA_TAG"@,
        "STYLE_IN_BODY"@ != "POSITION_ABSOLUTE"@,
        "CSS_GRID"@ != "CSS_FLEX"@,
        "CSS_GRID"@ != "WEB_FONT_IMPORT"@,
        "CSS_GRID"@ != "EXTERNAL_STYLESHEET"@,
        "CSS_GRID"@ != "SCRIPT_TAG"@,
        "CSS_GRID"@ != "MEDIA_TAG"@,
        "CSS_GRID"@ != "POSITION_ABSOLUTE"@,
        "CSS_FLEX"@ != "WEB_FONT_IMPORT"@,
        "CSS_FLEX"@ != "EXTERNAL_STYLESHEET"@,
        "CSS_FLEX"@ != "SCRIPT_TAG"@,
        "CSS_FLEX"@ != "MEDIA_TAG"@,
        "CSS_FLEX"@ != "POSITION_ABSOLUTE"@,
        "WEB_FONT_IMPORT"@ != "EXTERNAL_STYLESHEET"@,
        "WEB_FONT_IMPORT"@ != "SCRIPT_TAG"@,
        "WEB_FONT_IMPORT"@ != "MEDIA_TAG"@,
        "WEB_FONT_IMPORT"@ != "POSITION_ABSOLUTE"@,
        "EXTERNAL_STYLESHEET"@ != "SCRIPT_TAG"@,
        "EXTERNAL_STYLESHEET"@ != "MEDIA_TAG"@,
        "EXTERNAL_STYLESHEET"@ != "POSITION_ABSOLUTE"@,
        "SCRIPT_TAG"@ != "MEDIA_TAG"@,
        "SCRIPT_TAG"@ != "POSITION_ABSOLUTE"@,
        "MEDIA_TAG"@ != "POSITION_ABSOLUTE"@,
{
    reveal_strlit("STYLE_IN_BODY");
    assert("STYLE_IN_BODY"@.len() == 13);
    reveal_strlit("CSS_GRID");
    assert("CSS_GRID"@.len() == 8);
    reveal_strlit("CSS_FLEX");
    assert("CSS_FLEX"@.len() == 8);
    reveal_strlit("WEB_FONT_IMPORT");
    assert("WEB_FONT_IMPORT"@.len() == 15);
    reveal_strlit("EXTERNAL_STYLESHEET");
    assert("EXTERNAL_STYLESHEET"@.len() == 19);
    reveal_strlit("SCRIPT_TAG");
    assert("SCRIPT_TAG"@.len() == 10);
    reveal_strlit("MEDIA_TAG");
    assert("MEDIA_TAG"@.len() == 9);
    reveal_strlit("POSITION_ABSOLUTE");
    assert("POSITION_ABSOLUTE"@.len() == 17);
    assert("CSS_GRID"@[4] != "CSS_FLEX"@[4]);
}

/// What a finding says: each rule has its own severity, message and list of clients, and
/// those that point into the HTML point to the first of their texts.
pub open spec fn says_what_it_should(w: WarningModel, html: Seq<char>) -> bool {
    ||| {
        &&& w.rule == "STYLE_IN_BODY"@
        &&& w.severity == "high"@
        &&& w.message == "Gmail / Outlook Web strip <style> blocks inside <body>. Move them to <head> or inline."@
        &&& w.affects == seq!["Gmail Web"@, "Gmail iOS"@, "Outlook Web"@, "Yahoo Mail"@]
        &&& w.byte_offset matches Some(at) && exists|b: int| #[trigger]
            stands_first(html, "<body"@, 0, b) && stands_first(html, "<style"@, b, at)
    }
    ||| {
        &&& w.rule == "CSS_GRID"@
        &&& w.severity == "high"@
        &&& w.message == "CSS Grid is not supported in Outlook or older Gmail clients. Use tables."@
        &&& w.affects == seq!["Outlook Desktop"@, "Outlook Web"@, "Gmail iOS"@]
        &&& w.byte_offset matches Some(at) && if stands(html, "display: grid"@) {
            stands_first(html, "display: grid"@, 0, at)
        } else {
            stands_first(html, "display:grid"@, 0, at)
        }
    }
    ||| {
        &&& w.rule == "CSS_FLEX"@
        &&& w.severity == "medium"@
        &&& w.message == "Flexbox is unsupported in Outlook Desktop. Provide a table fallback."@
        &&& w.affects == seq!["Outlook Desktop"@]
        &&& w.byte_offset matches Some(at) && if stands(html, "display: flex"@) {
            stands_first(html, "display: flex"@, 0, at)
        } else {
            stands_first(html, "display:flex"@, 0, at)
        }
    }
    ||| {
        &&& w.rule == "WEB_FONT_IMPORT"@
        &&& w.severity == "medium"@
        &&& w.message == "Outlook ignores @import @font-face. Declare a system-font fallback."@
        &&& w.affects == seq!["Outlook Desktop"@]
        &&& w.byte_offset matches Some(at) && stands_first(html, "@import url"@, 0, at)
    }
    ||| {
        &&& w.rule == "EXTERNAL_STYLESHEET"@
        &&& w.severity == "high"@
        &&& w.message == "External stylesheets are not loaded by most email clients. Inline the CSS."@
        &&& w.affects == seq!["Gmail Web"@, "Gmail iOS"@, "Outlook Desktop"@, "Outlook Web"@, "Yahoo Mail"@]
        &&& w.byte_offset matches Some(at) && if stands(html, "rel=\"stylesheet\""@) {
            stands_first(html, "rel=\"stylesheet\""@, 0, at)
        } else if stands(html, "rel='stylesheet'"@) {
            stands_first(html, "rel='stylesheet'"@, 0, at)
        } else {
            stands_first(html, "rel=stylesheet"@, 0, at)
        }
    }
    ||| {
        &&& w.rule == "SCRIPT_TAG"@
        &&& w.severity == "high"@
        &&& w.message == "JavaScript is stripped by every major email client. Remove <script> tags."@
        &&& w.affects == seq!["All clients"@]
        &&& w.byte_offset matches Some(at) && stands_first(html, "<script"@, 0, at)
    }
    ||| {
        &&& w.rule == "MEDIA_TAG"@
        &&& w.severity == "medium"@
        &&& w.message == "<video>/<audio> are not supported in most clients. Use a static preview image."@
        &&& w.affects == seq!["Outlook Desktop"@, "Outlook Web"@, "Yahoo Mail"@]
        &&& w.byte_offset is None
    }
    ||| {
        &&& w.rule == "POSITION_ABSOLUTE"@
        &&& w.severity == "high"@
        &&& w.message == "Absolute positioning is unreliable across clients; use tables for layout."@
        &&& w.affects == seq!["Outlook Desktop"@, "Outlook Web"@, "Gmail Web"@]
        &&& w.byte_offset is None
    }
}

/// Every finding says what its rule has to say.
#[verifier::rlimit(60)]
pub proof fn law_findings_say_what_they_should(html: Seq<char>, i: int)
    requires
        0 <= i < lint_findings(html).len(),
    ensures
        says_what_it_should(lint_findings(html)[i], html),
{
    lemma_small(html);
    let h = small(html);
    search::lemma_find_from(h, encode_utf8("<body"@), 0);
    search::lemma_find_contains(h, encode_utf8("<body"@));
    search::lemma_find_from(h, encode_utf8("display: grid"@), 0);
    search::lemma_find_contains(h, encode_utf8("display: grid"@));
    search::lemma_find_from(h, encode_utf8("display:grid"@), 0);
    search::lemma_find_contains(h, encode_utf8("display:grid"@));
    search::lemma_find_from(h, encode_utf8("display: flex"@), 0);
    search::lemma_find_contains(h, encode_utf8("display: flex"@));
    search::lemma_find_from(h, encode_utf8("display:flex"@), 0);
    search::lemma_find_contains(h, encode_utf8("display:flex"@));
    search::lemma_find_from(h, encode_utf8("@import url"@), 0);
    search::lemma_find_contains(h, encode_utf8("@import url"@));
    search::lemma_find_from(h, encode_utf8("rel=\"stylesheet\""@), 0);
    search::lemma_find_contains(h, encode_utf8("rel=\"stylesheet\""@));
    search::lemma_find_from(h, encode_utf8("rel='stylesheet'"@), 0);
    search::lemma_find_contains(h, encode_utf8("rel='stylesheet'"@));
    search::lemma_find_from(h, encode_utf8("rel=stylesheet"@), 0);
    search::lemma_find_contains(h, encode_utf8("rel=stylesheet"@));
    search::lemma_find_from(h, encode_utf8("<script"@), 0);
    search::lemma_find_contains(h, encode_utf8("<script"@));
    if let Some(b) = pos(h, "<body"@) {
        search::lemma_find_from(h, encode_utf8("<style"@), b);
        assert(stands_first(html, "<body"@, 0, b));
    }
    assert(style_in_body(h) matches Some(w) ==> says_what_it_should(w, html));
    assert(css_grid(h) matches Some(w) ==> says_what_it_should(w, html));
    assert(css_flex(h) matches Some(w) ==> says_what_it_should(w, html));
    assert(web_font(h) matches Some(w) ==> says_what_it_should(w, html));
    assert(stylesheet(h) matches Some(w) ==> says_what_it_should(w, html));
    assert(script(h) matches Some(w) ==> says_what_it_should(w, html));
    assert(media(h) matches Some(w) ==> says_what_it_should(w, html));
    assert(absolute(h) matches Some(w) ==> says_what_it_should(w, html));
    let w0 = Seq::<WarningModel>::empty();
    let w1 = with_finding(w0, style_in_body(h));
    assert(forall|k: int| 0 <= k < w1.len() ==> says_what_it_should(#[trigger] w1[k], html));
    let w2 = with_finding(w1, css_grid(h));
    assert(forall|k: int| 0 <= k < w2.len() ==> says_what_it_should(#[trigger] w2[k], html));
    let w3 = with_finding(w2, css_flex(h));
    assert(forall|k: int| 0 <= k < w3.len() ==> says_what_it_should(#[trigger] w3[k], html));
    let w4 = with_finding(w3, web_font(h));
    assert(forall|k: int| 0 <= k < w4.len() ==> says_what_it_should(#[trigger] w4[k], html));
    let w5 = with_finding(w4, stylesheet(h));
    assert(forall|k: int| 0 <= k < w5.len() ==> says_what_it_should(#[trigger] w5[k], html));
    let w6 = with_finding(w5, script(h));
    assert(forall|k: int| 0 <= k < w6.len() ==> says_what_it_should(#[trigger] w6[k], html));
    let w7 = with_finding(w6, media(h));
    assert(forall|k: int| 0 <= k < w7.len() ==> says_what_it_should(#[trigger] w7[k], html));
    let w8 = with_finding(w7, absolute(h));
    assert(forall|k: int| 0 <= k < w8.len() ==> says_what_it_should(#[trigger] w8[k], html));
}

/// The place of a rule among the rules.
pub open spec fn place_of(rule: Seq<char>) -> int {
    if rule == "STYLE_IN_BODY"@ {
        0
    } else if rule == "CSS_GRID"@ {
        1
    } else if rule == "CSS_FLEX"@ {
        2
    } else if rule == "WEB_FONT_IMPORT"@ {
        3
    } else if rule == "EXTERNAL_STYLESHEET"@ {
        4
    } else if rule == "SCRIPT_TAG"@ {
        5
    } else if rule == "MEDIA_TAG"@ {
        6
    } else if rule == "POSITION_ABSOLUTE"@ {
        7
    } else {
        8
    }
}

/// The findings stand in the order of the rules, at most one of each.
#[verifier::rlimit(60)]
pub proof fn law_findings_stand_in_order(html: Seq<char>, i: int, j: int)
    requires
        0 <= i < j < lint_findings(html).len(),
    ensures
        place_of(lint_findings(html)[i].rule) < place_of(lint_findings(html)[j].rule),
{
    lemma_small(html);
    lemma_rule_names();
    let h = small(html);
    let w0 = Seq::<WarningModel>::empty();
    let w1 = with_finding(w0, style_in_body(h));
    assert(forall|k: int| 0 <= k < w1.len() ==> place_of((#[trigger] w1[k]).rule) <= 0);
    assert(forall|k: int, l: int|
        0 <= k < l < w1.len() ==> place_of((#[trigger] w1[k]).rule) < place_of(
            (#[trigger] w1[l]).rule,
        ));
    let w2 = with_finding(w1, css_grid(h));
    assert(forall|k: int| 0 <= k < w2.len() ==> place_of((#[trigger] w2[k]).rule) <= 1);
    assert(forall|k: int, l: int|
        0 <= k < l < w2.len() ==> place_of((#[trigger] w2[k]).rule) < place_of(
            (#[trigger] w2[l]).rule,
        ));
    let w3 = with_finding(w2, css_flex(h));
    assert(forall|k: int| 0 <= k < w3.len() ==> place_of((#[trigger] w3[k]).rule) <= 2);
    assert(forall|k: int, l: int|
        0 <= k < l < w3.len() ==> place_of((#[trigger] w3[k]).rule) < place_of(
            (#[trigger] w3[l]).rule,
        ));
    let w4 = with_finding(w3, web_font(h));
    assert(forall|k: int| 0 <= k < w4.len() ==> place_of((#[trigger] w4[k]).rule) <= 3);
    assert(forall|k: int, l: int|
        0 <= k < l < w4.len() ==> place_of((#[trigger] w4[k]).rule) < place_of(
            (#[trigger] w4[l]).rule,
        ));
    let w5 = with_finding(w4, stylesheet(h));
    assert(forall|k: int| 0 <= k < w5.len() ==> place_of((#[trigger] w5[k]).rule) <= 4);
    assert(forall|k: int, l: int|
        0 <= k < l < w5.len() ==> place_of((#[trigger] w5[k]).rule) < place_of(
            (#[trigger] w5[l]).rule,
        ));
    let w6 = with_finding(w5, script(h));
    assert(forall|k: int| 0 <= k < w6.len() ==> place_of((#[trigger] w6[k]).rule) <= 5);
    assert(forall|k: int, l: int|
        0 <= k < l < w6.len() ==> place_of((#[trigger] w6[k]).rule) < place_of(
            (#[trigger] w6[l]).rule,
        ));
    let w7 = with_finding(w6, media(h));
    assert(forall|k: int| 0 <= k < w7.len() ==> place_of((#[trigger] w7[k]).rule) <= 6);
    assert(forall|k: int, l: int|
        0 <= k < l < w7.len() ==> place_of((#[trigger] w7[k]).rule) < place_of(
            (#[trigger] w7[l]).rule,
        ));
    let w8 = with_finding(w7, absolute(h));
    assert(forall|k: int| 0 <= k < w8.len() ==> place_of((#[trigger] w8[k]).rule) <= 7);
    assert(forall|k: int, l: int|
        0 <= k < l < w8.len() ==> place_of((#[trigger] w8[k]).rule) < place_of(
            (#[trigger] w8[l]).rule,
        ));
}

/// The values of a finding are those of its fields.
pub proof fn law_values_of_a_warning(w: LintWarning)
    ensures
        w@.rule == w.rule@ && w@.severity == w.severity@ && w@.message == w.message@,
        w.byte_offset matches Some(n) ==> w@.byte_offset == Some(n as int),
        w.byte_offset is None ==> w@.byte_offset is None,
        w@.affects == w.affects@.map_values(|s: &'static str| s@),
{
}

} // verus!
