//! Client profiles. Each takes HTML and returns it with the limits of one mail
//! client applied, by deterministic text rewrites.

use vstd::prelude::*;
use vstd::string::*;

use crate::patterns;
use crate::rendering::laws;
use crate::text::chars;
use crate::text::replace;
use crate::text::search;
use crate::text::words;

verus! {

/// A whole `<style>` element.
pub const STYLE_TAG: &'static str = r"(?is)<style\b[^>]*>.*?</style>";

/// The opening tag of the body.
pub const BODY_OPEN: &'static str = r"(?is)<body\b[^>]*>";

/// A stylesheet brought in from the web.
pub const WEB_FONT_IMPORT: &'static str =
    r#"(?is)@import\s+url\(['"]?https?://[^)'"]*['"]?\);?"#;

/// The mail clients that can be previewed.
#[derive(Debug, Clone, Copy, PartialEq, Eq, Structural)]
pub enum Profile {
    GmailWeb,
    GmailIos,
    OutlookDesktop,
    OutlookWeb,
    AppleMailMac,
    AppleMailIos,
    YahooMail,
}

/// How close a preview comes to the client.
#[derive(Debug, Clone, Copy, PartialEq, Eq, Structural)]
pub enum Fidelity {
    High,
    Approximate,
    Experimental,
}

/// HTML as one client would show it.
#[derive(Debug, Clone)]
pub struct RenderedPreview {
    pub profile: Profile,
    pub fidelity: Fidelity,
    pub html: String,
    /// What was changed, for "why does it look different here?".
    pub applied: Vec<&'static str>,
}

/// The name of a client.
pub open spec fn name_of(p: Profile) -> Seq<char> {
    match p {
        Profile::GmailWeb => "Gmail Web"@,
        Profile::GmailIos => "Gmail iOS"@,
        Profile::OutlookDesktop => "Outlook Desktop (Windows)"@,
        Profile::OutlookWeb => "Outlook Web"@,
        Profile::AppleMailMac => "Apple Mail (macOS)"@,
        Profile::AppleMailIos => "Apple Mail (iOS)"@,
        Profile::YahooMail => "Yahoo Mail"@,
    }
}

/// The badge of a client: Apple Mail is close to a stock browser, Outlook
/// Desktop is hard to imitate, the others lie between.
pub open spec fn fidelity_of(p: Profile) -> Fidelity {
    match p {
        Profile::AppleMailMac | Profile::AppleMailIos => Fidelity::High,
        Profile::OutlookDesktop => Fidelity::Experimental,
        _ => Fidelity::Approximate,
    }
}

impl Profile {
    /// The name of the client.
    pub fn name(self) -> (r: &'static str)
        ensures
            r@ == name_of(self),
    {
        match self {
            Profile::GmailWeb => "Gmail Web",
            Profile::GmailIos => "Gmail iOS",
            Profile::OutlookDesktop => "Outlook Desktop (Windows)",
            Profile::OutlookWeb => "Outlook Web",
            Profile::AppleMailMac => "Apple Mail (macOS)",
            Profile::AppleMailIos => "Apple Mail (iOS)",
            Profile::YahooMail => "Yahoo Mail",
        }
    }

    /// How close a preview comes to the client.
    pub fn fidelity(self) -> (r: Fidelity)
        ensures
            r == fidelity_of(self),
    {
        match self {
            Profile::AppleMailMac | Profile::AppleMailIos => Fidelity::High,
            Profile::GmailWeb | Profile::GmailIos => Fidelity::Approximate,
            Profile::OutlookDesktop => Fidelity::Experimental,
            Profile::OutlookWeb => Fidelity::Approximate,
            Profile::YahooMail => Fidelity::Approximate,
        }
    }
}

/// Where the body begins: the byte behind its opening tag.
pub open spec fn body_start(html: Seq<char>) -> Option<int> {
    if patterns::matches_somewhere(BODY_OPEN@, html) {
        Some(patterns::matches_of(BODY_OPEN@, html)[0].1 as int)
    } else {
        None
    }
}

/// Whether there is a style element in the body. Without a body, any style
/// element counts.
pub open spec fn styled_body(html: Seq<char>) -> bool {
    match body_start(html) {
        Some(at) => patterns::matches_somewhere(STYLE_TAG@, chars::text_from(html, at)),
        None => patterns::matches_somewhere(STYLE_TAG@, html),
    }
}

/// The HTML without the style elements of its body.
pub open spec fn body_unstyled(html: Seq<char>) -> Seq<char> {
    match body_start(html) {
        Some(at) => chars::text_between(html, 0, at) + patterns::without_matches(
            STYLE_TAG@,
            chars::text_from(html, at),
        ),
        None => patterns::without_matches(STYLE_TAG@, html),
    }
}

/// A text after a rewrite that is made only where it is called for, and the
/// notes so far with the rewrite's own behind them.
pub open spec fn step(
    before: (Seq<char>, Seq<Seq<char>>),
    called_for: bool,
    after: Seq<char>,
    note: Seq<char>,
) -> (Seq<char>, Seq<Seq<char>>) {
    if called_for {
        (after, before.1.push(note))
    } else {
        before
    }
}

/// Grid made block, in both spellings.
pub open spec fn grid_to_block(s: Seq<char>) -> Seq<char> {
    replace::replaced(
        replace::replaced(s, "display: grid"@, "display: block"@),
        "display:grid"@,
        "display:block"@,
    )
}

/// Grid and flex made block, in both spellings.
pub open spec fn grid_and_flex_to_block(s: Seq<char>) -> Seq<char> {
    replace::replaced(
        replace::replaced(grid_to_block(s), "display: flex"@, "display: block"@),
        "display:flex"@,
        "display:block"@,
    )
}

/// Gmail: style elements in the body go, and CSS Grid becomes block. `unstyled` is
/// the HTML without the style elements of its body, if it is `styled` there.
pub open spec fn gmail_from(html: Seq<char>, styled: bool, unstyled: Seq<char>) -> (
    Seq<char>,
    Seq<Seq<char>>,
) {
    let a = step(
        (html, Seq::empty()),
        styled,
        unstyled,
        "style-in-body stripped (Gmail removes inline <style> blocks)"@,
    );
    step(
        a,
        search::contains_seq(a.0, "display: grid"@) || search::contains_seq(a.0, "display:grid"@),
        grid_to_block(a.0),
        "CSS Grid replaced with block (Gmail strips grid)"@,
    )
}

/// What one pass for Gmail gives.
pub open spec fn gmail(html: Seq<char>) -> (Seq<char>, Seq<Seq<char>>) {
    gmail_from(html, styled_body(html), body_unstyled(html))
}

/// The HTML without its style elements.
pub open spec fn all_unstyled(html: Seq<char>) -> Seq<char> {
    if patterns::matches_somewhere(STYLE_TAG@, html) {
        patterns::without_matches(STYLE_TAG@, html)
    } else {
        html
    }
}

/// Outlook Desktop: all style elements go, web fonts go, and grid and flex
/// become block. `plain` is what is left without the first two, `styled` tells
/// whether there were style elements.
pub open spec fn outlook_desktop_from(styled: bool, plain: Seq<char>) -> (
    Seq<char>,
    Seq<Seq<char>>,
) {
    let a = step(
        (plain, Seq::empty()),
        styled,
        plain,
        "All <style> blocks stripped (Outlook Desktop uses Word renderer)"@,
    );
    let b = step(
        a,
        true,
        plain,
        "Web fonts ignored (Outlook falls back to system fonts)"@,
    );
    step(
        b,
        search::contains_seq(b.0, "display: grid"@) || search::contains_seq(b.0, "display: flex"@),
        grid_and_flex_to_block(b.0),
        "Grid/Flex replaced with block (Outlook only supports tables)"@,
    )
}

/// What one pass for Outlook Desktop gives.
pub open spec fn outlook_desktop(html: Seq<char>) -> (Seq<char>, Seq<Seq<char>>) {
    outlook_desktop_from(
        patterns::matches_somewhere(STYLE_TAG@, html),
        patterns::without_matches(WEB_FONT_IMPORT@, all_unstyled(html)),
    )
}

/// What one pass for a client that only takes the style elements out of the body
/// gives.
pub open spec fn body_stripper(html: Seq<char>, note: Seq<char>) -> (Seq<char>, Seq<Seq<char>>) {
    step((html, Seq::empty()), styled_body(html), body_unstyled(html), note)
}

/// What one pass of a client's rewrites gives: the HTML, and the notes on what was
/// changed.
pub open spec fn pass(html: Seq<char>, p: Profile) -> (Seq<char>, Seq<Seq<char>>) {
    match p {
        Profile::GmailWeb | Profile::GmailIos => gmail(html),
        Profile::OutlookDesktop => outlook_desktop(html),
        Profile::OutlookWeb => body_stripper(
            html,
            "style-in-body stripped (Outlook Web rewrites these)"@,
        ),
        Profile::AppleMailMac | Profile::AppleMailIos => (html, Seq::empty()),
        Profile::YahooMail => body_stripper(html, "style-in-body stripped (Yahoo rewrites these)"@),
    }
}

/// How many letters a text has of those that the rewrites of grid and flex take away:
/// each of them loses its `g` or its `x`, and no rewrite adds one.
pub open spec fn weight(s: Seq<char>) -> nat
    decreases s.len(),
{
    if s.len() == 0 {
        0
    } else if s.last() == 'g' || s.last() == 'x' {
        weight(s.drop_last()) + 1
    } else {
        weight(s.drop_last())
    }
}

/// `after` is nearer to a text that nothing more is done to: it has less weight, or
/// the same and fewer characters.
pub open spec fn progresses(before: Seq<char>, after: Seq<char>) -> bool {
    ||| weight(after) < weight(before)
    ||| weight(after) == weight(before) && after.len() < before.len()
}

/// The notes `a`, and behind them those of `b` that are not among them yet.
pub open spec fn merged(a: Seq<Seq<char>>, b: Seq<Seq<char>>) -> Seq<Seq<char>>
    decreases b.len(),
{
    if b.len() == 0 {
        a
    } else {
        let m = merged(a, b.drop_last());
        if m.contains(b.last()) {
            m
        } else {
            m.push(b.last())
        }
    }
}

/// A text and the notes so far after as many passes as it takes: taking an element out
/// can bring the pieces of another one together, which the next pass takes out.
pub open spec fn repeated(html: Seq<char>, so_far: Seq<Seq<char>>, p: Profile) -> (
    Seq<char>,
    Seq<Seq<char>>,
)
    decreases weight(html), html.len(),
{
    let once = pass(html, p);
    if progresses(html, once.0) {
        repeated(once.0, merged(so_far, once.1), p)
    } else {
        (html, merged(so_far, once.1))
    }
}

/// The HTML that a client shows and the notes on what was changed: the passes are
/// repeated until there is nothing left to change. Each note stands there once.
pub open spec fn preview(html: Seq<char>, p: Profile) -> (Seq<char>, Seq<Seq<char>>) {
    repeated(html, Seq::empty(), p)
}

/// A further pass does nothing to the text.
pub open spec fn settled(html: Seq<char>, p: Profile) -> bool {
    pass(html, p).0 == html
}

/// The texts of a list of notes.
pub open spec fn notes(v: Seq<&'static str>) -> Seq<Seq<char>> {
    v.map_values(|s: &'static str| s@)
}

/// Whether there is a style element anywhere.
pub fn has_style_tag(s: &str) -> (r: bool)
    ensures
        r == patterns::matches_somewhere(STYLE_TAG@, s@),
{
    patterns::is_match(STYLE_TAG, s)
}

/// Whether there is a style element in the body.
pub fn has_style_in_body(html: &str) -> (r: bool)
    ensures
        r == styled_body(html@),
{
    match patterns::find(BODY_OPEN, html) {
        Some(m) => has_style_tag(chars::cut(html, m.1).1),
        None => has_style_tag(html),
    }
}

/// The HTML without its style elements.
pub fn strip_all_style_tags(html: &str) -> (r: String)
    ensures
        r@ == patterns::without_matches(STYLE_TAG@, html@),
        thinned(html@, r@),
        patterns::matches_somewhere(STYLE_TAG@, html@) ==> r@.len() < html@.len(),
{
    let r: String = patterns::remove_all(STYLE_TAG, html);
    proof {
        lemma_left_is_thinned(r@, html@);
        lemma_patterns_begin_with_literals();
    }
    r
}

/// The HTML without the style elements of its body.
pub fn strip_style_in_body(html: &str) -> (r: String)
    ensures
        r@ == body_unstyled(html@),
        thinned(html@, r@),
        styled_body(html@) ==> r@.len() < html@.len(),
{
    match patterns::find(BODY_OPEN, html) {
        Some(m) => {
            let (head, body) = chars::cut(html, m.1);
            let plain: String = strip_all_style_tags(body);
            proof {
                lemma_weight_concat(head@, body@);
                lemma_weight_concat(head@, plain@);
            }
            words::cat(head, plain.as_str())
        },
        None => strip_all_style_tags(html),
    }
}

/// The HTML without stylesheets brought in from the web.
pub fn strip_webfont_imports(html: &str) -> (r: String)
    ensures
        r@ == patterns::without_matches(WEB_FONT_IMPORT@, html@),
        thinned(html@, r@),
        patterns::matches_somewhere(WEB_FONT_IMPORT@, html@) ==> r@.len() < html@.len(),
{
    let r: String = patterns::remove_all(WEB_FONT_IMPORT, html);
    proof {
        lemma_left_is_thinned(r@, html@);
        lemma_patterns_begin_with_literals();
    }
    r
}

fn push_note(v: &mut Vec<&'static str>, note: &'static str)
    ensures
        notes(final(v)@) == notes(old(v)@).push(note@),
{
    v.push(note);
    assert(notes(v@) =~= notes(old(v)@).push(note@));
}

fn replace_grid(s: &str) -> (r: String)
    ensures
        r@ == grid_to_block(s@),
{
    proof {
        reveal_strlit("display: grid");
        reveal_strlit("display:grid");
    }
    let a: String = replace::replace(s, "display: grid", "display: block");
    replace::replace(a.as_str(), "display:grid", "display:block")
}

fn transform_gmail(html: &str) -> (r: (String, Vec<&'static str>))
    ensures
        r.0@ == gmail(html@).0,
        notes(r.1@) == gmail(html@).1,
        r.0@ == html@ || progresses(html@, r.0@),
        styled_body(html@) ==> progresses(html@, r.0@),
        r.0@ == html@ ==> r.1@.len() == 0,
        r.0@ != html@ ==> r.1@.len() > 0,
{
    if has_style_in_body(html) {
        let unstyled: String = strip_style_in_body(html);
        proof {
            lemma_grid_progress(unstyled@);
        }
        let r = show_in_gmail(html, true, unstyled.as_str());
        assert(notes(r.1@).len() == r.1@.len());
        r
    } else {
        proof {
            lemma_grid_progress(html@);
        }
        let r = show_in_gmail(html, false, html);
        assert(notes(r.1@).len() == r.1@.len());
        r
    }
}

/// What one pass for Gmail gives, given whether the body has style elements and the HTML without
/// them.
pub fn show_in_gmail(html: &str, styled: bool, unstyled: &str) -> (r: (String, Vec<&'static str>))
    ensures
        r.0@ == gmail_from(html@, styled, unstyled@).0,
        notes(r.1@) == gmail_from(html@, styled, unstyled@).1,
{
    let mut out: String = html.to_owned();
    let mut applied: Vec<&'static str> = Vec::new();
    assert(notes(applied@) =~= Seq::empty());
    if styled {
        out = unstyled.to_owned();
        push_note(
            &mut applied,
            "style-in-body stripped (Gmail removes inline <style> blocks)",
        );
    }
    if search::text_contains(out.as_str(), "display: grid") || search::text_contains(
        out.as_str(),
        "display:grid",
    ) {
        out = replace_grid(out.as_str());
        push_note(&mut applied, "CSS Grid replaced with block (Gmail strips grid)");
    }
    (out, applied)
}

fn transform_outlook_desktop(html: &str) -> (r: (String, Vec<&'static str>))
    ensures
        r.0@ == outlook_desktop(html@).0,
        notes(r.1@) == outlook_desktop(html@).1,
        r.0@ == html@ || progresses(html@, r.0@),
        patterns::matches_somewhere(STYLE_TAG@, html@) ==> progresses(html@, r.0@),
        patterns::matches_somewhere(WEB_FONT_IMPORT@, html@) ==> progresses(html@, r.0@),
        r.0@ == html@ ==> r.1@.len() == 1,
{
    if has_style_tag(html) {
        let unstyled: String = strip_all_style_tags(html);
        let plain: String = strip_webfont_imports(unstyled.as_str());
        proof {
            lemma_grid_and_flex_progress(plain@);
        }
        let r = show_in_outlook_desktop(true, plain.as_str());
        assert(notes(r.1@).len() == r.1@.len());
        r
    } else {
        let plain: String = strip_webfont_imports(html);
        proof {
            lemma_grid_and_flex_progress(plain@);
        }
        let r = show_in_outlook_desktop(false, plain.as_str());
        assert(notes(r.1@).len() == r.1@.len());
        r
    }
}

/// What one pass for Outlook Desktop gives, given whether there were style elements and
/// the HTML without them and without web fonts.
pub fn show_in_outlook_desktop(styled: bool, plain: &str) -> (r: (String, Vec<&'static str>))
    ensures
        r.0@ == outlook_desktop_from(styled, plain@).0,
        notes(r.1@) == outlook_desktop_from(styled, plain@).1,
{
    let mut out: String = plain.to_owned();
    let mut applied: Vec<&'static str> = Vec::new();
    assert(notes(applied@) =~= Seq::empty());
    if styled {
        push_note(
            &mut applied,
            "All <style> blocks stripped (Outlook Desktop uses Word renderer)",
        );
    }
    push_note(&mut applied, "Web fonts ignored (Outlook falls back to system fonts)");
    if search::text_contains(out.as_str(), "display: grid") || search::text_contains(
        out.as_str(),
        "display: flex",
    ) {
        proof {
            reveal_strlit("display: flex");
            reveal_strlit("display:flex");
        }
        out = replace_grid(out.as_str());
        out = replace::replace(out.as_str(), "display: flex", "display: block");
        out = replace::replace(out.as_str(), "display:flex", "display:block");
        push_note(
            &mut applied,
            "Grid/Flex replaced with block (Outlook only supports tables)",
        );
    }
    (out, applied)
}

fn transform_body_stripper(html: &str, note: &'static str) -> (r: (String, Vec<&'static str>))
    ensures
        r.0@ == body_stripper(html@, note@).0,
        notes(r.1@) == body_stripper(html@, note@).1,
        r.0@ == html@ || progresses(html@, r.0@),
        styled_body(html@) ==> progresses(html@, r.0@),
        r.0@ == html@ ==> r.1@.len() == 0,
        r.0@ != html@ ==> r.1@.len() > 0,
{
    let mut applied: Vec<&'static str> = Vec::new();
    assert(notes(applied@) =~= Seq::empty());
    if has_style_in_body(html) {
        push_note(&mut applied, note);
        (strip_style_in_body(html), applied)
    } else {
        (html.to_owned(), applied)
    }
}

fn transform_outlook_web(html: &str) -> (r: (String, Vec<&'static str>))
    ensures
        r.0@ == pass(html@, Profile::OutlookWeb).0,
        notes(r.1@) == pass(html@, Profile::OutlookWeb).1,
        r.0@ == html@ || progresses(html@, r.0@),
        styled_body(html@) ==> progresses(html@, r.0@),
        r.0@ == html@ ==> r.1@.len() == 0,
        r.0@ != html@ ==> r.1@.len() > 0,
{
    transform_body_stripper(html, "style-in-body stripped (Outlook Web rewrites these)")
}

fn transform_apple(html: &str) -> (r: (String, Vec<&'static str>))
    ensures
        r.0@ == html@,
        notes(r.1@) == Seq::<Seq<char>>::empty(),
{
    let applied: Vec<&'static str> = Vec::new();
    assert(notes(applied@) =~= Seq::empty());
    (html.to_owned(), applied)
}

fn transform_yahoo(html: &str) -> (r: (String, Vec<&'static str>))
    ensures
        r.0@ == pass(html@, Profile::YahooMail).0,
        notes(r.1@) == pass(html@, Profile::YahooMail).1,
        r.0@ == html@ || progresses(html@, r.0@),
        styled_body(html@) ==> progresses(html@, r.0@),
        r.0@ == html@ ==> r.1@.len() == 0,
        r.0@ != html@ ==> r.1@.len() > 0,
{
    transform_body_stripper(html, "style-in-body stripped (Yahoo rewrites these)")
}

fn transform(html: &str, profile: Profile) -> (r: (String, Vec<&'static str>))
    ensures
        r.0@ == pass(html@, profile).0,
        notes(r.1@) == pass(html@, profile).1,
        r.0@ == html@ || progresses(html@, r.0@),
        r.0@ == html@ ==> laws::is_clean(html@, profile),
        !(profile is OutlookDesktop) ==> (r.0@ == html@ <==> r.1@.len() == 0),
        profile is OutlookDesktop && r.0@ == html@ ==> r.1@.len() == 1,
{
    proof {
        laws::law_style_in_the_body(html@);
        laws::law_pattern_texts();
    }
    match profile {
        Profile::GmailWeb | Profile::GmailIos => transform_gmail(html),
        Profile::OutlookDesktop => transform_outlook_desktop(html),
        Profile::OutlookWeb => transform_outlook_web(html),
        Profile::AppleMailMac | Profile::AppleMailIos => transform_apple(html),
        Profile::YahooMail => transform_yahoo(html),
    }
}

fn has_note(v: &Vec<&'static str>, note: &str) -> (r: bool)
    ensures
        r == notes(v@).contains(note@),
{
    let ghost m = notes(v@);
    let mut i: usize = 0;
    while i < v.len()
        invariant
            i <= v@.len(),
            m == notes(v@),
            forall|j: int| 0 <= j < i ==> #[trigger] m[j] != note@,
        decreases v@.len() - i,
    {
        if chars::str_eq(v[i], note) {
            assert(m[i as int] == note@);
            return true;
        }
        i = i + 1;
    }
    false
}

/// Puts the notes behind those that are there, as far as they are new.
fn merge_notes(v: &mut Vec<&'static str>, new: &Vec<&'static str>)
    ensures
        notes(final(v)@) == merged(notes(old(v)@), notes(new@)),
{
    let ghost m = notes(new@);
    let ghost before = notes(v@);
    let mut i: usize = 0;
    while i < new.len()
        invariant
            i <= new@.len(),
            m == notes(new@),
            notes(v@) == merged(before, m.take(i as int)),
        decreases new@.len() - i,
    {
        assert(m.take(i + 1).drop_last() =~= m.take(i as int));
        assert(m.take(i + 1).last() == new@[i as int]@);
        if !has_note(v, new[i]) {
            push_note(v, new[i]);
        }
        i = i + 1;
    }
    assert(m.take(i as int) =~= m);
}

/// The HTML as the client of `profile` would show it. There is nothing left in it that
/// the client would change: showing it again gives the same.
pub fn apply(html: &str, profile: Profile) -> (r: RenderedPreview)
    ensures
        r.profile == profile,
        r.fidelity == fidelity_of(profile),
        r.html@ == preview(html@, profile).0,
        notes(r.applied@) == preview(html@, profile).1,
        settled(r.html@, profile),
        laws::is_clean(r.html@, profile),
        !(profile is OutlookDesktop) ==> (r.html@ == html@ <==> r.applied@.len() == 0),
        profile is OutlookDesktop && r.html@ == html@ ==> r.applied@.len() == 1,
{
    let mut text: String = html.to_owned();
    let mut applied: Vec<&'static str> = Vec::new();
    let mut changed: bool = true;
    assert(notes(applied@) =~= Seq::empty());
    while changed
        invariant
            changed ==> repeated(text@, notes(applied@), profile) == preview(html@, profile),
            !changed ==> (text@, notes(applied@)) == preview(html@, profile) && settled(
                text@,
                profile,
            ) && laws::is_clean(text@, profile),
            text@ == html@ || progresses(html@, text@),
            text@ == html@ && changed ==> applied@.len() == 0,
            text@ == html@ && !changed ==> applied@.len() == if profile is OutlookDesktop {
                1nat
            } else {
                0nat
            },
            text@ != html@ ==> applied@.len() > 0,
        decreases weight(text@), text@.len(), changed as int,
    {
        let ghost before = applied@;
        let (once, new): (String, Vec<&'static str>) = transform(text.as_str(), profile);
        merge_notes(&mut applied, &new);
        proof {
            lemma_merged_len(notes(before), notes(new@));
        }
        if chars::str_eq(once.as_str(), text.as_str()) {
            changed = false;
        } else {
            text = once;
        }
    }
    RenderedPreview { profile, fidelity: profile.fidelity(), html: text, applied }
}

/// `after` is `before`, or `before` with something taken out.
pub open spec fn thinned(before: Seq<char>, after: Seq<char>) -> bool {
    after == before || (weight(after) <= weight(before) && after.len() < before.len())
}

/// Merging keeps the notes that were there, and adds none where there are none to add.
proof fn lemma_merged_len(a: Seq<Seq<char>>, b: Seq<Seq<char>>)
    ensures
        merged(a, b).len() >= a.len(),
        merged(a, b).len() <= a.len() + b.len(),
        b.len() > 0 ==> merged(a, b).len() > 0,
        a.len() == 0 && b.len() == 1 ==> merged(a, b).len() == 1,
    decreases b.len(),
{
    if b.len() > 0 {
        lemma_merged_len(a, b.drop_last());
        if merged(a, b.drop_last()).contains(b.last()) {
            assert(merged(a, b.drop_last()).len() > 0);
        }
    }
}

proof fn lemma_patterns_begin_with_literals()
    ensures
        patterns::begins_with_literal(STYLE_TAG@),
        patterns::begins_with_literal(WEB_FONT_IMPORT@),
{
    reveal_strlit("(?is)");
    reveal_strlit(r"(?is)<style\b[^>]*>.*?</style>");
    reveal_strlit(r#"(?is)@import\s+url\(['"]?https?://[^)'"]*['"]?\);?"#);
    assert(STYLE_TAG@.take(5) =~= "(?is)"@);
    assert(WEB_FONT_IMPORT@.take(5) =~= "(?is)"@);
}

proof fn lemma_left_is_thinned(r: Seq<char>, text: Seq<char>)
    requires
        patterns::is_left_of(r, text),
    ensures
        thinned(text, r),
    decreases text.len(),
{
    if r.len() == 0 {
        assert(text.len() == 0 ==> r =~= text);
    } else if r.last() == text.last() && patterns::is_left_of(r.drop_last(), text.drop_last()) {
        lemma_left_is_thinned(r.drop_last(), text.drop_last());
        assert(r =~= r.drop_last().push(r.last()));
        assert(text =~= text.drop_last().push(text.last()));
    } else {
        lemma_left_is_thinned(r, text.drop_last());
    }
}

proof fn lemma_weight_concat(a: Seq<char>, b: Seq<char>)
    ensures
        weight(a + b) == weight(a) + weight(b),
    decreases b.len(),
{
    if b.len() == 0 {
        assert(a + b =~= a);
    } else {
        lemma_weight_concat(a, b.drop_last());
        assert((a + b).drop_last() =~= a + b.drop_last());
    }
}

/// A text that does not begin with another holds it exactly where the rest does.
proof fn lemma_held_behind(s: Seq<char>, n: Seq<char>)
    requires
        s.len() > 0,
        !search::starts_with(s, n),
    ensures
        search::contains_seq(s, n) == search::contains_seq(s.drop_first(), n),
{
    let rest = s.drop_first();
    if search::contains_seq(s, n) {
        let i = choose|i: int| search::occurs_at(s, n, i);
        assert(i > 0);
        assert(rest.subrange(i - 1, i - 1 + n.len()) =~= s.subrange(i, i + n.len()));
        assert(search::occurs_at(rest, n, i - 1));
    }
    if search::contains_seq(rest, n) {
        let i = choose|i: int| search::occurs_at(rest, n, i);
        assert(s.subrange(i + 1, i + 1 + n.len()) =~= rest.subrange(i, i + n.len()));
        assert(search::occurs_at(s, n, i + 1));
    }
}

/// Replacing a text that has weight by one that has none makes a text lighter where the
/// first one occurs, and leaves it as it is elsewhere.
proof fn lemma_replacing_lightens(s: Seq<char>, from: Seq<char>, to: Seq<char>)
    requires
        weight(from) > 0,
        weight(to) == 0,
    ensures
        search::contains_seq(s, from) ==> weight(replace::replaced(s, from, to)) < weight(s),
        !search::contains_seq(s, from) ==> replace::replaced(s, from, to) == s,
    decreases s.len(),
{
    let r = replace::replaced(s, from, to);
    if s.len() == 0 {
        assert(r == s);
        assert forall|i: int| !search::occurs_at(s, from, i) by {}
    } else if search::starts_with(s, from) {
        let rest = s.skip(from.len() as int);
        let tail = replace::replaced(rest, from, to);
        assert(weight(tail) <= weight(rest)) by {
            lemma_replacing_lightens(rest, from, to);
        }
        assert(r == to + tail);
        assert(weight(r) == weight(tail)) by {
            lemma_weight_concat(to, tail);
        }
        assert(weight(s) == weight(from) + weight(rest)) by {
            lemma_weight_concat(from, rest);
            assert(s =~= s.subrange(0, from.len() as int) + rest);
        }
        assert(search::occurs_at(s, from, 0));
    } else {
        let rest = s.drop_first();
        let tail = replace::replaced(rest, from, to);
        lemma_replacing_lightens(rest, from, to);
        lemma_held_behind(s, from);
        let first = seq![s[0]];
        assert(r == first + tail);
        assert(s =~= first + rest);
        assert(weight(r) == weight(first) + weight(tail)) by {
            lemma_weight_concat(first, tail);
        }
        assert(weight(s) == weight(first) + weight(rest)) by {
            lemma_weight_concat(first, rest);
        }
    }
}

proof fn lemma_weights()
    ensures
        weight("display: grid"@) > 0,
        weight("display:grid"@) > 0,
        weight("display: flex"@) > 0,
        weight("display:flex"@) > 0,
        weight("display: block"@) == 0,
        weight("display:block"@) == 0,
{
    reveal_strlit("display: grid");
    reveal_strlit("display:grid");
    reveal_strlit("display: flex");
    reveal_strlit("display:flex");
    reveal_strlit("display: block");
    reveal_strlit("display:block");
    lemma_has_weight("display: grid"@, 9);
    lemma_has_weight("display:grid"@, 8);
    lemma_has_weight("display: flex"@, 12);
    lemma_has_weight("display:flex"@, 11);
    lemma_has_none("display: block"@);
    lemma_has_none("display:block"@);
}

proof fn lemma_has_weight(s: Seq<char>, i: int)
    requires
        0 <= i < s.len(),
        s[i] == 'g' || s[i] == 'x',
    ensures
        weight(s) > 0,
    decreases s.len(),
{
    if i < s.len() - 1 {
        lemma_has_weight(s.drop_last(), i);
    }
}

proof fn lemma_has_none(s: Seq<char>)
    requires
        forall|i: int| 0 <= i < s.len() ==> s[i] != 'g' && s[i] != 'x',
    ensures
        weight(s) == 0,
    decreases s.len(),
{
    if s.len() > 0 {
        lemma_has_none(s.drop_last());
    }
}

proof fn lemma_grid_progress(s: Seq<char>)
    ensures
        search::contains_seq(s, "display: grid"@) || search::contains_seq(s, "display:grid"@)
            ==> weight(grid_to_block(s)) < weight(s),
        !search::contains_seq(s, "display: grid"@) && !search::contains_seq(s, "display:grid"@)
            ==> grid_to_block(s) == s,
{
    let a = replace::replaced(s, "display: grid"@, "display: block"@);
    lemma_weights();
    lemma_replacing_lightens(s, "display: grid"@, "display: block"@);
    lemma_replacing_lightens(a, "display:grid"@, "display:block"@);
}

proof fn lemma_grid_and_flex_progress(s: Seq<char>)
    ensures
        search::contains_seq(s, "display: grid"@) || search::contains_seq(s, "display: flex"@)
            ==> weight(grid_and_flex_to_block(s)) < weight(s),
{
    let a = grid_to_block(s);
    let b = replace::replaced(a, "display: flex"@, "display: block"@);
    lemma_weights();
    lemma_grid_progress(s);
    lemma_replacing_lightens(a, "display: flex"@, "display: block"@);
    lemma_replacing_lightens(b, "display:flex"@, "display:block"@);
}

/// The names of the clients, and how close their previews come: Apple Mail is shown well,
/// Outlook Desktop is an experiment, the others are approximations.
pub proof fn law_names_and_badges(p: Profile)
    ensures
        name_of(p) == (match p {
            Profile::GmailWeb => "Gmail Web"@,
            Profile::GmailIos => "Gmail iOS"@,
            Profile::OutlookDesktop => "Outlook Desktop (Windows)"@,
            Profile::OutlookWeb => "Outlook Web"@,
            Profile::AppleMailMac => "Apple Mail (macOS)"@,
            Profile::AppleMailIos => "Apple Mail (iOS)"@,
            Profile::YahooMail => "Yahoo Mail"@,
        }),
        fidelity_of(p) == Fidelity::High <==> p is AppleMailMac || p is AppleMailIos,
        fidelity_of(p) == Fidelity::Experimental <==> p is OutlookDesktop,
{
}

} // verus!
