//! What holds of previews as a whole.

use vstd::prelude::*;
use vstd::string::*;
use vstd::utf8::*;

use crate::patterns;
use crate::rendering::profile;
use crate::rendering::profile::Profile;
use crate::text::chars;
use crate::text::replace;
use crate::text::search;

verus! {

/// The part of `html` behind the opening tag of its body; all of it where there is no
/// body.
pub open spec fn behind_body_tag(html: Seq<char>) -> Seq<char> {
    let bodies = patterns::matches_of(r"(?is)<body\b[^>]*>"@, html);
    if bodies.len() > 0 {
        decode_utf8(encode_utf8(html).skip(bodies[0].1 as int))
    } else {
        html
    }
}

/// The part of `html` up to the end of the opening tag of its body; nothing where there
/// is no body.
pub open spec fn up_to_body_tag(html: Seq<char>) -> Seq<char> {
    let bodies = patterns::matches_of(r"(?is)<body\b[^>]*>"@, html);
    if bodies.len() > 0 {
        decode_utf8(encode_utf8(html).subrange(0, bodies[0].1 as int))
    } else {
        Seq::empty()
    }
}

/// There is a whole style element in a text.
pub open spec fn has_style_element(text: Seq<char>) -> bool {
    patterns::matches_of(r"(?is)<style\b[^>]*>.*?</style>"@, text).len() > 0
}

/// There is a stylesheet in a text that is brought in from the web.
pub open spec fn has_web_font(text: Seq<char>) -> bool {
    patterns::matches_of(r#"(?is)@import\s+url\(['"]?https?://[^)'"]*['"]?\);?"#@, text).len() > 0
}

/// Nothing is left in `html` that the client does not show: no style element behind the
/// body tag for the clients that strip the body, no style element and no web font at
/// all for Outlook Desktop.
pub open spec fn is_clean(html: Seq<char>, p: Profile) -> bool {
    match p {
        Profile::GmailWeb | Profile::GmailIos | Profile::OutlookWeb | Profile::YahooMail =>
            !has_style_element(behind_body_tag(html)),
        Profile::OutlookDesktop => !has_style_element(html) && !has_web_font(html),
        Profile::AppleMailMac | Profile::AppleMailIos => true,
    }
}

/// The patterns that the clients go by.
pub proof fn law_pattern_texts()
    ensures
        profile::STYLE_TAG@ == r"(?is)<style\b[^>]*>.*?</style>"@,
        profile::BODY_OPEN@ == r"(?is)<body\b[^>]*>"@,
        profile::WEB_FONT_IMPORT@ == r#"(?is)@import\s+url\(['"]?https?://[^)'"]*['"]?\);?"#@,
{
}

/// The body has a style element exactly where one stands behind the body tag.
pub proof fn law_style_in_the_body(html: Seq<char>)
    ensures
        profile::styled_body(html) == has_style_element(behind_body_tag(html)),
{
}

/// Taking the style elements out of the body keeps what stands up to the body tag, and
/// behind it everything but the style elements.
pub proof fn law_body_is_stripped(html: Seq<char>)
    ensures
        profile::body_unstyled(html) == up_to_body_tag(html) + patterns::without_matches(
            r"(?is)<style\b[^>]*>.*?</style>"@,
            behind_body_tag(html),
        ),
{
    assert(profile::body_unstyled(html) =~= up_to_body_tag(html) + patterns::without_matches(
        r"(?is)<style\b[^>]*>.*?</style>"@,
        behind_body_tag(html),
    ));
}

/// The HTML with the style elements behind its body tag taken out, where there are any.
pub open spec fn stripped_behind_body_tag(html: Seq<char>) -> Seq<char> {
    if has_style_element(behind_body_tag(html)) {
        up_to_body_tag(html) + patterns::without_matches(
            r"(?is)<style\b[^>]*>.*?</style>"@,
            behind_body_tag(html),
        )
    } else {
        html
    }
}

/// What one pass does for Outlook Web and Yahoo Mail: it takes the style elements behind
/// the body tag out, and nothing else.
pub proof fn law_body_strippers(html: Seq<char>, p: Profile)
    requires
        p is OutlookWeb || p is YahooMail,
    ensures
        profile::pass(html, p).0 == stripped_behind_body_tag(html),
{
    law_body_is_stripped(html);
}

/// What one pass does for Gmail: it takes the style elements behind the body tag out, and
/// writes block for grid in both spellings.
pub proof fn law_gmail_pass(html: Seq<char>, p: Profile)
    requires
        p is GmailWeb || p is GmailIos,
    ensures
        profile::pass(html, p).0 == replace::replaced(
            replace::replaced(
                stripped_behind_body_tag(html),
                "display: grid"@,
                "display: block"@,
            ),
            "display:grid"@,
            "display:block"@,
        ),
{
    law_body_is_stripped(html);
    let a = stripped_behind_body_tag(html);
    reveal_strlit("display: grid");
    reveal_strlit("display:grid");
    if !search::contains_seq(a, "display: grid"@) && !search::contains_seq(a, "display:grid"@) {
        replace::law_nothing_else_is_replaced(a, "display: grid"@, "display: block"@);
        replace::law_nothing_else_is_replaced(a, "display:grid"@, "display:block"@);
    }
}

/// What one pass does for Outlook Desktop: it takes all style elements out and then the
/// web fonts, and writes block for grid and flex in all spellings where one of them
/// occurs with a space.
pub proof fn law_outlook_desktop_pass(html: Seq<char>)
    ensures
        ({
            let plain = patterns::without_matches(
                r#"(?is)@import\s+url\(['"]?https?://[^)'"]*['"]?\);?"#@,
                patterns::without_matches(r"(?is)<style\b[^>]*>.*?</style>"@, html),
            );
            profile::pass(html, Profile::OutlookDesktop).0 == if search::contains_seq(
                plain,
                "display: grid"@,
            ) || search::contains_seq(plain, "display: flex"@) {
                replace::replaced(
                    replace::replaced(
                        replace::replaced(
                            replace::replaced(plain, "display: grid"@, "display: block"@),
                            "display:grid"@,
                            "display:block"@,
                        ),
                        "display: flex"@,
                        "display: block"@,
                    ),
                    "display:flex"@,
                    "display:block"@,
                )
            } else {
                plain
            }
        }),
{
    if !patterns::matches_somewhere(profile::STYLE_TAG@, html) {
        patterns::lemma_nothing_to_remove(profile::STYLE_TAG@, html);
    }
}

/// A pass that makes progress is followed by the others: the preview of what it gives is
/// the preview. Where a pass changes nothing, the HTML is its own preview.
pub proof fn law_passes_follow_each_other(html: Seq<char>, p: Profile)
    ensures
        profile::progresses(html, profile::pass(html, p).0) ==> profile::preview(html, p).0
            == profile::preview(profile::pass(html, p).0, p).0,
        profile::pass(html, p).0 == html ==> profile::preview(html, p).0 == html,
{
    let once = profile::pass(html, p);
    if profile::progresses(html, once.0) {
        lemma_text_ignores_notes(once.0, profile::merged(Seq::empty(), once.1), Seq::empty(), p);
    }
}

proof fn lemma_text_ignores_notes(
    html: Seq<char>,
    a: Seq<Seq<char>>,
    b: Seq<Seq<char>>,
    p: Profile,
)
    ensures
        profile::repeated(html, a, p).0 == profile::repeated(html, b, p).0,
    decreases profile::weight(html), html.len(),
{
    let once = profile::pass(html, p);
    if profile::progresses(html, once.0) {
        lemma_text_ignores_notes(
            once.0,
            profile::merged(a, once.1),
            profile::merged(b, once.1),
            p,
        );
    }
}

/// What progress is: fewer letters `g` and `x`, or as many and fewer characters.
pub proof fn law_progress(before: Seq<char>, after: Seq<char>)
    ensures
        profile::progresses(before, after) == {
            let a = after.filter(|c: char| c == 'g' || c == 'x').len();
            let b = before.filter(|c: char| c == 'g' || c == 'x').len();
            a < b || (a == b && after.len() < before.len())
        },
{
    lemma_weight(before);
    lemma_weight(after);
}

proof fn lemma_weight(s: Seq<char>)
    ensures
        profile::weight(s) == s.filter(|c: char| c == 'g' || c == 'x').len(),
    decreases s.len(),
{
    reveal(Seq::filter);
    if s.len() > 0 {
        lemma_weight(s.drop_last());
    }
}

/// A preview says what was found: a style element behind the body tag, a style element
/// for Outlook Desktop, and that web fonts are ignored there.
#[verifier::rlimit(60)]
pub proof fn law_notes_tell_what_was_found(html: Seq<char>, p: Profile)
    ensures
        (p is GmailWeb || p is GmailIos) && has_style_element(behind_body_tag(html))
            ==> profile::preview(html, p).1.contains(
            "style-in-body stripped (Gmail removes inline <style> blocks)"@,
        ),
        p is OutlookWeb && has_style_element(behind_body_tag(html)) ==> profile::preview(
            html,
            p,
        ).1.contains("style-in-body stripped (Outlook Web rewrites these)"@),
        p is YahooMail && has_style_element(behind_body_tag(html)) ==> profile::preview(
            html,
            p,
        ).1.contains("style-in-body stripped (Yahoo rewrites these)"@),
        p is OutlookDesktop && has_style_element(html) ==> profile::preview(html, p).1.contains(
            "All <style> blocks stripped (Outlook Desktop uses Word renderer)"@,
        ),
        p is OutlookDesktop ==> profile::preview(html, p).1.contains(
            "Web fonts ignored (Outlook falls back to system fonts)"@,
        ),
        (p is GmailWeb || p is GmailIos) && (search::contains_seq(
            stripped_behind_body_tag(html),
            "display: grid"@,
        ) || search::contains_seq(stripped_behind_body_tag(html), "display:grid"@))
            ==> profile::preview(html, p).1.contains(
            "CSS Grid replaced with block (Gmail strips grid)"@,
        ),
{
    law_body_is_stripped(html);
    let ns = profile::pass(html, p).1;
    assert forall|i: int| 0 <= i < ns.len() implies profile::preview(html, p).1.contains(
        #[trigger] ns[i],
    ) by {
        lemma_note_stays(html, Seq::empty(), p, ns[i]);
    }
    if p is OutlookDesktop {
        let k: int = if has_style_element(html) {
            1
        } else {
            0
        };
        assert(ns[k] == "Web fonts ignored (Outlook falls back to system fonts)"@);
        assert(ns.contains(ns[0]));
        assert(profile::preview(html, p).1.contains(ns[0]));
    } else if p is GmailWeb || p is GmailIos {
        if has_style_element(behind_body_tag(html)) {
            assert(ns[0] == "style-in-body stripped (Gmail removes inline <style> blocks)"@);
        }
        if search::contains_seq(stripped_behind_body_tag(html), "display: grid"@)
            || search::contains_seq(stripped_behind_body_tag(html), "display:grid"@) {
            assert(ns[ns.len() - 1] == "CSS Grid replaced with block (Gmail strips grid)"@);
        }
    } else if p is OutlookWeb || p is YahooMail {
        if has_style_element(behind_body_tag(html)) {
            assert(ns.len() == 1);
            assert(profile::preview(html, p).1.contains(ns[0]));
        }
    }
}

/// A note of the next pass, or one that is there, is among the notes in the end.
proof fn lemma_note_stays(
    html: Seq<char>,
    so_far: Seq<Seq<char>>,
    p: Profile,
    note: Seq<char>,
)
    requires
        so_far.contains(note) || profile::pass(html, p).1.contains(note),
    ensures
        profile::repeated(html, so_far, p).1.contains(note),
    decreases profile::weight(html), html.len(),
{
    let once = profile::pass(html, p);
    lemma_merged_holds(so_far, once.1, note);
    if profile::progresses(html, once.0) {
        lemma_note_stays(once.0, profile::merged(so_far, once.1), p, note);
    }
}

proof fn lemma_merged_holds(a: Seq<Seq<char>>, b: Seq<Seq<char>>, note: Seq<char>)
    requires
        a.contains(note) || b.contains(note),
    ensures
        profile::merged(a, b).contains(note),
    decreases b.len(),
{
    if b.len() > 0 {
        let m = profile::merged(a, b.drop_last());
        if b.last() == note {
            if !m.contains(note) {
                assert(m.push(note)[m.len() as int] == note);
            }
        } else {
            if !a.contains(note) {
                let k = choose|k: int| 0 <= k < b.len() && b[k] == note;
                assert(b.drop_last()[k] == note);
            }
            lemma_merged_holds(a, b.drop_last(), note);
            let k = choose|k: int| 0 <= k < m.len() && m[k] == note;
            assert(m.push(b.last())[k] == note);
        }
    }
}

/// Showing a preview to the same client again changes nothing.
pub proof fn law_apply_is_idempotent(html: Seq<char>, p: Profile)
    ensures
        profile::preview(profile::preview(html, p).0, p).0 == profile::preview(html, p).0,
{
    lemma_repeated_stays(html, Seq::empty(), p, Seq::empty());
}

/// What the passes end with is left alone by further ones, whatever the notes are.
proof fn lemma_repeated_stays(
    html: Seq<char>,
    so_far: Seq<Seq<char>>,
    p: Profile,
    others: Seq<Seq<char>>,
)
    ensures
        profile::repeated(profile::repeated(html, so_far, p).0, others, p).0 == profile::repeated(
            html,
            so_far,
            p,
        ).0,
    decreases profile::weight(html), html.len(),
{
    let once = profile::pass(html, p);
    if profile::progresses(html, once.0) {
        lemma_repeated_stays(once.0, profile::merged(so_far, once.1), p, others);
    }
}

/// HTML that is settled for Gmail, as every Gmail preview is, holds no CSS Grid.
pub proof fn law_gmail_has_no_grid(html: Seq<char>, p: Profile)
    requires
        p is GmailWeb || p is GmailIos,
        profile::settled(html, p),
    ensures
        !search::contains_seq(html, "display: grid"@),
        !search::contains_seq(html, "display:grid"@),
{
    let a = if profile::styled_body(html) {
        profile::body_unstyled(html)
    } else {
        html
    };
    lemma_no_grid_left(a);
}

/// HTML that is settled for Outlook Desktop, as every preview for it is, holds neither
/// grid nor flex in the spelling that calls for the rewrite.
pub proof fn law_outlook_desktop_has_no_grid_or_flex(html: Seq<char>)
    requires
        profile::settled(html, Profile::OutlookDesktop),
    ensures
        !search::contains_seq(html, "display: grid"@),
        !search::contains_seq(html, "display: flex"@),
{
    let a = profile::all_unstyled(html);
    let b = patterns::without_matches(profile::WEB_FONT_IMPORT@, a);
    if search::contains_seq(b, "display: grid"@) || search::contains_seq(b, "display: flex"@) {
        let grid = "display: grid"@;
        let flex = "display: flex"@;
        let tight = "display:flex"@;
        let c = profile::grid_to_block(b);
        lemma_no_grid_left(b);
        let d = replace::replaced(c, flex, "display: block"@);
        lemma_spaced_pair();
        lemma_tight_pair();
        replace::lemma_replace_leaves_none(c, grid, flex, "display: block"@);
        replace::lemma_replace_leaves_none(c, flex, flex, "display: block"@);
        replace::lemma_replace_leaves_none(d, grid, tight, "display:block"@);
        replace::lemma_replace_leaves_none(d, flex, tight, "display:block"@);
    }
}

/// A pass keeps what stands before the body, its style elements too, for the clients
/// that strip only the body, and for Gmail as well where it finds no grid to rewrite.
pub proof fn law_head_is_kept(html: Seq<char>, p: Profile, at: int)
    requires
        !(p is OutlookDesktop),
        !(p is AppleMailMac),
        !(p is AppleMailIos),
        profile::body_start(html) == Some(at),
        profile::styled_body(html),
        p is GmailWeb || p is GmailIos ==> {
            &&& !search::contains_seq(profile::body_unstyled(html), "display: grid"@)
            &&& !search::contains_seq(profile::body_unstyled(html), "display:grid"@)
        },
    ensures
        search::starts_with(profile::pass(html, p).0, chars::text_between(html, 0, at)),
{
    let head = chars::text_between(html, 0, at);
    let out = profile::pass(html, p).0;
    assert(out.subrange(0, head.len() as int) =~= head);
}

/// HTML that has nothing to change is shown as it is, without a note: its body has no
/// style element, and for Gmail there is no grid.
pub proof fn law_clean_html_is_kept(html: Seq<char>, p: Profile)
    requires
        !(p is OutlookDesktop),
        !profile::styled_body(html),
        p is GmailWeb || p is GmailIos ==> {
            &&& !search::contains_seq(html, "display: grid"@)
            &&& !search::contains_seq(html, "display:grid"@)
        },
    ensures
        profile::preview(html, p) == (html, Seq::<Seq<char>>::empty()),
{
}

/// Apple Mail shows HTML as it is.
pub proof fn law_apple_mail_changes_nothing(html: Seq<char>)
    ensures
        profile::preview(html, Profile::AppleMailMac) == (html, Seq::<Seq<char>>::empty()),
        profile::preview(html, Profile::AppleMailIos) == (html, Seq::<Seq<char>>::empty()),
{
}

proof fn lemma_no_grid_left(a: Seq<char>)
    ensures
        !search::contains_seq(profile::grid_to_block(a), "display: grid"@),
        !search::contains_seq(profile::grid_to_block(a), "display:grid"@),
{
    let grid = "display: grid"@;
    let tight = "display:grid"@;
    let b = replace::replaced(a, grid, "display: block"@);
    lemma_grid_pairs();
    replace::lemma_replace_leaves_none(a, grid, grid, "display: block"@);
    replace::lemma_replace_leaves_none(b, grid, tight, "display:block"@);
    replace::lemma_replace_leaves_none(b, tight, tight, "display:block"@);
}

/// A replacement that ends in a letter the sought text lacks, differs from it
/// within its length, and shares no more of its end than one letter.
proof fn lemma_makes_no_new(seen: Seq<char>, from: Seq<char>, to: Seq<char>)
    requires
        to.len() >= seen.len() > 0,
        to.len() <= seen.len() + 2,
        from.len() > 0,
        from[0] == to[0],
        forall|i: int| 0 <= i < seen.len() ==> seen[i] != to.last(),
        forall|i: int| 1 <= i < seen.len() - 1 ==> seen[i] != to[0],
        to[1] != seen[0],
        to[2] != seen[0],
        exists|i: int| 0 <= i < seen.len() && seen[i] != to[i],
    ensures
        replace::makes_no_new(seen, from, to),
{
    assert forall|i: int| !search::occurs_at(to, seen, i) by {
        if search::occurs_at(to, seen, i) {
            let at = to.subrange(i, i + seen.len());
            if i == 0 {
                let k = choose|k: int| 0 <= k < seen.len() && seen[k] != to[k];
                assert(at[k] == to[k]);
            } else {
                assert(at[0] == to[i]);
            }
        }
    }
    assert forall|k: int|
        #![trigger seen.skip(k)]
        1 <= k < seen.len() && search::starts_with(to, seen.skip(k)) implies search::starts_with(
        from,
        seen.skip(k),
    ) by {
        let g = seen.skip(k);
        assert(to.subrange(0, g.len() as int)[0] == g[0]);
        assert(seen[k] == to[0]);
        assert(k == seen.len() - 1);
        assert(from.subrange(0, 1) =~= g);
    }
}

proof fn lemma_grid_pairs()
    ensures
        "display: grid"@.len() > 0,
        "display:grid"@.len() > 0,
        replace::makes_no_new("display: grid"@, "display: grid"@, "display: block"@),
        replace::makes_no_new("display: grid"@, "display:grid"@, "display:block"@),
        replace::makes_no_new("display:grid"@, "display:grid"@, "display:block"@),
{
    reveal_strlit("display: grid");
    reveal_strlit("display:grid");
    reveal_strlit("display: block");
    reveal_strlit("display:block");
    assert("display: grid"@[9] != "display: block"@[9]);
    assert("display: grid"@[8] != "display:block"@[8]);
    assert("display:grid"@[8] != "display:block"@[8]);
    lemma_makes_no_new("display: grid"@, "display: grid"@, "display: block"@);
    lemma_makes_no_new("display: grid"@, "display:grid"@, "display:block"@);
    lemma_makes_no_new("display:grid"@, "display:grid"@, "display:block"@);
}

proof fn lemma_spaced_pair()
    ensures
        "display: flex"@.len() > 0,
        replace::makes_no_new("display: grid"@, "display: flex"@, "display: block"@),
        replace::makes_no_new("display: flex"@, "display: flex"@, "display: block"@),
{
    reveal_strlit("display: grid");
    reveal_strlit("display: flex");
    reveal_strlit("display: block");
    assert("display: grid"@[9] != "display: block"@[9]);
    assert("display: flex"@[9] != "display: block"@[9]);
    lemma_makes_no_new("display: grid"@, "display: flex"@, "display: block"@);
    lemma_makes_no_new("display: flex"@, "display: flex"@, "display: block"@);
}

proof fn lemma_tight_pair()
    ensures
        "display:flex"@.len() > 0,
        replace::makes_no_new("display: grid"@, "display:flex"@, "display:block"@),
        replace::makes_no_new("display: flex"@, "display:flex"@, "display:block"@),
{
    reveal_strlit("display: grid");
    reveal_strlit("display: flex");
    reveal_strlit("display:flex");
    reveal_strlit("display:block");
    assert("display: grid"@[8] != "display:block"@[8]);
    assert("display: flex"@[8] != "display:block"@[8]);
    lemma_makes_no_new("display: grid"@, "display:flex"@, "display:block"@);
    lemma_makes_no_new("display: flex"@, "display:flex"@, "display:block"@);
}

/// What a pass notes: for Gmail that style elements were found behind the body tag and
/// that there was grid behind that, for Outlook Web and Yahoo Mail the first alone, for
/// Outlook Desktop that there were style elements, that web fonts are ignored, and that
/// there was grid or flex. Nothing is noted for Apple Mail.
#[verifier::rlimit(60)]
pub proof fn law_pass_notes(html: Seq<char>)
    ensures
        ({
            let styled = has_style_element(behind_body_tag(html));
            let a = stripped_behind_body_tag(html);
            let grid = search::contains_seq(a, "display: grid"@) || search::contains_seq(
                a,
                "display:grid"@,
            );
            let none = Seq::<Seq<char>>::empty();
            let gmail = (if styled {
                seq!["style-in-body stripped (Gmail removes inline <style> blocks)"@]
            } else {
                none
            }) + (if grid {
                seq!["CSS Grid replaced with block (Gmail strips grid)"@]
            } else {
                none
            });
            &&& profile::pass(html, Profile::GmailWeb).1 == gmail
            &&& profile::pass(html, Profile::GmailIos).1 == gmail
            &&& profile::pass(html, Profile::OutlookWeb).1 == (if styled {
                seq!["style-in-body stripped (Outlook Web rewrites these)"@]
            } else {
                none
            })
            &&& profile::pass(html, Profile::YahooMail).1 == (if styled {
                seq!["style-in-body stripped (Yahoo rewrites these)"@]
            } else {
                none
            })
            &&& profile::pass(html, Profile::AppleMailMac).1 == none
            &&& profile::pass(html, Profile::AppleMailIos).1 == none
        }),
        ({
            let plain = patterns::without_matches(
                r#"(?is)@import\s+url\(['"]?https?://[^)'"]*['"]?\);?"#@,
                patterns::without_matches(r"(?is)<style\b[^>]*>.*?</style>"@, html),
            );
            let none = Seq::<Seq<char>>::empty();
            profile::pass(html, Profile::OutlookDesktop).1 == (if has_style_element(html) {
                seq!["All <style> blocks stripped (Outlook Desktop uses Word renderer)"@]
            } else {
                none
            }) + seq!["Web fonts ignored (Outlook falls back to system fonts)"@] + (
            if search::contains_seq(plain, "display: grid"@) || search::contains_seq(
                plain,
                "display: flex"@,
            ) {
                seq!["Grid/Flex replaced with block (Outlook only supports tables)"@]
            } else {
                none
            })
        }),
{
    law_body_is_stripped(html);
    if !patterns::matches_somewhere(profile::STYLE_TAG@, html) {
        patterns::lemma_nothing_to_remove(profile::STYLE_TAG@, html);
    }
    let styled = has_style_element(behind_body_tag(html));
    let a = stripped_behind_body_tag(html);
    let grid = search::contains_seq(a, "display: grid"@) || search::contains_seq(
        a,
        "display:grid"@,
    );
    let none = Seq::<Seq<char>>::empty();
    let gmail = (if styled {
        seq!["style-in-body stripped (Gmail removes inline <style> blocks)"@]
    } else {
        none
    }) + (if grid {
        seq!["CSS Grid replaced with block (Gmail strips grid)"@]
    } else {
        none
    });
    assert(profile::pass(html, Profile::GmailWeb).1 =~= gmail);
    assert(profile::pass(html, Profile::GmailIos).1 =~= gmail);
    assert(profile::pass(html, Profile::OutlookWeb).1 =~= (if styled {
        seq!["style-in-body stripped (Outlook Web rewrites these)"@]
    } else {
        none
    }));
    assert(profile::pass(html, Profile::YahooMail).1 =~= (if styled {
        seq!["style-in-body stripped (Yahoo rewrites these)"@]
    } else {
        none
    }));
    let plain = patterns::without_matches(
        profile::WEB_FONT_IMPORT@,
        patterns::without_matches(profile::STYLE_TAG@, html),
    );
    assert(profile::pass(html, Profile::OutlookDesktop).1 =~= (if has_style_element(html) {
        seq!["All <style> blocks stripped (Outlook Desktop uses Word renderer)"@]
    } else {
        none
    }) + seq!["Web fonts ignored (Outlook falls back to system fonts)"@] + (
    if search::contains_seq(plain, "display: grid"@) || search::contains_seq(
        plain,
        "display: flex"@,
    ) {
        seq!["Grid/Flex replaced with block (Outlook only supports tables)"@]
    } else {
        none
    }));
}

/// Merging notes keeps those that are there in their places, and adds those that are new;
/// none stands there twice that did not before.
pub proof fn law_notes_are_merged(a: Seq<Seq<char>>, b: Seq<Seq<char>>, note: Seq<char>)
    ensures
        profile::merged(a, b).contains(note) <==> (a.contains(note) || b.contains(note)),
        profile::merged(a, b).len() >= a.len(),
        profile::merged(a, b).take(a.len() as int) == a,
        a.no_duplicates() ==> profile::merged(a, b).no_duplicates(),
    decreases b.len(),
{
    if a.contains(note) || b.contains(note) {
        lemma_merged_holds(a, b, note);
    }
    if b.len() > 0 {
        let m = profile::merged(a, b.drop_last());
        law_notes_are_merged(a, b.drop_last(), note);
        law_notes_are_merged(a, b.drop_last(), b.last());
        assert(b.contains(b.last()));
        if profile::merged(a, b).contains(note) && !a.contains(note) {
            if note != b.last() {
                let k = choose|k: int|
                    0 <= k < profile::merged(a, b).len() && profile::merged(a, b)[k] == note;
                assert(m[k] == note);
                assert(b.drop_last().contains(note));
                let l = choose|l: int| 0 <= l < b.drop_last().len() && b.drop_last()[l] == note;
                assert(b[l] == note);
            }
        }
        assert(profile::merged(a, b).take(a.len() as int) =~= m.take(a.len() as int));
    } else {
        assert(profile::merged(a, b).take(a.len() as int) =~= a);
    }
}

} // verus!
