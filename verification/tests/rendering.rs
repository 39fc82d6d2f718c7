use postcrate_core::rendering::a11y::{audit, checked_audit, truncate};
use postcrate_core::rendering::lint::lint;
use postcrate_core::rendering::profile::{
    apply, has_style_in_body, strip_webfont_imports, Fidelity, Profile,
};

#[test]
fn img_without_alt_flagged() {
    let html = r#"<img src="logo.png">"#;
    let r = audit(html);
    assert!(r.findings.iter().any(|f| f.rule == "IMG_MISSING_ALT"));
}

#[test]
fn img_with_alt_passes() {
    let html = r#"<html lang="en"><body><img src="logo.png" alt="Brand"></body></html>"#;
    let r = audit(html);
    assert!(!r.findings.iter().any(|f| f.rule == "IMG_MISSING_ALT"));
}

#[test]
fn click_here_flagged() {
    let html = r#"<html lang="en"><a>click here</a></html>"#;
    let r = audit(html);
    assert!(r.findings.iter().any(|f| f.rule == "VAGUE_LINK_TEXT"));
}

#[test]
fn style_in_body_flagged() {
    let html = "<html><body><style>.x{}</style></body></html>";
    let r = lint(html);
    assert!(r.warnings.iter().any(|w| w.rule == "STYLE_IN_BODY"));
}

#[test]
fn no_warnings_for_clean_html() {
    let html = "<html><head><style>.x{color:red}</style></head><body><p>hi</p></body></html>";
    let r = lint(html);
    assert!(r.warnings.is_empty(), "got {:?}", r.warnings);
}

#[test]
fn script_flagged_high() {
    let html = "<body><script>alert(1)</script></body>";
    let r = lint(html);
    let w = r.warnings.iter().find(|w| w.rule == "SCRIPT_TAG").expect("script warning");
    assert_eq!(w.severity, "high");
}

#[test]
fn gmail_strips_style_in_body() {
    let html = r#"<html><head></head><body><style>.x{color:red}</style><p>hi</p></body></html>"#;
    let r = apply(html, Profile::GmailWeb);
    assert!(!r.html.contains("<style>"));
    assert!(!r.applied.is_empty());
}

#[test]
fn gmail_preserves_style_in_head() {
    let html = r#"<html><head><style>.x{color:red}</style></head><body><p>hi</p></body></html>"#;
    let r = apply(html, Profile::GmailWeb);
    assert!(r.html.contains("<style>"));
    assert!(r.applied.is_empty());
}

#[test]
fn outlook_strips_all_styles() {
    let html = r#"<html><head><style>.x{}</style></head><body><p>hi</p></body></html>"#;
    let r = apply(html, Profile::OutlookDesktop);
    assert!(!r.html.contains("<style>"));
}

#[test]
fn outlook_replaces_grid() {
    let html = r#"<div style="display: grid">x</div>"#;
    let r = apply(html, Profile::OutlookDesktop);
    assert!(r.html.contains("display: block"));
}

#[test]
fn apple_passes_through() {
    let html = r#"<div style="display: grid">x</div>"#;
    let r = apply(html, Profile::AppleMailMac);
    assert_eq!(r.html, html);
    assert!(r.applied.is_empty());
}

#[test]
fn gmail_result_is_exact() {
    let html = "<body><style>a</style><p style=\"display:grid\">x</p><STYLE>b</STYLE></body>";
    let r = apply(html, Profile::GmailIos);
    assert_eq!(r.html, "<body><p style=\"display:block\">x</p></body>");
    assert_eq!(
        r.applied,
        vec![
            "style-in-body stripped (Gmail removes inline <style> blocks)",
            "CSS Grid replaced with block (Gmail strips grid)",
        ]
    );
    assert_eq!(r.fidelity, Fidelity::Approximate);
}

#[test]
fn previews_settle_after_one_pass() {
    let html = "<body><style>a</style><p style=\"display: grid; display:flex\">x</p></body>";
    for p in [
        Profile::GmailWeb,
        Profile::GmailIos,
        Profile::OutlookDesktop,
        Profile::OutlookWeb,
        Profile::AppleMailMac,
        Profile::AppleMailIos,
        Profile::YahooMail,
    ] {
        let once = apply(html, p).html;
        assert_eq!(apply(&once, p).html, once);
    }
}

#[test]
fn nested_style_tags_settle() {
    let html = "<sty<style></style>le>x</style>";
    let r = apply(html, Profile::YahooMail);
    assert_eq!(r.html, "");
    assert_eq!(r.applied, vec!["style-in-body stripped (Yahoo rewrites these)"]);
    let html = "<sty<style></style>le></style>a";
    for p in [Profile::GmailWeb, Profile::OutlookDesktop, Profile::OutlookWeb] {
        let once = apply(html, p);
        assert_eq!(once.html, "a");
        assert_eq!(apply(&once.html, p).html, "a");
    }
    assert_eq!(apply(html, Profile::AppleMailMac).html, html);
}

#[test]
fn notes_of_all_passes_stand_once() {
    let r = apply("@imp@import url(http://a)ort url(http://b)c<style></style>", Profile::OutlookDesktop);
    assert_eq!(r.html, "c");
    assert_eq!(
        r.applied,
        vec![
            "All <style> blocks stripped (Outlook Desktop uses Word renderer)",
            "Web fonts ignored (Outlook falls back to system fonts)",
        ]
    );
}

#[test]
fn web_fonts_are_dropped() {
    let html = "<p>a</p>@import url('https://fonts.googleapis.com/css?x');b";
    let r = apply(html, Profile::OutlookDesktop);
    assert_eq!(r.html, strip_webfont_imports(html));
    assert!(r.html.len() < html.len());
    assert!(has_style_in_body("<body><style></style></body>"));
    assert!(!has_style_in_body("<style></style><body></body>"));
}

#[test]
fn offsets_are_in_the_html() {
    let html = "<body><p>x</p><script>alert(1)</script></body>";
    for w in lint(html).warnings {
        if let Some(at) = w.byte_offset {
            assert!(at <= html.len());
        }
    }
}

#[test]
fn audit_is_exact() {
    let html = "<table><img src=a></table><h3>x</h3><a>Read More.</a>";
    let r = audit(html);
    let all: Vec<(&str, &str, &str)> =
        r.findings.iter().map(|f| (f.rule, f.severity, f.message.as_str())).collect();
    assert_eq!(
        all,
        vec![
            ("IMG_MISSING_ALT", "error", "Image without alt attribute: <img src=a>"),
            (
                "VAGUE_LINK_TEXT",
                "warning",
                "Link text \"read more\" is uninformative; describe the destination."
            ),
            ("HEADING_ORDER", "warning", "Heading order jumps levels (<h3> before any <h2>)."),
            (
                "MISSING_LANG",
                "warning",
                "<html> is missing a `lang` attribute; screen readers default to system locale."
            ),
            (
                "TABLE_NO_CAPTION",
                "warning",
                "<table> without role=\"presentation\" or <caption>; screen readers will announce it as data."
            ),
        ]
    );
}

#[test]
fn layout_tables_and_captions_pass() {
    let html = "<html lang=en><table ROLE=presentation></table><table><caption>c</caption></table>";
    assert!(audit(html).findings.is_empty());
}

#[test]
fn long_tags_are_shortened() {
    let html = format!("<html lang=en><img src=\"{}\">", "a".repeat(100));
    let r = checked_audit(&html).unwrap();
    let m = &r.findings[0].message;
    assert!(m.ends_with('\u{2026}'));
    assert_eq!(m.len(), "Image without alt attribute: ".len() + 80 + '\u{2026}'.len_utf8());
}

#[test]
fn cuts_inside_characters_are_refused() {
    let html = format!("<html lang=en><img src=\"{}\">", "\u{e4}".repeat(100));
    assert_eq!(html.find("<img"), Some(14));
    let even = format!("<html lang=en><img src=\"x{}\">", "\u{e4}".repeat(100));
    assert!(checked_audit(&html).is_some() != checked_audit(&even).is_some());
    let table = format!("<html lang=en><table>{}", "\u{20ac}".repeat(100));
    assert!(checked_audit(&table).is_none());
}

#[test]
fn truncation_keeps_short_texts() {
    assert_eq!(truncate("abc", 3), "abc");
    assert_eq!(truncate("abcd", 3), "abc\u{2026}");
}

#[test]
fn profiles_have_names() {
    assert_eq!(Profile::GmailWeb.name(), "Gmail Web");
    assert_eq!(Profile::OutlookDesktop.fidelity(), Fidelity::Experimental);
    assert_eq!(Profile::AppleMailIos.fidelity(), Fidelity::High);
}
