use zola::config::markup::{HighlightConfig, HighlightStyle, Highlighting, InsertAnchor, Markdown};

#[test]
fn default_markdown_marks_links_external() {
    let m = Markdown::default();
    assert!(m.external_links_external);
    assert!(m.has_external_link_tweaks());
    assert_eq!(m.insert_anchor_links, InsertAnchor::NoAnchor);
    assert_eq!(
        m.construct_external_link_tag("https://example.com", ""),
        "<a rel=\"external\" href=\"https://example.com\">"
    );
}

#[test]
fn external_link_tag_with_every_option() {
    let m = Markdown {
        external_links_class: Some("ext".to_string()),
        external_links_target_blank: true,
        external_links_no_follow: true,
        external_links_no_referrer: true,
        external_links_external: true,
        ..Markdown::default()
    };
    assert_eq!(
        m.construct_external_link_tag("https://a.org", "A site"),
        "<a class=\"ext\" rel=\"noopener nofollow noreferrer external\" target=\"_blank\" title=\"A site\" href=\"https://a.org\">"
    );
}

#[test]
fn external_link_tag_without_tweaks() {
    let m = Markdown { external_links_external: false, ..Markdown::default() };
    assert!(!m.has_external_link_tweaks());
    assert_eq!(m.construct_external_link_tag("u", "t"), "<a title=\"t\" href=\"u\">");
    let m = Markdown { external_links_external: false, external_links_class: Some("c".into()), ..Markdown::default() };
    assert!(m.has_external_link_tweaks());
}

#[test]
fn external_links_class_cannot_hold_quotes() {
    let ok = Markdown { external_links_class: Some("fine-class".into()), ..Markdown::default() };
    assert!(ok.validate_external_links_class().is_ok());
    assert!(Markdown::default().validate_external_links_class().is_ok());
    let bad = Markdown { external_links_class: Some("a\"b".into()), ..Markdown::default() };
    assert_eq!(
        bad.validate_external_links_class().err().unwrap().to_message(),
        "External link class 'a\"b' cannot contain quotes"
    );
    let bad = Markdown { external_links_class: Some("it's".into()), ..Markdown::default() };
    assert!(bad.validate_external_links_class().is_err());
}

#[test]
fn highlighting_uses_classes_for_class_style() {
    let mut h = Highlighting {
        error_on_missing_language: false,
        style: HighlightStyle::Class,
        theme: HighlightConfig::Single { theme: "t".into() },
        extra_grammars: vec![],
        extra_themes: vec![],
    };
    assert!(h.uses_classes());
    h.style = HighlightStyle::Inline;
    assert!(!h.uses_classes());
}
