use slotmap::DenseSlotMap;
use std::collections::HashMap;
use zola::config::languages::LanguageOptions;
use zola::config::search::Search;
use zola::config::taxonomies::TaxonomyConfig;
use zola::taxonomy_terms::{defined_taxonomy_keys, find_taxonomy_terms, taxonomy_key, TaxonomyUse};

fn use_of(
    key: slotmap::DefaultKey,
    path: &str,
    name: &str,
    lang: &str,
    terms: &[&str],
) -> TaxonomyUse {
    TaxonomyUse {
        key,
        path: path.to_string(),
        name: name.to_string(),
        slug: name.to_lowercase(),
        lang: lang.to_string(),
        terms: terms.iter().map(|t| t.to_string()).collect(),
    }
}

#[test]
fn taxonomy_key_joins_slug_and_language() {
    assert_eq!(taxonomy_key("tags", "en"), "tags-en");
}

#[test]
fn terms_are_gathered_per_taxonomy() {
    let mut dense = DenseSlotMap::new();
    let p1 = dense.insert(1);
    let p2 = dense.insert(2);
    let p3 = dense.insert(3);
    let uses = vec![
        use_of(p1, "a.md", "Tags", "en", &["rust", "db"]),
        use_of(p1, "a.md", "Authors", "en", &["vincent"]),
        use_of(p2, "b.md", "Tags", "en", &["rust", "js"]),
        use_of(p3, "c.md", "Tags", "fr", &["rust"]),
    ];
    let defined = vec!["tags-en".to_string(), "authors-en".to_string(), "tags-fr".to_string()];
    let groups = find_taxonomy_terms(&uses, &defined).unwrap();
    assert_eq!(groups.len(), 3);
    assert_eq!(groups[0].key, "tags-en");
    let names: Vec<&str> = groups[0].terms.iter().map(|t| t.term.as_str()).collect();
    assert_eq!(names, vec!["rust", "db", "js"]);
    assert_eq!(groups[0].terms[0].pages, vec![p1, p2]);
    assert_eq!(groups[0].terms[1].pages, vec![p1]);
    assert_eq!(groups[0].terms[2].pages, vec![p2]);
    assert_eq!(groups[1].key, "authors-en");
    assert_eq!(groups[1].terms[0].pages, vec![p1]);
    assert_eq!(groups[2].key, "tags-fr");
    assert_eq!(groups[2].terms[0].pages, vec![p3]);
}

#[test]
fn a_taxonomy_without_terms_is_still_listed() {
    let mut dense = DenseSlotMap::new();
    let p1 = dense.insert(1);
    let uses = vec![use_of(p1, "a.md", "Tags", "en", &[])];
    let groups = find_taxonomy_terms(&uses, &vec!["tags-en".to_string()]).unwrap();
    assert_eq!(groups.len(), 1);
    assert!(groups[0].terms.is_empty());
}

#[test]
fn an_undefined_taxonomy_is_an_error() {
    let mut dense = DenseSlotMap::new();
    let p1 = dense.insert(1);
    let uses = vec![
        use_of(p1, "a.md", "Tags", "en", &["rust"]),
        use_of(p1, "content/a.md", "Categories", "en", &["x"]),
    ];
    let err = find_taxonomy_terms(&uses, &vec!["tags-en".to_string()]).unwrap_err();
    assert_eq!(
        err.message,
        "Page `content/a.md` has taxonomy `Categories` which is not defined in config.toml"
    );
}

fn options_with(slugs: &[&str]) -> LanguageOptions {
    LanguageOptions {
        title: None,
        description: None,
        generate_feeds: false,
        feed_filenames: vec!["atom.xml".to_string()],
        taxonomies: slugs
            .iter()
            .map(|s| TaxonomyConfig { name: s.to_string(), slug: s.to_string(), ..TaxonomyConfig::default() })
            .collect(),
        build_search_index: false,
        search: Search::default(),
        translations: HashMap::new(),
    }
}

#[test]
fn defined_keys_come_from_each_language() {
    let languages = vec![
        ("en".to_string(), options_with(&["tags", "authors"])),
        ("fr".to_string(), options_with(&["tags"])),
    ];
    assert_eq!(
        defined_taxonomy_keys(&languages),
        vec!["tags-en".to_string(), "authors-en".to_string(), "tags-fr".to_string()]
    );
}
