use std::collections::HashMap;

use zola::config::languages::{
    add_default_language, has_taxonomy, is_multilingual, other_languages_codes, validate_code,
    LanguageOptions,
};
use zola::config::search::Search;
use zola::config::taxonomies::TaxonomyConfig;

#[test]
fn merge_without_conflict() {
    let mut base_default_language_options = LanguageOptions {
        title: Some("Site's title".to_string()),
        description: None,
        generate_feeds: true,
        feed_filenames: vec!["atom.xml".to_string()],
        taxonomies: vec![],
        build_search_index: true,
        search: Search::default(),
        translations: HashMap::new(),
    };

    let section_default_language_options = LanguageOptions {
        title: None,
        description: Some("Site's description".to_string()),
        generate_feeds: false,
        feed_filenames: vec!["rss.xml".to_string()],
        taxonomies: vec![],
        build_search_index: true,
        search: Search::default(),
        translations: HashMap::new(),
    };

    base_default_language_options.merge(&section_default_language_options).unwrap();
}

#[test]
fn merge_with_conflict() {
    let mut base_default_language_options = LanguageOptions {
        title: Some("Site's title".to_string()),
        description: Some("Duplicate site description".to_string()),
        generate_feeds: true,
        feed_filenames: vec![],
        taxonomies: vec![],
        build_search_index: true,
        search: Search::default(),
        translations: HashMap::new(),
    };

    let section_default_language_options = LanguageOptions {
        title: None,
        description: Some("Site's description".to_string()),
        generate_feeds: false,
        feed_filenames: vec!["Some feed_filename".to_string()],
        taxonomies: vec![],
        build_search_index: true,
        search: Search::default(),
        translations: HashMap::new(),
    };

    let res = base_default_language_options.merge(&section_default_language_options).unwrap_err();
    assert!(res.to_message().contains("`description` for default language is specified twice"));
}

#[test]
fn merge_fills_missing_fields_and_ors_flags() {
    let mut base = LanguageOptions {
        title: Some("Site's title".to_string()),
        description: None,
        generate_feeds: false,
        feed_filenames: vec!["atom.xml".to_string()],
        taxonomies: vec![],
        build_search_index: false,
        search: Search::default(),
        translations: HashMap::new(),
    };
    let mut translations = HashMap::new();
    translations.insert("title".to_string(), "Un titre".to_string());
    let other = LanguageOptions {
        title: None,
        description: Some("Description".to_string()),
        generate_feeds: true,
        feed_filenames: vec!["rss.xml".to_string()],
        taxonomies: vec![TaxonomyConfig { name: "tags".to_string(), ..TaxonomyConfig::default() }],
        build_search_index: true,
        search: Search { include_date: true, ..Search::default() },
        translations,
    };
    base.merge(&other).unwrap();
    assert_eq!(base.title, Some("Site's title".to_string()));
    assert_eq!(base.description, Some("Description".to_string()));
    assert!(base.generate_feeds);
    assert!(base.build_search_index);
    assert_eq!(base.feed_filenames, vec!["rss.xml".to_string()]);
    assert_eq!(base.taxonomies.len(), 1);
    assert_eq!(base.taxonomies[0].name, "tags");
    assert!(base.search.include_date);
    assert_eq!(base.translations.get("title").unwrap(), "Un titre");
}

#[test]
fn merge_reports_first_conflict_in_order() {
    let mk = |title: Option<&str>, feeds: Vec<&str>| LanguageOptions {
        title: title.map(|t| t.to_string()),
        description: None,
        generate_feeds: false,
        feed_filenames: feeds.into_iter().map(|f| f.to_string()).collect(),
        taxonomies: vec![],
        build_search_index: false,
        search: Search::default(),
        translations: HashMap::new(),
    };
    let mut a = mk(Some("A"), vec!["a.xml"]);
    let b = mk(Some("B"), vec!["b.xml"]);
    let e = a.merge(&b).unwrap_err();
    assert_eq!(
        e.to_message(),
        "`title` for default language is specified twice, as \"A\" and \"B\"."
    );

    let mut a = mk(None, vec!["a.xml"]);
    let e = a.merge(&b).unwrap_err();
    assert!(e.to_message().starts_with("`feed_filename` for default language is specified twice"));
    // the title was merged before the conflict was found
    assert_eq!(a.title, Some("B".to_string()));
}

#[test]
fn merge_conflicting_search_settings() {
    let mk = |search: Search| LanguageOptions { search, ..LanguageOptions::default() };
    let mut a = mk(Search { include_path: true, ..Search::default() });
    let b = mk(Search { include_date: true, ..Search::default() });
    let e = a.merge(&b).unwrap_err();
    assert!(e.to_message().starts_with("`search` for default language is specified twice"));

    // Both set, even to the same value: the field is given twice.
    let mut a = mk(Search { include_path: true, ..Search::default() });
    let b = mk(Search { include_path: true, ..Search::default() });
    assert!(a.merge(&b).is_err());

    // The other side left at the default: no conflict, the base setting stays.
    let mut a = mk(Search { include_path: true, ..Search::default() });
    assert!(a.merge(&LanguageOptions::default()).is_ok());
    assert_eq!(a.search, Search { include_path: true, ..Search::default() });
}

#[test]
fn default_feeds_on_the_other_side_are_no_conflict() {
    let mut a = LanguageOptions { feed_filenames: vec!["rss.xml".to_string()], ..LanguageOptions::default() };
    assert!(a.merge(&LanguageOptions::default()).is_ok());
    assert_eq!(a.feed_filenames, vec!["rss.xml".to_string()]);
}

#[test]
fn default_language_options() {
    let o = LanguageOptions::default();
    assert_eq!(o.feed_filenames, vec!["atom.xml".to_string()]);
    assert!(o.title.is_none());
    assert!(!o.generate_feeds);
    assert_eq!(o.search, Search::default());
}

#[test]
fn validates_language_codes() {
    assert!(validate_code("en").is_ok());
    assert!(validate_code("zh-Hant-TW").is_ok());
    let e = validate_code("not a code!").unwrap_err();
    assert_eq!(
        e.to_message(),
        "Language `not a code!` is not a valid Unicode Language Identifier (see http://unicode.org/reports/tr35/#Unicode_language_identifier)"
    );
}

#[test]
fn merging_into_default_options_gives_the_merged_options() {
    let mut translations = HashMap::new();
    translations.insert("title".to_string(), "Titre".to_string());
    let other = LanguageOptions {
        title: Some("Titre".to_string()),
        description: Some("Desc".to_string()),
        generate_feeds: true,
        feed_filenames: vec!["rss.xml".to_string()],
        taxonomies: vec![TaxonomyConfig { name: "tags".to_string(), ..TaxonomyConfig::default() }],
        build_search_index: true,
        search: Search { include_description: true, ..Search::default() },
        translations: translations.clone(),
    };
    let mut base = LanguageOptions::default();
    assert!(base.merge(&other).is_ok());
    assert_eq!(base.title, other.title);
    assert_eq!(base.description, other.description);
    assert!(base.generate_feeds && base.build_search_index);
    assert_eq!(base.feed_filenames, other.feed_filenames);
    assert_eq!(base.taxonomies.len(), 1);
    assert_eq!(base.search, other.search);
    assert_eq!(base.translations, translations);
}

fn base_options(title: Option<String>, description: Option<String>) -> LanguageOptions {
    LanguageOptions {
        title,
        description,
        generate_feeds: false,
        feed_filenames: vec!["atom.xml".to_string()],
        taxonomies: vec![],
        build_search_index: false,
        search: Search::default(),
        translations: HashMap::new(),
    }
}

#[test]
fn can_add_default_language_with_data_only_at_base_section() {
    let title_base = Some("Base section title".to_string());
    let description_base = Some("Base section description".to_string());

    let mut languages: Vec<(String, LanguageOptions)> = Vec::new();
    add_default_language(&mut languages, "en", base_options(title_base.clone(), description_base.clone()))
        .unwrap();

    let default_language_options = &languages.iter().find(|(c, _)| c == "en").unwrap().1;
    assert_eq!(default_language_options.title, title_base);
    assert_eq!(default_language_options.description, description_base);
}

#[test]
fn can_add_default_language_with_data_at_base_and_language_section() {
    let title_base = Some("Base section title".to_string());
    let description_lang_section = Some("Language section description".to_string());

    let mut languages: Vec<(String, LanguageOptions)> = vec![(
        "en".to_string(),
        LanguageOptions {
            title: None,
            description: description_lang_section.clone(),
            generate_feeds: true,
            feed_filenames: vec!["atom.xml".to_string()],
            taxonomies: vec![],
            build_search_index: false,
            search: Search::default(),
            translations: HashMap::new(),
        },
    )];
    add_default_language(&mut languages, "en", base_options(title_base.clone(), None)).unwrap();

    let default_language_options = &languages.iter().find(|(c, _)| c == "en").unwrap().1;
    assert_eq!(default_language_options.title, title_base);
    assert_eq!(default_language_options.description, description_lang_section);
}

#[test]
fn errors_when_same_field_present_at_base_and_language_section() {
    let title_base = Some("Base section title".to_string());
    let title_lang_section = Some("Language section title".to_string());

    let mut languages: Vec<(String, LanguageOptions)> = vec![(
        "en".to_string(),
        LanguageOptions {
            title: title_lang_section.clone(),
            description: None,
            generate_feeds: true,
            feed_filenames: vec!["atom.xml".to_string()],
            taxonomies: vec![],
            build_search_index: false,
            search: Search::default(),
            translations: HashMap::new(),
        },
    )];
    let result = add_default_language(&mut languages, "en", base_options(title_base, None));
    assert!(result.is_err());
    assert_eq!(languages[0].1.title, title_lang_section);
}

#[test]
fn default_base_options_leave_the_language_section_alone() {
    let mut languages: Vec<(String, LanguageOptions)> =
        vec![("en".to_string(), base_options(Some("Mine".to_string()), None))];
    add_default_language(&mut languages, "en", base_options(None, None)).unwrap();
    assert_eq!(languages.len(), 1);
    assert_eq!(languages[0].1.title, Some("Mine".to_string()));
}

#[test]
fn languages_know_their_taxonomies() {
    let mut fr = base_options(None, None);
    fr.taxonomies.push(TaxonomyConfig { name: "tags".to_string(), ..TaxonomyConfig::default() });
    let languages = vec![("en".to_string(), base_options(None, None)), ("fr".to_string(), fr)];
    assert!(has_taxonomy(&languages, "tags", "fr"));
    assert!(!has_taxonomy(&languages, "tags", "en"));
    assert!(!has_taxonomy(&languages, "tags", "it"));
    assert_eq!(other_languages_codes(&languages, "en"), vec!["fr".to_string()]);
    assert!(is_multilingual(&languages, "en"));
    assert!(!is_multilingual(&languages[..1].iter().map(|(c, o)| (c.clone(), base_options(o.title.clone(), None))).collect(), "en"));
}
