use zola::config::highlighting::{builtin_token, highlight_source, HighlightSource};
use zola::config::merge::TomlValue;
use zola::config::site::{Config, Language, Mode, Theme};
use zola::config::slugify::SlugifyStrategy;
use zola::config::taxonomies::TaxonomyConfig;

fn with_base(base: &str) -> Config {
    let mut config = Config::default();
    config.base_url = base.to_string();
    config
}

#[test]
fn can_make_url_index_page_with_non_trailing_slash_url() {
    assert_eq!(with_base("http://vincent.is").make_permalink(""), "http://vincent.is/");
}

#[test]
fn can_make_url_index_page_with_railing_slash_url() {
    assert_eq!(with_base("http://vincent.is").make_permalink(""), "http://vincent.is/");
    assert_eq!(with_base("http://vincent.is/").make_permalink(""), "http://vincent.is/");
}

#[test]
fn can_make_url_with_non_trailing_slash_base_url() {
    assert_eq!(with_base("http://vincent.is").make_permalink("hello"), "http://vincent.is/hello/");
}

#[test]
fn can_make_url_with_trailing_slash_path() {
    assert_eq!(with_base("http://vincent.is").make_permalink("/hello"), "http://vincent.is/hello/");
    assert_eq!(with_base("http://vincent.is/").make_permalink("/hello"), "http://vincent.is/hello/");
}

#[test]
fn can_make_url_with_localhost() {
    assert_eq!(
        with_base("http://127.0.0.1:1111").make_permalink("/tags/rust"),
        "http://127.0.0.1:1111/tags/rust/"
    );
}

// https://github.com/Keats/gutenberg/issues/486
#[test]
fn doesnt_add_trailing_slash_to_feed() {
    let config = with_base("http://vincent.is");
    assert_eq!(config.make_permalink("atom.xml"), "http://vincent.is/atom.xml");
}

#[test]
fn the_feed_file_name_is_configured() {
    let mut config = with_base("http://vincent.is/");
    assert_eq!(config.make_permalink("rss.xml"), "http://vincent.is/rss.xml/");
    config.feed_filename = "rss.xml".to_string();
    assert_eq!(config.make_permalink("rss.xml"), "http://vincent.is/rss.xml");
}

#[test]
fn permalink_of_the_root_path() {
    assert_eq!(with_base("http://vincent.is/").make_permalink("/"), "http://vincent.is/");
    assert_eq!(with_base("http://vincent.is").make_permalink("/"), "http://vincent.is/");
    assert_eq!(with_base("http://vincent.is").make_permalink("posts/"), "http://vincent.is/posts/");
    assert_eq!(with_base("http://vincent.is/").make_permalink("a/b"), "http://vincent.is/a/b/");
}

fn translated_config() -> Config {
    let mut config = Config::default();
    config.base_url = "https://remplace-par-ton-url.fr".to_string();
    config.default_language = "fr".to_string();
    config.translations = vec![
        ("fr".to_string(), vec![("title".to_string(), "Un titre".to_string())]),
        ("en".to_string(), vec![("title".to_string(), "A title".to_string())]),
    ];
    config
}

#[test]
fn can_use_present_translation() {
    let config = translated_config();
    assert_eq!(config.get_translation("fr", "title").unwrap(), "Un titre");
    assert_eq!(config.get_translation("en", "title").unwrap(), "A title");
}

#[test]
fn every_listed_term_is_found_with_its_own_translation() {
    let mut config = Config::default();
    let terms = |ts: &[(&str, &str)]| ts.iter().map(|(k, v)| (k.to_string(), v.to_string())).collect::<Vec<_>>();
    config.translations = vec![
        ("en".to_string(), terms(&[("title", "A title"), ("more", "Read more")])),
        ("fr".to_string(), terms(&[("title", "Un titre"), ("more", "Lire la suite")])),
    ];
    for (lang, ts) in config.translations.clone() {
        for (key, value) in ts {
            assert_eq!(config.get_translation(&lang, &key).unwrap(), value);
        }
    }
}

#[test]
fn error_on_absent_translation_lang() {
    let config = translated_config();
    let error = config.get_translation("absent", "key").err().unwrap();
    assert_eq!("Language 'absent' not found.", error.to_message());
}

#[test]
fn error_on_absent_translation_key() {
    let config = translated_config();
    let error = config.get_translation("en", "absent").err().unwrap();
    assert_eq!("Translation key 'absent' for language 'en' is missing", error.to_message());
}

fn leaf_str(v: &TomlValue) -> Option<&str> {
    match v {
        TomlValue::Leaf(l) => l.as_str(),
        TomlValue::Table(_) => None,
    }
}

#[test]
fn config_can_merge_with_theme_data_and_preserve_config_value() {
    let mut config = Config::default();
    config.extra = vec![("hello".to_string(), TomlValue::Leaf(toml::Value::String("world".into())))];
    let theme = Theme {
        extra: vec![
            ("hello".to_string(), TomlValue::Leaf(toml::Value::String("foo".into()))),
            ("a_value".to_string(), TomlValue::Leaf(toml::Value::Integer(10))),
        ],
    };
    assert!(config.add_theme_extra(&theme).is_ok());
    let get = |k: &str| config.extra.iter().find(|(key, _)| key == k).map(|(_, v)| v).unwrap();
    assert_eq!(leaf_str(get("hello")), Some("world"));
    match get("a_value") {
        TomlValue::Leaf(l) => assert_eq!(l.as_integer(), Some(10)),
        TomlValue::Table(_) => panic!("expected an integer"),
    }
}

#[test]
fn theme_extra_that_conflicts_in_type_is_an_error() {
    let mut config = Config::default();
    config.extra = vec![("a".to_string(), TomlValue::Leaf(toml::Value::Integer(1)))];
    let theme = Theme { extra: vec![("a".to_string(), TomlValue::Table(Vec::new()))] };
    assert!(config.add_theme_extra(&theme).is_err());
}

#[test]
fn languages_and_modes() {
    let mut config = Config::default();
    assert!(!config.is_multilingual());
    assert!(config.is_in_build_mode());
    config.languages.push(Language { code: "fr".to_string(), rss: false, search: false });
    config.languages.push(Language { code: "it".to_string(), ..Language::default() });
    assert!(config.is_multilingual());
    assert_eq!(config.languages_codes(), vec!["fr", "it"]);
    config.enable_serve_mode();
    assert!(config.is_in_serve_mode());
    config.highlight_code = true;
    config.enable_check_mode();
    assert!(config.is_in_check_mode());
    assert!(!config.highlight_code);
    assert_eq!(config.mode, Mode::Check);
}

#[test]
fn default_config() {
    let config = Config::default();
    assert_eq!(config.base_url, "http://a-website.com");
    assert_eq!(config.default_language, "en");
    assert_eq!(config.highlight_theme, "base16-ocean-dark");
    assert_eq!(config.build_timestamp, Some(1));
}

#[test]
fn finish_parse_requires_a_base_url() {
    let mut config = Config::default();
    let err = config.finish_parse(true, 42).err().unwrap();
    assert_eq!(err.to_message(), "A base URL is required in config.toml with key `base_url`");
    let mut config = with_base("");
    assert!(config.finish_parse(true, 42).is_err());
}

#[test]
fn finish_parse_checks_the_highlight_theme() {
    let mut config = with_base("https://example.com");
    let err = config.finish_parse(false, 42).err().unwrap();
    assert_eq!(err.to_message(), "Highlight theme base16-ocean-dark not available");
}

#[test]
fn finish_parse_refuses_the_default_language_among_the_others() {
    let mut config = with_base("https://example.com");
    config.languages.push(Language { code: "en".to_string(), rss: false, search: false });
    let err = config.finish_parse(true, 42).err().unwrap();
    assert_eq!(
        err.to_message(),
        "Default language `en` should not appear both in `config.default_language` and `config.languages`"
    );
}

#[test]
fn finish_parse_sets_timestamp_and_globset() {
    let mut config = with_base("https://example.com");
    config.ignored_content = vec!["*.{graphml,iso}".to_string(), "*.py?".to_string()];
    assert!(config.finish_parse(true, 42).is_ok());
    assert_eq!(config.build_timestamp, Some(42));
    let g = config.ignored_content_globset.as_ref().unwrap();
    assert!(g.is_match("foo.graphml"));
    assert!(g.is_match("foo.pyc"));
    assert!(!g.is_match("foo.md"));
}

#[test]
fn finish_parse_reports_an_invalid_glob() {
    let mut config = with_base("https://example.com");
    config.ignored_content = vec!["[".to_string()];
    let err = config.finish_parse(true, 42).err().unwrap();
    assert!(err.to_message().starts_with("Invalid ignored_content glob pattern: [, error = "));
    assert!(config.ignored_content_globset.is_none());
}

#[test]
fn empty_ignored_content_gives_no_globset() {
    let mut config = with_base("https://example.com");
    assert!(config.finish_parse(true, 7).is_ok());
    assert!(config.ignored_content_globset.is_none());
}

#[test]
fn javascript_is_highlighted_as_typescript() {
    assert_eq!(builtin_token("js"), "ts");
    assert_eq!(builtin_token("javascript"), "ts");
    assert_eq!(builtin_token("rust"), "rust");
    assert_eq!(highlight_source(None, true, true), HighlightSource::Plain);
    assert_eq!(highlight_source(Some("rust"), true, true), HighlightSource::Extra);
    assert_eq!(highlight_source(Some("rust"), false, true), HighlightSource::BuiltIn);
    assert_eq!(highlight_source(Some("nope"), false, false), HighlightSource::NotFound);
}

#[test]
fn type_conflict_message_shows_both_values() {
    let mut config = Config::default();
    config.extra = vec![("a".to_string(), TomlValue::Leaf(toml::Value::Integer(1)))];
    let theme = Theme {
        extra: vec![(
            "a".to_string(),
            TomlValue::Table(vec![
                ("b".to_string(), TomlValue::Leaf(toml::Value::String("x".to_string()))),
                ("c".to_string(), TomlValue::Table(Vec::new())),
            ]),
        )],
    };
    let err = config.add_theme_extra(&theme).unwrap_err();
    assert!(err.message.ends_with("1\n - { b = \"x\", c = {} }"), "{}", err.message);
}

#[test]
fn the_ignored_files_matcher_holds_every_pattern() {
    let patterns = vec!["*.{graphml,iso}".to_string(), "*.py?".to_string()];
    let set = zola::config::link_checker::build_ignore_glob_set(&patterns, "content").unwrap();
    assert_eq!(set.len(), 2);
    assert!(set.is_match("foo.iso"));
    assert!(!set.is_match("foo.md"));
    let empty = zola::config::link_checker::build_ignore_glob_set(&vec![], "content").unwrap();
    assert!(empty.is_empty());
}

#[test]
fn taxonomies_get_slugs_under_the_taxonomy_strategy() {
    let tax = |name: &str| TaxonomyConfig { name: name.to_string(), ..TaxonomyConfig::default() };
    let mut config = Config::default();
    config.taxonomies = vec![tax("Écrits Récents"), tax("a/b?c")];
    config.slugify_taxonomies();
    assert_eq!(config.taxonomies[0].slug, "ecrits-recents");
    assert_eq!(config.taxonomies[1].slug, "a-b-c");
    assert_eq!(config.taxonomies[0].name, "Écrits Récents");
    config.slugify.taxonomies = SlugifyStrategy::Safe;
    config.slugify_taxonomies();
    assert_eq!(config.taxonomies[1].slug, "abc");
    config.slugify.taxonomies = SlugifyStrategy::Off;
    config.slugify_taxonomies();
    assert_eq!(config.taxonomies[1].slug, "a/b?c");
}

#[test]
fn a_page_is_offered_the_other_languages() {
    let mut config = Config::default();
    config.languages = vec![
        Language { code: "fr".to_string(), ..Language::default() },
        Language { code: "de".to_string(), ..Language::default() },
        Language { code: "it".to_string(), ..Language::default() },
    ];
    assert_eq!(config.languages_besides("de"), vec![0, 2]);
    assert_eq!(config.languages_besides("en"), vec![0, 1, 2]);
}
