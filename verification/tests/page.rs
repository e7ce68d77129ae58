use zola::config::site::Config;
use zola::config::slugify::SlugifyStrategy;
use zola::content::file_info::FileInfo;
use zola::content::page_front_matter::PageFrontMatter;
use zola::config::site::Language;
use zola::content::ser::{BackLink, SerializingPage};
use zola::content::page::{page_path, page_slug, page_url, path_components, slug_file_name, slug_source_and_date, Page};
use zola::content::page::{serialize_page_assets, try_serialize_page_assets};

fn comps(c: &[&str]) -> Vec<String> {
    c.iter().map(|s| s.to_string()).collect()
}

fn with_slug(slug: &str) -> PageFrontMatter {
    let mut meta = PageFrontMatter::default();
    meta.slug = Some(slug.to_string());
    meta
}

fn french_config() -> Config {
    let mut config = Config::default();
    config.languages.push(Language { code: "fr".to_string(), ..Language::default() });
    config
}

#[test]
fn page_test_can_make_url_from_sections_and_slug() {
    let mut conf = Config::default();
    conf.base_url = "http://hello.com/".to_string();
    let page = Page::parse("content/posts/intro/start.md", with_slug("hello-world"), "Hello world", &conf, "").unwrap();
    assert_eq!(page.path, "/posts/intro/hello-world/");
    assert_eq!(page.components, comps(&["posts", "intro", "hello-world"]));
    assert_eq!(page.permalink, "http://hello.com/posts/intro/hello-world/");
    assert_eq!(page.raw_content, "Hello world");
}

#[test]
fn page_can_make_url_from_slug_only() {
    let config = Config::default();
    let page = Page::parse("start.md", with_slug("hello-world"), "Hello world", &config, "").unwrap();
    assert_eq!(page.path, "/hello-world/");
    assert_eq!(page.components, comps(&["hello-world"]));
    assert_eq!(page.permalink, config.make_permalink("hello-world"));
    let (slug, date) = slug_source_and_date("start", Some("hello-world"), false);
    assert_eq!(slug, "hello-world");
    assert_eq!(date, None);
}

#[test]
fn page_can_make_url_from_path() {
    let config = Config::default();
    let mut meta = PageFrontMatter::default();
    meta.path = Some("hello-world".to_string());
    let page = Page::parse("content/posts/intro/start.md", meta, "Hello world", &config, "").unwrap();
    assert_eq!(page.path, "/hello-world/");
    assert_eq!(page.components, comps(&["hello-world"]));
    assert_eq!(page.permalink, config.make_permalink("hello-world"));
}

#[test]
fn page_can_make_url_from_path_starting_slash() {
    let config = Config::default();
    let (path, _, permalink) =
        page_url(&config, Some("/hello-world"), &comps(&["posts", "intro"]), "start", false, "en");
    assert_eq!(path, "/hello-world/");
    assert_eq!(permalink, config.make_permalink("hello-world"));
    assert_eq!(page_path(Some("  /a/b/ \n"), &vec![], "x", false, "en", "en"), "/a/b/");
}

#[test]
fn page_can_specify_language_in_filename() {
    let config = french_config();
    let page = Page::parse("hello.fr.md", PageFrontMatter::default(), "Bonjour le monde", &config, "").unwrap();
    assert_eq!(page.lang, "fr");
    assert_eq!(page.slug, "hello");
    assert_eq!(page.permalink, "http://a-website.com/fr/hello/");
}

#[test]
fn page_i18n_frontmatter_path_overrides_default_permalink() {
    let config = french_config();
    let mut meta = PageFrontMatter::default();
    meta.path = Some("bonjour".to_string());
    let page = Page::parse("hello.fr.md", meta, "Bonjour le monde", &config, "").unwrap();
    assert_eq!(page.lang, "fr");
    assert_eq!(page.slug, "hello");
    assert_eq!(page.permalink, "http://a-website.com/bonjour/");
}

#[test]
fn an_index_page_takes_its_slug_from_its_folder() {
    let config = Config::default();
    let name = slug_file_name("content/posts/2013-06-02_with-assets/index.md", "index").unwrap();
    assert_eq!(name, "2013-06-02_with-assets");
    let (slug, date) = slug_source_and_date(&name, None, false);
    assert_eq!(slug, "with-assets");
    assert_eq!(date, Some("2013-06-02".to_string()));
    let (_, _, permalink) = page_url(&config, None, &comps(&["posts"]), &slug, false, "en");
    assert_eq!(permalink, "http://a-website.com/posts/with-assets/");
    // other pages keep their own name; an index file whose folder has no name gives none
    assert_eq!(slug_file_name("content/posts/hello.md", "hello"), Some("hello".to_string()));
    assert_eq!(slug_file_name("index.md", "index"), None);
}

#[test]
fn translated_page_is_under_its_language() {
    assert_eq!(page_path(None, &comps(&["posts"]), "hello", false, "fr", "en"), "/fr/posts/hello/");
    assert_eq!(page_path(None, &vec![], "", true, "fr", "en"), "/fr/");
    // a path from the front matter is taken as it is
    assert_eq!(page_path(Some("x/y"), &vec![], "s", false, "fr", "en"), "/x/y/");
}

#[test]
fn root_index_page_is_the_site_root() {
    assert_eq!(page_path(None, &vec![], "index", true, "en", "en"), "/");
    assert!(path_components("/").is_empty());
}

#[test]
fn path_components_skip_empty_parts() {
    assert_eq!(path_components("//a///b/c"), comps(&["a", "b", "c"]));
    assert_eq!(path_components("a"), comps(&["a"]));
    assert!(path_components("").is_empty());
}

#[test]
fn page_assets_are_given_below_the_content_folder() {
    let assets = vec![
        "/site/content/posts/hello/a.jpg".to_string(),
        "/site/content/posts/hello/b.png".to_string(),
    ];
    assert_eq!(
        serialize_page_assets("/site/content/posts/hello/index.md", &assets, "/site"),
        vec!["posts/hello/a.jpg".to_string(), "posts/hello/b.png".to_string()]
    );
    assert_eq!(try_serialize_page_assets("/elsewhere/index.md", &assets, "/site"), None);
    assert_eq!(try_serialize_page_assets("/site/content/index.md", &vec![], "/site"), Some(vec![]));
}

/// The slug a page gets from its front matter or its file, with the site's slug strategy.
fn slug_of(path: &str, name: &str, meta_slug: Option<&str>, strategy: SlugifyStrategy) -> (String, PageFrontMatter) {
    let mut config = Config::default();
    config.slugify.paths = strategy;
    let mut meta = PageFrontMatter::default();
    meta.slug = meta_slug.map(|s| s.to_string());
    let slug = page_slug(path, name, &mut meta, &config.slugify).unwrap();
    (slug, meta)
}

#[test]
fn page_can_make_url_from_slug_only_with_no_special_chars() {
    let config = Config::default();
    let (slug, _) = slug_of("start.md", "start", Some("hello-&-world"), SlugifyStrategy::On);
    let (path, components, permalink) = page_url(&config, None, &vec![], &slug, false, "en");
    assert_eq!(path, "/hello-world/");
    assert_eq!(components, comps(&["hello-world"]));
    assert_eq!(permalink, config.make_permalink("hello-world"));
}

#[test]
fn page_can_make_url_from_utf8_slug_frontmatter() {
    let config = Config::default();
    let (slug, _) = slug_of("start.md", "start", Some("日本"), SlugifyStrategy::Safe);
    let (path, components, permalink) = page_url(&config, None, &vec![], &slug, false, "en");
    assert_eq!(path, "/日本/");
    assert_eq!(components, comps(&["日本"]));
    assert_eq!(permalink, config.make_permalink("日本"));
}

#[test]
fn page_can_make_slug_from_non_slug_filename() {
    let config = Config::default();
    let (slug, _) = slug_of(" file with space.md", " file with space", None, SlugifyStrategy::On);
    assert_eq!(slug, "file-with-space");
    let (_, _, permalink) = page_url(&config, None, &vec![], &slug, false, "en");
    assert_eq!(permalink, config.make_permalink(&slug));
}

#[test]
fn page_can_make_path_from_utf8_filename() {
    let config = Config::default();
    let (slug, _) = slug_of("日本.md", "日本", None, SlugifyStrategy::Safe);
    assert_eq!(slug, "日本");
    let (_, _, permalink) = page_url(&config, None, &vec![], &slug, false, "en");
    assert_eq!(permalink, config.make_permalink(&slug));
}

#[test]
fn page_can_get_date_from_short_date_in_filename() {
    let (slug, meta) = slug_of("2018-10-08_hello.md", "2018-10-08_hello", None, SlugifyStrategy::On);
    assert_eq!(meta.date, Some("2018-10-08".to_string()));
    assert!(meta.datetime.is_some());
    assert_eq!(meta.datetime_tuple, Some((2018, 10, 8)));
    assert_eq!(slug, "hello");
}

#[test]
fn can_get_date_from_short_date_in_filename_respects_slugification_strategy() {
    let (slug, meta) = slug_of("2018-10-08_ こんにちは.md", "2018-10-08_ こんにちは", None, SlugifyStrategy::Off);
    assert_eq!(meta.date, Some("2018-10-08".to_string()));
    assert_eq!(slug, " こんにちは");
}

#[test]
fn page_can_get_date_from_filename_with_spaces() {
    let (slug, meta) = slug_of("2018-10-08 - hello.md", "2018-10-08 - hello", None, SlugifyStrategy::On);
    assert_eq!(meta.date, Some("2018-10-08".to_string()));
    assert_eq!(slug, "hello");
}

#[test]
fn can_get_date_from_filename_with_spaces_respects_slugification() {
    let (slug, meta) = slug_of("2018-10-08 - hello.md", "2018-10-08 - hello", None, SlugifyStrategy::Off);
    assert_eq!(meta.date, Some("2018-10-08".to_string()));
    assert_eq!(slug, " hello");
}

#[test]
fn page_can_get_date_from_full_rfc3339_date_in_filename() {
    let (slug, meta) =
        slug_of("2018-10-02T15:00:00Z-hello.md", "2018-10-02T15:00:00Z-hello", None, SlugifyStrategy::On);
    assert_eq!(meta.date, Some("2018-10-02T15:00:00Z".to_string()));
    assert_eq!(slug, "hello");
}

#[test]
fn can_get_date_from_full_rfc3339_date_in_filename_respects_slugification_strategy() {
    let (slug, meta) = slug_of(
        "2018-10-02T15:00:00Z- こんにちは.md",
        "2018-10-02T15:00:00Z- こんにちは",
        None,
        SlugifyStrategy::Off,
    );
    assert_eq!(meta.date, Some("2018-10-02T15:00:00Z".to_string()));
    assert_eq!(slug, " こんにちは");
}

#[test]
fn page_frontmatter_date_override_filename_date() {
    let config = Config::default();
    let mut meta = PageFrontMatter::default();
    meta.date = Some("2018-09-09".to_string());
    let slug = page_slug("2018-10-08_hello.md", "2018-10-08_hello", &mut meta, &config.slugify).unwrap();
    assert_eq!(meta.date, Some("2018-09-09".to_string()));
    assert_eq!(slug, "hello");
}

#[test]
fn page_can_specify_language_in_filename_with_date() {
    let config = french_config();
    let page = Page::parse("2018-10-08_hello.fr.md", PageFrontMatter::default(), "Bonjour le monde", &config, "").unwrap();
    assert_eq!(page.meta.date, Some("2018-10-08".to_string()));
    assert_eq!(page.lang, "fr");
    assert_eq!(page.slug, "hello");
    assert_eq!(page.permalink, "http://a-website.com/fr/hello/");
    // the same steps one by one
    let mut file = FileInfo::new_page("2018-10-08_hello.fr.md", "");
    let lang = file.find_language("en", &vec!["fr".to_string()]).unwrap();
    let mut meta = PageFrontMatter::default();
    let slug = page_slug(&file.path, &file.name, &mut meta, &config.slugify).unwrap();
    let (_, _, permalink) = page_url(&config, None, &file.components, &slug, false, &lang);
    assert_eq!(permalink, page.permalink);
}

#[test]
fn a_kept_date_stays_in_the_slug() {
    let mut config = Config::default();
    config.slugify.paths_keep_dates = true;
    let mut meta = PageFrontMatter::default();
    let slug = page_slug("2018-10-08_hello.md", "2018-10-08_hello", &mut meta, &config.slugify).unwrap();
    assert_eq!(slug, "2018-10-08-hello");
    assert_eq!(meta.date, Some("2018-10-08".to_string()));
    // an index page whose folder has no name gets no slug, and its front matter is left alone
    let mut meta = PageFrontMatter::default();
    assert_eq!(page_slug("index.md", "index", &mut meta, &config.slugify), None);
    assert_eq!(meta.date, None);
}

#[test]
fn a_page_in_a_folder_of_its_own_is_named_after_the_folder() {
    let config = Config::default();
    let page = Page::parse("content/posts/with-assets/index.md", PageFrontMatter::default(), "", &config, "").unwrap();
    assert_eq!(page.file.components, comps(&["posts"]));
    assert_eq!(page.slug, "with-assets");
    assert_eq!(page.permalink, "http://a-website.com/posts/with-assets/");
    let page = Page::parse("content/posts/2013-06-02_with-assets/index.md", PageFrontMatter::default(), "", &config, "").unwrap();
    assert_eq!(page.slug, "with-assets");
    assert_eq!(page.meta.date, Some("2013-06-02".to_string()));
    assert_eq!(page.permalink, "http://a-website.com/posts/with-assets/");
}

#[test]
fn the_index_page_of_the_content_is_the_site_root() {
    let config = Config::default();
    let page = Page::parse("content/index.md", PageFrontMatter::default(), "one two three", &config, "").unwrap();
    assert_eq!(page.path, "/");
    assert!(page.components.is_empty());
    assert_eq!(page.permalink, "http://a-website.com/");
    assert_eq!(page.word_count, Some(3));
}

#[test]
fn a_page_in_an_unknown_language_is_refused() {
    let config = Config::default();
    assert!(Page::parse("content/hello.de.md", PageFrontMatter::default(), "", &french_config(), "").is_err());
    // a site with a single language reads no language from file names
    let page = Page::parse("content/hello.de.md", PageFrontMatter::default(), "", &config, "").unwrap();
    assert_eq!(page.lang, "en");
    assert_eq!(page.slug, "hello-de");
}

#[test]
fn templates_see_the_page_and_its_date_in_parts() {
    let config = Config::default();
    let mut meta = PageFrontMatter::default();
    meta.authors = vec!["person@example.com (A. Person)".to_string()];
    let page = Page::parse("content/posts/2018-10-08_hello.md", meta, "Hi", &config, "").unwrap();
    let linker = Some("A".to_string());
    let links = vec![BackLink { permalink: "http://a-website.com/a/", title: &linker }];
    let ser = SerializingPage::new(&page, vec![], links.clone());
    assert_eq!(ser.permalink, "http://a-website.com/posts/hello/");
    assert_eq!(ser.relative_path, "posts/2018-10-08_hello.md");
    assert_eq!(ser.slug, "hello");
    assert_eq!(*ser.date, Some("2018-10-08".to_string()));
    assert_eq!((ser.year, ser.month, ser.day), (Some(2018), Some(10), Some(8)));
    assert_eq!(ser.word_count, Some(1));
    assert_eq!(ser.lang, "en");
    assert_eq!(*ser.authors, vec!["person@example.com (A. Person)".to_string()]);
    assert_eq!(ser.backlinks, links);
    assert!(ser.translations.is_empty() && ser.lower.is_none() && ser.higher.is_none());
    let undated = Page::parse("content/posts/hello.md", PageFrontMatter::default(), "", &config, "").unwrap();
    let ser = SerializingPage::new(&undated, vec![], vec![]);
    assert_eq!((ser.year, ser.month, ser.day), (None, None, None));
}

#[test]
fn a_front_matter_path_is_trimmed_of_unicode_whitespace() {
    assert_eq!(page_path(Some("\u{3000}/a\u{a0}\u{2009}"), &vec![], "x", false, "en", "en"), "/a/");
    assert_eq!(page_path(Some("\u{200b}a"), &vec![], "x", false, "en", "en"), "/\u{200b}a/");
}
