use zola::config::site::{Config, Language};
use zola::content::front_matter::{split_content, RawFrontMatter};
use zola::content::section::{section_path, Section};
use zola::content::section_front_matter::SectionFrontMatter;
use zola::content::page::Page;
use zola::content::page_front_matter::PageFrontMatter;
use zola::content::ser::{SerializingPage, SerializingSection};

fn comps(c: &[&str]) -> Vec<String> {
    c.iter().map(|s| s.to_string()).collect()
}

#[test]
fn section_paths() {
    assert_eq!(section_path(&vec![], "en", "en", "en"), "/");
    assert_eq!(section_path(&comps(&["posts", "2018"]), "en", "en", "en"), "/posts/2018/");
    assert_eq!(section_path(&comps(&["posts"]), "fr", "en", "fr"), "/fr/posts/");
    assert_eq!(section_path(&vec![], "fr", "en", "francais"), "/francais/");
}

#[test]
fn section_is_placed_on_the_site() {
    let mut config = Config::default();
    config.base_url = "https://vincent.is".to_string();
    let mut s = Section::new("/site/content/posts/_index.md", SectionFrontMatter::default(), "/site");
    assert!(!s.is_index());
    assert_eq!(s.get_template_name(), "section.html");
    s.set_path(&config, "en", "en");
    assert_eq!(s.path, "/posts/");
    assert_eq!(s.components, comps(&["posts"]));
    assert_eq!(s.permalink, "https://vincent.is/posts/");

    let mut index = Section::new("/site/content/_index.md", SectionFrontMatter::default(), "/site");
    assert!(index.is_index());
    assert_eq!(index.get_template_name(), "index.html");
    index.set_path(&config, "en", "en");
    assert_eq!(index.path, "/");
    assert_eq!(index.permalink, "https://vincent.is/");
}

#[test]
fn section_template_and_pagination_come_from_front_matter() {
    let meta = SectionFrontMatter {
        template: Some("blog.html".to_string()),
        paginate_by: Some(0),
        ..SectionFrontMatter::default()
    };
    let s = Section::new("/site/content/blog/_index.md", meta, "/site");
    assert_eq!(s.get_template_name(), "blog.html");
    assert_eq!(s.paginate_by(), None);
    let meta = SectionFrontMatter { paginate_by: Some(5), ..SectionFrontMatter::default() };
    let s = Section::new("/site/content/blog/_index.md", meta, "/site");
    assert_eq!(s.paginate_by(), Some(5));
}

#[test]
fn section_assets_are_served_under_its_path() {
    let mut s = Section::new("/site/content/blog/_index.md", SectionFrontMatter::default(), "/site");
    s.path = "/blog/".to_string();
    s.assets = vec!["/site/content/blog/a.png".to_string(), "/site/content/blog/b.jpg".to_string()];
    assert_eq!(s.serialize_assets(), comps(&["/blog/a.png", "/blog/b.jpg"]));
}

#[test]
fn checked_section_constructor() {
    assert!(Section::try_new("", SectionFrontMatter::default(), "").is_none());
    assert!(Section::try_new("/site/content/_index.md", SectionFrontMatter::default(), "").is_some());
}

#[test]
fn section_is_parsed_in_the_language_of_its_file() {
    let mut config = Config::default();
    config.base_url = "https://vincent.is".to_string();
    config.languages.push(Language { code: "fr".to_string(), rss: false, search: false });
    let s = Section::parse(
        "/site/content/posts/_index.fr.md",
        SectionFrontMatter::default(),
        "Bonjour le monde",
        &config,
        "/site",
    )
    .unwrap();
    assert_eq!(s.lang, "fr");
    assert_eq!(s.file.name, "_index");
    assert_eq!(s.path, "/fr/posts/");
    assert_eq!(s.components, comps(&["fr", "posts"]));
    assert_eq!(s.permalink, "https://vincent.is/fr/posts/");
    assert_eq!(s.raw_content, "Bonjour le monde");
    assert_eq!(s.word_count, Some(3));
    assert_eq!(s.reading_time, Some(1));

    let default = Section::parse("/site/content/_index.md", SectionFrontMatter::default(), "", &config, "/site")
        .unwrap();
    assert_eq!(default.lang, "en");
    assert_eq!(default.path, "/");
}

#[test]
fn section_in_an_unknown_language_is_an_error() {
    let config = {
        let mut c = Config::default();
        c.languages.push(Language { code: "fr".to_string(), rss: false, search: false });
        c
    };
    let r = Section::parse("/site/content/posts/_index.it.md", SectionFrontMatter::default(), "", &config, "/site");
    assert!(r.is_err());
}

/// Reads a section file whose front matter is empty.
fn parse_section(path: &str, content: &str, config: &Config) -> Result<Section, String> {
    let (front_matter, body) = split_content(path, content).map_err(|e| e.to_message())?;
    match front_matter {
        RawFrontMatter::Toml(t) => assert!(t.trim().is_empty()),
        RawFrontMatter::Yaml(_) => panic!("expected TOML"),
    }
    Section::parse(path, SectionFrontMatter::default(), body, config, "").map_err(|e| e.to_message())
}

fn french_config() -> Config {
    let mut config = Config::default();
    config.languages.push(Language { code: "fr".to_string(), rss: false, search: false });
    config
}

#[test]
fn section_can_specify_language_in_filename() {
    let config = french_config();
    let content = r#"
+++
+++
Bonjour le monde"#
        .to_string();
    let res = parse_section("content/hello/nested/_index.fr.md", &content, &config);
    assert!(res.is_ok());
    let section = res.unwrap();
    assert_eq!(section.lang, "fr".to_string());
    assert_eq!(section.permalink, "http://a-website.com/fr/hello/nested/");
}

#[test]
fn section_can_make_links_to_translated_sections_without_double_trailing_slash() {
    let config = french_config();
    let content = r#"
+++
+++
Bonjour le monde"#
        .to_string();
    let res = parse_section("content/_index.fr.md", &content, &config);
    assert!(res.is_ok());
    let section = res.unwrap();
    assert_eq!(section.lang, "fr".to_string());
    assert_eq!(section.permalink, "http://a-website.com/fr/");
}

#[test]
fn section_can_make_links_to_translated_subsections_with_trailing_slash() {
    let config = french_config();
    let content = r#"
+++
+++
Bonjour le monde"#
        .to_string();
    let res = parse_section("content/subcontent/_index.fr.md", &content, &config);
    assert!(res.is_ok());
    let section = res.unwrap();
    assert_eq!(section.lang, "fr".to_string());
    assert_eq!(section.permalink, "http://a-website.com/fr/subcontent/");
}

#[test]
fn templates_see_the_section_with_its_pages_and_places() {
    let config = Config::default();
    let mut fm = SectionFrontMatter::default();
    fm.title = Some("Blog".to_string());
    let section = Section::parse("content/blog/_index.md", fm, "All posts", &config, "").unwrap();
    let page = Page::parse("content/blog/hello.md", PageFrontMatter::default(), "Hi", &config, "").unwrap();
    let pages = vec![SerializingPage::new(&page, vec![], vec![])];
    let ser = SerializingSection::new(&section, vec!["_index.md".to_string()], pages, vec!["content/blog/old/_index.md".to_string()], vec![]);
    assert_eq!(ser.relative_path, "blog/_index.md");
    assert_eq!(ser.permalink, "http://a-website.com/blog/");
    assert_eq!(ser.path, "/blog/");
    assert_eq!(*ser.title, Some("Blog".to_string()));
    assert_eq!(ser.ancestors, vec!["_index.md".to_string()]);
    assert_eq!(ser.pages.len(), 1);
    assert_eq!(ser.pages[0].permalink, "http://a-website.com/blog/hello/");
    assert_eq!(ser.subsections, vec!["content/blog/old/_index.md".to_string()]);
    assert_eq!(ser.word_count, Some(2));
    assert_eq!(ser.lang, "en");
}
