use regex::Regex;
use zola::content::front_matter::{
    date_from_log, heading_title, page_title, split_content, updated_from_log, OwnedRawFrontMatter,
    RawFrontMatter,
};

#[test]
fn owned_raw_roundtrip() {
    let raw = RawFrontMatter::Toml("title = \"x\"");
    let owned = raw.to_owned_raw();
    let owned2 = owned.as_raw().to_owned_raw();
    assert_eq!(owned, owned2);
}

#[test]
fn owned_raw_keeps_format_and_text() {
    let raw = RawFrontMatter::Yaml("title: x");
    assert_eq!(raw.to_owned_raw(), OwnedRawFrontMatter::Yaml("title: x".to_string()));
    let owned = OwnedRawFrontMatter::Toml("a = 1".to_string());
    match owned.as_raw() {
        RawFrontMatter::Toml(s) => assert_eq!(s, "a = 1"),
        RawFrontMatter::Yaml(_) => panic!("expected TOML"),
    }
}

fn split(content: &str) -> (bool, String, String) {
    let (raw, body) = split_content("", content).unwrap();
    match raw {
        RawFrontMatter::Toml(s) => (true, s.to_string(), body.to_string()),
        RawFrontMatter::Yaml(s) => (false, s.to_string(), body.to_string()),
    }
}

#[test]
fn split_content_page_valid() {
    let toml = "\n+++\ntitle = \"Title\"\ndescription = \"hey there\"\ndate = 2002-10-12\n+++\nHello\n";
    let (is_toml, front, body) = split(toml);
    assert!(is_toml);
    assert_eq!(body, "Hello\n");
    assert_eq!(front, "\ntitle = \"Title\"\ndescription = \"hey there\"\ndate = 2002-10-12\n");

    let yaml = "\n---\ntitle: Title\ndescription: hey there\ndate: 2002-10-12\n---\nHello\n";
    let (is_toml, front, body) = split(yaml);
    assert!(!is_toml);
    assert_eq!(body, "Hello\n");
    assert!(front.contains("title: Title"));
}

#[test]
fn split_content_with_trailing_whitespace() {
    let toml = "\n+++  \ntitle = \"Title\"\n+++\nHello\n";
    let (is_toml, front, body) = split(toml);
    assert!(is_toml);
    assert_eq!(front, "\ntitle = \"Title\"\n");
    assert_eq!(body, "Hello\n");
    let yaml = "\n---  \ntitle: Title\n---\nHello\n";
    let (is_toml, _, body) = split(yaml);
    assert!(!is_toml);
    assert_eq!(body, "Hello\n");
}

#[test]
fn split_content_with_only_frontmatter() {
    for c in [
        "\n+++\ntitle = \"Title\"\n+++\n",
        "\n---\ntitle: Title\n---\n",
        "\n+++\ntitle = \"Title\"\n+++",
        "\n---\ntitle: Title\n---",
    ] {
        let (_, front, body) = split(c);
        assert_eq!(body, "");
        assert!(front.contains("Title"));
    }
}

#[test]
fn split_content_lazily() {
    let cases = [
        ("\n+++\ntitle = \"Title\"\n+++\n+++", "+++"),
        ("\n+++\ntitle = \"Title\"\n+++\n---", "---"),
        ("\n---\ntitle: Title\n---\n+++", "+++"),
        ("\n---\ntitle: Title\n---\n---", "---"),
    ];
    for (c, expected) in cases {
        let (_, front, body) = split(c);
        assert_eq!(body, expected);
        assert!(front.contains("Title"));
    }
}

#[test]
fn split_content_errors_if_cannot_locate_frontmatter() {
    for c in [
        "\n+++\ntitle = \"Title\"\ndate = 2002-10-12",
        "\n+++\ntitle = \"Title\"\n---",
        "\n---\ntitle: Title\ndate: 2002-10-12",
        "\n---\ntitle: Title\n+++",
        "no front matter here",
    ] {
        let err = split_content("content/post.md", c).err().unwrap();
        assert_eq!(
            err.to_message(),
            "Couldn't find front matter in `content/post.md`. Did you forget to add `+++` or `---`?"
        );
    }
}

fn patterns() -> (Regex, Regex) {
    let toml = Regex::new(
        r"^[[:space:]]*\+\+\+[[:space:]]*(\r?\n(?s).*?(?-s))\+\+\+[[:space:]]*(?:$|(?:\r?\n((?s).*(?-s))$))",
    )
    .unwrap();
    let yaml = Regex::new(
        r"^[[:space:]]*---[[:space:]]*(\r?\n(?s).*?(?-s))---[[:space:]]*(?:$|(?:\r?\n((?s).*(?-s))$))",
    )
    .unwrap();
    (toml, yaml)
}

#[test]
fn split_content_closes_on_the_last_three_of_four_pluses() {
    let (is_toml, front, body) = split("\n+++\ntitle = \"Title\"\n++++");
    assert!(is_toml);
    assert_eq!(front, "\ntitle = \"Title\"\n+");
    assert_eq!(body, "");
}

fn regex_split(toml: &Regex, yaml: &Regex, content: &str) -> Option<(bool, String, String)> {
    let (caps, is_toml) = if let Some(c) = toml.captures(content) {
        (c, true)
    } else if let Some(c) = yaml.captures(content) {
        (c, false)
    } else {
        return None;
    };
    let front = caps.get(1).unwrap().as_str().to_string();
    let body = caps.get(2).map_or("", |m| m.as_str()).to_string();
    Some((is_toml, front, body))
}

#[test]
fn split_content_agrees_with_the_front_matter_patterns() {
    let pieces = ["+++", "---", "\n", "\r\n", " ", "\t", "a", "x = 1", "++", "\r", "é"];
    let (toml, yaml) = patterns();
    let mut inputs: Vec<String> = Vec::new();
    for a in pieces {
        for b in pieces {
            for c in pieces {
                for d in pieces {
                    inputs.push(format!("{}{}{}{}", a, b, c, d));
                    inputs.push(format!("{}{}{}{}{}", a, b, c, a, d));
                }
            }
        }
    }
    for s in &inputs {
        let ours = split_content("", s).ok().map(|(raw, body)| match raw {
            RawFrontMatter::Toml(f) => (true, f.to_string(), body.to_string()),
            RawFrontMatter::Yaml(f) => (false, f.to_string(), body.to_string()),
        });
        assert_eq!(ours, regex_split(&toml, &yaml, s), "input {:?}", s);
    }
}

#[test]
fn title_can_come_from_a_heading() {
    assert_eq!(
        heading_title("\n#  Hello world\nSome text\n"),
        Some(("Hello world".to_string(), "Some text\n".to_string()))
    );
    assert_eq!(heading_title("# Only"), Some(("Only".to_string(), "".to_string())));
    assert_eq!(heading_title("Text\n# Late heading"), None);
    assert_eq!(heading_title(""), None);
}

#[test]
fn heading_title_agrees_with_the_title_pattern() {
    let re = Regex::new(r"^[[:space:]]*#[ ]*(.*)[ ]*\r?\n?((?s).*(?-s))$").unwrap();
    let inputs = [
        "# Title\nbody",
        "  \t# Title\r\nbody\nmore",
        "#\n",
        "#",
        "##  Two  \nx",
        "\n\n#Tight\n\n",
        "no heading",
        "   ",
        "# a # b\n",
    ];
    for s in inputs.iter() {
        let expected =
            re.captures(s).map(|c| (c[1].to_string(), c.get(2).unwrap().as_str().to_string()));
        assert_eq!(heading_title(s), expected, "input {:?}", s);
    }
}

#[test]
fn dates_come_from_the_git_log_lines() {
    let out = "2021-01-03T10:00:00+01:00\n2020-05-01T09:00:00+02:00\n";
    assert_eq!(date_from_log(out), Some("2020-05-01T09:00:00+02:00".to_string()));
    assert_eq!(updated_from_log(out), Some("2021-01-03T10:00:00+01:00".to_string()));
    assert_eq!(date_from_log(""), None);
    assert_eq!(updated_from_log(""), None);
    assert_eq!(updated_from_log("\nlater"), None);
    assert_eq!(date_from_log("a\r\nb\r\n"), Some("b".to_string()));
}

#[test]
fn log_lines_agree_with_str_lines() {
    let inputs = ["a\nb\n", "a\r\nb", "one", "x\n\n", "\r\n", "baz\r", "a\n\nc"];
    for s in inputs.iter() {
        let lines: Vec<&str> = s.lines().collect();
        let last = lines.last().filter(|l| !l.is_empty()).map(|l| l.to_string());
        let first = lines.first().filter(|l| !l.is_empty()).map(|l| l.to_string());
        assert_eq!(date_from_log(s), last, "input {:?}", s);
        assert_eq!(updated_from_log(s), first, "input {:?}", s);
    }
}

#[test]
fn page_title_comes_from_front_matter_heading_or_file() {
    assert_eq!(
        page_title(Some("Given".to_string()), "# Heading\nbody", "content/post.md"),
        (Some("Given".to_string()), "# Heading\nbody".to_string())
    );
    assert_eq!(
        page_title(None, "# Heading\nbody", "content/post.md"),
        (Some("Heading".to_string()), "body".to_string())
    );
    assert_eq!(
        page_title(None, "body", "content/post.md"),
        (Some("post".to_string()), "body".to_string())
    );
}
