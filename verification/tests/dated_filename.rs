use regex::Regex;
use zola::content::page::{slug_source_and_date, split_dated_filename};

fn pattern() -> Regex {
    Regex::new(
        r"^(?P<datetime>(\d{4})-(0[1-9]|1[0-2])-(0[1-9]|[12][0-9]|3[01])(T([01][0-9]|2[0-3]):([0-5][0-9]):([0-5][0-9]|60)(\.[0-9]+)?(Z|(\+|-)([01][0-9]|2[0-3]):([0-5][0-9])))?)\s?(_|-)(?P<slug>.+$)",
    )
    .unwrap()
}

fn by_pattern(re: &Regex, s: &str) -> Option<(String, String)> {
    re.captures(s).map(|c| (c.name("datetime").unwrap().as_str().to_string(), c.name("slug").unwrap().as_str().to_string()))
}

#[test]
fn can_get_date_from_short_date_in_filename() {
    let (source, date) = slug_source_and_date("2018-10-08_hello", None, false);
    assert_eq!(source, "hello");
    assert_eq!(date, Some("2018-10-08".to_string()));
}

#[test]
fn can_get_date_from_full_rfc3339_date_in_filename() {
    let (source, date) = slug_source_and_date("2018-10-02T15:00:00Z-hello", None, false);
    assert_eq!(source, "hello");
    assert_eq!(date, Some("2018-10-02T15:00:00Z".to_string()));
}

#[test]
fn can_get_date_from_filename_with_spaces() {
    let (source, date) = slug_source_and_date("2018-10-08 - hello", None, false);
    assert_eq!(source, " hello");
    assert_eq!(date, Some("2018-10-08".to_string()));
}

#[test]
fn dates_are_kept_in_slugs_when_asked() {
    let (source, date) = slug_source_and_date("2018-10-08_hello", None, true);
    assert_eq!(source, "2018-10-08_hello");
    assert_eq!(date, Some("2018-10-08".to_string()));
}

#[test]
fn front_matter_slug_wins() {
    let (source, date) = slug_source_and_date("2018-10-08_hello", Some("mine"), false);
    assert_eq!(source, "mine");
    assert_eq!(date, Some("2018-10-08".to_string()));
    let (source, date) = slug_source_and_date("hello", None, false);
    assert_eq!(source, "hello");
    assert_eq!(date, None);
}

#[test]
fn dated_file_names_with_times_and_zones() {
    assert_eq!(
        split_dated_filename("2002-10-02T15:00:00.05+02:00_post"),
        Some(("2002-10-02T15:00:00.05+02:00".to_string(), "post".to_string()))
    );
    assert_eq!(split_dated_filename("2002-10-02T15:00:00_post"), None);
    assert_eq!(split_dated_filename("2002-13-02_post"), None);
    assert_eq!(split_dated_filename("2002-10-02_"), None);
    assert_eq!(split_dated_filename("2002-10-02_a\nb"), None);
}

#[test]
fn split_dated_filename_agrees_with_the_pattern() {
    let re = pattern();
    let heads = [
        "2018-10-08", "2018-10-32", "2018-00-08", "2018-12-31", "٢٠١٨-10-08", "20x8-10-08", "2018-1-08",
        "2018-10-08T15:00:00Z", "2018-10-08T24:00:00Z", "2018-10-08T23:59:60Z", "2018-10-08T15:00:00",
        "2018-10-08T15:00:00.123Z", "2018-10-08T15:00:00.Z", "2018-10-08T15:00:00-05:00",
        "2018-10-08T15:00:00+24:00", "2018-10-08T15:00:00.5+01:30", "",
    ];
    let seps = ["", "_", "-", " _", " -", "\u{3000}-", "  -", "T", " ", "\t_", "__"];
    let tails = ["", "hello", "a b", "x\ny", "é", "-", "_", "\n"];
    for h in heads {
        for s in seps {
            for t in tails {
                let name = format!("{}{}{}", h, s, t);
                assert_eq!(split_dated_filename(&name), by_pattern(&re, &name), "name {:?}", name);
            }
        }
    }
}
