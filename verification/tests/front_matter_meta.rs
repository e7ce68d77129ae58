use zola::content::front_matter::SortBy;
use zola::config::markup::InsertAnchor;
use zola::content::page_front_matter::{parse_datetime, PageFrontMatter};
use zola::content::section_front_matter::SectionFrontMatter;

fn with_date(d: &str) -> PageFrontMatter {
    PageFrontMatter { date: Some(d.to_string()), ..PageFrontMatter::default() }
}

#[test]
fn can_have_empty_front_matter() {
    let mut f = PageFrontMatter::default();
    assert!(f.finish_parse().is_ok());
    assert!(f.datetime.is_none());
    assert!(f.in_search_index);
}

#[test]
fn can_parse_date_yyyy_mm_dd() {
    let mut f = with_date("2016-10-10");
    assert!(f.finish_parse().is_ok());
    assert!(f.datetime.is_some());
    assert_eq!(f.datetime_tuple, Some((2016, 10, 10)));
    assert_eq!(f.datetime.unwrap().1, 0);
}

#[test]
fn can_parse_date_rfc3339() {
    let mut f = with_date("2002-10-02T15:00:00Z");
    assert!(f.finish_parse().is_ok());
    assert_eq!(f.datetime.unwrap().1, 15 * 3600);
    assert_eq!(f.datetime_tuple, Some((2002, 10, 2)));
}

#[test]
fn can_parse_date_rfc3339_without_timezone() {
    let mut f = with_date("2002-10-02T15:00:00");
    assert!(f.finish_parse().is_ok());
    assert!(f.datetime.is_some());
}

#[test]
fn can_parse_date_rfc3339_with_offset_kept_local() {
    let mut f = with_date("2002-10-02T15:00:00+02:00");
    assert!(f.finish_parse().is_ok());
    // the local time is kept, not converted to UTC
    assert_eq!(f.datetime.unwrap().1, 15 * 3600);
}

#[test]
fn can_parse_date_rfc3339_with_microseconds() {
    let mut f = with_date("2002-10-02T15:00:00.123456Z");
    assert!(f.finish_parse().is_ok());
    assert_eq!(f.datetime.unwrap().2, 123_456_000);
}

#[test]
fn cannot_parse_random_date_format() {
    let mut f = with_date("2002/10/12");
    let err = f.finish_parse().err().unwrap();
    assert_eq!(err.to_message(), "`date` could not be parsed: 2002/10/12.");
}

#[test]
fn cannot_parse_invalid_date_format() {
    let mut f = with_date("2002-14-01");
    assert!(f.finish_parse().is_err());
    assert_eq!(parse_datetime("2002-14-01"), None);
}

#[test]
fn errors_on_present_but_empty_slug() {
    let mut f = PageFrontMatter { slug: Some(String::new()), ..PageFrontMatter::default() };
    assert_eq!(f.finish_parse().err().unwrap().to_message(), "`slug` can't be empty if present");
}

#[test]
fn errors_on_present_but_empty_path() {
    let mut f = PageFrontMatter { path: Some(String::new()), ..PageFrontMatter::default() };
    assert_eq!(f.finish_parse().err().unwrap().to_message(), "`path` can't be empty if present");
}

#[test]
fn dates_order_like_their_instants() {
    let a = parse_datetime("2018-01-01").unwrap().0;
    let b = parse_datetime("2018-01-01T00:00:01Z").unwrap().0;
    let c = parse_datetime("2018-01-02").unwrap().0;
    assert!(a < b && b < c);
}

#[test]
fn weight_of_a_page() {
    let f = PageFrontMatter { weight: Some(3), ..PageFrontMatter::default() };
    assert_eq!(f.weight(), 3);
}

#[test]
fn section_front_matter_defaults() {
    let mut f = SectionFrontMatter {
        title: None,
        description: None,
        sort_by: None,
        template: None,
        paginate_by: Some(5),
        paginate_path: None,
        insert_anchor: None,
        render: None,
        extra: None,
    };
    f.fill_defaults();
    assert_eq!(f.paginate_path, Some("page".to_string()));
    assert_eq!(f.render, Some(true));
    assert!(f.should_render());
    assert_eq!(f.sort_by(), SortBy::Unsorted);
    assert_eq!(f.insert_anchor, Some(InsertAnchor::NoAnchor));
    assert!(f.is_paginated());

    let d = SectionFrontMatter::default();
    assert!(!d.is_paginated());
    assert_eq!(d.paginate_path, Some("page".to_string()));

    let mut kept = SectionFrontMatter { sort_by: Some(SortBy::Date), paginate_by: Some(0), ..SectionFrontMatter::default() };
    kept.fill_defaults();
    assert_eq!(kept.sort_by(), SortBy::Date);
    assert!(!kept.is_paginated());
}
