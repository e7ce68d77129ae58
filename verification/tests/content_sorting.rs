use chrono::NaiveDate;
use zola::content::sorting::{sort_pages, try_sort_pages, SortBy, SortablePage};

fn instant(d: &str) -> i128 {
    let dt = NaiveDate::parse_from_str(d, "%Y-%m-%d").unwrap().and_hms_opt(0, 0, 0).unwrap();
    dt.and_utc().timestamp_nanos_opt().unwrap() as i128
}

fn page<'a>(path: &'a str) -> SortablePage<'a> {
    SortablePage {
        path,
        permalink: "",
        slug: "",
        title: None,
        weight: None,
        datetime: None,
        updated_datetime: None,
    }
}

#[test]
fn sort_pages_can_sort_by_dates() {
    let p1 = SortablePage { datetime: Some(instant("2018-01-01")), ..page("content/hello-2018-01-01.md") };
    let p2 = SortablePage { datetime: Some(instant("2017-01-01")), ..page("content/hello-2017-01-01.md") };
    let p3 = SortablePage { datetime: Some(instant("2019-01-01")), ..page("content/hello-2019-01-01.md") };
    let (pages, ignored_pages) = sort_pages(&[p1, p2, p3], SortBy::Date);
    assert_eq!(pages[0], p3.path);
    assert_eq!(pages[1], p1.path);
    assert_eq!(pages[2], p2.path);
    assert_eq!(ignored_pages.len(), 0);
}

#[test]
fn can_sort_by_updated_dates() {
    let p1 = SortablePage { datetime: Some(instant("2018-01-01")), ..page("content/hello-2018-01-01.md") };
    let p2 = SortablePage {
        datetime: Some(instant("2017-01-01")),
        updated_datetime: Some(instant("2022-02-01")),
        ..page("content/hello-2017-01-01.md")
    };
    let p3 = SortablePage { datetime: Some(instant("2019-01-01")), ..page("content/hello-2019-01-01.md") };
    let (pages, ignored_pages) = sort_pages(&[p1, p2, p3], SortBy::UpdateDate);
    assert_eq!(pages[0], p2.path);
    assert_eq!(pages[1], p3.path);
    assert_eq!(pages[2], p1.path);
    assert_eq!(ignored_pages.len(), 0);
}

#[test]
fn sort_pages_can_sort_by_weight() {
    let p1 = SortablePage { weight: Some(2), ..page("content/hello-2.md") };
    let p2 = SortablePage { weight: Some(3), ..page("content/hello-3.md") };
    let p3 = SortablePage { weight: Some(1), ..page("content/hello-1.md") };
    let (pages, ignored_pages) = sort_pages(&[p1, p2, p3], SortBy::Weight);
    assert_eq!(pages[0], p3.path);
    assert_eq!(pages[1], p1.path);
    assert_eq!(pages[2], p2.path);
    assert_eq!(ignored_pages.len(), 0);
}

#[test]
fn can_sort_by_title() {
    let titles = vec![
        "åland",
        "bagel",
        "track_3",
        "microkernel",
        "Österrike",
        "métro",
        "BART",
        "Underground",
        "track_13",
        "μ-kernel",
        "meter",
        "track_1",
    ];
    let paths: Vec<String> = titles.iter().map(|t| format!("content/hello-{}.md", t)).collect();
    let pages: Vec<SortablePage> = titles
        .iter()
        .zip(paths.iter())
        .map(|(t, p)| SortablePage { title: Some(t), ..page(p) })
        .collect();
    let title_of = |path: &String| -> &str {
        pages.iter().find(|p| p.path == path).unwrap().title.unwrap()
    };

    let (sorted_pages, ignored_pages) = sort_pages(&pages, SortBy::Title);
    let sorted_titles: Vec<&str> = sorted_pages.iter().map(title_of).collect();
    assert_eq!(ignored_pages.len(), 0);
    assert_eq!(
        sorted_titles,
        vec![
            "åland",
            "bagel",
            "BART",
            "μ-kernel",
            "meter",
            "métro",
            "microkernel",
            "Österrike",
            "track_1",
            "track_3",
            "track_13",
            "Underground"
        ]
    );

    let (sorted_pages, ignored_pages) = sort_pages(&pages, SortBy::TitleBytes);
    let sorted_titles: Vec<&str> = sorted_pages.iter().map(title_of).collect();
    assert_eq!(ignored_pages.len(), 0);
    assert_eq!(
        sorted_titles,
        vec![
            "BART",
            "Underground",
            "bagel",
            "meter",
            "microkernel",
            "métro",
            "track_1",
            "track_13",
            "track_3",
            "Österrike",
            "åland",
            "μ-kernel"
        ]
    );
}

#[test]
fn can_sort_by_slug() {
    let p1 = SortablePage { slug: "2", ..page("content/hello-2.md") };
    let p2 = SortablePage { slug: "3", ..page("content/hello-3.md") };
    let p3 = SortablePage { slug: "1", ..page("content/hello-1.md") };
    let (pages, ignored_pages) = sort_pages(&[p1, p2, p3], SortBy::Slug);
    assert_eq!(pages[0], p3.path);
    assert_eq!(pages[1], p1.path);
    assert_eq!(pages[2], p2.path);
    assert_eq!(ignored_pages.len(), 0);

    // 10 should come after 2
    let p1 = SortablePage { slug: "1", ..page("content/hello-1.md") };
    let p2 = SortablePage { slug: "10", ..page("content/hello-10.md") };
    let p3 = SortablePage { slug: "2", ..page("content/hello-2.md") };
    let (pages, ignored_pages) = sort_pages(&[p1, p2, p3], SortBy::Slug);
    assert_eq!(pages[0], p1.path);
    assert_eq!(pages[1], p3.path);
    assert_eq!(pages[2], p2.path);
    assert_eq!(ignored_pages.len(), 0);
}

#[test]
fn can_find_ignored_pages() {
    let p1 = SortablePage { datetime: Some(instant("2018-01-01")), ..page("content/hello-2018-01-01.md") };
    let p2 = SortablePage { weight: Some(1), ..page("content/hello-1.md") };
    let (pages, ignored_pages) = sort_pages(&[p1, p2], SortBy::Date);
    assert_eq!(pages[0], p1.path);
    assert_eq!(ignored_pages.len(), 1);
    assert_eq!(ignored_pages[0], p2.path);
}

#[test]
fn update_date_only_pages_are_sorted_too() {
    let p1 = SortablePage { updated_datetime: Some(instant("2020-01-01")), ..page("a.md") };
    let p2 = SortablePage { datetime: Some(instant("2021-01-01")), ..page("b.md") };
    let p3 = page("c.md");
    let (pages, ignored) = sort_pages(&[p1, p2, p3], SortBy::UpdateDate);
    assert_eq!(pages, vec!["b.md".to_string(), "a.md".to_string()]);
    assert_eq!(ignored, vec!["c.md".to_string()]);
}

#[test]
fn equal_weights_fall_back_to_permalinks() {
    let p1 = SortablePage { weight: Some(1), permalink: "/b/", ..page("b.md") };
    let p2 = SortablePage { weight: Some(1), permalink: "/a/", ..page("a.md") };
    let (pages, _) = sort_pages(&[p1, p2], SortBy::Weight);
    assert_eq!(pages, vec!["a.md".to_string(), "b.md".to_string()]);
}

#[test]
fn slugs_with_two_huge_numbers_are_not_sorted() {
    let p1 = SortablePage { slug: "post-123456789012345678901", ..page("content/a.md") };
    let p2 = SortablePage { slug: "post-123456789012345678902", ..page("content/b.md") };
    let p3 = SortablePage { slug: "post-2", ..page("content/c.md") };
    assert!(try_sort_pages(&[p1, p2, p3], SortBy::Slug).is_none());
    // dates are not read as text, and one huge number meets only numbers that fit
    assert!(try_sort_pages(&[p1, p2, p3], SortBy::Date).is_some());
    let (pages, _) = try_sort_pages(&[p1, p3], SortBy::Slug).unwrap();
    assert_eq!(pages, vec!["content/c.md".to_string(), "content/a.md".to_string()]);
}
