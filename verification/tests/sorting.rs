use chrono::{Datelike, NaiveDate, NaiveDateTime, Timelike};
use slotmap::{DefaultKey, DenseSlotMap};
use std::cmp::Ordering;
use zola::content::front_matter::SortBy;
use zola::sorting::{
    compare_strs, digits_fit, find_siblings, sort_pages_by_date, sort_pages_by_title, sort_pages_by_weight,
    sort_actual_pages_by_date, sort_section_pages, sort_sections_pages, try_sort_pages_by_title,
};

fn date_key(d: &str) -> (i32, u32, u32) {
    let dt: NaiveDateTime = NaiveDate::parse_from_str(d, "%Y-%m-%d").unwrap().and_hms_opt(0, 0, 0).unwrap();
    (dt.date().num_days_from_ce(), dt.time().num_seconds_from_midnight(), dt.time().nanosecond())
}

#[test]
fn sorting_can_sort_by_dates() {
    let mut dense = DenseSlotMap::new();
    let key1 = dense.insert("2018-01-01");
    let key2 = dense.insert("2017-01-01");
    let key3 = dense.insert("2019-01-01");
    let input = vec![
        (&key1, Some(date_key("2018-01-01")), ""),
        (&key2, Some(date_key("2017-01-01")), ""),
        (&key3, Some(date_key("2019-01-01")), ""),
    ];
    let (pages, _) = sort_pages_by_date(input);
    assert_eq!(pages[0], key3);
    assert_eq!(pages[1], key1);
    assert_eq!(pages[2], key2);
}

#[test]
fn can_sort_by_titles() {
    let titles = vec![
        "bagel",
        "track_3",
        "microkernel",
        "métro",
        "BART",
        "Underground",
        "track_13",
        "μ-kernel",
        "meter",
        "track_1",
    ];
    let mut dense = DenseSlotMap::new();
    let keys: Vec<DefaultKey> = titles.iter().map(|t| dense.insert(*t)).collect();
    let input: Vec<(&DefaultKey, Option<&str>, &str)> =
        titles.iter().enumerate().map(|(i, t)| (&keys[i], Some(*t), "")).collect();
    let (sorted, _) = sort_pages_by_title(input);
    let sorted_titles: Vec<&str> = sorted.iter().map(|k| *dense.get(*k).unwrap()).collect();
    assert_eq!(
        sorted_titles,
        vec![
            "bagel",
            "BART",
            "μ-kernel",
            "meter",
            "métro",
            "microkernel",
            "track_1",
            "track_3",
            "track_13",
            "Underground",
        ]
    );
}

#[test]
fn sorting_can_sort_by_weight() {
    let mut dense = DenseSlotMap::new();
    let key1 = dense.insert(2usize);
    let key2 = dense.insert(3usize);
    let key3 = dense.insert(1usize);
    let input = vec![(&key1, Some(2), ""), (&key2, Some(3), ""), (&key3, Some(1), "")];
    let (pages, _) = sort_pages_by_weight(input);
    assert_eq!(pages[0], key3);
    assert_eq!(pages[1], key1);
    assert_eq!(pages[2], key2);
}

#[test]
fn ignore_page_with_missing_field() {
    let mut dense = DenseSlotMap::new();
    let key1 = dense.insert(2usize);
    let key2 = dense.insert(3usize);
    let key3 = dense.insert(0usize);
    let input = vec![(&key1, Some(2), ""), (&key2, Some(3), ""), (&key3, None, "")];
    let (pages, unsorted) = sort_pages_by_weight(input);
    assert_eq!(pages.len(), 2);
    assert_eq!(unsorted.len(), 1);
    assert_eq!(unsorted[0], key3);
}

#[test]
fn can_find_siblings() {
    let mut dense = DenseSlotMap::new();
    let key1 = dense.insert(1usize);
    let key2 = dense.insert(2usize);
    let key3 = dense.insert(3usize);
    let input = vec![key1, key2, key3];
    let pages = find_siblings(&input);
    assert_eq!(pages[0].1, None);
    assert_eq!(pages[0].2, Some(key2));
    assert_eq!(pages[1].1, Some(key1));
    assert_eq!(pages[1].2, Some(key3));
    assert_eq!(pages[2].1, Some(key2));
    assert_eq!(pages[2].2, None);
}

#[test]
fn find_siblings_of_one_page() {
    let mut dense = DenseSlotMap::new();
    let key1 = dense.insert(1usize);
    let pages = find_siblings(&[key1]);
    assert_eq!(pages, vec![(key1, None, None)]);
    assert!(find_siblings(&[]).is_empty());
}

#[test]
fn ties_are_broken_by_permalink() {
    let mut dense = DenseSlotMap::new();
    let key1 = dense.insert(1usize);
    let key2 = dense.insert(2usize);
    let key3 = dense.insert(3usize);
    let input = vec![(&key1, Some(5), "/c/"), (&key2, Some(5), "/a/"), (&key3, Some(1), "/z/")];
    let (pages, unsorted) = sort_pages_by_weight(input);
    assert_eq!(pages, vec![key3, key2, key1]);
    assert!(unsorted.is_empty());

    let d = date_key("2020-05-05");
    let input = vec![(&key1, Some(d), "/b/"), (&key2, Some(d), "/a/"), (&key3, None, "/c/")];
    let (pages, unsorted) = sort_pages_by_date(input);
    assert_eq!(pages, vec![key2, key1]);
    assert_eq!(unsorted, vec![key3]);

    let input = vec![(&key1, Some("Same"), "/b/"), (&key2, Some("Same"), "/a/"), (&key3, None, "/c/")];
    let (pages, unsorted) = sort_pages_by_title(input);
    assert_eq!(pages, vec![key2, key1]);
    assert_eq!(unsorted, vec![key3]);
}

#[test]
fn unsortable_pages_keep_their_order() {
    let mut dense = DenseSlotMap::new();
    let keys: Vec<DefaultKey> = (0..4usize).map(|i| dense.insert(i)).collect();
    let input = vec![(&keys[0], None, "a"), (&keys[1], Some(1usize), "b"), (&keys[2], None, "c"), (&keys[3], None, "d")];
    let (pages, unsorted) = sort_pages_by_weight(input);
    assert_eq!(pages, vec![keys[1]]);
    assert_eq!(unsorted, vec![keys[0], keys[2], keys[3]]);
}

#[test]
fn compares_strings_by_code_point() {
    assert_eq!(compare_strs("a", "b"), Ordering::Less);
    assert_eq!(compare_strs("b", "a"), Ordering::Greater);
    assert_eq!(compare_strs("ab", "a"), Ordering::Greater);
    assert_eq!(compare_strs("", ""), Ordering::Equal);
    assert_eq!(compare_strs("Z", "a"), Ordering::Less);
    assert_eq!(compare_strs("é", "z"), Ordering::Greater);
    assert_eq!(compare_strs("μ", "é"), "μ".cmp("é"));
}

#[test]
fn section_pages_sorted_by_date_name_earlier_and_later() {
    let mut dense = DenseSlotMap::new();
    let old = dense.insert(1);
    let new = dense.insert(2);
    let undated = dense.insert(3);
    let pages = vec![
        (&old, Some(date_key("2017-01-01")), Some(1), "a"),
        (&undated, None, Some(2), "b"),
        (&new, Some(date_key("2018-01-01")), None, "c"),
    ];
    let sorted = sort_section_pages(&pages, SortBy::Date).unwrap();
    assert_eq!(sorted.pages, vec![new, old]);
    assert_eq!(sorted.ignored, vec![undated]);
    assert_eq!(sorted.neighbours[0].key, new);
    assert_eq!(sorted.neighbours[0].earlier, Some(old));
    assert_eq!(sorted.neighbours[0].later, None);
    assert_eq!(sorted.neighbours[1].later, Some(new));
    assert_eq!(sorted.neighbours[1].lighter, None);
}

#[test]
fn section_pages_sorted_by_weight_name_lighter_and_heavier() {
    let mut dense = DenseSlotMap::new();
    let light = dense.insert(1);
    let heavy = dense.insert(2);
    let pages = vec![(&heavy, None, Some(20), "a"), (&light, None, Some(10), "b")];
    let sorted = sort_section_pages(&pages, SortBy::Weight).unwrap();
    assert_eq!(sorted.pages, vec![light, heavy]);
    assert!(sorted.ignored.is_empty());
    assert_eq!(sorted.neighbours[0].heavier, Some(heavy));
    assert_eq!(sorted.neighbours[1].lighter, Some(light));
    assert_eq!(sorted.neighbours[1].earlier, None);
    assert!(sort_section_pages(&pages, SortBy::Unsorted).is_none());
}

#[test]
fn feed_order_is_most_recent_first_then_permalink() {
    let old = (date_key("2017-01-01"), "b");
    let new = (date_key("2018-01-01"), "a");
    let same_date = (date_key("2018-01-01"), "c");
    assert_eq!(sort_actual_pages_by_date(&new, &old), Ordering::Less);
    assert_eq!(sort_actual_pages_by_date(&old, &new), Ordering::Greater);
    assert_eq!(sort_actual_pages_by_date(&new, &same_date), Ordering::Less);
    assert_eq!(sort_actual_pages_by_date(&new, &new), Ordering::Equal);
}

#[test]
fn every_section_is_sorted_as_it_asks() {
    let mut dense = DenseSlotMap::new();
    let a = dense.insert(1);
    let b = dense.insert(2);
    let pages = vec![
        vec![(&a, None, Some(20), "a"), (&b, None, Some(10), "b")],
        vec![(&a, Some(date_key("2017-01-01")), None, "a"), (&b, Some(date_key("2018-01-01")), None, "b")],
        vec![(&a, None, None, "a")],
    ];
    let sorted = sort_sections_pages(&pages, &vec![SortBy::Weight, SortBy::Date, SortBy::Unsorted]);
    assert_eq!(sorted.len(), 3);
    assert_eq!(sorted[0].as_ref().unwrap().pages, vec![b, a]);
    assert_eq!(sorted[1].as_ref().unwrap().pages, vec![b, a]);
    assert!(sorted[2].is_none());
}

#[test]
fn numbers_of_twenty_digits_do_not_fit() {
    assert!(digits_fit("track 1234567890123456789"));
    assert!(!digits_fit("track 12345678901234567890"));
    assert!(digits_fit("12345678901234567890".split_at(10).0));
    assert!(digits_fit(""));
    assert!(digits_fit("Écrits 2024"));
}

#[test]
fn titles_with_two_huge_numbers_are_not_sorted() {
    let titles = vec!["b 99999999999999999999999", "a 88888888888888888888888", "c 1"];
    let mut dense = DenseSlotMap::new();
    let keys: Vec<DefaultKey> = titles.iter().map(|t| dense.insert(*t)).collect();
    let input: Vec<(&DefaultKey, Option<&str>, &str)> =
        titles.iter().enumerate().map(|(i, t)| (&keys[i], Some(*t), "")).collect();
    assert!(try_sort_pages_by_title(input).is_none());
    // one huge number is compared with titles whose numbers fit
    let input: Vec<(&DefaultKey, Option<&str>, &str)> =
        vec![(&keys[0], Some(titles[0]), ""), (&keys[2], Some(titles[2]), ""), (&keys[1], None, "")];
    let (sorted, unsorted) = try_sort_pages_by_title(input).unwrap();
    assert_eq!(sorted, vec![keys[0], keys[2]]);
    assert_eq!(unsorted, vec![keys[1]]);
}
