use chrono::NaiveDate;
use zola::content::file_info::FileInfo;
use zola::content::ser::{find_backlinks, BackLink};
use zola::content::sorting::{sort_pages, SortBy, SortablePage};
use zola::library::{
    claim_paths, fill_backlinks, find_parent_sections, find_path_collisions, get_all_orphan_pages, section_pages, find_translations, index_filename, page_siblings,
    find_library_collisions, place_page, populate_library, populate_sections, LibraryPage, PathClaim, SectionEntry,
};

fn languages() -> Vec<String> {
    vec!["fr".to_string()]
}

fn file_of_section(path: &str) -> FileInfo {
    let mut file = FileInfo::new_section(path, "");
    file.find_language("en", &languages()).unwrap();
    file
}

fn file_of_page(path: &str) -> FileInfo {
    let mut file = FileInfo::new_page(path, "");
    file.find_language("en", &languages()).unwrap();
    file
}

fn entry(file: &FileInfo, weight: usize, transparent: bool) -> SectionEntry {
    SectionEntry {
        path: file.path.clone(),
        relative: file.relative.clone(),
        filename: file.filename.clone(),
        parent: file.parent.clone(),
        grand_parent: file.grand_parent.clone(),
        components: file.components.clone(),
        weight,
        transparent,
        page_template: Some("new_page.html".to_owned()),
    }
}

fn instant(d: &str) -> i128 {
    let dt = NaiveDate::parse_from_str(d, "%Y-%m-%d").unwrap().and_hms_opt(0, 0, 0).unwrap();
    dt.and_utc().timestamp_nanos_opt().unwrap() as i128
}

#[derive(Clone, Copy)]
enum PageSort {
    Unsorted,
    Date(&'static str),
    Title(&'static str),
    Weight(usize),
}

struct TestPage {
    file: FileInfo,
    lang: String,
    sort: PageSort,
    sections: Vec<String>,
    ancestors: Vec<String>,
    template: Option<String>,
    lower: Option<String>,
    higher: Option<String>,
}

#[test]
fn can_populate_sections() {
    let sections = vec![
        ("content/_index.md", "en", 0, false, SortBy::Unsorted),
        ("content/_index.fr.md", "fr", 0, false, SortBy::Unsorted),
        ("content/blog/_index.md", "en", 0, false, SortBy::Date),
        ("content/wiki/_index.md", "en", 0, false, SortBy::Weight),
        ("content/wiki/_index.fr.md", "fr", 0, false, SortBy::Weight),
        ("content/wiki/recipes/_index.md", "en", 1, true, SortBy::Weight),
        ("content/wiki/recipes/_index.fr.md", "fr", 1, true, SortBy::Weight),
        ("content/wiki/programming/_index.md", "en", 10, true, SortBy::Weight),
        ("content/wiki/programming/_index.fr.md", "fr", 10, true, SortBy::Weight),
        ("content/novels/_index.md", "en", 10, false, SortBy::Title),
        ("content/novels/_index.fr.md", "fr", 10, false, SortBy::Title),
    ];
    let section_files: Vec<FileInfo> = sections.iter().map(|s| file_of_section(s.0)).collect();
    let entries: Vec<SectionEntry> = sections
        .iter()
        .zip(section_files.iter())
        .map(|(s, f)| entry(f, s.2, s.3))
        .collect();

    let pages = vec![
        ("content/about.md", "en", PageSort::Unsorted),
        ("content/about.fr.md", "en", PageSort::Unsorted),
        ("content/blog/rust.md", "en", PageSort::Date("2022-01-01")),
        ("content/blog/python.md", "en", PageSort::Date("2022-03-03")),
        ("content/blog/docker.md", "en", PageSort::Date("2022-02-02")),
        ("content/wiki/recipes/chocolate-cake.md", "en", PageSort::Weight(100)),
        ("content/wiki/recipes/chocolate-cake.fr.md", "fr", PageSort::Weight(100)),
        ("content/wiki/recipes/rendang.md", "en", PageSort::Weight(5)),
        ("content/wiki/recipes/rendang.fr.md", "fr", PageSort::Weight(5)),
        ("content/wiki/programming/rust.md", "en", PageSort::Weight(1)),
        ("content/wiki/programming/rust.fr.md", "fr", PageSort::Weight(1)),
        ("content/wiki/programming/zola.md", "en", PageSort::Weight(10)),
        ("content/wiki/programming/python.md", "en", PageSort::Unsorted),
        ("content/novels/the-colour-of-magic.md", "en", PageSort::Title("The Colour of Magic")),
        ("content/novels/the-colour-of-magic.fr.md", "en", PageSort::Title("La Huitième Couleur")),
        ("content/novels/reaper.md", "en", PageSort::Title("Reaper")),
        ("content/novels/reaper.fr.md", "fr", PageSort::Title("Reaper (fr)")),
        ("content/random/hello.md", "en", PageSort::Unsorted),
    ];

    let page_files: Vec<FileInfo> = pages.iter().map(|(p, _, _)| file_of_page(p)).collect();
    let library_pages: Vec<LibraryPage> = pages
        .iter()
        .zip(page_files.iter())
        .map(|((_, l, s), file)| LibraryPage {
            parent: file.parent.clone(),
            lang: l.to_string(),
            template: None,
            sortable: SortablePage {
                path: file.path.as_str(),
                permalink: "",
                slug: "",
                title: match s {
                    PageSort::Title(t) => Some(*t),
                    _ => None,
                },
                weight: match s {
                    PageSort::Weight(w) => Some(*w),
                    _ => None,
                },
                datetime: match s {
                    PageSort::Date(d) => Some(instant(d)),
                    _ => None,
                },
                updated_datetime: None,
            },
        })
        .collect();
    let sort_by: Vec<SortBy> = sections.iter().map(|s| s.4).collect();
    let library = populate_library(&entries, &sort_by, "content", "en", &library_pages);
    let places = &library.sections;
    assert_eq!(places.len(), sections.len());
    assert_eq!(library.listed, section_pages(&entries, &library.pages));

    let mut test_pages: Vec<TestPage> = pages
        .iter()
        .zip(page_files.iter())
        .zip(library.pages.iter())
        .map(|(((_, l, s), file), place)| TestPage {
            file: file.clone(),
            lang: l.to_string(),
            sort: *s,
            sections: place.sections.clone(),
            ancestors: place.ancestors.clone(),
            template: place.template.clone(),
            lower: None,
            higher: None,
        })
        .collect();
    assert_eq!(test_pages.len(), pages.len());
    let page_places = &library.pages;

    // The pages of each section, sorted, with siblings filled for the sections that are not
    // transparent.
    let section_pages: Vec<(Vec<String>, Vec<String>)> =
        library.lists.iter().map(|l| l.clone().unwrap()).collect();
    for (k, _) in sections.iter().enumerate() {
        for (i, path) in section_pages[k].0.iter().enumerate().take(library.siblings[k].len()) {
            let p = test_pages.iter_mut().find(|p| &p.file.path == path).unwrap();
            p.lower = library.siblings[k][i].0.clone();
            p.higher = library.siblings[k][i].1.clone();
        }
    }
    let section_index = |path: &str| entries.iter().position(|e| e.path == path).unwrap();
    let page = |path: &str| test_pages.iter().find(|p| p.file.path == path).unwrap();

    let blog = section_index("content/blog/_index.md");
    assert_eq!(section_pages[blog].0.len(), 3);
    // sorted by date in desc order
    assert_eq!(
        section_pages[blog].0,
        vec![
            "content/blog/python.md".to_string(),
            "content/blog/docker.md".to_string(),
            "content/blog/rust.md".to_string()
        ]
    );
    assert_eq!(section_pages[blog].1.len(), 0);
    assert!(page("content/blog/python.md").lower.is_none());
    assert_eq!(page("content/blog/python.md").higher, Some("content/blog/docker.md".to_string()));
    assert_eq!(page("content/blog/python.md").template, Some("new_page.html".to_owned()));

    let wiki = section_index("content/wiki/_index.md");
    assert_eq!(section_pages[wiki].0.len(), 4);
    // sorted by weight, in asc order
    assert_eq!(
        section_pages[wiki].0,
        vec![
            "content/wiki/programming/rust.md".to_string(),
            "content/wiki/recipes/rendang.md".to_string(),
            "content/wiki/programming/zola.md".to_string(),
            "content/wiki/recipes/chocolate-cake.md".to_string(),
        ]
    );
    assert_eq!(section_pages[wiki].1.len(), 1);
    assert_eq!(section_pages[wiki].1, vec!["content/wiki/programming/python.md".to_string()]);
    assert_eq!(
        page("content/wiki/recipes/rendang.md").lower,
        Some("content/wiki/programming/rust.md".to_string())
    );
    assert_eq!(
        page("content/wiki/recipes/rendang.md").higher,
        Some("content/wiki/programming/zola.md".to_string())
    );
    assert_eq!(
        places[wiki].subsections,
        vec![
            "content/wiki/recipes/_index.md".to_string(),
            "content/wiki/programming/_index.md".to_string()
        ]
    );
    assert_eq!(places[wiki].ancestors, vec!["_index.md".to_owned()]);
    assert_eq!(
        places[section_index("content/wiki/recipes/_index.md")].ancestors,
        vec!["_index.md".to_owned(), "wiki/_index.md".to_owned()]
    );

    // also works for other languages
    let french_wiki = section_index("content/wiki/_index.fr.md");
    assert_eq!(section_pages[french_wiki].0.len(), 3);
    // sorted by weight, in asc order
    assert_eq!(
        section_pages[french_wiki].0,
        vec![
            "content/wiki/programming/rust.fr.md".to_string(),
            "content/wiki/recipes/rendang.fr.md".to_string(),
            "content/wiki/recipes/chocolate-cake.fr.md".to_string(),
        ]
    );
    assert_eq!(section_pages[french_wiki].1.len(), 0);
    assert!(page("content/wiki/recipes/chocolate-cake.fr.md").higher.is_none());
    assert_eq!(
        page("content/wiki/recipes/chocolate-cake.fr.md").lower,
        Some("content/wiki/recipes/rendang.fr.md".to_string())
    );

    let orphans = get_all_orphan_pages(page_places);
    assert_eq!(orphans.len(), 1);
    assert_eq!(test_pages[orphans[0]].file.path, "content/random/hello.md");

    // And translations should be filled in
    let mut files: Vec<(String, String)> =
        section_files.iter().map(|f| (f.canonical.clone(), f.path.clone())).collect();
    files.extend(test_pages.iter().map(|p| (p.file.canonical.clone(), p.file.path.clone())));
    let translations = find_translations(&files, true, "content/novels/reaper");
    assert_eq!(translations.len(), 2);
    for t in &translations {
        assert!(matches!(page(t).sort, PageSort::Title(_)));
    }
    assert!(test_pages.iter().all(|p| p.lang == "en" || p.lang == "fr"));
}

#[test]
fn index_sections_have_no_ancestors() {
    let root = entry(&file_of_section("content/_index.md"), 0, false);
    let entries = vec![root];
    let places = populate_sections(&entries, "content");
    assert!(places[0].ancestors.is_empty());
    assert!(places[0].subsections.is_empty());
}

#[test]
fn subsections_are_ordered_by_weight() {
    let files = [
        ("content/_index.md", 0),
        ("content/c/_index.md", 30),
        ("content/a/_index.md", 20),
        ("content/b/_index.md", 10),
    ];
    let entries: Vec<SectionEntry> =
        files.iter().map(|(p, w)| entry(&file_of_section(p), *w, false)).collect();
    let places = populate_sections(&entries, "content");
    assert_eq!(
        places[0].subsections,
        vec![
            "content/b/_index.md".to_string(),
            "content/a/_index.md".to_string(),
            "content/c/_index.md".to_string()
        ]
    );
    assert_eq!(places[1].ancestors, vec!["_index.md".to_string()]);
}

#[test]
fn page_goes_up_through_transparent_sections_only() {
    let files = [
        ("content/_index.md", false),
        ("content/a/_index.md", true),
        ("content/a/b/_index.md", true),
    ];
    let entries: Vec<SectionEntry> =
        files.iter().map(|(p, t)| entry(&file_of_section(p), 0, *t)).collect();
    let place = place_page(&entries, "content", "content/a/b", "_index.md", None);
    assert_eq!(
        place.sections,
        vec![
            "content/a/b/_index.md".to_string(),
            "content/a/_index.md".to_string(),
            "content/_index.md".to_string()
        ]
    );
    // The page ends below the root section, whose ancestors are none.
    assert_eq!(place.ancestors, vec!["_index.md".to_string()]);

    let own = place_page(&entries, "content", "content/a/b", "_index.md", Some("mine.html".to_string()));
    assert_eq!(own.template, Some("mine.html".to_string()));
}

#[test]
fn page_template_comes_from_the_nearest_ancestor() {
    let mut top = entry(&file_of_section("content/_index.md"), 0, false);
    top.page_template = Some("top.html".to_string());
    let mut mid = entry(&file_of_section("content/a/_index.md"), 0, false);
    mid.page_template = None;
    let entries = vec![top, mid];
    let place = place_page(&entries, "content", "content/a", "_index.md", None);
    assert_eq!(place.sections, vec!["content/a/_index.md".to_string()]);
    assert_eq!(place.ancestors, vec!["_index.md".to_string(), "a/_index.md".to_string()]);
    assert_eq!(place.template, Some("top.html".to_string()));
}

#[test]
fn index_filename_depends_on_the_language() {
    assert_eq!(index_filename("en", "en"), "_index.md");
    assert_eq!(index_filename("fr", "en"), "_index.fr.md");
}

#[test]
fn single_language_sites_keep_no_translations() {
    let files = vec![("content/a".to_string(), "content/a.md".to_string())];
    assert!(find_translations(&files, false, "content/a").is_empty());
    assert_eq!(find_translations(&files, true, "content/a"), vec!["content/a.md".to_string()]);
}

#[test]
fn siblings_of_sorted_pages() {
    let sorted = vec!["a".to_string(), "b".to_string(), "c".to_string()];
    let s = page_siblings(&sorted);
    assert_eq!(s[0], (None, Some("b".to_string())));
    assert_eq!(s[1], (Some("a".to_string()), Some("c".to_string())));
    assert_eq!(s[2], (Some("b".to_string()), None));
}

#[test]
fn can_find_collisions_with_paths() {
    let mut claims: Vec<(String, String)> = Vec::new();
    claim_paths(&mut claims, "hello.md", "hello", &vec![], true);
    claim_paths(&mut claims, "bonjour.md", "hello", &vec![], true);

    let collisions = find_path_collisions(&claims);
    assert_eq!(collisions.len(), 1);
    assert_eq!(collisions[0].0, "hello");
    assert!(collisions[0].1.contains(&"hello.md".to_string()));
    assert!(collisions[0].1.contains(&"bonjour.md".to_string()));
}

#[test]
fn can_find_collisions_with_aliases() {
    let mut claims: Vec<(String, String)> = Vec::new();
    claim_paths(&mut claims, "hello.md", "hello", &vec![], true);
    claim_paths(
        &mut claims,
        "bonjour.md",
        "world",
        &vec!["hello".to_owned(), "hola".to_owned()],
        true,
    );
    // Sections with render=false do not collide with anything
    claim_paths(&mut claims, "bonjour2.md", "world2", &vec!["hola".to_owned()], false);

    let collisions = find_path_collisions(&claims);
    assert_eq!(collisions.len(), 1);
    assert_eq!(collisions[0].0, "hello");
    assert!(collisions[0].1.contains(&"hello.md".to_string()));
    assert!(collisions[0].1.contains(&"bonjour.md".to_string()));
}

#[test]
fn can_find_no_collisions() {
    let mut claims: Vec<(String, String)> = Vec::new();
    claim_paths(&mut claims, "", "hello", &vec![], true);
    claim_paths(&mut claims, "", "hello-world", &vec![], true);
    claim_paths(&mut claims, "", "blog", &vec![], true);

    let collisions = find_path_collisions(&claims);
    assert_eq!(collisions.len(), 0);
}

#[test]
fn can_find_collisions_between_pages() {
    let mut claims: Vec<(String, String)> = Vec::new();
    claim_paths(&mut claims, "hello", "hello", &vec![], true);
    claim_paths(&mut claims, "hello-world", "hello", &vec![], true);
    claim_paths(&mut claims, "hello-world", "blog", &vec![], true);

    let collisions = find_path_collisions(&claims);
    assert_eq!(collisions.len(), 1);
    assert_eq!(collisions[0].0, "hello");
    assert!(collisions[0].1.contains(&"hello".to_string()));
    assert!(collisions[0].1.contains(&"hello-world".to_string()));
}

#[test]
fn can_find_collisions_with_an_alias() {
    let mut claims: Vec<(String, String)> = Vec::new();
    claim_paths(&mut claims, "hello", "hello", &vec![], true);
    claim_paths(&mut claims, "hello-world", "hello-world", &vec!["hello".to_string()], true);
    claim_paths(&mut claims, "hello-world", "blog", &vec![], true);

    let collisions = find_path_collisions(&claims);
    assert_eq!(collisions.len(), 1);
    assert_eq!(collisions[0].0, "hello");
    assert!(collisions[0].1.contains(&"hello".to_string()));
    assert!(collisions[0].1.contains(&"hello-world".to_string()));
}

#[test]
fn a_file_claiming_a_path_twice_is_no_collision() {
    let mut claims: Vec<(String, String)> = Vec::new();
    claim_paths(&mut claims, "a.md", "a", &vec!["a".to_string()], true);
    assert_eq!(claims.len(), 2);
    assert!(find_path_collisions(&claims).is_empty());
}

#[test]
fn can_fill_backlinks() {
    // page1.md links to page2.md, page2.md to _index.md, _index.md to both pages.
    let links: Vec<(String, String)> = vec![
        ("page2.md".to_owned(), "page1.md".to_owned()),
        ("_index.md".to_owned(), "page2.md".to_owned()),
        ("page1.md".to_owned(), "_index.md".to_owned()),
        ("page2.md".to_owned(), "_index.md".to_owned()),
    ];
    let backlinks = fill_backlinks(&links);

    assert_eq!(backlinks.len(), 3);
    let sources = |target: &str| {
        let mut s = backlinks.iter().find(|(t, _)| t == target).unwrap().1.clone();
        s.sort();
        s
    };
    assert_eq!(sources("page1.md"), vec!["_index.md".to_string()]);
    assert_eq!(sources("page2.md"), vec!["_index.md".to_string(), "page1.md".to_string()]);
    assert_eq!(sources("_index.md"), vec!["page2.md".to_string()]);
}

#[test]
fn backlinks_are_ordered_by_permalink() {
    let t1 = Some("One".to_string());
    let t2 = None;
    let t3 = Some("Three".to_string());
    let links = vec![
        BackLink { permalink: "https://a.com/c/", title: &t1 },
        BackLink { permalink: "https://a.com/a/", title: &t2 },
        BackLink { permalink: "https://a.com/b/", title: &t3 },
    ];
    let sorted = find_backlinks(links);
    let permalinks: Vec<&str> = sorted.iter().map(|b| b.permalink).collect();
    assert_eq!(permalinks, vec!["https://a.com/a/", "https://a.com/b/", "https://a.com/c/"]);
    assert_eq!(sorted[2].title, &t1);
}

#[test]
fn parent_sections_are_the_own_one_and_transparent_ones_above() {
    let files = [
        ("content/_index.md", true),
        ("content/a/_index.md", false),
        ("content/a/b/_index.md", true),
        ("content/a/b/c/_index.md", false),
    ];
    let entries: Vec<SectionEntry> =
        files.iter().map(|(p, t)| entry(&file_of_section(p), 0, *t)).collect();
    let ancestors = vec![
        "_index.md".to_string(),
        "a/_index.md".to_string(),
        "a/b/_index.md".to_string(),
        "a/b/c/_index.md".to_string(),
    ];
    // The own section is taken whatever it is, then only the transparent ones.
    assert_eq!(find_parent_sections(&entries, "content", &ancestors), vec![3, 2, 0]);
    assert!(find_parent_sections(&entries, "content", &vec![]).is_empty());
}

#[test]
fn a_transparent_section_hands_its_pages_up() {
    let entries = vec![
        entry(&file_of_section("content/_index.md"), 0, false),
        entry(&file_of_section("content/wiki/_index.md"), 0, true),
    ];
    let page = file_of_page("content/wiki/a.md");
    let places = vec![place_page(&entries, "content", &page.parent, "_index.md", None)];
    let listed = section_pages(&entries, &places);
    assert_eq!(listed, vec![vec![0], vec![0]]);
    let sections = populate_sections(&entries, "content");
    assert_eq!(sections[0].subsections, vec!["content/wiki/_index.md".to_string()]);
    assert_eq!(sections[1].ancestors, vec!["_index.md".to_string()]);
}

#[test]
fn subsections_of_equal_weight_keep_their_order() {
    let files = ["content/_index.md", "content/b/_index.md", "content/a/_index.md", "content/c/_index.md"];
    let entries: Vec<SectionEntry> = files.iter().map(|p| entry(&file_of_section(p), 5, false)).collect();
    let first = populate_sections(&entries, "content");
    let second = populate_sections(&entries, "content");
    let expected = vec![
        "content/b/_index.md".to_string(),
        "content/a/_index.md".to_string(),
        "content/c/_index.md".to_string(),
    ];
    assert_eq!(first[0].subsections, expected);
    assert_eq!(second[0].subsections, expected);
}

#[test]
fn a_whole_library_collides_on_the_paths_two_files_claim() {
    let claim = |file: &str, path: &str, aliases: &[&str], rendered: bool| PathClaim {
        file: file.to_string(),
        path: path.to_string(),
        aliases: aliases.iter().map(|a| a.to_string()).collect(),
        rendered,
    };
    let cs = vec![
        claim("hello.md", "hello", &[], true),
        claim("bonjour.md", "world", &["hello", "hola"], true),
        claim("bonjour2.md", "world2", &["hola"], false),
        claim("again.md", "again", &["again"], true),
    ];
    let collisions = find_library_collisions(&cs);
    assert_eq!(collisions.len(), 1);
    assert_eq!(collisions[0].0, "hello");
    assert_eq!(collisions[0].1, vec!["hello.md".to_string(), "bonjour.md".to_string()]);
}

#[test]
fn populating_twice_gives_the_same_tree() {
    let sections = [("content/_index.md", SortBy::Unsorted), ("content/blog/_index.md", SortBy::Date)];
    let entries: Vec<SectionEntry> =
        sections.iter().map(|(p, _)| entry(&file_of_section(p), 0, false)).collect();
    let sort_by: Vec<SortBy> = sections.iter().map(|(_, s)| *s).collect();
    let files: Vec<FileInfo> = ["content/blog/a.md", "content/blog/b.md", "content/about.md"]
        .iter()
        .map(|p| file_of_page(p))
        .collect();
    let dates = [Some("2022-01-01"), Some("2023-01-01"), None];
    let pages: Vec<LibraryPage> = files
        .iter()
        .zip(dates.iter())
        .map(|(f, d)| LibraryPage {
            parent: f.parent.clone(),
            lang: "en".to_string(),
            template: None,
            sortable: SortablePage {
                path: f.path.as_str(),
                permalink: f.path.as_str(),
                slug: "",
                title: None,
                weight: None,
                datetime: d.map(instant),
                updated_datetime: None,
            },
        })
        .collect();
    let first = populate_library(&entries, &sort_by, "content", "en", &pages);
    let second = populate_library(&entries, &sort_by, "content", "en", &pages);
    assert_eq!(first.listed, second.listed);
    assert_eq!(first.lists, second.lists);
    assert_eq!(first.siblings, second.siblings);
    for (a, b) in first.pages.iter().zip(second.pages.iter()) {
        assert_eq!((&a.sections, &a.ancestors, &a.template), (&b.sections, &b.ancestors, &b.template));
    }
    assert_eq!(
        first.lists[1],
        Some((vec!["content/blog/b.md".to_string(), "content/blog/a.md".to_string()], vec![]))
    );
    assert_eq!(first.lists[0], Some((vec!["content/about.md".to_string()], vec![])));
    assert_eq!(first.siblings[1], vec![(None, Some("content/blog/a.md".to_string())), (Some("content/blog/b.md".to_string()), None)]);
}
