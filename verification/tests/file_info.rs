use zola::content::file_info::{find_content_components, FileInfo};

#[test]
fn can_find_content_components() {
    let res = find_content_components("/home/vincent/code/site/content/posts/tutorials/python.md");
    assert_eq!(res, ["posts".to_string(), "tutorials".to_string()]);
}

#[test]
fn can_find_components_in_page_with_assets() {
    let file =
        FileInfo::new_page("/home/vincent/code/site/content/posts/tutorials/python/index.md", "");
    assert_eq!(file.components, ["posts".to_string(), "tutorials".to_string()]);
}

#[test]
fn doesnt_fail_with_multiple_content_directories() {
    let file = FileInfo::new_page(
        "/home/vincent/code/content/site/content/posts/tutorials/python/index.md",
        "/home/vincent/code/content/site",
    );
    assert_eq!(file.components, ["posts".to_string(), "tutorials".to_string()]);
}

#[test]
fn correct_canonical_for_index() {
    let file =
        FileInfo::new_page("/home/vincent/code/site/content/posts/tutorials/python/index.md", "");
    assert_eq!(file.canonical, "/home/vincent/code/site/content/posts/tutorials/python/index");
}

#[test]
fn page_file_info_fields() {
    let file = FileInfo::new_page("/site/content/posts/python.fr.md", "/site");
    assert_eq!(file.path, "/site/content/posts/python.fr.md");
    assert_eq!(file.filename, "python.fr.md");
    assert_eq!(file.name, "python.fr");
    assert_eq!(file.relative, "posts/python.fr.md");
    assert_eq!(file.parent, "/site/content/posts");
    assert_eq!(file.grand_parent, None);
    assert_eq!(file.components, ["posts".to_string()]);
    assert_eq!(file.canonical, "/site/content/posts/python.fr");
}

#[test]
fn asset_folder_page_uses_grand_parent_as_parent() {
    let file = FileInfo::new_page("/site/content/posts/python/index.md", "");
    assert_eq!(file.parent, "/site/content/posts");
    assert_eq!(file.relative, "posts/python/index.md");
    assert_eq!(file.components, ["posts".to_string()]);
}

#[test]
fn page_at_content_root_has_no_components() {
    let file = FileInfo::new_page("/site/content/index.md", "");
    assert!(file.components.is_empty());
    assert_eq!(file.relative, "index.md");
    assert_eq!(file.parent, "/site/content");
}

#[test]
fn section_file_info_fields() {
    let file = FileInfo::new_section("/site/content/posts/tutorials/_index.md", "");
    assert_eq!(file.name, "_index");
    assert_eq!(file.filename, "_index.md");
    assert_eq!(file.relative, "posts/tutorials/_index.md");
    assert_eq!(file.parent, "/site/content/posts/tutorials");
    assert_eq!(file.grand_parent, Some("/site/content/posts".to_string()));
    assert_eq!(file.components, ["posts".to_string(), "tutorials".to_string()]);
    assert_eq!(file.canonical, "/site/content/posts/tutorials/_index");
}

#[test]
fn path_outside_content_has_no_components() {
    let res = find_content_components("/home/vincent/notes/python.md");
    assert!(res.is_empty());
}

fn fr() -> Vec<String> {
    vec!["fr".to_string()]
}

#[test]
fn can_find_valid_language_in_page() {
    let mut file = FileInfo::new_page("/home/vincent/code/site/content/posts/tutorials/python.fr.md", "");
    let res = file.find_language("en", &fr());
    assert!(res.is_ok());
    assert_eq!(res.unwrap(), "fr");
    assert_eq!(file.name, "python");
    assert_eq!(file.canonical, "/home/vincent/code/site/content/posts/tutorials/python");
}

#[test]
fn can_find_valid_language_with_default_locale() {
    let mut file = FileInfo::new_page("/home/vincent/code/site/content/posts/tutorials/python.en.md", "");
    let res = file.find_language("en", &fr());
    assert!(res.is_ok());
    assert_eq!(res.unwrap(), "en");
    assert_eq!(file.name, "python.en");
}

#[test]
fn can_find_valid_language_in_page_with_assets() {
    let mut file =
        FileInfo::new_page("/home/vincent/code/site/content/posts/tutorials/python/index.fr.md", "");
    assert_eq!(file.components, ["posts".to_string(), "tutorials".to_string()]);
    let res = file.find_language("en", &fr());
    assert!(res.is_ok());
    assert_eq!(res.unwrap(), "fr");
}

#[test]
fn do_nothing_on_unknown_language_in_page_with_i18n_off() {
    let mut file = FileInfo::new_page("/home/vincent/code/site/content/posts/tutorials/python.fr.md", "");
    let res = file.find_language("en", &Vec::new());
    assert!(res.is_ok());
    assert_eq!(res.unwrap(), "en");
    assert_eq!(file.name, "python.fr");
}

#[test]
fn errors_on_unknown_language_in_page_with_i18n_on() {
    let mut file = FileInfo::new_page("/home/vincent/code/site/content/posts/tutorials/python.fr.md", "");
    let before = file.clone();
    let res = file.find_language("en", &vec!["it".to_string()]);
    assert!(res.is_err());
    assert_eq!(
        res.err().unwrap().to_message(),
        "File \"/home/vincent/code/site/content/posts/tutorials/python.fr.md\" has a language code of fr which isn't present in the config.toml `languages`"
    );
    assert_eq!(file, before);
}

#[test]
fn can_find_valid_language_in_section() {
    let mut file = FileInfo::new_section("/home/vincent/code/site/content/posts/tutorials/_index.fr.md", "");
    let res = file.find_language("en", &fr());
    assert!(res.is_ok());
    assert_eq!(res.unwrap(), "fr");
    assert_eq!(file.name, "_index");
}

#[test]
fn correct_canonical_after_find_language() {
    let mut file =
        FileInfo::new_page("/home/vincent/code/site/content/posts/tutorials/python/index.fr.md", "");
    let res = file.find_language("en", &fr());
    assert!(res.is_ok());
    assert_eq!(file.canonical, "/home/vincent/code/site/content/posts/tutorials/python/index");
}

#[test]
fn checked_constructors_refuse_paths_without_parent() {
    assert!(FileInfo::try_new_page("", "").is_none());
    assert!(FileInfo::try_new_section("", "").is_none());
    assert_eq!(
        FileInfo::try_new_page("/site/content/a.md", ""),
        Some(FileInfo::new_page("/site/content/a.md", ""))
    );
    assert_eq!(
        FileInfo::try_new_section("/site/content/_index.md", ""),
        Some(FileInfo::new_section("/site/content/_index.md", ""))
    );
    assert!(zola::content::file_info::try_find_content_components("").is_none());
    assert_eq!(
        zola::content::file_info::try_find_content_components("/site/content/a/b.md"),
        Some(vec!["a".to_string()])
    );
}

#[test]
fn checked_language_lookup() {
    let mut file = FileInfo::new_page("/site/content/a.fr.md", "");
    assert_eq!(file.try_find_language("en", &fr()).unwrap().unwrap(), "fr");
    assert_eq!(file.name, "a");
    let mut bare = file.clone();
    bare.path = String::new();
    bare.name = "b.fr".to_string();
    let before = bare.clone();
    assert!(bare.try_find_language("en", &fr()).is_none());
    assert_eq!(bare, before);
    assert_eq!(bare.try_find_language("fr", &fr()).unwrap().unwrap(), "fr");
}
