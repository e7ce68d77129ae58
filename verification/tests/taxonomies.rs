use slotmap::{DefaultKey, DenseSlotMap};
use zola::config::site::Config;
use zola::config::taxonomies::TaxonomyConfig;
use zola::taxonomies::{Taxonomy, TaxonomyItem};

fn config() -> Config {
    let mut c = Config::default();
    c.base_url = "https://example.com".to_string();
    c
}

fn item(name: &str, slug: &str, permalink: &str, pages: Vec<DefaultKey>) -> TaxonomyItem {
    TaxonomyItem { name: name.into(), slug: slug.into(), permalink: permalink.into(), pages }
}

#[test]
fn term_permalink_and_page_order() {
    let mut dense = DenseSlotMap::new();
    let k1 = dense.insert(());
    let k2 = dense.insert(());
    let k3 = dense.insert(());
    let pages = vec![(&k1, Some((700000, 0, 0))), (&k2, None), (&k3, Some((800000, 0, 0)))]
        .into_iter()
        .map(|(k, d)| (k, d, ""))
        .collect();
    let t = TaxonomyItem::new("Rust", "rust".to_string(), "en", "tags", &config(), pages);
    assert_eq!(t.permalink, "https://example.com/tags/rust/");
    assert_eq!(t.name, "Rust");
    assert_eq!(t.slug, "rust");
    assert_eq!(t.pages, vec![k3, k1, k2]);

    let t = TaxonomyItem::new("Rust", "rust".to_string(), "fr", "tags", &config(), vec![]);
    assert_eq!(t.permalink, "https://example.com/fr/tags/rust/");
    assert!(t.pages.is_empty());
}

#[test]
fn terms_are_sorted_and_merged_by_permalink() {
    let mut dense = DenseSlotMap::new();
    let k: Vec<DefaultKey> = (0..4).map(|_| dense.insert(())).collect();
    let items = vec![
        item("Zeta", "zeta", "/tags/zeta/", vec![k[0]]),
        item("rust", "rust", "/tags/rust/", vec![k[1]]),
        item("Rust", "rust", "/tags/rust/", vec![k[2], k[3]]),
        item("Alpha", "alpha", "/tags/alpha/", vec![]),
    ];
    let t = Taxonomy::new(TaxonomyConfig::default(), "tags".to_string(), items);
    assert_eq!(t.len(), 3);
    assert!(!t.is_empty());
    let slugs: Vec<&str> = t.items.iter().map(|i| i.slug.as_str()).collect();
    assert_eq!(slugs, vec!["alpha", "rust", "zeta"]);
    // "Rust" sorts before "rust": the merged term keeps the first one's name and both pages
    assert_eq!(t.items[1].name, "Rust");
    assert_eq!(t.items[1].pages, vec![k[2], k[3], k[1]]);
}

#[test]
fn merging_terms_appends_pages() {
    let mut dense = DenseSlotMap::new();
    let a = dense.insert(());
    let b = dense.insert(());
    let mut x = item("x", "x", "/x/", vec![a]);
    x.merge(item("y", "y", "/y/", vec![b]));
    assert_eq!(x.pages, vec![a, b]);
    assert_eq!(x.name, "x");
}

#[test]
fn empty_taxonomy() {
    let t = Taxonomy::new(TaxonomyConfig::default(), "tags".to_string(), vec![]);
    assert!(t.is_empty());
}
