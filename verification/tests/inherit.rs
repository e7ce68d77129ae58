use zola::config::merge::TomlValue;
use zola::content::inherit::{merge_inherited_tables, merge_maps, overlay_value};

fn model(v: toml::Value) -> TomlValue {
    match v {
        toml::Value::Table(t) => TomlValue::Table(t.into_iter().map(|(k, v)| (k, model(v))).collect()),
        other => TomlValue::Leaf(other),
    }
}

fn parse(s: &str) -> TomlValue {
    model(toml::from_str::<toml::Value>(s).unwrap())
}

fn get<'a>(v: &'a TomlValue, key: &str) -> Option<&'a TomlValue> {
    match v {
        TomlValue::Table(es) => es.iter().find(|(k, _)| k == key).map(|(_, v)| v),
        TomlValue::Leaf(_) => None,
    }
}

fn leaf(v: &TomlValue) -> &toml::Value {
    match v {
        TomlValue::Leaf(l) => l,
        TomlValue::Table(_) => panic!("expected a value that is not a table"),
    }
}

#[test]
fn missing_keys_inherit_translated_win() {
    let default = parse("title = \"Default\"\nweight = 10\n");
    let translated = parse("title = \"Traduit\"\n");
    let merged = merge_inherited_tables(&default, &translated).unwrap();
    assert_eq!(leaf(get(&merged, "title").unwrap()), &toml::Value::String("Traduit".into()));
    assert_eq!(leaf(get(&merged, "weight").unwrap()), &toml::Value::Integer(10));
}

#[test]
fn tables_merge_recursively_arrays_replace() {
    let default = parse(
        "[extra]\ncover = \"cover.png\"\nflavor = \"default\"\ntypes = [\"a\", \"b\"]\n\
         [extra.abilities]\n\"Fire walk\" = \"yes\"\n\"Swim\" = \"no\"\n",
    );
    let translated = parse(
        "[extra]\nflavor = \"traduit\"\ntypes = []\n[extra.abilities]\n\"Fire walk\" = \"oui\"\n",
    );
    let merged = merge_inherited_tables(&default, &translated).unwrap();
    let extra = get(&merged, "extra").unwrap();
    assert_eq!(leaf(get(extra, "cover").unwrap()), &toml::Value::String("cover.png".into()));
    assert_eq!(leaf(get(extra, "flavor").unwrap()), &toml::Value::String("traduit".into()));
    assert_eq!(leaf(get(extra, "types").unwrap()), &toml::Value::Array(vec![]));
    let abilities = get(extra, "abilities").unwrap();
    assert_eq!(leaf(get(abilities, "Fire walk").unwrap()), &toml::Value::String("oui".into()));
    assert_eq!(leaf(get(abilities, "Swim").unwrap()), &toml::Value::String("no".into()));
}

#[test]
fn slug_path_aliases_are_never_inherited() {
    let default = parse("slug = \"default-slug\"\npath = \"/somewhere\"\naliases = [\"/old\"]\n");
    let translated = parse("title = \"x\"\n");
    let merged = merge_inherited_tables(&default, &translated).unwrap();
    assert!(get(&merged, "slug").is_none());
    assert!(get(&merged, "path").is_none());
    assert!(get(&merged, "aliases").is_none());
    assert_eq!(leaf(get(&merged, "title").unwrap()), &toml::Value::String("x".into()));
}

#[test]
fn explicit_bool_in_translation_wins() {
    let default = parse("draft = true\n");
    let translated = parse("draft = false\n");
    let merged = merge_inherited_tables(&default, &translated).unwrap();
    assert_eq!(leaf(get(&merged, "draft").unwrap()), &toml::Value::Boolean(false));
}

#[test]
fn taxonomies_merge_per_key() {
    let default = parse("[taxonomies]\ntags = [\"hello\"]\nrelated = [\"a\"]\n");
    let translated = parse("[taxonomies]\ntags = [\"bonjour\"]\n");
    let merged = merge_inherited_tables(&default, &translated).unwrap();
    let taxonomies = get(&merged, "taxonomies").unwrap();
    assert_eq!(
        leaf(get(taxonomies, "tags").unwrap()),
        &toml::Value::Array(vec![toml::Value::String("bonjour".into())])
    );
    assert_eq!(
        leaf(get(taxonomies, "related").unwrap()),
        &toml::Value::Array(vec![toml::Value::String("a".into())])
    );
}

#[test]
fn the_slug_of_the_translation_is_kept() {
    let default = parse("slug = \"default-slug\"\n");
    let translated = parse("slug = \"traduit\"\n");
    let merged = merge_inherited_tables(&default, &translated).unwrap();
    assert_eq!(leaf(get(&merged, "slug").unwrap()), &toml::Value::String("traduit".into()));
}

#[test]
fn front_matter_must_be_a_table() {
    let table = parse("a = 1\n");
    let not_table = TomlValue::Leaf(toml::Value::Integer(3));
    let err = merge_inherited_tables(&not_table, &table).err().unwrap();
    assert_eq!(err.to_message(), "Front matter is not a table");
    assert!(merge_inherited_tables(&table, &not_table).is_err());
}

#[test]
fn a_value_replaces_a_table_and_a_table_replaces_a_value() {
    let base = parse("[a]\nb = 1\n");
    let over = parse("a = 2\n");
    let merged = overlay_value(&base, &over);
    assert_eq!(leaf(get(&merged, "a").unwrap()), &toml::Value::Integer(2));
    let merged = overlay_value(&over, &base);
    assert_eq!(leaf(get(get(&merged, "a").unwrap(), "b").unwrap()), &toml::Value::Integer(1));
}

#[test]
fn new_keys_are_added_after_the_base_keys() {
    let base = match parse("x = 1\ny = 2\n") {
        TomlValue::Table(es) => es,
        _ => unreachable!(),
    };
    let over = match parse("z = 3\nx = 4\n") {
        TomlValue::Table(es) => es,
        _ => unreachable!(),
    };
    let merged = merge_maps(&base, &over);
    let keys: Vec<&str> = merged.iter().map(|(k, _)| k.as_str()).collect();
    assert_eq!(keys, vec!["x", "y", "z"]);
    assert_eq!(leaf(&merged[0].1), &toml::Value::Integer(4));
}
