use reference_tool::idmap::IdMap;

fn ids(v: &[&str]) -> Vec<String> {
    v.iter().map(|s| s.to_string()).collect()
}

fn keys(map: &IdMap<Vec<String>>) -> Vec<String> {
    let mut out = vec![];
    let mut i = 0;
    while let Some((key, _)) = map.entry(i) {
        out.push(key.clone());
        i += 1;
    }
    out
}

#[test]
fn an_empty_map_holds_nothing() {
    let map: IdMap<Vec<String>> = IdMap::new();
    assert!(map.is_empty());
    assert_eq!(map.len(), 0);
    assert!(!map.contains_key("a"));
    assert!(map.get("a").is_none());
    assert!(map.entry(0).is_none());
}

#[test]
fn insert_sets_and_overwrites_in_place() {
    let mut map: IdMap<Vec<String>> = IdMap::new();
    map.insert("b".to_string(), ids(&["1"]));
    map.insert("a".to_string(), ids(&["2"]));
    map.insert("c".to_string(), ids(&[]));
    assert_eq!(map.len(), 3);
    assert!(!map.is_empty());
    map.insert("a".to_string(), ids(&["3", "4"]));
    assert_eq!(map.len(), 3);
    assert_eq!(keys(&map), ids(&["b", "a", "c"]));
    assert_eq!(map.get("a").unwrap(), &ids(&["3", "4"]));
    assert_eq!(map.get("b").unwrap(), &ids(&["1"]));
    assert_eq!(map.get("c").unwrap(), &ids(&[]));
    assert!(map.contains_key("c"));
    assert!(!map.contains_key(""));
    assert!(!map.contains_key("ab"));
}

#[test]
fn entries_come_by_position() {
    let mut map: IdMap<Vec<String>> = IdMap::new();
    map.insert("x".to_string(), ids(&["1"]));
    map.insert("y".to_string(), ids(&["2"]));
    let (k0, v0) = map.entry(0).unwrap();
    assert_eq!(k0, "x");
    assert_eq!(v0, &ids(&["1"]));
    let (k1, v1) = map.entry(1).unwrap();
    assert_eq!(k1, "y");
    assert_eq!(v1, &ids(&["2"]));
    assert!(map.entry(2).is_none());
    assert!(map.entry(usize::MAX).is_none());
}

#[test]
fn append_to_starts_a_list_or_extends_it() {
    let mut map: IdMap<Vec<String>> = IdMap::new();
    map.append_to("a", "1".to_string());
    map.append_to("b", "2".to_string());
    map.append_to("a", "3".to_string());
    map.append_to("a", "1".to_string());
    assert_eq!(map.len(), 2);
    assert_eq!(keys(&map), ids(&["a", "b"]));
    assert_eq!(map.get("a").unwrap(), &ids(&["1", "3", "1"]));
    assert_eq!(map.get("b").unwrap(), &ids(&["2"]));
}

#[test]
fn the_empty_key_is_a_key() {
    let mut map: IdMap<Vec<String>> = IdMap::new();
    map.append_to("", "x".to_string());
    assert!(map.contains_key(""));
    assert_eq!(map.get("").unwrap(), &ids(&["x"]));
}
