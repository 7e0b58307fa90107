use visited_systems::name_map::{NameMap, NameSet};
use visited_systems::text::{chars_of, compare, ends_with, starts_with, Rank};

fn rank_of(ordering: std::cmp::Ordering) -> Rank {
    match ordering {
        std::cmp::Ordering::Less => Rank::Before,
        std::cmp::Ordering::Equal => Rank::Same,
        std::cmp::Ordering::Greater => Rank::After,
    }
}

#[test]
fn compare_equal_names() {
    assert_eq!(compare("Sol", "Sol"), Rank::Same);
    assert_eq!(compare("", ""), Rank::Same);
}

#[test]
fn compare_first_difference_decides() {
    assert_eq!(compare("Deciat", "Sol"), Rank::Before);
    assert_eq!(compare("Sol", "Deciat"), Rank::After);
    assert_eq!(compare("Sol A", "Sol B"), Rank::Before);
}

#[test]
fn compare_prefix_comes_first() {
    assert_eq!(compare("Sol", "Sol A"), Rank::Before);
    assert_eq!(compare("Sol A", "Sol"), Rank::After);
    assert_eq!(compare("", "a"), Rank::Before);
    assert_eq!(compare("a", ""), Rank::After);
}

#[test]
fn compare_upper_case_before_lower_case() {
    assert_eq!(compare("Z", "a"), Rank::Before);
    assert_eq!(compare("SOL", "Sol"), Rank::Before);
}

#[test]
fn compare_agrees_with_the_standard_order() {
    let names = [
        "", "Sol", "SOL", "sol", "Deciat", "Shinrarta Dezhra", "Sol ", "Étoile", "étoile", "z",
        "日本", "Zeta", "\u{10FFFF}", "\u{D7FF}", "\u{E000}", "a\u{0}", "a",
    ];
    for a in names.iter() {
        for b in names.iter() {
            assert_eq!(compare(a, b), rank_of(a.cmp(b)), "{:?} against {:?}", a, b);
        }
    }
}

#[test]
fn chars_of_gives_every_character() {
    assert_eq!(chars_of("Sol é"), vec!['S', 'o', 'l', ' ', 'é']);
    assert_eq!(chars_of(""), Vec::<char>::new());
}

#[test]
fn starts_with_and_ends_with() {
    let text = chars_of("Journal.1.log");
    assert!(starts_with(&text, &chars_of("Journal.")));
    assert!(starts_with(&text, &chars_of("")));
    assert!(!starts_with(&text, &chars_of("journal.")));
    assert!(!starts_with(&chars_of("Jo"), &chars_of("Journal.")));
    assert!(ends_with(&text, &chars_of(".log")));
    assert!(ends_with(&text, &chars_of("")));
    assert!(!ends_with(&text, &chars_of(".log ")));
    assert!(!ends_with(&chars_of("og"), &chars_of(".log")));
}

#[test]
fn name_map_starts_empty() {
    let map: NameMap<u32> = NameMap::new();
    assert_eq!(map.len(), 0);
    assert!(map.is_empty());
    assert_eq!(map.get("Sol"), None);
    assert!(!map.contains_key("Sol"));
    assert_eq!(map.keys(), Vec::<String>::new());
}

#[test]
fn name_map_insert_and_get() {
    let mut map: NameMap<u32> = NameMap::new();
    map.insert("Sol".to_string(), 1);
    map.insert("Deciat".to_string(), 2);
    map.insert("Achenar".to_string(), 3);
    assert_eq!(map.len(), 3);
    assert!(!map.is_empty());
    assert_eq!(map.get("Sol"), Some(&1));
    assert_eq!(map.get("Deciat"), Some(&2));
    assert_eq!(map.get("Achenar"), Some(&3));
    assert_eq!(map.get("sol"), None);
    assert!(map.contains_key("Deciat"));
}

#[test]
fn name_map_insert_replaces() {
    let mut map: NameMap<u32> = NameMap::new();
    map.insert("Sol".to_string(), 1);
    map.insert("Sol".to_string(), 7);
    assert_eq!(map.len(), 1);
    assert_eq!(map.get("Sol"), Some(&7));
}

#[test]
fn name_map_keys_ascend_whatever_the_insertion_order() {
    let mut map: NameMap<u32> = NameMap::new();
    for (i, name) in ["Sol", "Deciat", "sol", "Achenar", "Sol A", "Deciat"].iter().enumerate() {
        map.insert(name.to_string(), i as u32);
    }
    assert_eq!(map.keys(), vec!["Achenar", "Deciat", "Sol", "Sol A", "sol"]);
    assert_eq!(map.get("Deciat"), Some(&5));
}

#[test]
fn name_map_remove() {
    let mut map: NameMap<u32> = NameMap::new();
    map.insert("Sol".to_string(), 1);
    map.insert("Deciat".to_string(), 2);
    assert_eq!(map.remove("Sol"), Some(1));
    assert_eq!(map.remove("Sol"), None);
    assert_eq!(map.remove("Achenar"), None);
    assert_eq!(map.keys(), vec!["Deciat"]);
    assert_eq!(map.get("Deciat"), Some(&2));
}

#[test]
fn name_map_agrees_with_a_btree_map() {
    let mut ours: NameMap<usize> = NameMap::new();
    let mut theirs = std::collections::BTreeMap::new();
    let mut seed: u32 = 12345;
    for step in 0..400usize {
        seed = seed.wrapping_mul(1103515245).wrapping_add(12345);
        let key = format!("k{}", (seed >> 16) % 37);
        if step % 3 == 2 {
            assert_eq!(ours.remove(&key), theirs.remove(&key));
        } else {
            ours.insert(key.clone(), step);
            theirs.insert(key, step);
        }
        assert_eq!(ours.len(), theirs.len());
    }
    assert_eq!(ours.keys(), theirs.keys().cloned().collect::<Vec<String>>());
    for (key, value) in theirs.iter() {
        assert_eq!(ours.get(key), Some(value));
    }
}

#[test]
fn name_set_starts_empty() {
    let set = NameSet::new();
    assert!(set.is_empty());
    assert_eq!(set.len(), 0);
    assert!(!set.contains("Sol"));
    assert!(!set.contains(""));
    assert_eq!(set.names(), Vec::<String>::new());
}

#[test]
fn name_set_keeps_each_name_once_in_order() {
    let mut set = NameSet::new();
    assert!(set.is_empty());
    set.insert("Sol".to_string());
    set.insert("Deciat".to_string());
    set.insert("Sol".to_string());
    assert!(!set.is_empty());
    assert_eq!(set.len(), 2);
    assert!(set.contains("Sol"));
    assert!(!set.contains("SOL"));
    assert_eq!(set.names(), vec!["Deciat", "Sol"]);
}
