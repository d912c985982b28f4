use engine_core::behavior::{Behavior, BehaviorMap, SendableBehaviorKeys, SharedBehavior};
use engine_core::behavior_execution::{
    can_index, BehaviorError, BehaviorIndex, BehaviorIndices,
};
use engine_core::behavior_name::BehaviorName;
use engine_core::exp_init::{exp_init_message, BehaviorDescription};
use engine_core::language::Language;

fn strings(items: &[&str]) -> Vec<String> {
    items.iter().map(|item| item.to_string()).collect()
}

fn behavior(name: &str, aliases: &[&str], source: Option<&str>) -> Behavior {
    Behavior {
        shared: SharedBehavior {
            name: name.to_string(),
            shortnames: strings(aliases),
            behavior_src: source.map(|text| text.to_string()),
        },
        keys: SendableBehaviorKeys {
            field_names: Vec::new(),
            dyn_access: false,
            built_in_key_use: None,
        },
    }
}

fn map_of(behaviors: Vec<Behavior>) -> BehaviorMap {
    let mut map = BehaviorMap::new();
    for behavior in behaviors {
        let file_name = behavior.shared.name.clone();
        assert!(map.insert(file_name, behavior).is_none());
    }
    map
}

fn sample_map() -> BehaviorMap {
    map_of(vec![
        behavior("age.js", &["age", "@hash/age/age.js"], Some("js source")),
        behavior("move.py", &["move"], Some("py source")),
        behavior("grow.js", &[], Some("more js")),
        behavior("decay.rs", &["decay", "rot"], Some("rs source")),
        behavior("flock.py", &["flock"], Some("more py")),
        behavior("split.js", &["split"], Some("even more js")),
    ])
}

#[test]
fn behavior_map_keeps_insertion_order() {
    let map = sample_map();
    assert_eq!(map.len(), 6);
    let names: Vec<&str> =
        (0..map.len()).map(|i| map.entry(i).unwrap().file_name.as_str()).collect();
    assert_eq!(names, vec!["age.js", "move.py", "grow.js", "decay.rs", "flock.py", "split.js"]);
    assert!(map.entry(6).is_none());
}

#[test]
fn behavior_map_replaces_in_place() {
    let mut map = sample_map();
    let replaced = map.insert("move.py".to_string(), behavior("walk.py", &[], None));
    assert_eq!(replaced, Some(behavior("move.py", &["move"], Some("py source"))));
    assert_eq!(map.len(), 6);
    let entry = map.entry(1).unwrap();
    assert_eq!(entry.file_name, "move.py");
    assert_eq!(entry.behavior.shared.name, "walk.py");
    assert_eq!(map.entry(0).unwrap().behavior.shared.name, "age.js");
    assert_eq!(map.entry(5).unwrap().behavior.shared.name, "split.js");
}

#[test]
fn empty_behavior_map_is_empty() {
    let map = BehaviorMap::new();
    assert_eq!(map.len(), 0);
    assert!(map.entry(0).is_none());
}

#[test]
fn behaviors_are_numbered_per_language_in_order() {
    let indices = BehaviorIndices::from_behaviors(&sample_map()).unwrap();
    let expected = [
        ("age.js", BehaviorIndex(0, 0)),
        ("move.py", BehaviorIndex(1, 0)),
        ("grow.js", BehaviorIndex(0, 1)),
        ("decay.rs", BehaviorIndex(2, 0)),
        ("flock.py", BehaviorIndex(1, 1)),
        ("split.js", BehaviorIndex(0, 2)),
    ];
    for (name, index) in expected {
        assert_eq!(indices.get_index(name.as_bytes()), Some(&index), "{name}");
        assert_eq!(indices.get_name(&index), Some(&name.to_string()), "{name}");
    }
}

#[test]
fn every_alias_resolves_like_the_canonical_name() {
    let map = sample_map();
    let indices = BehaviorIndices::from_behaviors(&map).unwrap();
    for i in 0..map.len() {
        let shared = &map.entry(i).unwrap().behavior.shared;
        let by_name = indices.get_index(shared.name.as_bytes()).copied();
        assert!(by_name.is_some());
        for alias in &shared.shortnames {
            assert_eq!(indices.get_index(alias.as_bytes()).copied(), by_name, "{alias}");
        }
        assert_eq!(indices.get_name(&by_name.unwrap()), Some(&shared.name));
    }
}

#[test]
fn sequence_numbers_of_a_language_are_contiguous_from_zero() {
    let map = sample_map();
    let indices = BehaviorIndices::from_behaviors(&map).unwrap();
    for language in [Language::JavaScript, Language::Python, Language::Rust] {
        let mut numbers: Vec<u16> = (0..map.len())
            .map(|i| map.entry(i).unwrap().behavior.shared.name.clone())
            .filter(|name| Language::from_file_name(name) == Some(language))
            .map(|name| *indices.get_index(name.as_bytes()).unwrap())
            .inspect(|index| assert_eq!(index.lang_index() as usize, language.as_index()))
            .map(|index| index.lang_behavior_index())
            .collect();
        numbers.sort_unstable();
        let expected: Vec<u16> = (0..numbers.len() as u16).collect();
        assert_eq!(numbers, expected);
        assert_eq!(
            indices.get_name(&BehaviorIndex(language.as_index() as u16, numbers.len() as u16)),
            None
        );
    }
}

#[test]
fn unknown_keys_and_indices_are_absent() {
    let indices = BehaviorIndices::from_behaviors(&sample_map()).unwrap();
    assert_eq!(indices.get_index(b"nowhere.js"), None);
    assert_eq!(indices.get_index(b""), None);
    assert_eq!(indices.get_index(b"age.j"), None);
    assert_eq!(indices.get_name(&BehaviorIndex(0, 3)), None);
    assert_eq!(indices.get_name(&BehaviorIndex(3, 0)), None);
    assert_eq!(indices.get_name(&BehaviorIndex(u16::MAX, u16::MAX)), None);
}

#[test]
fn empty_map_gives_empty_tables() {
    let indices = BehaviorIndices::from_behaviors(&BehaviorMap::new()).unwrap();
    assert_eq!(indices.get_index(b"age.js"), None);
    assert_eq!(indices.get_name(&BehaviorIndex(0, 0)), None);
    assert_eq!(exp_init_message(&indices, &BehaviorMap::new()), Ok(Vec::new()));
}

#[test]
fn a_name_without_language_is_invalid() {
    let map = map_of(vec![
        behavior("age.js", &[], None),
        behavior("no_extension", &[], None),
        behavior("also_bad.txt", &[], None),
    ]);
    let error = BehaviorIndices::from_behaviors(&map).unwrap_err();
    assert_eq!(error, BehaviorError::InvalidBehaviorName("no_extension".to_string()));
    assert_eq!(error.message(), "Invalid behavior name: \"no_extension\"");
}

#[test]
fn the_language_is_told_from_the_name_not_the_file_name() {
    let mut map = BehaviorMap::new();
    map.insert("stored_as.py".to_string(), behavior("actually.js", &[], Some("src")));
    let indices = BehaviorIndices::from_behaviors(&map).unwrap();
    assert_eq!(indices.get_index(b"actually.js"), Some(&BehaviorIndex(0, 0)));
    assert_eq!(indices.get_index(b"stored_as.py"), None);
    let descriptions = exp_init_message(&indices, &map).unwrap();
    assert_eq!(descriptions[0].language, Language::Python);
    assert_eq!(descriptions[0].index, BehaviorIndex(0, 0));
}

#[test]
fn a_later_behavior_takes_over_a_shared_alias() {
    let map = map_of(vec![
        behavior("first.js", &["shared"], None),
        behavior("second.js", &["shared"], None),
    ]);
    let indices = BehaviorIndices::from_behaviors(&map).unwrap();
    assert_eq!(indices.get_index(b"first.js"), Some(&BehaviorIndex(0, 0)));
    assert_eq!(indices.get_index(b"second.js"), Some(&BehaviorIndex(0, 1)));
    assert_eq!(indices.get_index(b"shared"), Some(&BehaviorIndex(0, 1)));
    assert_eq!(indices.get_name(&BehaviorIndex(0, 0)), Some(&"first.js".to_string()));
    assert_eq!(indices.get_name(&BehaviorIndex(0, 1)), Some(&"second.js".to_string()));
}

#[test]
fn an_alias_may_repeat_the_canonical_name() {
    let map = map_of(vec![behavior("age.js", &["age.js", "age", "age"], None)]);
    let indices = BehaviorIndices::from_behaviors(&map).unwrap();
    assert_eq!(indices.get_index(b"age.js"), Some(&BehaviorIndex(0, 0)));
    assert_eq!(indices.get_index(b"age"), Some(&BehaviorIndex(0, 0)));
}

#[test]
fn two_behaviors_of_one_name_get_two_indices() {
    let mut map = BehaviorMap::new();
    map.insert("one/age.js".to_string(), behavior("age.js", &[], None));
    map.insert("two/age.js".to_string(), behavior("age.js", &[], None));
    let indices = BehaviorIndices::from_behaviors(&map).unwrap();
    assert_eq!(indices.get_index(b"age.js"), Some(&BehaviorIndex(0, 1)));
    assert_eq!(indices.get_name(&BehaviorIndex(0, 0)), Some(&"age.js".to_string()));
    assert_eq!(indices.get_name(&BehaviorIndex(0, 1)), Some(&"age.js".to_string()));
}

#[test]
fn behavior_index_getters() {
    let index = BehaviorIndex(2, 513);
    assert_eq!(index.lang_index(), 2);
    assert_eq!(index.lang_behavior_index(), 513);
}

#[test]
fn exp_init_message_describes_every_behavior_in_order() {
    let mut map = BehaviorMap::new();
    let mut first = behavior("age.js", &["age", "older"], Some("state.age += 1"));
    first.keys = SendableBehaviorKeys {
        field_names: strings(&["age", "height", "age"]),
        dyn_access: true,
        built_in_key_use: Some(strings(&["position", "age"])),
    };
    let mut second = behavior("move.py", &[], Some("pass"));
    second.keys.field_names = strings(&["velocity"]);
    map.insert("age.js".to_string(), first);
    map.insert("move.py".to_string(), second);
    let indices = BehaviorIndices::from_behaviors(&map).unwrap();
    let descriptions = exp_init_message(&indices, &map).unwrap();
    assert_eq!(
        descriptions,
        vec![
            BehaviorDescription {
                index: BehaviorIndex(0, 0),
                name: "age.js".to_string(),
                short_names: strings(&["age", "older"]),
                source: "state.age += 1".to_string(),
                required_field_keys: strings(&["age", "height", "age", "position", "age"]),
                language: Language::JavaScript,
                dyn_access: true,
            },
            BehaviorDescription {
                index: BehaviorIndex(1, 0),
                name: "move.py".to_string(),
                short_names: Vec::new(),
                source: "pass".to_string(),
                required_field_keys: strings(&["velocity"]),
                language: Language::Python,
                dyn_access: false,
            },
        ]
    );
}

#[test]
fn required_field_keys_keep_order_and_duplicates() {
    let keys = SendableBehaviorKeys {
        field_names: strings(&["b", "a", "b"]),
        dyn_access: false,
        built_in_key_use: Some(strings(&["a", "z", "a"])),
    };
    assert_eq!(keys.required_field_keys(), strings(&["b", "a", "b", "a", "z", "a"]));
    let without_built_in = SendableBehaviorKeys {
        field_names: strings(&["b", "a"]),
        dyn_access: true,
        built_in_key_use: None,
    };
    assert_eq!(without_built_in.required_field_keys(), strings(&["b", "a"]));
    let only_built_in = SendableBehaviorKeys {
        field_names: Vec::new(),
        dyn_access: true,
        built_in_key_use: Some(strings(&["position"])),
    };
    assert_eq!(only_built_in.required_field_keys(), strings(&["position"]));
}

#[test]
fn exp_init_message_needs_a_language_in_the_file_name() {
    let mut map = BehaviorMap::new();
    map.insert("age.js".to_string(), behavior("age.js", &[], Some("src")));
    map.insert("stored_without_extension".to_string(), behavior("move.py", &[], None));
    map.insert("third.py".to_string(), behavior("unregistered.py", &[], None));
    let indices = BehaviorIndices::from_behaviors(&map).unwrap();
    let error = exp_init_message(&indices, &map).unwrap_err();
    assert_eq!(error, BehaviorError::UnknownLanguage("stored_without_extension".to_string()));
    assert_eq!(error.message(), "Couldn't get language from behavior file name");
}

#[test]
fn exp_init_message_needs_the_index_of_every_behavior() {
    let indexed = map_of(vec![behavior("age.js", &[], Some("src"))]);
    let other = map_of(vec![
        behavior("age.js", &[], Some("src")),
        behavior("move.py", &[], None),
    ]);
    let indices = BehaviorIndices::from_behaviors(&indexed).unwrap();
    let error = exp_init_message(&indices, &other).unwrap_err();
    assert_eq!(error, BehaviorError::MissingIndex("move.py".to_string()));
    assert_eq!(error.message(), "Couldn't get index from behavior name");
}

#[test]
fn exp_init_message_needs_the_source_of_every_behavior() {
    let map = map_of(vec![
        behavior("age.js", &[], Some("src")),
        behavior("move.py", &[], None),
        behavior("grow.js", &[], None),
    ]);
    let indices = BehaviorIndices::from_behaviors(&map).unwrap();
    let error = exp_init_message(&indices, &map).unwrap_err();
    assert_eq!(error, BehaviorError::MissingSource("move.py".to_string()));
    assert_eq!(error.message(), "SharedBehavior didn't have an attached source");
}

#[test]
fn exp_init_message_finds_the_index_by_the_canonical_name_only() {
    let indexed = map_of(vec![behavior("age.js", &["alias.js"], Some("src"))]);
    let indices = BehaviorIndices::from_behaviors(&indexed).unwrap();
    let by_alias = map_of(vec![behavior("alias.js", &[], Some("src"))]);
    let descriptions = exp_init_message(&indices, &by_alias).unwrap();
    assert_eq!(descriptions[0].index, BehaviorIndex(0, 0));
    assert_eq!(descriptions[0].name, "alias.js");
}

#[test]
fn behavior_name_reads_back_as_its_text() {
    for text in ["", "age.js", "@hash/age/age.js", "größe.py", "温度"] {
        let name = BehaviorName::from_str(text);
        assert_eq!(name.as_str(), text);
        assert_eq!(name.as_bytes(), text.as_bytes());
        let owned = BehaviorName::from_string(text.to_string());
        assert_eq!(owned.as_str(), text);
        assert_eq!(owned.clone().as_str(), text);
    }
}

#[test]
fn behavior_name_is_a_key_of_the_table() {
    let indices = BehaviorIndices::from_behaviors(&sample_map()).unwrap();
    let name = BehaviorName::from_str("rot");
    assert_eq!(indices.get_index(name.as_bytes()), Some(&BehaviorIndex(2, 0)));
}

#[test]
fn small_maps_can_be_indexed() {
    assert!(can_index(&BehaviorMap::new()));
    assert!(can_index(&sample_map()));
    let unresolvable = map_of(vec![behavior("no_language", &[], None)]);
    assert!(can_index(&unresolvable));
}

#[test]
fn three_hundred_behaviors_of_one_language_are_numbered_in_order() {
    let mut map = BehaviorMap::new();
    for i in 0..300 {
        let name = format!("behavior_{i}.py");
        map.insert(name.clone(), behavior(&name, &[], Some("pass")));
        let other = format!("other_{i}.rs");
        map.insert(other.clone(), behavior(&other, &[], Some("fn main() {}")));
    }
    assert!(can_index(&map));
    let indices = BehaviorIndices::from_behaviors(&map).unwrap();
    for i in 0..300u16 {
        let name = format!("behavior_{i}.py");
        assert_eq!(indices.get_index(name.as_bytes()), Some(&BehaviorIndex(1, i)));
        assert_eq!(indices.get_name(&BehaviorIndex(1, i)), Some(&name));
        let other = format!("other_{i}.rs");
        assert_eq!(indices.get_index(other.as_bytes()), Some(&BehaviorIndex(2, i)));
    }
    assert_eq!(indices.get_name(&BehaviorIndex(1, 300)), None);
    assert_eq!(indices.get_name(&BehaviorIndex(0, 0)), None);
    let descriptions = exp_init_message(&indices, &map).unwrap();
    assert_eq!(descriptions.len(), 600);
    assert_eq!(descriptions[598].name, "behavior_299.py");
    assert_eq!(descriptions[599].index, BehaviorIndex(2, 299));
}
