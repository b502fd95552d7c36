use xouse::config::{diff, persisted_text, read_document, stale};
use xouse::document::{cmp_value, deep_cmp, Node};

fn table(entries: Vec<(&str, Node)>) -> Node {
    Node::Table(entries.into_iter().map(|(k, v)| (k.to_string(), v)).collect())
}

#[test]
fn read_document_gives_the_tree_of_the_text() {
    let tree = read_document("speed = 70.0\nname = \"pad\"\ncount = 3\non = true\n").unwrap();
    match tree {
        Node::Table(entries) => {
            assert_eq!(entries.len(), 4);
            assert_eq!(entries[0].0, "speed");
            assert!(matches!(entries[0].1, Node::Float(bits) if bits == 70.0f64.to_bits()));
            assert_eq!(entries[1].0, "name");
            assert!(matches!(&entries[1].1, Node::String(text) if text == "pad"));
            assert!(matches!(entries[2].1, Node::Integer(3)));
            assert!(matches!(entries[3].1, Node::Boolean(true)));
        }
        other => panic!("not a table: {:?}", other),
    }
}

#[test]
fn read_document_reads_nested_tables_and_arrays() {
    let tree = read_document("[actions]\nSouth = [\"SpeedInc\", { Click = \"Left\" }]\n\n[[pads]]\nid = 1\n\n[[pads]]\nid = 2\n").unwrap();
    let Node::Table(entries) = tree else { panic!("not a table") };
    assert_eq!(entries.len(), 2);
    let Node::Table(actions) = &entries[0].1 else { panic!("actions is no table") };
    assert_eq!(actions[0].0, "South");
    let Node::Array(list) = &actions[0].1 else { panic!("South is no array") };
    assert_eq!(list.len(), 2);
    assert!(matches!(&list[0], Node::String(text) if text == "SpeedInc"));
    let Node::InlineTable(click) = &list[1] else { panic!("no inline table") };
    assert_eq!(click[0].0, "Click");
    let Node::ArrayOfTables(pads) = &entries[1].1 else { panic!("pads is no array of tables") };
    assert_eq!(pads.len(), 2);
    let Node::Table(second) = &pads[1] else { panic!("no table") };
    assert!(matches!(second[0].1, Node::Integer(2)));
}

#[test]
fn read_document_rejects_malformed_text() {
    assert!(read_document("speed = = 3").is_err());
}

#[test]
fn diff_keeps_unknown_top_level_keys() {
    let on_disk = "# tuned by hand\nspeed = 70.0\nfuture_field = \"keep me\"\n";
    let fresh = "speed = 80.0\nspeed_step = 5.0\n";
    let merged = diff(fresh, on_disk).unwrap();
    assert_eq!(
        merged,
        "# tuned by hand\nspeed = 80.0\nfuture_field = \"keep me\"\nspeed_step = 5.0\n"
    );
}

#[test]
fn diff_leaves_equal_entries_untouched() {
    let on_disk = "speed   =   70.0   # my speed\nspeed_up = 3.0\n";
    let fresh = "speed = 70.0\nspeed_up = 4.0\n";
    let merged = diff(fresh, on_disk).unwrap();
    assert_eq!(merged, "speed   =   70.0   # my speed\nspeed_up = 4.0\n");
}

#[test]
fn diff_fails_on_a_malformed_document() {
    assert!(diff("speed = 1.0\n", "speed = = 3").is_err());
    assert!(diff("speed = = 3", "speed = 1.0\n").is_err());
}

#[test]
fn persisted_text_without_a_document_is_the_fresh_text() {
    assert_eq!(persisted_text(None, "speed = 70.0\n"), "speed = 70.0\n");
}

#[test]
fn persisted_text_falls_back_when_the_document_is_malformed() {
    assert_eq!(persisted_text(Some("speed = = 3"), "speed = 70.0\n"), "speed = 70.0\n");
}

#[test]
fn persisted_text_merges_into_an_existing_document() {
    let text = persisted_text(Some("extra = 1\n"), "speed = 70.0\n");
    assert_eq!(text, "extra = 1\nspeed = 70.0\n");
}

#[test]
fn stale_when_missing_or_different() {
    let old = table(vec![("speed", Node::Float(70.0f64.to_bits()))]);
    assert!(stale(&old, "speed_up", &Node::Float(3.0f64.to_bits())));
    assert!(stale(&old, "speed", &Node::Float(71.0f64.to_bits())));
    assert!(!stale(&old, "speed", &Node::Float(70.0f64.to_bits())));
}

#[test]
fn values_of_different_kinds_never_match() {
    assert!(!cmp_value(&Node::Integer(1), &Node::Float(1.0f64.to_bits())));
    assert!(!cmp_value(&Node::Integer(1), &Node::Boolean(true)));
    assert!(cmp_value(&Node::Integer(1), &Node::Integer(1)));
}

#[test]
fn arrays_of_different_length_never_match() {
    let short = Node::Array(vec![Node::Integer(1), Node::Integer(2)]);
    let long = Node::Array(vec![Node::Integer(1), Node::Integer(2), Node::Integer(3)]);
    let other = Node::Array(vec![Node::Integer(1), Node::Integer(3)]);
    assert!(!cmp_value(&short, &long));
    assert!(!cmp_value(&long, &short));
    assert!(!cmp_value(&short, &other));
    assert!(cmp_value(&short, &Node::Array(vec![Node::Integer(1), Node::Integer(2)])));
    assert!(cmp_value(&Node::Array(vec![]), &Node::Array(vec![])));
    assert!(!cmp_value(&Node::Array(vec![]), &short));
}

#[test]
fn tables_match_only_with_the_same_keys_and_values() {
    let empty = table(vec![]);
    let small = table(vec![("a", Node::Integer(1))]);
    let large = table(vec![("a", Node::Integer(1)), ("b", Node::Integer(2))]);
    let swapped = table(vec![("b", Node::Integer(2)), ("a", Node::Integer(1))]);
    let changed = table(vec![("a", Node::Integer(1)), ("b", Node::Integer(3))]);
    assert!(!deep_cmp(&empty, &small));
    assert!(!deep_cmp(&small, &empty));
    assert!(!deep_cmp(&small, &large));
    assert!(!deep_cmp(&large, &small));
    assert!(!deep_cmp(&large, &changed));
    assert!(deep_cmp(&large, &swapped));
    assert!(deep_cmp(&swapped, &large));
    assert!(deep_cmp(&large, &large));
    assert!(deep_cmp(&empty, &empty));
    assert!(deep_cmp(&Node::Empty, &Node::Empty));
    assert!(!deep_cmp(&Node::Empty, &small));
    assert!(!deep_cmp(&small, &Node::InlineTable(vec![("a".to_string(), Node::Integer(1))])));
}

#[test]
fn the_comparison_is_symmetric_and_reflexive() {
    let nodes = vec![
        Node::Empty,
        Node::Integer(1),
        Node::Float(1.5f64.to_bits()),
        Node::String("a".to_string()),
        Node::Array(vec![Node::Integer(1)]),
        Node::Array(vec![Node::Integer(1), Node::Integer(2)]),
        Node::InlineTable(vec![("a".to_string(), Node::Integer(1))]),
        table(vec![("a", Node::Integer(1))]),
        table(vec![("a", Node::Integer(1)), ("b", Node::Array(vec![]))]),
        table(vec![("b", Node::Array(vec![])), ("a", Node::Integer(1))]),
        Node::ArrayOfTables(vec![table(vec![("a", Node::Integer(1))])]),
        Node::ArrayOfTables(vec![]),
    ];
    for a in &nodes {
        assert!(deep_cmp(a, a));
        for b in &nodes {
            assert_eq!(deep_cmp(a, b), deep_cmp(b, a));
        }
    }
}

#[test]
fn of_two_entries_with_one_key_the_first_counts() {
    let twice = table(vec![("a", Node::Integer(1)), ("a", Node::Integer(2))]);
    let once = table(vec![("a", Node::Integer(1))]);
    let other = table(vec![("a", Node::Integer(2))]);
    assert!(deep_cmp(&twice, &once));
    assert!(deep_cmp(&once, &twice));
    assert!(deep_cmp(&twice, &twice));
    assert!(!deep_cmp(&twice, &other));
}

#[test]
fn read_document_reads_date_times_as_their_text() {
    let tree = read_document("since = 1979-05-27T07:32:00Z\nday = 1979-05-27\nratio = -0.0\n").unwrap();
    let Node::Table(entries) = tree else { panic!("not a table") };
    assert!(matches!(&entries[0].1, Node::Datetime(text) if text == "1979-05-27T07:32:00Z"));
    assert!(matches!(&entries[1].1, Node::Datetime(text) if text == "1979-05-27"));
    assert!(matches!(entries[2].1, Node::Float(bits) if bits == (-0.0f64).to_bits()));
}

#[test]
fn read_document_of_an_empty_text_is_an_empty_table() {
    assert!(matches!(read_document("").unwrap(), Node::Table(entries) if entries.is_empty()));
    assert!(matches!(read_document("# only a remark\n").unwrap(), Node::Table(entries) if entries.is_empty()));
}

#[test]
fn diff_into_an_empty_document_writes_every_entry() {
    let fresh = "speed = 70.0\nspeed_up = 3.0\n\n[actions]\nSelect = [{ Simple = \"ToggleVis\" }]\n";
    let merged = diff(fresh, "").unwrap();
    let old = read_document(&merged).unwrap();
    let new = read_document(fresh).unwrap();
    assert!(deep_cmp(&new, &old));
    assert!(deep_cmp(&old, &new));
}

#[test]
fn diff_replaces_a_nested_table_that_lost_an_entry_in_memory() {
    let on_disk = "[actions]\nSouth = [\"a\"]\nEast = [\"b\"]\n";
    let fresh = "[actions]\nSouth = [\"a\"]\n";
    let merged = diff(fresh, on_disk).unwrap();
    assert_eq!(merged, "[actions]\nSouth = [\"a\"]\n");
}

#[test]
fn diff_saves_a_binding_that_was_added_in_memory() {
    let on_disk = "[actions]\nSouth = [\"a\"]   # mine\n";
    let fresh = "[actions]\nSouth = [\"a\"]\nEast = [\"b\"]\n";
    let merged = diff(fresh, on_disk).unwrap();
    let saved = read_document(&merged).unwrap();
    assert!(deep_cmp(&saved, &read_document(fresh).unwrap()));
    assert!(merged.contains("East"));
}

#[test]
fn diff_writes_a_list_that_grew_or_shrank() {
    let merged = diff("a = [1, 2]\n", "a = [1]\n").unwrap();
    assert_eq!(merged, "a = [1, 2]\n");
    let merged = diff("a = [1]\n", "a = [1, 2]\n").unwrap();
    assert_eq!(merged, "a = [1]\n");
}

#[test]
fn diff_keeps_the_text_of_an_entry_that_holds_the_same() {
    let on_disk = "[actions]\nEast = [\"b\"]   # second\nSouth = [\"a\"]   # first\n\n[future]\nx = 1\n";
    let fresh = "[actions]\nSouth = [\"a\"]\nEast = [\"b\"]\n";
    assert_eq!(diff(fresh, on_disk).unwrap(), on_disk);
}

#[test]
fn after_a_merge_every_model_key_holds_the_value_in_memory() {
    let on_disk = "speed = 1.0\nnote = \"mine\"\n\n[actions]\nSouth = [\"a\"]\n";
    let fresh = "speed = 2.0\nspeed_step = 5.0\n\n[actions]\nSouth = [\"a\", \"b\"]\nEast = []\n";
    let merged = read_document(&diff(fresh, on_disk).unwrap()).unwrap();
    let Node::Table(saved) = merged else { panic!("not a table") };
    let Node::Table(model) = read_document(fresh).unwrap() else { panic!("not a table") };
    for (key, value) in &model {
        let held = saved.iter().find(|(name, _)| name == key).map(|(_, node)| node).unwrap();
        assert!(deep_cmp(held, value));
    }
    assert!(saved.iter().any(|(name, node)| name == "note" && matches!(node, Node::String(text) if text == "mine")));
}

#[test]
fn diff_is_idempotent_on_its_own_result() {
    let on_disk = "# remark\nspeed = 1.5\nkeep = [1, 2, 3]\n";
    let fresh = "speed = 2.5\nspeed_step = 5.0\n";
    let once = diff(fresh, on_disk).unwrap();
    let twice = diff(fresh, &once).unwrap();
    assert_eq!(once, twice);
}

#[test]
fn floats_are_compared_as_numbers() {
    assert!(cmp_value(&Node::Float(1.5f64.to_bits()), &Node::Float(1.5f64.to_bits())));
    assert!(!cmp_value(&Node::Float(1.5f64.to_bits()), &Node::Float(2.5f64.to_bits())));
    assert!(cmp_value(&Node::Float(0.0f64.to_bits()), &Node::Float((-0.0f64).to_bits())));
    assert!(cmp_value(&Node::Float((-0.0f64).to_bits()), &Node::Float(0.0f64.to_bits())));
    assert!(!cmp_value(&Node::Float(f64::NAN.to_bits()), &Node::Float(f64::NAN.to_bits())));
    assert!(!cmp_value(&Node::Float(f64::NAN.to_bits()), &Node::Float(1.0f64.to_bits())));
    assert!(cmp_value(&Node::Float(f64::INFINITY.to_bits()), &Node::Float(f64::INFINITY.to_bits())));
    assert!(!cmp_value(
        &Node::Float(f64::INFINITY.to_bits()),
        &Node::Float(f64::NEG_INFINITY.to_bits())
    ));
    for (x, y) in [(0.1f64, 0.1f64), (1e300, 1e300), (-3.25, 3.25), (5e-324, 0.0), (f64::MAX, f64::MIN)] {
        assert_eq!(cmp_value(&Node::Float(x.to_bits()), &Node::Float(y.to_bits())), x == y);
    }
}

#[test]
fn inline_tables_and_arrays_of_tables_are_compared_entry_by_entry() {
    let one = Node::InlineTable(vec![("a".to_string(), Node::Integer(1))]);
    let two = Node::InlineTable(vec![
        ("b".to_string(), Node::Boolean(false)),
        ("a".to_string(), Node::Integer(1)),
    ]);
    let two_swapped = Node::InlineTable(vec![
        ("a".to_string(), Node::Integer(1)),
        ("b".to_string(), Node::Boolean(false)),
    ]);
    assert!(!cmp_value(&one, &two));
    assert!(!cmp_value(&two, &one));
    assert!(cmp_value(&two, &two_swapped));
    let first = Node::ArrayOfTables(vec![table(vec![("id", Node::Integer(1))])]);
    let second = Node::ArrayOfTables(vec![
        table(vec![("id", Node::Integer(1))]),
        table(vec![("id", Node::Integer(2))]),
    ]);
    assert!(!deep_cmp(&first, &second));
    assert!(!deep_cmp(&second, &first));
    assert!(deep_cmp(&second, &second));
    assert!(!deep_cmp(&first, &one));
    assert!(!cmp_value(&first, &first));
    assert!(!cmp_value(&table(vec![]), &table(vec![])));
}
