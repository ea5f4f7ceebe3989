use mistlib_wasm::app::nodes::{get_all_nodes, get_neighbors, merge_json_array_by_id, merge_node};
use mistlib_wasm::table::Table;

fn texts(lists: &[&str]) -> Vec<String> {
    lists.iter().map(|list| list.to_string()).collect()
}

#[test]
fn nodes_of_several_rooms_are_listed_once() {
    let lists = texts(&[
        r#"[{"id":"a","x":1},{"id":"b","x":2}]"#,
        r#"[ {"x":3, "id":"a"} ]"#,
    ]);
    let merged: serde_json::Value = serde_json::from_str(&get_neighbors(&lists)).unwrap();
    let mut seen: Vec<(String, u64)> = merged
        .as_array()
        .unwrap()
        .iter()
        .map(|item| {
            (item["id"].as_str().unwrap().to_string(), item["x"].as_u64().unwrap())
        })
        .collect();
    seen.sort();
    assert_eq!(seen, vec![("a".to_string(), 3), ("b".to_string(), 2)]);
}

#[test]
fn what_is_no_list_or_has_no_name_adds_nothing() {
    let lists = texts(&["{}", "nonsense", r#"[{"x":1},{"id":5},{"id":"a"}]"#, "[]"]);
    assert_eq!(get_all_nodes(&lists), r#"[{"id":"a"}]"#);
    assert_eq!(get_neighbors(&Vec::new()), "[]");
}

#[test]
fn later_descriptions_replace_earlier_ones() {
    let mut merged: Table<String, String> = Table::new();
    merge_node(&mut merged, Some("a".to_string()), "first".to_string());
    merge_node(&mut merged, None, "nameless".to_string());
    merge_node(&mut merged, Some("a".to_string()), "second".to_string());
    assert_eq!(merged.len(), 1);
    assert_eq!(merged.get(&"a".to_string()), Some(&"second".to_string()));

    merge_json_array_by_id(&mut merged, r#"[{"id":"b"}]"#);
    assert_eq!(merged.get(&"b".to_string()), Some(&r#"{"id":"b"}"#.to_string()));
}
