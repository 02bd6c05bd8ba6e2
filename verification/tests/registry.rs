use embed_js::aggregate::{merge_manifests, Manifest};
use embed_js::registry::SymbolMap;
use embed_js::snippet::{JsMac, JsMacArg, WasmPrimitiveType};
use embed_js::symbol::symbol_name;

fn yields(value: &str) -> JsMac {
    JsMac {
        args: vec![],
        ret: Some(WasmPrimitiveType::I32),
        body: Some(format!("return {};", value)),
    }
}

fn takes(name: &str) -> JsMac {
    JsMac {
        args: vec![JsMacArg::Primitive(0, name.to_string(), WasmPrimitiveType::I32)],
        ret: None,
        body: Some("f();".to_string()),
    }
}

#[test]
fn identical_snippets_of_two_units_are_one_entry() {
    let units = vec![
        Manifest { snippets: vec![yields("1")], prelude: String::new() },
        Manifest { snippets: vec![yields("1")], prelude: String::new() },
    ];
    let aggregate = merge_manifests(&units).unwrap();
    assert_eq!(aggregate.symbol_map.len(), 1);
    assert_eq!(aggregate.symbol_map.get(&symbol_name(&yields("1"))), Some(&yields("1")));
}

#[test]
fn every_snippet_stands_under_its_symbol() {
    let units = vec![
        Manifest { snippets: vec![yields("1"), takes("a"), yields("1")], prelude: "a;\n".to_string() },
        Manifest { snippets: vec![], prelude: String::new() },
        Manifest { snippets: vec![takes("b"), takes("a"), yields("2")], prelude: "b;\n".to_string() },
    ];
    let aggregate = merge_manifests(&units).unwrap();
    assert_eq!(aggregate.symbol_map.len(), 4);
    for mac in [yields("1"), yields("2"), takes("a"), takes("b")] {
        assert_eq!(aggregate.symbol_map.get(&symbol_name(&mac)), Some(&mac));
    }
    assert_eq!(aggregate.symbol_map.get("__embed_js__"), None);
    assert_eq!(aggregate.prelude, "a;\n\n\nb;\n");
}

#[test]
fn preludes_are_separated_by_a_line_break() {
    let none: Vec<Manifest> = vec![];
    assert_eq!(merge_manifests(&none).unwrap().prelude, "");
    let one = vec![Manifest { snippets: vec![], prelude: "x".to_string() }];
    assert_eq!(merge_manifests(&one).unwrap().prelude, "x");
    let three = vec![
        Manifest { snippets: vec![], prelude: "x".to_string() },
        Manifest { snippets: vec![], prelude: "y".to_string() },
        Manifest { snippets: vec![], prelude: "z".to_string() },
    ];
    assert_eq!(merge_manifests(&three).unwrap().prelude, "x\ny\nz");
}

#[test]
fn two_snippets_under_one_symbol_collide() {
    let mut map = SymbolMap::new();
    assert!(map.insert_under("__embed_js__1".to_string(), yields("1")).is_ok());
    assert!(map.insert_under("__embed_js__2".to_string(), takes("a")).is_ok());
    let collision = map.insert_under("__embed_js__1".to_string(), yields("2")).unwrap_err();
    assert_eq!(collision.symbol, "__embed_js__1");
    assert_eq!(collision.existing, yields("1"));
    assert_eq!(collision.incoming, yields("2"));
    assert_eq!(map.len(), 2);
    assert_eq!(map.get("__embed_js__1"), Some(&yields("1")));
    assert_eq!(map.get("__embed_js__2"), Some(&takes("a")));
}

#[test]
fn the_same_snippet_under_its_symbol_again_changes_nothing() {
    let mut map = SymbolMap::new();
    assert!(map.insert_under("s".to_string(), yields("1")).is_ok());
    assert!(map.insert_under("s".to_string(), yields("1")).is_ok());
    assert!(map.insert(takes("a")).is_ok());
    assert!(map.insert(takes("a")).is_ok());
    assert_eq!(map.len(), 2);
}

#[test]
fn a_snippet_is_found_and_taken_by_its_symbol() {
    let mut map = SymbolMap::new();
    map.insert(yields("1")).unwrap();
    map.insert(takes("a")).unwrap();
    map.insert(yields("2")).unwrap();
    let symbol = symbol_name(&takes("a"));
    assert_eq!(map.get(&symbol), Some(&takes("a")));
    assert_eq!(map.remove(&symbol), Some(takes("a")));
    assert_eq!(map.remove(&symbol), None);
    assert_eq!(map.get(&symbol), None);
    assert_eq!(map.len(), 2);
    assert_eq!(map.get(&symbol_name(&yields("1"))), Some(&yields("1")));
    assert_eq!(map.get(&symbol_name(&yields("2"))), Some(&yields("2")));
}
