use embed_js::registry::SymbolMap;
use embed_js::shim::{emit_shims, push_shim};
use embed_js::snippet::{JsMac, JsMacArg, WasmPrimitiveType};
use embed_js::wasm::Import;

fn import(module: &str, field: &str) -> Import {
    Import { module: module.to_string(), field: field.to_string() }
}

fn add() -> JsMac {
    JsMac {
        args: vec![
            JsMacArg::Primitive(0, "a".to_string(), WasmPrimitiveType::I32),
            JsMacArg::Ref(vec![true], 1, "b".to_string()),
            JsMacArg::Primitive(2, "c".to_string(), WasmPrimitiveType::F64),
        ],
        ret: Some(WasmPrimitiveType::I32),
        body: Some("return a + b + c;".to_string()),
    }
}

fn hello() -> JsMac {
    JsMac { args: vec![], ret: None, body: Some("console.log(\"hello\");".to_string()) }
}

fn nothing() -> JsMac {
    JsMac {
        args: vec![JsMacArg::Ref(vec![false], 0, "x".to_string())],
        ret: None,
        body: None,
    }
}

fn registry() -> SymbolMap {
    let mut map = SymbolMap::new();
    map.insert_under("__embed_js__a".to_string(), add()).unwrap();
    map.insert_under("__embed_js__b".to_string(), hello()).unwrap();
    map.insert_under("__embed_js__c".to_string(), nothing()).unwrap();
    map
}

#[test]
fn shim_of_one_snippet() {
    let mut out = String::from("<");
    push_shim(&mut out, "f", &add());
    assert_eq!(out, "<f:function(a, b, c){return a + b + c;}");
    let mut out = String::new();
    push_shim(&mut out, "g", &hello());
    assert_eq!(out, "g:function(){console.log(\"hello\");}");
    let mut out = String::new();
    push_shim(&mut out, "h", &nothing());
    assert_eq!(out, "h:function(x){}\n");
    let mut out = String::new();
    push_shim(&mut out, "", &JsMac { args: vec![], ret: None, body: Some(String::new()) });
    assert_eq!(out, ":function(){}");
}

#[test]
fn shims_follow_the_order_of_the_imports() {
    let mut map = registry();
    let imports = vec![
        import("env", "__embed_js__c"),
        import("env", "memory"),
        import("env", "__embed_js__a"),
        import("env", "__embed_js__b"),
    ];
    let text = emit_shims(&imports, &mut map);
    assert_eq!(
        text,
        "__embed_js__c:function(x){}\n,\n\
         __embed_js__a:function(a, b, c){return a + b + c;},\n\
         __embed_js__b:function(){console.log(\"hello\");}"
    );
    assert_eq!(map.len(), 0);
}

#[test]
fn a_snippet_that_is_not_imported_gets_no_shim() {
    let mut map = registry();
    let imports = vec![import("env", "__embed_js__b")];
    let text = emit_shims(&imports, &mut map);
    assert_eq!(text, "__embed_js__b:function(){console.log(\"hello\");}");
    assert!(!text.contains("__embed_js__a"));
    assert!(!text.contains("__embed_js__c"));
    assert!(!text.contains("return a + b + c;"));
    assert_eq!(map.len(), 2);
    assert_eq!(map.get("__embed_js__a"), Some(&add()));
    assert_eq!(map.get("__embed_js__c"), Some(&nothing()));
}

#[test]
fn only_the_foreign_environment_counts() {
    let mut map = registry();
    let imports = vec![
        import("other", "__embed_js__a"),
        import("Env", "__embed_js__b"),
        import("", "__embed_js__c"),
        import("env ", "__embed_js__c"),
    ];
    assert_eq!(emit_shims(&imports, &mut map), "");
    assert_eq!(map.len(), 3);
}

#[test]
fn a_snippet_is_linked_once() {
    let mut map = registry();
    let imports = vec![
        import("env", "__embed_js__b"),
        import("env", "__embed_js__b"),
        import("env", "__embed_js__b"),
    ];
    assert_eq!(emit_shims(&imports, &mut map), "__embed_js__b:function(){console.log(\"hello\");}");
}

#[test]
fn no_imports_no_shims() {
    let mut map = registry();
    let imports: Vec<Import> = vec![];
    assert_eq!(emit_shims(&imports, &mut map), "");
    assert_eq!(emit_shims(&[import("env", "x")], &mut SymbolMap::new()), "");
}
