use embed_js::snippet::{JsMac, JsMacArg, WasmPrimitiveType};
use embed_js::symbol::symbol_name;
use embed_js::lex::tokenize;
use embed_js::synth::{
    bind, embed_error, embed_js, embed_js_tokens, prim_to_ty, try_embed_js, unwrap_delimited,
    EmbedError, ForeignType, Passing,
};
use embed_js::token::{Span, Token, Tree};

fn tokens(text: &str) -> Vec<Tree> {
    tokenize(text).unwrap()
}

fn wrapped(snippet: &str) -> String {
    format!(
        "#[allow(dead_code)] enum EmbedJsStruct {{ Input = (stringify!({}), 0).1 }}",
        snippet
    )
}

#[test]
fn a_primitive_argument_keeps_its_type() {
    let mac = JsMac {
        args: vec![JsMacArg::Primitive(0, "x".to_string(), WasmPrimitiveType::I32)],
        ret: Some(WasmPrimitiveType::I32),
        body: Some("return x + 1;".to_string()),
    };
    let binding = bind(&mac);
    assert_eq!(binding.symbol, symbol_name(&mac));
    assert_eq!(binding.type_params, 0);
    assert_eq!(binding.args.len(), 1);
    assert_eq!(binding.args[0].name, "x");
    assert_eq!(binding.args[0].passing, Passing::Value(WasmPrimitiveType::I32));
    assert_eq!(binding.foreign_signature(), vec![ForeignType::Value(WasmPrimitiveType::I32)]);
    assert_eq!(binding.ret, Some(WasmPrimitiveType::I32));
}

#[test]
fn a_reference_crosses_as_one_address() {
    let mac = JsMac {
        args: vec![JsMacArg::Ref(vec![true], 2, "x".to_string())],
        ret: None,
        body: None,
    };
    let binding = bind(&mac);
    assert_eq!(binding.type_params, 1);
    assert_eq!(binding.args[0].name, "x");
    assert_eq!(binding.args[0].passing, Passing::Address { type_param: 0, mutable: true });
    assert_eq!(binding.foreign_signature(), vec![ForeignType::Address]);
    assert_eq!(binding.ret, None);
}

#[test]
fn each_reference_has_a_type_parameter_of_its_own() {
    let mac = JsMac {
        args: vec![
            JsMacArg::Ref(vec![false, true], 0, "a".to_string()),
            JsMacArg::Primitive(1, "b".to_string(), WasmPrimitiveType::F64),
            JsMacArg::Ref(vec![true, false], 0, "c".to_string()),
            JsMacArg::Primitive(0, "d".to_string(), WasmPrimitiveType::I64),
            JsMacArg::Ref(vec![false], 3, "e".to_string()),
        ],
        ret: Some(WasmPrimitiveType::F32),
        body: Some("f();".to_string()),
    };
    let binding = bind(&mac);
    assert_eq!(binding.type_params, 3);
    let names: Vec<&str> = binding.args.iter().map(|a| a.name.as_str()).collect();
    assert_eq!(names, vec!["a", "b", "c", "d", "e"]);
    let passing: Vec<Passing> = binding.args.iter().map(|a| a.passing).collect();
    assert_eq!(
        passing,
        vec![
            Passing::Address { type_param: 0, mutable: false },
            Passing::Value(WasmPrimitiveType::F64),
            Passing::Address { type_param: 1, mutable: true },
            Passing::Value(WasmPrimitiveType::I64),
            Passing::Address { type_param: 2, mutable: false },
        ]
    );
    assert_eq!(
        binding.foreign_signature(),
        vec![
            ForeignType::Address,
            ForeignType::Value(WasmPrimitiveType::F64),
            ForeignType::Address,
            ForeignType::Value(WasmPrimitiveType::I64),
            ForeignType::Address,
        ]
    );
    assert_eq!(binding.ret, Some(WasmPrimitiveType::F32));
}

#[test]
fn keywords_of_the_types() {
    assert_eq!(prim_to_ty(WasmPrimitiveType::I32), "i32");
    assert_eq!(prim_to_ty(WasmPrimitiveType::I64), "i64");
    assert_eq!(prim_to_ty(WasmPrimitiveType::F32), "f32");
    assert_eq!(prim_to_ty(WasmPrimitiveType::F64), "f64");
}

#[test]
fn trees_inside_a_group() {
    let tts = tokens("(a b) [] {c (d)}");
    assert_eq!(
        unwrap_delimited(&tts[0]),
        &[
            Tree::Token(Token::Ident("a".to_string()), Span { lo: 1, hi: 2 }),
            Tree::Token(Token::Ident("b".to_string()), Span { lo: 3, hi: 4 }),
        ][..]
    );
    assert!(unwrap_delimited(&tts[1]).is_empty());
    let inner = unwrap_delimited(&tts[2]);
    assert_eq!(inner.len(), 2);
    assert_eq!(inner[0], Tree::Token(Token::Ident("c".to_string()), Span { lo: 10, hi: 11 }));
    assert_eq!(
        unwrap_delimited(&inner[1]),
        &[Tree::Token(Token::Ident("d".to_string()), Span { lo: 13, hi: 14 })][..]
    );
}

#[test]
fn binding_of_a_wrapped_snippet() {
    let source = wrapped("[x as i32] -> i32 { return x + 1; }");
    assert_eq!(embed_error(&source), None);
    let binding = embed_js(&source);
    let mac = JsMac {
        args: vec![JsMacArg::Primitive(0, "x".to_string(), WasmPrimitiveType::I32)],
        ret: Some(WasmPrimitiveType::I32),
        body: Some("return x + 1;".to_string()),
    };
    assert_eq!(binding.symbol, symbol_name(&mac));
    assert_eq!(binding.foreign_signature(), vec![ForeignType::Value(WasmPrimitiveType::I32)]);
    assert_eq!(binding.ret, Some(WasmPrimitiveType::I32));

    let source = wrapped("[&mut **x] {}");
    let binding = try_embed_js(&source).unwrap();
    assert_eq!(binding.stub(), embed_js(&source).stub());
    assert_eq!(binding.args[0].passing, Passing::Address { type_param: 0, mutable: true });
    assert_eq!(binding.foreign_signature(), vec![ForeignType::Address]);

    let source = wrapped("{ go(); }");
    let binding = embed_js_tokens(&tokens(&source), &source).unwrap();
    assert!(binding.args.is_empty());
    assert_eq!(binding.type_params, 0);
    assert_eq!(binding.ret, None);
}

#[test]
fn binding_errors() {
    let source = wrapped("[x] { }");
    assert_eq!(try_embed_js(&source).unwrap_err(), EmbedError::Syntax);
    assert_eq!(embed_error(&source), Some(EmbedError::Syntax));
    assert_eq!(embed_js_tokens(&tokens(&source), &source).unwrap_err(), EmbedError::Syntax);
    let source = wrapped("");
    assert_eq!(try_embed_js(&source).unwrap_err(), EmbedError::Syntax);
    let source = wrapped("[x as i32] { ");
    assert_eq!(try_embed_js(&source).unwrap_err(), EmbedError::Tokens);
    assert_eq!(embed_error(&source), Some(EmbedError::Tokens));
    let source = wrapped("[x as i32] { return b'é'; }");
    assert_eq!(try_embed_js(&source).unwrap_err(), EmbedError::Tokens);
    for source in [
        "",
        "enum E { A }",
        "#[a] enum E",
        "#[a] enum E x",
        "#[a] enum E { A }",
        "#[a] enum E { A = 1 }",
        "#[a] enum E { A = (1) }",
        "#[a] enum E { A = (f ! x) }",
    ] {
        assert_eq!(try_embed_js(source).unwrap_err(), EmbedError::Shape, "{}", source);
        assert_eq!(embed_error(source), Some(EmbedError::Shape));
        assert_eq!(embed_js_tokens(&tokens(source), source).unwrap_err(), EmbedError::Shape);
    }
    let source = wrapped("[x as i32] { x }");
    assert_eq!(embed_js_tokens(&tokens(&source), "").unwrap_err(), EmbedError::Syntax);
}

#[test]
fn stub_of_a_primitive_argument() {
    let mac = JsMac {
        args: vec![JsMacArg::Primitive(0, "x".to_string(), WasmPrimitiveType::I32)],
        ret: Some(WasmPrimitiveType::I32),
        body: Some("return x + 1;".to_string()),
    };
    let s = symbol_name(&mac);
    let binding = bind(&mac);
    assert_eq!(binding.foreign_declaration(), format!("fn {}(x: i32) -> i32;", s));
    assert_eq!(binding.foreign_call(), format!("{}(x)", s));
    assert_eq!(
        binding.stub(),
        format!(
            "impl EmbedJsStruct {{ fn call(x: i32) -> i32 {{ extern {{ fn {s}(x: i32) -> i32; }} \
             unsafe {{ {s}(x) }} }} }}",
            s = s
        )
    );
}

#[test]
fn stub_of_references() {
    let mac = JsMac {
        args: vec![
            JsMacArg::Ref(vec![true], 2, "x".to_string()),
            JsMacArg::Primitive(0, "n".to_string(), WasmPrimitiveType::F64),
            JsMacArg::Ref(vec![false, true], 0, "y".to_string()),
        ],
        ret: None,
        body: None,
    };
    let s = symbol_name(&mac);
    let binding = bind(&mac);
    assert_eq!(
        binding.foreign_declaration(),
        format!("fn {}(x: *mut u8, n: f64, y: *mut u8);", s)
    );
    assert_eq!(
        binding.foreign_call(),
        format!("{}(x as *mut T0 as *mut u8, n, y as *const T1 as *const u8 as *mut u8)", s)
    );
    assert_eq!(
        binding.stub(),
        format!(
            "impl EmbedJsStruct {{ fn call<T0, T1>(x: &mut T0, n: f64, y: &T1) {{ \
             extern {{ fn {s}(x: *mut u8, n: f64, y: *mut u8); }} \
             unsafe {{ {s}(x as *mut T0 as *mut u8, n, y as *const T1 as *const u8 as *mut u8) }} \
             }} }}",
            s = s
        )
    );
}

#[test]
fn stub_without_arguments() {
    let mac = JsMac { args: vec![], ret: Some(WasmPrimitiveType::I64), body: None };
    let s = symbol_name(&mac);
    assert_eq!(
        bind(&mac).stub(),
        format!(
            "impl EmbedJsStruct {{ fn call() -> i64 {{ extern {{ fn {s}() -> i64; }} \
             unsafe {{ {s}() }} }} }}",
            s = s
        )
    );
}

#[test]
fn type_parameters_are_numbered_in_decimal() {
    let mac = JsMac {
        args: (0..12).map(|i| JsMacArg::Ref(vec![i % 2 == 0], 0, format!("a{}", i))).collect(),
        ret: Some(WasmPrimitiveType::F32),
        body: None,
    };
    let binding = bind(&mac);
    assert_eq!(binding.type_params, 12);
    let stub = binding.stub();
    assert!(stub.starts_with(
        "impl EmbedJsStruct { fn call<T0, T1, T2, T3, T4, T5, T6, T7, T8, T9, T10, T11>(a0: &mut T0, a1: &T1, "
    ));
    assert!(stub.contains("a10: &mut T10, a11: &T11) -> f32 { extern { fn "));
    assert!(stub.ends_with("a10 as *mut T10 as *mut u8, a11 as *const T11 as *const u8 as *mut u8) } } }"));
}

#[test]
fn a_snippet_knows_whether_it_is_well_formed() {
    let bad = JsMac { args: vec![JsMacArg::Ref(vec![], 0, "x".to_string())], ret: None, body: None };
    assert!(!bad.is_well_formed());
    let good = JsMac {
        args: vec![
            JsMacArg::Primitive(0, "p".to_string(), WasmPrimitiveType::I32),
            JsMacArg::Ref(vec![false], 0, "x".to_string()),
        ],
        ret: None,
        body: None,
    };
    assert!(good.is_well_formed());
    assert!(JsMac { args: vec![], ret: None, body: None }.is_well_formed());
}
