use embed_js::lex::{is_lexable, parse_js_mac_text, tokenize};
use embed_js::parse::{parse_js_mac_span, parse_wasm_primitive_type, SpanJsMacArg};
use embed_js::snippet::{JsMac, JsMacArg, WasmPrimitiveType};
use embed_js::source::{parse_js_mac_source_map, parse_js_mac_string_source, SourceMap};
use embed_js::symbol::symbol_name;
use embed_js::token::{DelimToken, Span, Token, Tree};

fn tokens(text: &str) -> Vec<Tree> {
    tokenize(text).unwrap()
}

fn parse(text: &str) -> Result<JsMac, ()> {
    let parsed = parse_js_mac_text(text);
    assert_eq!(parsed, parse_js_mac_string_source(&tokens(text), text));
    parsed
}

fn prim(derefs: usize, name: &str, ty: WasmPrimitiveType) -> JsMacArg {
    JsMacArg::Primitive(derefs, name.to_string(), ty)
}

fn reference(refs: &[bool], derefs: usize, name: &str) -> JsMacArg {
    JsMacArg::Ref(refs.to_vec(), derefs, name.to_string())
}

#[test]
fn no_arguments_with_return_type() {
    let mac = parse("[] -> i32 { return 42; }").unwrap();
    assert_eq!(
        mac,
        JsMac {
            args: vec![],
            ret: Some(WasmPrimitiveType::I32),
            body: Some("return 42;".to_string()),
        }
    );
}

#[test]
fn same_text_same_snippet_and_symbol() {
    let text = "[] -> i32 { return 42; }";
    let first = parse(text).unwrap();
    let second = parse(text).unwrap();
    assert_eq!(first, second);
    assert_eq!(symbol_name(&first), symbol_name(&second));
}

#[test]
fn one_primitive_argument() {
    let mac = parse("[x as i32] -> i32 { return x + 1; }").unwrap();
    assert_eq!(
        mac,
        JsMac {
            args: vec![prim(0, "x", WasmPrimitiveType::I32)],
            ret: Some(WasmPrimitiveType::I32),
            body: Some("return x + 1;".to_string()),
        }
    );
}

#[test]
fn exclusive_reference_to_double_dereference() {
    let mac = parse("[&mut **x] {}").unwrap();
    assert_eq!(mac, JsMac { args: vec![reference(&[true], 2, "x")], ret: None, body: None });
}

#[test]
fn markers_may_be_mixed() {
    let mac = parse("[&*&mut x, & & y] { f(x, y); }").unwrap();
    assert_eq!(
        mac.args,
        vec![reference(&[false, true], 1, "x"), reference(&[false, false], 0, "y")]
    );
}

#[test]
fn body_alone() {
    let mac = parse("{ console.log(\"hi\"); }").unwrap();
    assert_eq!(
        mac,
        JsMac { args: vec![], ret: None, body: Some("console.log(\"hi\");".to_string()) }
    );
}

#[test]
fn arguments_without_return_type() {
    let mac = parse("[a as f32, *b as f64, **c as i64] { go(a, b, c); }").unwrap();
    assert_eq!(
        mac,
        JsMac {
            args: vec![
                prim(0, "a", WasmPrimitiveType::F32),
                prim(1, "b", WasmPrimitiveType::F64),
                prim(2, "c", WasmPrimitiveType::I64),
            ],
            ret: None,
            body: Some("go(a, b, c);".to_string()),
        }
    );
}

#[test]
fn comma_may_follow_the_last_argument() {
    let with = parse("[a as i32, &b,] { f(); }").unwrap();
    let without = parse("[a as i32, &b] { f(); }").unwrap();
    assert_eq!(with.args, without.args);
    assert_eq!(with.args.len(), 2);
}

#[test]
fn empty_body_is_no_body() {
    assert_eq!(parse("{}").unwrap().body, None);
    assert_eq!(parse("[] {  }").unwrap().body, None);
    assert_eq!(parse("[] -> f64 {}").unwrap(), JsMac {
        args: vec![],
        ret: Some(WasmPrimitiveType::F64),
        body: None,
    });
}

#[test]
fn body_is_the_text_as_written() {
    let mac = parse("{  return   x+1 ;  /* done */ go( ) ; }").unwrap();
    assert_eq!(mac.body, Some("return   x+1 ;  /* done */ go( ) ;".to_string()));
}

#[test]
fn text_outside_ascii_is_cut_by_bytes() {
    let mac = parse("[été as i32] { return \"é\" + été; }").unwrap();
    assert_eq!(mac.args, vec![prim(0, "été", WasmPrimitiveType::I32)]);
    assert_eq!(mac.body, Some("return \"é\" + été;".to_string()));
}

#[test]
fn text_that_is_no_token_trees() {
    for text in ["[x as i32] { ", "{ ( }", "]", "{ \"open }", "[x as i32] { } )"] {
        assert_eq!(tokenize(text), None, "{}", text);
        assert_eq!(parse_js_mac_text(text), Err(()), "{}", text);
    }
}

#[test]
fn a_byte_literal_that_opens_outside_ascii_is_no_token() {
    for text in ["b'é'", "{ return b'é'; }", "[x as i32] { b'\u{1F600}' }", "xb'é", "b'ü"] {
        assert!(!is_lexable(text), "{}", text);
        assert_eq!(tokenize(text), None, "{}", text);
        assert_eq!(parse_js_mac_text(text), Err(()), "{}", text);
    }
    for text in ["{ b'e' }", "{ b 'é' }", "{ 'é' }", "{ \"b\" 'é' }", "{ b'\\n' }", "{ été }", "b'"] {
        assert!(is_lexable(text), "{}", text);
    }
    assert!(tokenize("{ b'e' 'é' }").is_some());
    assert_eq!(
        parse_js_mac_text("{ b 'é' }").unwrap().body,
        Some("b 'é'".to_string())
    );
}

#[test]
fn tokens_that_the_grammar_reads() {
    let text = " [&mut *x, y as i32] -> f64 (\"s\\n\" ! <= 1.5 {_}) ";
    let tok = |token: Token, lo: usize, hi: usize| Tree::Token(token, Span { lo, hi });
    let expected = vec![
        Tree::Delimited(
            DelimToken::Bracket,
            vec![
                tok(Token::And, 2, 3),
                tok(Token::Ident("mut".to_string()), 3, 6),
                tok(Token::Star, 7, 8),
                tok(Token::Ident("x".to_string()), 8, 9),
                tok(Token::Comma, 9, 10),
                tok(Token::Ident("y".to_string()), 11, 12),
                tok(Token::Ident("as".to_string()), 13, 15),
                tok(Token::Ident("i32".to_string()), 16, 19),
            ],
            Span { lo: 1, hi: 20 },
        ),
        tok(Token::RArrow, 21, 23),
        tok(Token::Ident("f64".to_string()), 24, 27),
        Tree::Delimited(
            DelimToken::Paren,
            vec![
                tok(Token::Str("s\n".to_string()), 29, 34),
                tok(Token::Not, 35, 36),
                tok(Token::Other, 37, 39),
                tok(Token::Other, 40, 43),
                Tree::Delimited(
                    DelimToken::Brace,
                    vec![tok(Token::Other, 45, 46)],
                    Span { lo: 44, hi: 47 },
                ),
            ],
            Span { lo: 28, hi: 48 },
        ),
    ];
    assert_eq!(tokenize(text), Some(expected));
    assert_eq!(tokenize(""), Some(vec![]));
    assert_eq!(tokenize("  \n "), Some(vec![]));
}

#[test]
fn grammar_errors() {
    for text in [
        "",
        "x",
        "()",
        "( x as i32 ) { }",
        "[x] { }",
        "[x as] { }",
        "[x as u8] { }",
        "[x as i32 y as i32] { }",
        "[, x as i32] { }",
        "[x as i32,, y as i32] { }",
        "[&] { }",
        "[*] { }",
        "[&& x] { }",
        "[x as i32 as i64] { }",
        "[&x as i32] { }",
        "[1 as i32] { }",
        "[x as i32]",
        "[x as i32] ->",
        "[x as i32] -> { }",
        "[x as i32] -> u32 { }",
        "[x as i32] -> i32",
        "[x as i32] -> i32 ( )",
        "[x as i32] -> i32 { } ;",
        "[x as i32] { } { }",
        "{ } x",
        "{ } -> i32",
        "-> i32 { }",
    ] {
        assert_eq!(parse(text), Err(()), "{}", text);
    }
}

#[test]
fn keyword_mut_counts_only_after_a_reference_marker() {
    let mac = parse("[&mut x, & mut y] { }").unwrap();
    assert_eq!(mac.args, vec![reference(&[true], 0, "x"), reference(&[true], 0, "y")]);
    assert_eq!(parse("[*mut x] { }"), Err(()));
}

#[test]
fn spans_before_names_are_resolved() {
    let text = "[&*p, n as i64] -> f32 { body }";
    let spanned = parse_js_mac_span(&tokens(text)).unwrap();
    assert_eq!(spanned.args.len(), 2);
    match spanned.args[0] {
        SpanJsMacArg::Ref(ref refs, derefs, span) => {
            assert_eq!(refs, &vec![false]);
            assert_eq!(derefs, 1);
            assert_eq!(span, Span { lo: 3, hi: 4 });
        }
        _ => panic!("reference expected"),
    }
    match spanned.args[1] {
        SpanJsMacArg::Primitive(derefs, span, ty) => {
            assert_eq!(derefs, 0);
            assert_eq!(span, Span { lo: 6, hi: 7 });
            assert_eq!(ty, WasmPrimitiveType::I64);
        }
        _ => panic!("primitive expected"),
    }
    assert_eq!(spanned.ret, Some(WasmPrimitiveType::F32));
    assert_eq!(spanned.body, Some(Span { lo: 25, hi: 29 }));
}

#[test]
fn type_keywords() {
    let tts = tokens("i32 i64 f32 f64 u32 , I32");
    assert_eq!(parse_wasm_primitive_type(&tts, 0), Ok(WasmPrimitiveType::I32));
    assert_eq!(parse_wasm_primitive_type(&tts, 1), Ok(WasmPrimitiveType::I64));
    assert_eq!(parse_wasm_primitive_type(&tts, 2), Ok(WasmPrimitiveType::F32));
    assert_eq!(parse_wasm_primitive_type(&tts, 3), Ok(WasmPrimitiveType::F64));
    assert_eq!(parse_wasm_primitive_type(&tts, 4), Err(()));
    assert_eq!(parse_wasm_primitive_type(&tts, 5), Err(()));
    assert_eq!(parse_wasm_primitive_type(&tts, 6), Err(()));
    assert_eq!(parse_wasm_primitive_type(&tts, 7), Err(()));
}

#[test]
fn a_span_outside_the_source_is_an_error() {
    let text = "[x as i32] { x }";
    let tts = tokens(text);
    assert!(parse_js_mac_string_source(&tts, text).is_ok());
    assert_eq!(parse_js_mac_string_source(&tts, "[x as i32]"), Err(()));
    assert_eq!(parse_js_mac_string_source(&tts, ""), Err(()));
}

#[test]
fn a_span_that_cuts_a_character_is_an_error() {
    let tts = vec![Tree::Delimited(
        DelimToken::Brace,
        vec![Tree::Token(Token::Other, Span { lo: 1, hi: 2 })],
        Span { lo: 0, hi: 4 },
    )];
    assert_eq!(parse_js_mac_string_source(&tts, "{é}"), Err(()));
    assert_eq!(
        parse_js_mac_string_source(&tts, "{e}"),
        Ok(JsMac { args: vec![], ret: None, body: Some("e".to_string()) })
    );
}

#[test]
fn names_come_from_the_source_map() {
    let text = "[count as i32, &mut *out] -> i64 { return run(count, out); }";
    let shifted: Vec<Tree> = tokens(text).into_iter().map(|t| shift(t, 100)).collect();
    let mut map = SourceMap::new();
    map.add_file(0, "fn other() {}".to_string());
    map.add_file(100, text.to_string());
    let mac = parse_js_mac_source_map(&shifted, &map).unwrap();
    assert_eq!(mac, parse(text).unwrap());
    assert_eq!(mac.args[0], prim(0, "count", WasmPrimitiveType::I32));
    assert_eq!(mac.args[1], reference(&[true], 1, "out"));
    assert_eq!(parse_js_mac_source_map(&shifted, &SourceMap::new()), Err(()));
}

fn shift(tree: Tree, by: usize) -> Tree {
    match tree {
        Tree::Token(token, span) => {
            Tree::Token(token, Span { lo: span.lo + by, hi: span.hi + by })
        }
        Tree::Delimited(delim, inner, span) => Tree::Delimited(
            delim,
            inner.into_iter().map(|t| shift(t, by)).collect(),
            Span { lo: span.lo + by, hi: span.hi + by },
        ),
    }
}

#[test]
fn the_first_file_that_holds_a_span_gives_its_text() {
    let mut map = SourceMap::new();
    map.add_file(0, "abcdef".to_string());
    map.add_file(3, "XYZ".to_string());
    map.add_file(7, "été".to_string());
    assert_eq!(map.source_text(Span { lo: 1, hi: 3 }), Some("bc".to_string()));
    assert_eq!(map.source_text(Span { lo: 3, hi: 6 }), Some("def".to_string()));
    assert_eq!(map.source_text(Span { lo: 6, hi: 6 }), Some("".to_string()));
    assert_eq!(map.source_text(Span { lo: 7, hi: 9 }), Some("é".to_string()));
    assert_eq!(map.source_text(Span { lo: 7, hi: 12 }), Some("été".to_string()));
    assert_eq!(map.source_text(Span { lo: 8, hi: 9 }), None);
    assert_eq!(map.source_text(Span { lo: 5, hi: 8 }), None);
    assert_eq!(map.source_text(Span { lo: 4, hi: 3 }), None);
    assert_eq!(map.source_text(Span { lo: 20, hi: 21 }), None);
}

#[test]
fn every_text_is_answered() {
    let alphabet = [
        "b", "'", "\"", "\\", "é", "x", "r", "#", " ", "u", "{", "}", "0", "\n", "/", "*", "😀",
        "_", ".", "e", "-", "(",
    ];
    let mut texts = vec![String::new()];
    let mut from = 0;
    for _ in 0..3 {
        let upto = texts.len();
        for i in from..upto {
            for piece in alphabet {
                texts.push(format!("{}{}", texts[i], piece));
            }
        }
        from = upto;
    }
    let mut state: u64 = 0x2545_f491_4f6c_dd1d;
    for _ in 0..40_000 {
        let mut text = String::new();
        for _ in 0..10 {
            state ^= state << 13;
            state ^= state >> 7;
            state ^= state << 17;
            text.push_str(alphabet[(state % alphabet.len() as u64) as usize]);
        }
        texts.push(text);
    }
    let mut refused = 0;
    for text in &texts {
        if is_lexable(text) {
            let _ = tokenize(text);
        } else {
            refused += 1;
            assert_eq!(tokenize(text), None);
        }
    }
    assert!(refused > 0);
}
