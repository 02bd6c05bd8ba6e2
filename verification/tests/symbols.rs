use embed_js::snippet::{JsMac, JsMacArg, WasmPrimitiveType};
use embed_js::symbol::{content_bytes, hash_js_mac, symbol_for_hash, symbol_name};
use std::collections::hash_map::DefaultHasher;
use std::hash::Hasher;

fn sample() -> JsMac {
    JsMac {
        args: vec![
            JsMacArg::Ref(vec![true, false], 3, "p".to_string()),
            JsMacArg::Primitive(1, "né".to_string(), WasmPrimitiveType::F64),
        ],
        ret: Some(WasmPrimitiveType::I64),
        body: Some("go".to_string()),
    }
}

#[test]
fn symbol_is_prefix_and_lower_case_hex() {
    assert_eq!(symbol_for_hash(0), "__embed_js__0");
    assert_eq!(symbol_for_hash(9), "__embed_js__9");
    assert_eq!(symbol_for_hash(10), "__embed_js__a");
    assert_eq!(symbol_for_hash(15), "__embed_js__f");
    assert_eq!(symbol_for_hash(16), "__embed_js__10");
    assert_eq!(symbol_for_hash(255), "__embed_js__ff");
    assert_eq!(symbol_for_hash(0xabcdef0123), "__embed_js__abcdef0123");
    assert_eq!(symbol_for_hash(0x0123456789abcdef), "__embed_js__123456789abcdef");
    assert_eq!(symbol_for_hash(u64::MAX), "__embed_js__ffffffffffffffff");
}

#[test]
fn symbol_agrees_with_std_formatting() {
    for hash in [0u64, 1, 15, 16, 17, 4095, 4096, 1 << 32, (1 << 63) + 5, u64::MAX - 1] {
        assert_eq!(symbol_for_hash(hash), format!("__embed_js__{:x}", hash));
    }
}

#[test]
fn content_of_a_snippet() {
    let expected: Vec<u8> = vec![
        2, 0, 0, 0, 0, 0, 0, 0, // two arguments
        0, // by reference
        2, 0, 0, 0, 0, 0, 0, 0, // two markers
        1, 0, // exclusive, shared
        3, 0, 0, 0, 0, 0, 0, 0, // three dereferences
        1, 0, 0, 0, 0, 0, 0, 0, b'p', // name
        1, // by value
        1, 0, 0, 0, 0, 0, 0, 0, // one dereference
        3, 0, 0, 0, 0, 0, 0, 0, b'n', 0xc3, 0xa9, // name
        4, // f64
        2, // returns i64
        1, // has a body
        2, 0, 0, 0, 0, 0, 0, 0, b'g', b'o',
    ];
    assert_eq!(content_bytes(&sample()), expected);
}

#[test]
fn content_without_arguments_return_type_and_body() {
    let mac = JsMac { args: vec![], ret: None, body: None };
    assert_eq!(content_bytes(&mac), vec![0, 0, 0, 0, 0, 0, 0, 0, 0, 0]);
    let empty_body = JsMac { args: vec![], ret: None, body: Some(String::new()) };
    assert_eq!(content_bytes(&empty_body), vec![0, 0, 0, 0, 0, 0, 0, 0, 0, 1, 0, 0, 0, 0, 0, 0, 0, 0]);
}

#[test]
fn numbers_are_written_lowest_byte_first() {
    let mac = JsMac {
        args: vec![JsMacArg::Primitive(0x0102_0304, "x".to_string(), WasmPrimitiveType::I32)],
        ret: Some(WasmPrimitiveType::F32),
        body: None,
    };
    assert_eq!(
        content_bytes(&mac),
        vec![1, 0, 0, 0, 0, 0, 0, 0, 1, 4, 3, 2, 1, 0, 0, 0, 0, 1, 0, 0, 0, 0, 0, 0, 0, b'x', 1, 3, 0]
    );
}

#[test]
fn hash_is_that_of_the_default_hasher_over_the_content() {
    let mac = sample();
    let mut hasher = DefaultHasher::new();
    hasher.write(&content_bytes(&mac));
    let expected = hasher.finish();
    assert_eq!(hash_js_mac(&mac), expected);
    assert_eq!(symbol_name(&mac), format!("__embed_js__{:x}", expected));
}

#[test]
fn equal_snippets_have_equal_symbols() {
    assert_eq!(symbol_name(&sample()), symbol_name(&sample().clone()));
}

#[test]
fn symbols_tell_snippets_apart() {
    let base = sample();
    let mut other_body = sample();
    other_body.body = Some("go2".to_string());
    let mut no_body = sample();
    no_body.body = None;
    let mut other_ret = sample();
    other_ret.ret = None;
    let mut fewer_args = sample();
    fewer_args.args.pop();
    let mut swapped = sample();
    swapped.args.reverse();
    let all = [base, other_body, no_body, other_ret, fewer_args, swapped];
    for i in 0..all.len() {
        for j in 0..all.len() {
            if i != j {
                assert_ne!(all[i], all[j]);
                assert_ne!(symbol_name(&all[i]), symbol_name(&all[j]));
            }
        }
    }
}

#[test]
fn snippets_compare_by_content() {
    let a = sample();
    let mut b = sample();
    assert!(a == b);
    assert!(a.same(&b));
    b.args[0] = JsMacArg::Ref(vec![true, true], 3, "p".to_string());
    assert!(a != b);
    assert!(!a.same(&b));
    assert!(JsMacArg::Ref(vec![], 0, "x".to_string()) != JsMacArg::Ref(vec![false], 0, "x".to_string()));
    assert!(
        JsMacArg::Primitive(0, "x".to_string(), WasmPrimitiveType::I32)
            != JsMacArg::Primitive(0, "x".to_string(), WasmPrimitiveType::I64)
    );
    assert!(
        JsMacArg::Primitive(0, "x".to_string(), WasmPrimitiveType::I32)
            != JsMacArg::Ref(vec![false], 0, "x".to_string())
    );
    assert_eq!(a.args[1].name(), "né");
}

#[test]
fn different_hashes_have_different_symbols() {
    let hashes = [0u64, 1, 0xf, 0x10, 0x11, 0x100, 0x101, 0x1000, 0xabc, 0xabcd, u64::MAX, u64::MAX - 1];
    for a in hashes {
        for b in hashes {
            assert_eq!(symbol_for_hash(a) == symbol_for_hash(b), a == b);
        }
    }
}
