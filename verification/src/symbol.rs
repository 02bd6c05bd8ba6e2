//! Symbols: the name under which a snippet is imported. A symbol is a fixed prefix
//! followed by the hash of the snippet's content, in lower-case hexadecimal digits.

use std::collections::hash_map::DefaultHasher;
use std::hash::Hasher;
use vstd::prelude::*;
use vstd::std_specs::hash::DefaultHasherAdditionalSpecFns;
use vstd::string::{StrSliceExecFns, StringExecFns};
use vstd::utf8::encode_utf8;
use crate::snippet::{Arg, JsMac, JsMacArg, Snippet, WasmPrimitiveType};

verus! {

/// The lowest `k` bytes of `n`, the lowest first.
pub open spec fn le_bytes(n: nat, k: nat) -> Seq<u8>
    decreases k,
{
    if k == 0 {
        Seq::empty()
    } else {
        seq![(n % 256) as u8] + le_bytes(n / 256, (k - 1) as nat)
    }
}

/// A number in the content of a snippet: its lowest eight bytes, the lowest first.
pub open spec fn encode_nat(n: nat) -> Seq<u8> {
    le_bytes(n, 8)
}

/// A text in the content of a snippet: the number of its UTF-8 bytes, then the bytes.
pub open spec fn encode_text(s: Seq<char>) -> Seq<u8> {
    encode_nat(encode_utf8(s).len()) + encode_utf8(s)
}

/// The byte that stands for a type.
pub open spec fn type_code(ty: WasmPrimitiveType) -> u8 {
    match ty {
        WasmPrimitiveType::I32 => 1,
        WasmPrimitiveType::I64 => 2,
        WasmPrimitiveType::F32 => 3,
        WasmPrimitiveType::F64 => 4,
    }
}

/// The bytes that stand for a list of reference markers, one byte each.
pub open spec fn encode_markers(refs: Seq<bool>) -> Seq<u8> {
    Seq::new(refs.len(), |i: int| if refs[i] { 1u8 } else { 0u8 })
}

/// An argument in the content of a snippet.
pub open spec fn encode_arg(a: Arg) -> Seq<u8> {
    match a {
        Arg::Reference { marker_chain, indirection_depth, source_name } => seq![0u8] + encode_nat(
            marker_chain.len(),
        ) + encode_markers(marker_chain) + encode_nat(indirection_depth) + encode_text(
            source_name,
        ),
        Arg::Primitive { indirection_depth, source_name, ty } => seq![1u8] + encode_nat(
            indirection_depth,
        ) + encode_text(source_name) + seq![type_code(ty)],
    }
}

/// The arguments of a snippet in its content, one after the other.
pub open spec fn encode_args(args: Seq<Arg>) -> Seq<u8>
    decreases args.len(),
{
    if args.len() == 0 {
        Seq::empty()
    } else {
        encode_args(args.drop_last()) + encode_arg(args.last())
    }
}

/// The return type in the content of a snippet.
pub open spec fn encode_ret(ret: Option<WasmPrimitiveType>) -> Seq<u8> {
    match ret {
        Some(ty) => seq![type_code(ty)],
        None => seq![0u8],
    }
}

/// The body in the content of a snippet.
pub open spec fn encode_body(body: Option<Seq<char>>) -> Seq<u8> {
    match body {
        Some(text) => seq![1u8] + encode_text(text),
        None => seq![0u8],
    }
}

/// The content of a snippet as bytes: the number of arguments, the arguments, the
/// return type and the body.
pub open spec fn content(s: Snippet) -> Seq<u8> {
    encode_nat(s.args.len()) + encode_args(s.args) + encode_ret(s.ret) + encode_body(s.body)
}

/// Whether a number fits in the eight bytes that stand for it in a content.
pub open spec fn small(n: nat) -> bool {
    n < 0x1_0000_0000_0000_0000
}

/// Whether the UTF-8 form of a text has a length that fits.
pub open spec fn text_fits(text: Seq<char>) -> bool {
    small(encode_utf8(text).len())
}

/// Whether the numbers and lengths of an argument fit.
pub open spec fn arg_fits(a: Arg) -> bool {
    match a {
        Arg::Reference { marker_chain, indirection_depth, source_name } => small(
            marker_chain.len(),
        ) && small(indirection_depth) && text_fits(source_name),
        Arg::Primitive { indirection_depth, source_name, .. } => small(indirection_depth)
            && text_fits(source_name),
    }
}

/// Whether the numbers and lengths of each argument fit.
pub open spec fn args_fit(args: Seq<Arg>) -> bool {
    forall|i: int| 0 <= i < args.len() ==> arg_fits(#[trigger] args[i])
}

/// Whether the numbers and lengths of a snippet fit, as those of every snippet in
/// memory do.
pub open spec fn fits(s: Snippet) -> bool {
    &&& small(s.args.len())
    &&& args_fit(s.args)
    &&& s.body matches Some(text) ==> text_fits(text)
}

/// The hash of a snippet: that of the standard library's default hasher after one
/// write of the snippet's content.
pub open spec fn content_hash(s: Snippet) -> u64 {
    DefaultHasher::spec_finish(seq![content(s)])
}

/// The sixteen hexadecimal digits.
pub open spec fn hex_digits() -> Seq<char> {
    "0123456789abcdef"@
}

/// `n` in hexadecimal digits, without leading zeros.
pub open spec fn hex(n: nat) -> Seq<char>
    decreases n,
{
    if n < 16 {
        seq![hex_digits()[n as int]]
    } else {
        hex(n / 16).push(hex_digits()[(n % 16) as int])
    }
}

/// The prefix of every symbol.
pub open spec fn symbol_prefix() -> Seq<char> {
    "__embed_js__"@
}

/// The symbol of a snippet whose hash is `hash`.
pub open spec fn symbol_of_hash(hash: u64) -> Seq<char> {
    symbol_prefix() + hex(hash as nat)
}

/// The symbol of a snippet.
pub open spec fn symbol(s: Snippet) -> Seq<char> {
    symbol_of_hash(content_hash(s))
}

/// The number that a hexadecimal digit stands for.
pub open spec fn digit_value(c: char) -> int {
    if '0' <= c <= '9' {
        c as int - '0' as int
    } else {
        c as int - 'a' as int + 10
    }
}

/// Each of the sixteen digits stands for its place among them.
proof fn lemma_digit_value(d: int)
    requires
        0 <= d < 16,
    ensures
        digit_value(hex_digits()[d]) == d,
{
    reveal_strlit("0123456789abcdef");
    if d < 4 {
        assert(d == 0 || d == 1 || d == 2 || d == 3);
    } else if d < 8 {
        assert(d == 4 || d == 5 || d == 6 || d == 7);
    } else if d < 12 {
        assert(d == 8 || d == 9 || d == 10 || d == 11);
    } else {
        assert(d == 12 || d == 13 || d == 14 || d == 15);
    }
}

/// No two numbers have the same hexadecimal digits.
proof fn lemma_hex_names_one_number(a: nat, b: nat)
    requires
        hex(a) == hex(b),
    ensures
        a == b,
    decreases a,
{
    reveal_strlit("0123456789abcdef");
    lemma_digit_value((a % 16) as int);
    lemma_digit_value((b % 16) as int);
    lemma_hex_is_not_empty(a / 16);
    lemma_hex_is_not_empty(b / 16);
    if a >= 16 && b >= 16 {
        assert(hex(a).drop_last() =~= hex(a / 16));
        assert(hex(b).drop_last() =~= hex(b / 16));
        lemma_hex_names_one_number(a / 16, b / 16);
        assert(hex(a).last() == hex_digits()[(a % 16) as int]);
        assert(hex(b).last() == hex_digits()[(b % 16) as int]);
        assert(a % 16 == b % 16);
    } else if a >= 16 {
        assert(hex(a).len() == hex(a / 16).len() + 1);
        assert(hex(b).len() == 1);
    } else if b >= 16 {
        assert(hex(b).len() == hex(b / 16).len() + 1);
        assert(hex(a).len() == 1);
    } else {
        assert(hex(a)[0] == hex_digits()[a as int]);
        assert(hex(b)[0] == hex_digits()[b as int]);
    }
}

/// Every number has at least one hexadecimal digit.
proof fn lemma_hex_is_not_empty(n: nat)
    ensures
        hex(n).len() >= 1,
    decreases n,
{
    if n >= 16 {
        lemma_hex_is_not_empty(n / 16);
    }
}

/// No two hashes have the same symbol.
pub proof fn lemma_symbol_names_one_hash(a: u64, b: u64)
    requires
        symbol_of_hash(a) == symbol_of_hash(b),
    ensures
        a == b,
{
    let prefix = symbol_prefix();
    assert(hex(a as nat) =~= symbol_of_hash(a).skip(prefix.len() as int));
    assert(hex(b as nat) =~= symbol_of_hash(b).skip(prefix.len() as int));
    lemma_hex_names_one_number(a as nat, b as nat);
}

/// Appends a number to the content.
fn put_nat(out: &mut Vec<u8>, n: u64)
    ensures
        final(out)@ == old(out)@ + encode_nat(n as nat),
{
    let mut rest: u64 = n;
    let mut k: usize = 8;
    while k > 0
        invariant
            k <= 8,
            old(out)@ + encode_nat(n as nat) == out@ + le_bytes(rest as nat, k as nat),
        decreases k,
    {
        out.push((rest % 256) as u8);
        assert(old(out)@ + encode_nat(n as nat) =~= out@ + le_bytes(
            (rest / 256) as nat,
            (k - 1) as nat,
        ));
        rest = rest / 256;
        k -= 1;
    }
    assert(out@ + le_bytes(rest as nat, 0) =~= out@);
}

/// Appends the bytes `bytes` to the content.
fn put_bytes(out: &mut Vec<u8>, bytes: &[u8])
    ensures
        final(out)@ == old(out)@ + bytes@,
{
    let mut i: usize = 0;
    while i < bytes.len()
        invariant
            i <= bytes@.len(),
            out@ == old(out)@ + bytes@.take(i as int),
        decreases bytes@.len() - i,
    {
        out.push(bytes[i]);
        i += 1;
    }
}

/// Appends a text to the content.
fn put_text(out: &mut Vec<u8>, text: &str)
    ensures
        final(out)@ == old(out)@ + encode_text(text@),
        text_fits(text@),
{
    let bytes = text.as_bytes();
    put_nat(out, bytes.len() as u64);
    put_bytes(out, bytes);
}

/// The byte that stands for a type.
fn code_of(ty: WasmPrimitiveType) -> (r: u8)
    ensures
        r == type_code(ty),
{
    match ty {
        WasmPrimitiveType::I32 => 1,
        WasmPrimitiveType::I64 => 2,
        WasmPrimitiveType::F32 => 3,
        WasmPrimitiveType::F64 => 4,
    }
}

/// Appends a list of reference markers to the content.
fn put_markers(out: &mut Vec<u8>, refs: &Vec<bool>)
    ensures
        final(out)@ == old(out)@ + encode_markers(refs@),
{
    let mut i: usize = 0;
    while i < refs.len()
        invariant
            i <= refs@.len(),
            out@ == old(out)@ + encode_markers(refs@).take(i as int),
        decreases refs@.len() - i,
    {
        out.push(if refs[i] { 1u8 } else { 0u8 });
        i += 1;
    }
}

/// Appends an argument to the content.
fn put_arg(out: &mut Vec<u8>, arg: &JsMacArg)
    ensures
        final(out)@ == old(out)@ + encode_arg(arg@),
        arg_fits(arg@),
{
    match arg {
        JsMacArg::Ref(refs, derefs, name) => {
            out.push(0u8);
            put_nat(out, refs.len() as u64);
            put_markers(out, refs);
            put_nat(out, *derefs as u64);
            put_text(out, name.as_str());
        },
        JsMacArg::Primitive(derefs, name, ty) => {
            out.push(1u8);
            put_nat(out, *derefs as u64);
            put_text(out, name.as_str());
            out.push(code_of(*ty));
        },
    }
}

/// The content of a snippet as bytes.
pub fn content_bytes(mac: &JsMac) -> (r: Vec<u8>)
    ensures
        r@ == content(mac@),
        fits(mac@),
{
    let mut out: Vec<u8> = Vec::new();
    put_nat(&mut out, mac.args.len() as u64);
    let ghost head = out@;
    let mut i: usize = 0;
    while i < mac.args.len()
        invariant
            i <= mac.args@.len(),
            mac@.args.len() == mac.args@.len(),
            out@ == head + encode_args(mac@.args.take(i as int)),
            forall|j: int| 0 <= j < i ==> arg_fits(#[trigger] mac@.args[j]),
        decreases mac.args@.len() - i,
    {
        put_arg(&mut out, &mac.args[i]);
        proof {
            let next = mac@.args.take(i + 1);
            assert(next.drop_last() =~= mac@.args.take(i as int));
        }
        i += 1;
    }
    assert(mac@.args.take(mac@.args.len() as int) =~= mac@.args);
    match mac.ret {
        Some(ty) => {
            out.push(code_of(ty));
        },
        None => {
            out.push(0u8);
        },
    }
    match &mac.body {
        Some(text) => {
            out.push(1u8);
            put_text(&mut out, text.as_str());
        },
        None => {
            out.push(0u8);
        },
    }
    out
}

/// The hash of a snippet.
pub fn hash_js_mac(mac: &JsMac) -> (r: u64)
    ensures
        r == content_hash(mac@),
{
    let bytes = content_bytes(mac);
    let mut hasher = DefaultHasher::new();
    hasher.write(bytes.as_slice());
    hasher.finish()
}

/// Appends `n` in hexadecimal digits, without leading zeros.
fn push_hex(out: &mut String, n: u64)
    ensures
        final(out)@ == old(out)@ + hex(n as nat),
    decreases n,
{
    proof {
        reveal_strlit("0123456789abcdef");
    }
    if n >= 16 {
        push_hex(out, n / 16);
    }
    let digit = "0123456789abcdef".get_char((n % 16) as usize);
    out.push(digit);
}

/// The symbol of a snippet whose hash is `hash`.
pub fn symbol_for_hash(hash: u64) -> (r: String)
    ensures
        r@ == symbol_of_hash(hash),
{
    let mut out = String::from_str("__embed_js__");
    push_hex(&mut out, hash);
    out
}

/// The symbol of a snippet: the name under which the module imports it.
pub fn symbol_name(mac: &JsMac) -> (r: String)
    ensures
        r@ == symbol(mac@),
{
    symbol_for_hash(hash_js_mac(mac))
}

} // verus!
