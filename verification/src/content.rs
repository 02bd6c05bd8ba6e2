//! The content of a snippet names the snippet: two snippets with the same content are
//! the same snippet. So two different snippets have the same symbol only where the
//! hasher gives their different contents the same hash.

use vstd::prelude::*;
use vstd::utf8::{encode_utf8, encode_utf8_decode_utf8};
use crate::snippet::{Arg, Snippet, WasmPrimitiveType};
use crate::symbol::{
    arg_fits, args_fit, content, content_hash, encode_arg, encode_args, encode_body,
    encode_markers, encode_nat, encode_ret, encode_text, fits, le_bytes,
    lemma_symbol_names_one_hash, small, symbol, text_fits, type_code,
};

verus! {

/// Two sequences that start with parts of one length and are equal are equal part by
/// part.
proof fn lemma_cut<T>(x1: Seq<T>, y1: Seq<T>, x2: Seq<T>, y2: Seq<T>)
    requires
        x1 + y1 == x2 + y2,
        x1.len() == x2.len(),
    ensures
        x1 == x2,
        y1 == y2,
{
    assert(x1 =~= (x1 + y1).take(x1.len() as int));
    assert(x2 =~= (x2 + y2).take(x2.len() as int));
    assert(y1 =~= (x1 + y1).skip(x1.len() as int));
    assert(y2 =~= (x2 + y2).skip(x2.len() as int));
}

/// 256 to the power of `k`.
spec fn pow256(k: nat) -> nat
    decreases k,
{
    if k == 0 {
        1
    } else {
        256 * pow256((k - 1) as nat)
    }
}

/// The lowest `k` bytes of a number below 256 to the power of `k` name the number.
proof fn lemma_le_bytes_code(a: nat, b: nat, k: nat)
    requires
        a < pow256(k),
        b < pow256(k),
        le_bytes(a, k) == le_bytes(b, k),
    ensures
        a == b,
    decreases k,
{
    if k > 0 {
        let x = le_bytes(a, k);
        let y = le_bytes(b, k);
        assert(x[0] == y[0]);
        assert(le_bytes(a / 256, (k - 1) as nat) =~= x.skip(1));
        assert(le_bytes(b / 256, (k - 1) as nat) =~= y.skip(1));
        lemma_le_bytes_code(a / 256, b / 256, (k - 1) as nat);
    }
}

/// The eight bytes of a number that fits name the number.
proof fn lemma_nat_code(a: nat, b: nat)
    requires
        small(a),
        small(b),
        encode_nat(a) == encode_nat(b),
    ensures
        a == b,
{
    assert(pow256(8) == 0x1_0000_0000_0000_0000) by {
        reveal_with_fuel(pow256, 9);
    }
    lemma_le_bytes_code(a, b, 8);
}

/// A number stands in a content as eight bytes.
proof fn lemma_nat_len(n: nat)
    ensures
        encode_nat(n).len() == 8,
{
    reveal_with_fuel(le_bytes, 9);
}

/// A number at the start of a content can be read off: what follows it is the rest.
proof fn lemma_nat_first(a: nat, r1: Seq<u8>, b: nat, r2: Seq<u8>)
    requires
        small(a),
        small(b),
        encode_nat(a) + r1 == encode_nat(b) + r2,
    ensures
        a == b,
        r1 == r2,
{
    lemma_nat_len(a);
    lemma_nat_len(b);
    lemma_cut(encode_nat(a), r1, encode_nat(b), r2);
    lemma_nat_code(a, b);
}

/// A text at the start of a content can be read off.
proof fn lemma_text_first(s1: Seq<char>, r1: Seq<u8>, s2: Seq<char>, r2: Seq<u8>)
    requires
        text_fits(s1),
        text_fits(s2),
        encode_text(s1) + r1 == encode_text(s2) + r2,
    ensures
        s1 == s2,
        r1 == r2,
{
    let b1 = encode_utf8(s1);
    let b2 = encode_utf8(s2);
    assert(encode_text(s1) + r1 =~= encode_nat(b1.len()) + (b1 + r1));
    assert(encode_text(s2) + r2 =~= encode_nat(b2.len()) + (b2 + r2));
    lemma_nat_first(b1.len(), b1 + r1, b2.len(), b2 + r2);
    lemma_cut(b1, r1, b2, r2);
    encode_utf8_decode_utf8(s1);
    encode_utf8_decode_utf8(s2);
}

/// The bytes of a list of reference markers name the list.
proof fn lemma_markers_code(m1: Seq<bool>, m2: Seq<bool>)
    requires
        encode_markers(m1) == encode_markers(m2),
    ensures
        m1 == m2,
{
    let e1 = encode_markers(m1);
    let e2 = encode_markers(m2);
    assert(m1.len() == e1.len() && m2.len() == e2.len());
    assert forall|i: int| 0 <= i < m1.len() implies m1[i] == m2[i] by {
        assert(e1[i] == if m1[i] { 1u8 } else { 0u8 });
        assert(e2[i] == if m2[i] { 1u8 } else { 0u8 });
    }
    assert(m1 =~= m2);
}

/// The parts of an argument by reference at the start of a content can be read off.
proof fn lemma_reference_first(
    m1: Seq<bool>,
    d1: nat,
    n1: Seq<char>,
    r1: Seq<u8>,
    m2: Seq<bool>,
    d2: nat,
    n2: Seq<char>,
    r2: Seq<u8>,
)
    requires
        small(m1.len()) && small(d1) && text_fits(n1),
        small(m2.len()) && small(d2) && text_fits(n2),
        encode_nat(m1.len()) + (encode_markers(m1) + (encode_nat(d1) + (encode_text(n1) + r1)))
            == encode_nat(m2.len()) + (encode_markers(m2) + (encode_nat(d2) + (encode_text(n2)
            + r2))),
    ensures
        m1 == m2,
        d1 == d2,
        n1 == n2,
        r1 == r2,
{
    let t1 = encode_nat(d1) + (encode_text(n1) + r1);
    let t2 = encode_nat(d2) + (encode_text(n2) + r2);
    lemma_nat_first(m1.len(), encode_markers(m1) + t1, m2.len(), encode_markers(m2) + t2);
    lemma_cut(encode_markers(m1), t1, encode_markers(m2), t2);
    lemma_markers_code(m1, m2);
    lemma_nat_first(d1, encode_text(n1) + r1, d2, encode_text(n2) + r2);
    lemma_text_first(n1, r1, n2, r2);
}

/// The parts of an argument by value at the start of a content can be read off.
proof fn lemma_primitive_first(
    d1: nat,
    n1: Seq<char>,
    c1: u8,
    r1: Seq<u8>,
    d2: nat,
    n2: Seq<char>,
    c2: u8,
    r2: Seq<u8>,
)
    requires
        small(d1) && text_fits(n1),
        small(d2) && text_fits(n2),
        encode_nat(d1) + (encode_text(n1) + (seq![c1] + r1)) == encode_nat(d2) + (encode_text(n2)
            + (seq![c2] + r2)),
    ensures
        d1 == d2,
        n1 == n2,
        c1 == c2,
        r1 == r2,
{
    lemma_nat_first(d1, encode_text(n1) + (seq![c1] + r1), d2, encode_text(n2) + (seq![c2] + r2));
    lemma_text_first(n1, seq![c1] + r1, n2, seq![c2] + r2);
    lemma_cut(seq![c1], r1, seq![c2], r2);
    assert(seq![c1][0] == seq![c2][0]);
}

/// An argument by reference in a content: a zero byte, then its parts.
proof fn lemma_reference_shape(m: Seq<bool>, d: nat, n: Seq<char>, r: Seq<u8>)
    ensures
        encode_arg(Arg::Reference { marker_chain: m, indirection_depth: d, source_name: n }) + r
            == seq![0u8] + (encode_nat(m.len()) + (encode_markers(m) + (encode_nat(d) + (
            encode_text(n) + r)))),
{
    assert(encode_arg(Arg::Reference { marker_chain: m, indirection_depth: d, source_name: n })
        + r =~= seq![0u8] + (encode_nat(m.len()) + (encode_markers(m) + (encode_nat(d) + (
    encode_text(n) + r)))));
}

/// An argument by value in a content: a one byte, then its parts.
proof fn lemma_primitive_shape(d: nat, n: Seq<char>, ty: WasmPrimitiveType, r: Seq<u8>)
    ensures
        encode_arg(Arg::Primitive { indirection_depth: d, source_name: n, ty }) + r == seq![1u8]
            + (encode_nat(d) + (encode_text(n) + (seq![type_code(ty)] + r))),
{
    assert(encode_arg(Arg::Primitive { indirection_depth: d, source_name: n, ty }) + r =~= seq![
        1u8,
    ] + (encode_nat(d) + (encode_text(n) + (seq![type_code(ty)] + r))));
}

/// An argument at the start of a content can be read off.
proof fn lemma_arg_first(a1: Arg, r1: Seq<u8>, a2: Arg, r2: Seq<u8>)
    requires
        arg_fits(a1),
        arg_fits(a2),
        encode_arg(a1) + r1 == encode_arg(a2) + r2,
    ensures
        a1 == a2,
        r1 == r2,
{
    match a1 {
        Arg::Reference { marker_chain: m1, indirection_depth: d1, source_name: n1 } => {
            lemma_reference_shape(m1, d1, n1, r1);
            let u1 = encode_nat(m1.len()) + (encode_markers(m1) + (encode_nat(d1) + (encode_text(
                n1,
            ) + r1)));
            match a2 {
                Arg::Reference { marker_chain: m2, indirection_depth: d2, source_name: n2 } => {
                    lemma_reference_shape(m2, d2, n2, r2);
                    let u2 = encode_nat(m2.len()) + (encode_markers(m2) + (encode_nat(d2) + (
                    encode_text(n2) + r2)));
                    lemma_cut(seq![0u8], u1, seq![0u8], u2);
                    lemma_reference_first(m1, d1, n1, r1, m2, d2, n2, r2);
                },
                Arg::Primitive { indirection_depth: d2, source_name: n2, ty: ty2 } => {
                    lemma_primitive_shape(d2, n2, ty2, r2);
                    let u2 = encode_nat(d2) + (encode_text(n2) + (seq![type_code(ty2)] + r2));
                    assert((seq![0u8] + u1)[0] == 0u8);
                    assert((seq![1u8] + u2)[0] == 1u8);
                },
            }
        },
        Arg::Primitive { indirection_depth: d1, source_name: n1, ty: ty1 } => {
            lemma_primitive_shape(d1, n1, ty1, r1);
            let u1 = encode_nat(d1) + (encode_text(n1) + (seq![type_code(ty1)] + r1));
            match a2 {
                Arg::Reference { marker_chain: m2, indirection_depth: d2, source_name: n2 } => {
                    lemma_reference_shape(m2, d2, n2, r2);
                    let u2 = encode_nat(m2.len()) + (encode_markers(m2) + (encode_nat(d2) + (
                    encode_text(n2) + r2)));
                    assert((seq![1u8] + u1)[0] == 1u8);
                    assert((seq![0u8] + u2)[0] == 0u8);
                },
                Arg::Primitive { indirection_depth: d2, source_name: n2, ty: ty2 } => {
                    lemma_primitive_shape(d2, n2, ty2, r2);
                    let u2 = encode_nat(d2) + (encode_text(n2) + (seq![type_code(ty2)] + r2));
                    lemma_cut(seq![1u8], u1, seq![1u8], u2);
                    lemma_primitive_first(
                        d1,
                        n1,
                        type_code(ty1),
                        r1,
                        d2,
                        n2,
                        type_code(ty2),
                        r2,
                    );
                },
            }
        },
    }
}

/// The arguments of a content, written from the first on.
proof fn lemma_args_from_first(args: Seq<Arg>)
    requires
        args.len() > 0,
    ensures
        encode_args(args) == encode_arg(args[0]) + encode_args(args.drop_first()),
    decreases args.len(),
{
    if args.len() == 1 {
        assert(args.drop_last() =~= Seq::<Arg>::empty());
        assert(args.drop_first() =~= Seq::<Arg>::empty());
        assert(encode_args(args) =~= encode_arg(args[0]) + encode_args(args.drop_first()));
    } else {
        let front = args.drop_last();
        lemma_args_from_first(front);
        assert(front.drop_first() =~= args.drop_first().drop_last());
        assert(args.drop_first().last() == args.last());
        assert(encode_args(args) =~= encode_arg(args[0]) + encode_args(args.drop_first()));
    }
}

/// As many arguments at the start of two contents can be read off.
proof fn lemma_args_first(l1: Seq<Arg>, r1: Seq<u8>, l2: Seq<Arg>, r2: Seq<u8>)
    requires
        l1.len() == l2.len(),
        args_fit(l1),
        args_fit(l2),
        encode_args(l1) + r1 == encode_args(l2) + r2,
    ensures
        l1 == l2,
        r1 == r2,
    decreases l1.len(),
{
    if l1.len() == 0 {
        assert(encode_args(l1) + r1 =~= r1);
        assert(encode_args(l2) + r2 =~= r2);
        assert(l1 =~= l2);
    } else {
        lemma_args_from_first(l1);
        lemma_args_from_first(l2);
        let t1 = l1.drop_first();
        let t2 = l2.drop_first();
        assert(encode_args(l1) + r1 =~= encode_arg(l1[0]) + (encode_args(t1) + r1));
        assert(encode_args(l2) + r2 =~= encode_arg(l2[0]) + (encode_args(t2) + r2));
        assert(arg_fits(l1[0]) && arg_fits(l2[0]));
        lemma_arg_first(l1[0], encode_args(t1) + r1, l2[0], encode_args(t2) + r2);
        assert(args_fit(t1)) by {
            assert forall|i: int| 0 <= i < t1.len() implies arg_fits(#[trigger] t1[i]) by {
                assert(t1[i] == l1[i + 1]);
            }
        }
        assert(args_fit(t2)) by {
            assert forall|i: int| 0 <= i < t2.len() implies arg_fits(#[trigger] t2[i]) by {
                assert(t2[i] == l2[i + 1]);
            }
        }
        lemma_args_first(t1, r1, t2, r2);
        assert(l1 =~= seq![l1[0]] + t1);
        assert(l2 =~= seq![l2[0]] + t2);
    }
}

/// The content of a snippet names the snippet: two snippets that fit and have the
/// same content are the same.
pub proof fn lemma_content_names_one_snippet(s1: Snippet, s2: Snippet)
    requires
        fits(s1),
        fits(s2),
        content(s1) == content(s2),
    ensures
        s1 == s2,
{
    let e1 = encode_ret(s1.ret) + encode_body(s1.body);
    let e2 = encode_ret(s2.ret) + encode_body(s2.body);
    let a1 = encode_args(s1.args) + e1;
    let a2 = encode_args(s2.args) + e2;
    assert(content(s1) =~= encode_nat(s1.args.len()) + a1);
    assert(content(s2) =~= encode_nat(s2.args.len()) + a2);
    lemma_nat_first(s1.args.len(), a1, s2.args.len(), a2);
    lemma_args_first(s1.args, e1, s2.args, e2);
    lemma_cut(encode_ret(s1.ret), encode_body(s1.body), encode_ret(s2.ret), encode_body(s2.body));
    assert(encode_ret(s1.ret)[0] == encode_ret(s2.ret)[0]);
    assert(encode_body(s1.body)[0] == encode_body(s2.body)[0]);
    if let Some(t1) = s1.body {
        let t2 = s2.body->0;
        let none = Seq::<u8>::empty();
        assert(encode_body(s1.body) =~= seq![1u8] + (encode_text(t1) + none));
        assert(encode_body(s2.body) =~= seq![1u8] + (encode_text(t2) + none));
        lemma_cut(seq![1u8], encode_text(t1) + none, seq![1u8], encode_text(t2) + none);
        lemma_text_first(t1, none, t2, none);
    }
}

/// Two different snippets have the same symbol only where the hasher fails them: their
/// contents differ, and the hasher gives both the same hash.
pub proof fn lemma_shared_symbol_is_a_hash_collision(s1: Snippet, s2: Snippet)
    requires
        fits(s1),
        fits(s2),
        symbol(s1) == symbol(s2),
        s1 != s2,
    ensures
        content(s1) != content(s2),
        content_hash(s1) == content_hash(s2),
{
    lemma_symbol_names_one_hash(content_hash(s1), content_hash(s2));
    if content(s1) == content(s2) {
        lemma_content_names_one_snippet(s1, s2);
    }
}

} // verus!
