//! From text to token trees. The text is cut into tokens by `cpp_syn`; what this
//! library reads of each token is copied into a token tree of its own.

use cpp_syn::{BinOpToken, Lit, LitKind, Token as RawToken, TokenTree as RawTree};
use vstd::prelude::*;
use vstd::string::StringSliceAdditionalSpecFns;
use vstd::utf8::encode_utf8;
use crate::parse::{
    body_span, is_arrow_at, is_comma_at, is_word_at, item_at, items_at, lemma_item_advances,
    markers_at, snippet_of_tokens, snippet_with_body, type_at, SpanArg,
};
use crate::scan::group_at;
use crate::snippet::{JsMac, Snippet, WasmPrimitiveType};
use crate::source::{parse_js_mac_string_source, snippet_in, Source};
use crate::symbol::symbol;
use crate::token::{DelimToken, Span, Token, TokenModel, Tree};

verus! {

/// A token tree as `cpp_syn` holds it.
#[verifier::external_type_specification]
#[verifier::external_body]
pub struct ExRawTokenTree(cpp_syn::TokenTree);

/// The token trees that `cpp_syn` reads from `source`, or `None` where the text is
/// not a sequence of token trees.
pub uninterp spec fn raw_trees(source: Seq<char>) -> Option<Seq<cpp_syn::TokenTree>>;

/// The span of a token tree.
pub uninterp spec fn raw_span(tree: cpp_syn::TokenTree) -> Span;

/// The token that a token tree is, or `None` where it is a group.
pub uninterp spec fn raw_token(tree: cpp_syn::TokenTree) -> Option<TokenModel>;

/// The delimiter and the trees of a group, or `None` where the tree is a single
/// token.
pub uninterp spec fn raw_group(tree: cpp_syn::TokenTree) -> Option<
    (DelimToken, Seq<cpp_syn::TokenTree>),
>;

/// The number of tokens and groups in a token tree, itself counted.
pub uninterp spec fn raw_size(tree: cpp_syn::TokenTree) -> nat;

/// The model of an optional token.
pub open spec fn opt_token_view(token: Option<Token>) -> Option<TokenModel> {
    match token {
        Some(t) => Some(t@),
        None => None,
    }
}

/// Whether a byte literal opens at `i` with a byte outside ASCII after its quote:
/// the letter `b`, a single quote, and a byte of a longer character. `cpp_syn` takes
/// that one byte for the literal's content and goes on inside the character.
pub open spec fn cuts_character(bytes: Seq<u8>, i: int) -> bool {
    &&& 0 <= i
    &&& i + 2 < bytes.len()
    &&& bytes[i] == 0x62
    &&& bytes[i + 1] == 0x27
    &&& bytes[i + 2] >= 0x80
}

/// Whether `cpp_syn` can be asked for the token trees of a text: nowhere in it does a
/// byte literal open with a byte outside ASCII.
pub open spec fn lexable(text: Seq<char>) -> bool {
    forall|i: int| !#[trigger] cuts_character(encode_utf8(text), i)
}

/// The token trees of a text: those that `cpp_syn` reads from it, and none where it
/// cannot be asked.
pub open spec fn lexed(text: Seq<char>) -> Option<Seq<cpp_syn::TokenTree>> {
    if lexable(text) {
        raw_trees(text)
    } else {
        None
    }
}

/// Whether `cpp_syn` can be asked for the token trees of `source`.
pub fn is_lexable(source: &str) -> (r: bool)
    ensures
        r == lexable(source@),
{
    let bytes = source.as_bytes();
    let len = bytes.len();
    let mut i: usize = 0;
    while i < len && len - i > 2
        invariant
            len == bytes@.len(),
            bytes@ == encode_utf8(source@),
            forall|k: int| k < i ==> !#[trigger] cuts_character(bytes@, k),
        decreases len - i,
    {
        if bytes[i] == 0x62 && bytes[i + 1] == 0x27 && bytes[i + 2] >= 0x80 {
            assert(cuts_character(bytes@, i as int));
            return false;
        }
        i += 1;
    }
    true
}

/// `cpp_syn::parse_token_trees`, for a text in which no byte literal opens with a byte
/// outside ASCII: the token trees of the text, or `None` for its error. A text with
/// such a literal is left out, because the call does not return on it.
#[verifier::external_body]
fn parse_raw(source: &str) -> (r: Option<Vec<cpp_syn::TokenTree>>)
    requires
        lexable(source@),
    ensures
        match raw_trees(source@) {
            Some(trees) => r matches Some(v) && v@ == trees,
            None => r is None,
        },
{
    cpp_syn::parse_token_trees(source).ok()
}

/// `cpp_syn::TokenTree::span`: the span of the tree.
#[verifier::external_body]
fn span_of(tree: &cpp_syn::TokenTree) -> (r: Span)
    ensures
        r == raw_span(*tree),
{
    let span = tree.span();
    Span { lo: span.lo, hi: span.hi }
}

/// The variant `Token` of `cpp_syn::TokenTree` and the variants of `cpp_syn::Token`:
/// the token that the tree is, with the text of an identifier and the content of a
/// string literal; `None` exactly for a group.
#[verifier::external_body]
fn token_of(tree: &cpp_syn::TokenTree) -> (r: Option<Token>)
    ensures
        opt_token_view(r) == raw_token(*tree),
        r is None <==> raw_group(*tree) is Some,
{
    let token = match *tree {
        RawTree::Delimited(_, _) => return None,
        RawTree::Token(ref token, _) => token,
    };
    Some(match *token {
        RawToken::Ident(ref ident) => Token::Ident(ident.to_string()),
        RawToken::Literal(Lit { node: LitKind::Str(ref s, _), .. }) => Token::Str(s.clone()),
        RawToken::Comma => Token::Comma,
        RawToken::BinOp(BinOpToken::And) => Token::And,
        RawToken::BinOp(BinOpToken::Star) => Token::Star,
        RawToken::RArrow => Token::RArrow,
        RawToken::Not => Token::Not,
        _ => Token::Other,
    })
}

/// The variant `Delimited` of `cpp_syn::TokenTree`: the delimiter of the group and
/// the trees in it, each of which is smaller than the group; `None` for a single
/// token.
#[verifier::external_body]
fn group_of(tree: &cpp_syn::TokenTree) -> (r: Option<(DelimToken, &[cpp_syn::TokenTree])>)
    ensures
        match raw_group(*tree) {
            Some((delim, trees)) => r matches Some(g) && g.0 == delim && g.1@ == trees,
            None => r is None,
        },
        r is Some <==> raw_token(*tree) is None,
        r matches Some(g) ==> forall|i: int|
            0 <= i < g.1@.len() ==> raw_size(#[trigger] g.1@[i]) < raw_size(*tree),
{
    let group = match *tree {
        RawTree::Token(_, _) => return None,
        RawTree::Delimited(ref group, _) => group,
    };
    let delim = match group.delim {
        cpp_syn::DelimToken::Paren => DelimToken::Paren,
        cpp_syn::DelimToken::Bracket => DelimToken::Bracket,
        cpp_syn::DelimToken::Brace => DelimToken::Brace,
    };
    Some((delim, &group.tts[..]))
}

/// Whether the token tree `tree` holds what `raw` holds: the same token or the same
/// delimiter, the same span, and in a group as many trees, each of which holds what
/// the tree at its place in `raw` holds.
pub open spec fn stands_for(tree: Tree, raw: cpp_syn::TokenTree) -> bool
    decreases tree,
{
    match tree {
        Tree::Token(token, span) => {
            &&& raw_token(raw) == Some(token@)
            &&& raw_group(raw) is None
            &&& span == raw_span(raw)
        },
        Tree::Delimited(delim, inner, span) => {
            &&& raw_token(raw) is None
            &&& raw_group(raw) matches Some((raw_delim, raw_inner))
            &&& delim == raw_delim
            &&& span == raw_span(raw)
            &&& inner@.len() == raw_inner.len()
            &&& forall|i: int|
                0 <= i < inner@.len() ==> stands_for(#[trigger] inner@[i], raw_inner[i])
        },
    }
}

/// Whether the token trees `trees` hold, each at its place, what `raws` hold.
pub open spec fn all_stand_for(trees: Seq<Tree>, raws: Seq<cpp_syn::TokenTree>) -> bool {
    &&& trees.len() == raws.len()
    &&& forall|i: int| 0 <= i < trees.len() ==> stands_for(#[trigger] trees[i], raws[i])
}

/// The token tree that holds what `raw` holds.
fn lower(raw: &cpp_syn::TokenTree) -> (r: Tree)
    ensures
        stands_for(r, *raw),
    decreases raw_size(*raw),
{
    let span = span_of(raw);
    match group_of(raw) {
        Some((delim, raws)) => {
            let mut inner: Vec<Tree> = Vec::new();
            let mut i: usize = 0;
            while i < raws.len()
                invariant
                    i <= raws@.len(),
                    inner@.len() == i,
                    forall|k: int|
                        0 <= k < raws@.len() ==> raw_size(#[trigger] raws@[k]) < raw_size(*raw),
                    forall|k: int| 0 <= k < i ==> stands_for(#[trigger] inner@[k], raws@[k]),
                decreases raws@.len() - i,
            {
                let tree = lower(&raws[i]);
                inner.push(tree);
                i += 1;
            }
            Tree::Delimited(delim, inner, span)
        },
        None => match token_of(raw) {
            Some(token) => Tree::Token(token, span),
            None => unreached(),
        },
    }
}

/// The token trees of `source`, or `None` where `cpp_syn` reads no sequence of token
/// trees from the text or cannot be asked for them.
pub fn tokenize(source: &str) -> (r: Option<Vec<Tree>>)
    ensures
        match lexed(source@) {
            Some(raws) => r matches Some(v) && all_stand_for(v@, raws),
            None => r is None,
        },
{
    if !is_lexable(source) {
        return None;
    }
    match parse_raw(source) {
        None => None,
        Some(raws) => {
            let mut out: Vec<Tree> = Vec::new();
            let mut i: usize = 0;
            while i < raws.len()
                invariant
                    i <= raws@.len(),
                    out@.len() == i,
                    forall|k: int| 0 <= k < i ==> stands_for(#[trigger] out@[k], raws@[k]),
                decreases raws@.len() - i,
            {
                let tree = lower(&raws[i]);
                out.push(tree);
                i += 1;
            }
            Some(out)
        },
    }
}

/// Whether two token trees hold the same: the same token or the same delimiter, the
/// same span, and in a group as many trees that hold the same, place by place.
pub open spec fn alike(a: Tree, b: Tree) -> bool
    decreases a,
{
    match a {
        Tree::Token(token, span) => b matches Tree::Token(other, other_span) && token@ == other@
            && span == other_span,
        Tree::Delimited(delim, inner, span) => {
            &&& b matches Tree::Delimited(other_delim, other_inner, other_span)
            &&& delim == other_delim
            &&& span == other_span
            &&& inner@.len() == other_inner@.len()
            &&& forall|i: int|
                0 <= i < inner@.len() ==> alike(#[trigger] inner@[i], other_inner@[i])
        },
    }
}

/// Whether two lists of token trees hold the same, place by place.
pub open spec fn all_alike(a: Seq<Tree>, b: Seq<Tree>) -> bool {
    &&& a.len() == b.len()
    &&& forall|i: int| 0 <= i < a.len() ==> alike(#[trigger] a[i], b[i])
}

/// Two token trees that hold what one tree of `cpp_syn` holds hold the same.
pub(crate) proof fn lemma_one_raw_alike(a: Tree, b: Tree, raw: cpp_syn::TokenTree)
    requires
        stands_for(a, raw),
        stands_for(b, raw),
    ensures
        alike(a, b),
    decreases a,
{
    match a {
        Tree::Token(_, _) => {},
        Tree::Delimited(_, inner, _) => {
            let other_inner = b->Delimited_1;
            let group = raw_group(raw)->0;
            let raw_inner = group.1;
            assert forall|i: int| 0 <= i < inner@.len() implies alike(
                #[trigger] inner@[i],
                other_inner@[i],
            ) by {
                lemma_one_raw_alike(inner@[i], other_inner@[i], raw_inner[i]);
            }
        },
    }
}

/// Two lists of token trees that hold what one list of trees of `cpp_syn` holds hold
/// the same.
pub(crate) proof fn lemma_raws_alike(a: Seq<Tree>, b: Seq<Tree>, raws: Seq<cpp_syn::TokenTree>)
    requires
        all_stand_for(a, raws),
        all_stand_for(b, raws),
    ensures
        all_alike(a, b),
{
    assert forall|i: int| 0 <= i < a.len() implies alike(#[trigger] a[i], b[i]) by {
        lemma_one_raw_alike(a[i], b[i], raws[i]);
    }
}

/// The grammar reads the same markers from token trees that hold the same.
pub(crate) proof fn lemma_markers_alike(a: Seq<Tree>, b: Seq<Tree>, pos: int, refs: Seq<bool>, derefs: nat)
    requires
        all_alike(a, b),
    ensures
        markers_at(a, pos, refs, derefs) == markers_at(b, pos, refs, derefs),
    decreases a.len() - pos,
{
    if 0 <= pos < a.len() {
        match a[pos] {
            Tree::Token(Token::And, _) => {
                if is_word_at(a, pos + 1, "mut"@) {
                    lemma_markers_alike(a, b, pos + 2, refs.push(true), derefs);
                } else {
                    lemma_markers_alike(a, b, pos + 1, refs.push(false), derefs);
                }
            },
            Tree::Token(Token::Star, _) => {
                lemma_markers_alike(a, b, pos + 1, refs, derefs + 1);
            },
            _ => {},
        }
    }
}

/// The grammar reads the same argument from token trees that hold the same.
pub(crate) proof fn lemma_item_alike(a: Seq<Tree>, b: Seq<Tree>, pos: int)
    requires
        all_alike(a, b),
    ensures
        item_at(a, pos) == item_at(b, pos),
{
    lemma_markers_alike(a, b, pos, Seq::empty(), 0);
}

/// The grammar reads the same arguments from token trees that hold the same.
pub(crate) proof fn lemma_items_alike(a: Seq<Tree>, b: Seq<Tree>, pos: int)
    requires
        all_alike(a, b),
    ensures
        items_at(a, pos) == items_at(b, pos),
    decreases a.len() - pos,
{
    if 0 <= pos < a.len() {
        lemma_item_alike(a, b, pos);
        if let Some((_, next)) = item_at(a, pos) {
            lemma_item_advances(a, pos);
            if next < a.len() {
                if is_comma_at(a, next) {
                    lemma_items_alike(a, b, next + 1);
                }
            }
        }
    }
}

/// The trees inside a group are alike where the groups are.
pub(crate) proof fn lemma_group_alike(a: Seq<Tree>, b: Seq<Tree>, pos: int)
    requires
        all_alike(a, b),
    ensures
        match group_at(a, pos) {
            Some(inner) => group_at(b, pos) matches Some(other) && all_alike(inner, other),
            None => group_at(b, pos) is None,
        },
{
}

/// The grammar reads the same snippet from token trees that hold the same.
pub(crate) proof fn lemma_snippet_alike(a: Seq<Tree>, b: Seq<Tree>, source: Source)
    requires
        all_alike(a, b),
    ensures
        snippet_of_tokens(a) == snippet_of_tokens(b),
        snippet_in(a, source) == snippet_in(b, source),
{
    if a.len() > 0 {
        assert forall|pos: int, args: Seq<SpanArg>, ret: Option<WasmPrimitiveType>|
            #[trigger] snippet_with_body(a, pos, args, ret) == snippet_with_body(
                b,
                pos,
                args,
                ret,
            ) by {
            lemma_group_alike(a, b, pos);
        }
        lemma_group_alike(a, b, 0);
        if let Some(inner) = group_at(a, 0) {
            lemma_items_alike(inner, group_at(b, 0)->0, 0);
        }
    }
}

/// Token trees that hold what the trees `raws` of `cpp_syn` hold.
pub open spec fn trees_for(raws: Seq<cpp_syn::TokenTree>) -> Seq<Tree> {
    choose|trees: Seq<Tree>| all_stand_for(trees, raws)
}

/// The snippet that the text `text` declares: `None` where the text is not a
/// sequence of token trees or its tokens break the grammar.
pub open spec fn snippet_of_text(text: &str) -> Option<Snippet> {
    match lexed(text@) {
        Some(raws) => snippet_in(trees_for(raws), Source::Text(text)),
        None => None,
    }
}

/// Reading the same text twice gives the same snippet, and with it the same symbol:
/// whatever two readings of `text` return, the two snippets are equal.
pub proof fn lemma_same_text_same_symbol(text: &str, first: JsMac, second: JsMac)
    requires
        snippet_of_text(text) == Some(first@),
        snippet_of_text(text) == Some(second@),
    ensures
        first@ == second@,
        symbol(first@) == symbol(second@),
{
}

/// Reads a snippet declaration from its text.
pub fn parse_js_mac_text(text: &str) -> (r: Result<JsMac, ()>)
    ensures
        match snippet_of_text(text) {
            Some(s) => r matches Ok(m) && m@ == s,
            None => r is Err,
        },
{
    match tokenize(text) {
        None => Err(()),
        Some(tokens) => {
            proof {
                let raws = lexed(text@)->0;
                lemma_raws_alike(tokens@, trees_for(raws), raws);
                lemma_snippet_alike(tokens@, trees_for(raws), Source::Text(text));
            }
            parse_js_mac_string_source(tokens.as_slice(), text)
        },
    }
}

} // verus!
