//! The snippet grammar.
//!
//! A snippet is declared in one of three shapes: `[args] -> type { body }`,
//! `[args] { body }` or `{ body }`. The arguments are separated by commas, and a comma
//! may follow the last one. An argument is either `*`... `name as type`, handed over by
//! value, or some `&`, `&mut` and `*` followed by `name`, handed over by address.

use vstd::prelude::*;
use crate::snippet::WasmPrimitiveType;
use crate::text::str_eq;
use crate::token::{DelimToken, Span, Token, Tree};

verus! {

/// The model of an argument whose name is still a span of the source.
pub enum SpanArg {
    Reference { marker_chain: Seq<bool>, indirection_depth: nat, name: Span },
    Primitive { indirection_depth: nat, name: Span, ty: WasmPrimitiveType },
}

/// The model of a snippet whose names and body are still spans of the source.
pub struct SpanSnippet {
    pub args: Seq<SpanArg>,
    pub ret: Option<WasmPrimitiveType>,
    pub body: Option<Span>,
}

/// An argument whose name is still a span of the source.
#[derive(Debug)]
pub enum SpanJsMacArg {
    /// Reference markers (`true` for `&mut`), number of `*`, span of the name.
    Ref(Vec<bool>, usize, Span),
    /// Number of `*`, span of the name, type the value is cast to.
    Primitive(usize, Span, WasmPrimitiveType),
}

impl View for SpanJsMacArg {
    type V = SpanArg;

    open spec fn view(&self) -> SpanArg {
        match *self {
            SpanJsMacArg::Ref(refs, derefs, name) => SpanArg::Reference {
                marker_chain: refs@,
                indirection_depth: derefs as nat,
                name,
            },
            SpanJsMacArg::Primitive(derefs, name, ty) => SpanArg::Primitive {
                indirection_depth: derefs as nat,
                name,
                ty,
            },
        }
    }
}

/// A snippet whose names and body are still spans of the source.
#[derive(Debug)]
pub struct SpanJsMac {
    pub args: Vec<SpanJsMacArg>,
    pub ret: Option<WasmPrimitiveType>,
    pub body: Option<Span>,
}

/// The models of the arguments in `args`, in order.
pub open spec fn span_args_view(args: Seq<SpanJsMacArg>) -> Seq<SpanArg> {
    Seq::new(args.len(), |i: int| args[i]@)
}

impl View for SpanJsMac {
    type V = SpanSnippet;

    open spec fn view(&self) -> SpanSnippet {
        SpanSnippet { args: span_args_view(self.args@), ret: self.ret, body: self.body }
    }
}

/// The type that a keyword names.
pub open spec fn type_of_keyword(word: Seq<char>) -> Option<WasmPrimitiveType> {
    if word == "i32"@ {
        Some(WasmPrimitiveType::I32)
    } else if word == "i64"@ {
        Some(WasmPrimitiveType::I64)
    } else if word == "f32"@ {
        Some(WasmPrimitiveType::F32)
    } else if word == "f64"@ {
        Some(WasmPrimitiveType::F64)
    } else {
        None
    }
}

/// Whether the token at `pos` is the identifier `word`.
pub open spec fn is_word_at(tts: Seq<Tree>, pos: int, word: Seq<char>) -> bool {
    &&& 0 <= pos < tts.len()
    &&& tts[pos] matches Tree::Token(Token::Ident(s), _)
    &&& s@ == word
}

/// The type that the token at `pos` names, if it names one.
pub open spec fn type_at(tts: Seq<Tree>, pos: int) -> Option<WasmPrimitiveType> {
    if 0 <= pos < tts.len() {
        match tts[pos] {
            Tree::Token(Token::Ident(s), _) => type_of_keyword(s@),
            _ => None,
        }
    } else {
        None
    }
}

/// Reads the markers of one argument from `pos` on, up to and with its name. `refs` and
/// `derefs` hold the markers read so far. The result is the markers, the name's span
/// and the position after the name.
pub open spec fn markers_at(tts: Seq<Tree>, pos: int, refs: Seq<bool>, derefs: nat) -> Option<
    (Seq<bool>, nat, Span, int),
>
    decreases tts.len() - pos,
{
    if pos < 0 || pos >= tts.len() {
        None
    } else {
        match tts[pos] {
            Tree::Token(Token::And, _) => if is_word_at(tts, pos + 1, "mut"@) {
                markers_at(tts, pos + 2, refs.push(true), derefs)
            } else {
                markers_at(tts, pos + 1, refs.push(false), derefs)
            },
            Tree::Token(Token::Star, _) => markers_at(tts, pos + 1, refs, derefs + 1),
            Tree::Token(Token::Ident(_), span) => Some((refs, derefs, span, pos + 1)),
            _ => None,
        }
    }
}

/// Reads one argument from `pos` on. The result is the argument and the position
/// after it.
pub open spec fn item_at(tts: Seq<Tree>, pos: int) -> Option<(SpanArg, int)> {
    match markers_at(tts, pos, Seq::empty(), 0) {
        None => None,
        Some((refs, derefs, name, next)) => if refs.len() > 0 {
            Some(
                (
                    SpanArg::Reference { marker_chain: refs, indirection_depth: derefs, name },
                    next,
                ),
            )
        } else if is_word_at(tts, next, "as"@) {
            match type_at(tts, next + 1) {
                Some(ty) => Some(
                    (SpanArg::Primitive { indirection_depth: derefs, name, ty }, next + 2),
                ),
                None => None,
            }
        } else {
            None
        },
    }
}

/// Whether the token at `pos` is a comma.
pub open spec fn is_comma_at(tts: Seq<Tree>, pos: int) -> bool {
    &&& 0 <= pos < tts.len()
    &&& tts[pos] matches Tree::Token(Token::Comma, _)
}

/// What reading the markers of an argument returns lies after where it started.
proof fn lemma_markers_advance(tts: Seq<Tree>, pos: int, refs: Seq<bool>, derefs: nat)
    ensures
        markers_at(tts, pos, refs, derefs) matches Some(m) ==> pos < m.3 <= tts.len(),
    decreases tts.len() - pos,
{
    if 0 <= pos < tts.len() {
        match tts[pos] {
            Tree::Token(Token::And, _) => {
                if is_word_at(tts, pos + 1, "mut"@) {
                    lemma_markers_advance(tts, pos + 2, refs.push(true), derefs);
                } else {
                    lemma_markers_advance(tts, pos + 1, refs.push(false), derefs);
                }
            },
            Tree::Token(Token::Star, _) => {
                lemma_markers_advance(tts, pos + 1, refs, derefs + 1);
            },
            _ => {},
        }
    }
}

/// An argument ends after where it started, and within the list.
pub proof fn lemma_item_advances(tts: Seq<Tree>, pos: int)
    ensures
        item_at(tts, pos) matches Some(item) ==> pos < item.1 <= tts.len(),
{
    lemma_markers_advance(tts, pos, Seq::empty(), 0);
}

/// The arguments of a list, read from `pos` on, where an argument or the end of the
/// list is due.
pub open spec fn items_at(tts: Seq<Tree>, pos: int) -> Option<Seq<SpanArg>>
    decreases tts.len() - pos,
{
    if pos < 0 {
        None
    } else if pos >= tts.len() {
        Some(Seq::empty())
    } else {
        match item_at(tts, pos) {
            None => None,
            Some((arg, next)) => if next >= tts.len() {
                Some(seq![arg])
            } else if is_comma_at(tts, next) {
                proof {
                    lemma_item_advances(tts, pos);
                }
                match items_at(tts, next + 1) {
                    Some(rest) => Some(seq![arg] + rest),
                    None => None,
                }
            } else {
                None
            },
        }
    }
}

/// The span from the first to the last token of a body, if it has any token.
pub open spec fn body_span(inner: Seq<Tree>) -> Option<Span> {
    if inner.len() > 0 {
        Some(Span { lo: inner[0].span().lo, hi: inner.last().span().hi })
    } else {
        None
    }
}

/// The snippet whose body is the token at `pos`, which must be the last token and a
/// group in braces.
pub open spec fn snippet_with_body(
    tts: Seq<Tree>,
    pos: int,
    args: Seq<SpanArg>,
    ret: Option<WasmPrimitiveType>,
) -> Option<SpanSnippet> {
    if 0 <= pos && pos + 1 == tts.len() {
        match tts[pos] {
            Tree::Delimited(DelimToken::Brace, inner, _) => Some(
                SpanSnippet { args, ret, body: body_span(inner@) },
            ),
            _ => None,
        }
    } else {
        None
    }
}

/// Whether the token at `pos` is `->`.
pub open spec fn is_arrow_at(tts: Seq<Tree>, pos: int) -> bool {
    &&& 0 <= pos < tts.len()
    &&& tts[pos] matches Tree::Token(Token::RArrow, _)
}

/// The snippet that the tokens `tts` declare, or `None` where they break the grammar.
pub open spec fn snippet_of_tokens(tts: Seq<Tree>) -> Option<SpanSnippet> {
    if tts.len() == 0 {
        None
    } else {
        match tts[0] {
            Tree::Delimited(DelimToken::Bracket, inner, _) => match items_at(inner@, 0) {
                None => None,
                Some(args) => if is_arrow_at(tts, 1) {
                    match type_at(tts, 2) {
                        Some(ty) => snippet_with_body(tts, 3, args, Some(ty)),
                        None => None,
                    }
                } else {
                    snippet_with_body(tts, 1, args, None)
                },
            },
            Tree::Delimited(DelimToken::Brace, _, _) => snippet_with_body(
                tts,
                0,
                Seq::empty(),
                None,
            ),
            _ => None,
        }
    }
}

/// Whether the token at `pos` is the identifier `word`.
fn word_at(tts: &[Tree], pos: usize, word: &str) -> (r: bool)
    ensures
        r == is_word_at(tts@, pos as int, word@),
{
    if pos < tts.len() {
        match &tts[pos] {
            Tree::Token(Token::Ident(s), _) => str_eq(s.as_str(), word),
            _ => false,
        }
    } else {
        false
    }
}

/// Reads the type that the token at `pos` names.
pub fn parse_wasm_primitive_type(tts: &[Tree], pos: usize) -> (r: Result<
    WasmPrimitiveType,
    (),
>)
    ensures
        r == match type_at(tts@, pos as int) {
            Some(ty) => Ok::<WasmPrimitiveType, ()>(ty),
            None => Err(()),
        },
{
    if pos >= tts.len() {
        return Err(());
    }
    match &tts[pos] {
        Tree::Token(Token::Ident(ident), _) => {
            let word = ident.as_str();
            if str_eq(word, "i32") {
                Ok(WasmPrimitiveType::I32)
            } else if str_eq(word, "i64") {
                Ok(WasmPrimitiveType::I64)
            } else if str_eq(word, "f32") {
                Ok(WasmPrimitiveType::F32)
            } else if str_eq(word, "f64") {
                Ok(WasmPrimitiveType::F64)
            } else {
                Err(())
            }
        },
        _ => Err(()),
    }
}

/// Reads one argument from `pos` on.
fn parse_item(tts: &[Tree], pos: usize) -> (r: Result<(SpanJsMacArg, usize), ()>)
    requires
        pos < tts@.len(),
    ensures
        match item_at(tts@, pos as int) {
            Some((arg, next)) => r matches Ok(item) && item.0@ == arg && item.1 == next,
            None => r is Err,
        },
{
    let len = tts.len();
    let mut refs: Vec<bool> = Vec::new();
    let mut derefs: usize = 0;
    let mut p: usize = pos;
    let name: Span;
    loop
        invariant_except_break
            len == tts@.len(),
            pos <= p <= len,
            derefs <= p - pos,
            markers_at(tts@, pos as int, Seq::empty(), 0) == markers_at(
                tts@,
                p as int,
                refs@,
                derefs as nat,
            ),
        ensures
            pos < p <= len,
            markers_at(tts@, pos as int, Seq::empty(), 0) == Some(
                (refs@, derefs as nat, name, p as int),
            ),
        decreases len - p,
    {
        if p >= len {
            return Err(());
        }
        match &tts[p] {
            Tree::Token(Token::And, _) => {
                if word_at(tts, p + 1, "mut") {
                    refs.push(true);
                    p += 2;
                } else {
                    refs.push(false);
                    p += 1;
                }
            },
            Tree::Token(Token::Star, _) => {
                derefs += 1;
                p += 1;
            },
            Tree::Token(Token::Ident(_), span) => {
                name = *span;
                p += 1;
                break ;
            },
            _ => {
                return Err(());
            },
        }
    }
    if refs.len() > 0 {
        Ok((SpanJsMacArg::Ref(refs, derefs, name), p))
    } else {
        if !word_at(tts, p, "as") {
            return Err(());
        }
        match parse_wasm_primitive_type(tts, p + 1) {
            Ok(ty) => Ok((SpanJsMacArg::Primitive(derefs, name, ty), p + 2)),
            Err(_) => Err(()),
        }
    }
}

/// `head` in front of `rest`, where there is a `rest`.
pub open spec fn prepend(head: Seq<SpanArg>, rest: Option<Seq<SpanArg>>) -> Option<Seq<SpanArg>> {
    match rest {
        Some(r) => Some(head + r),
        None => None,
    }
}

/// Reads a whole argument list.
fn parse_args(tts: &[Tree]) -> (r: Result<Vec<SpanJsMacArg>, ()>)
    ensures
        match items_at(tts@, 0) {
            Some(args) => r matches Ok(v) && span_args_view(v@) == args,
            None => r is Err,
        },
{
    let mut args: Vec<SpanJsMacArg> = Vec::new();
    let mut pos: usize = 0;
    while pos < tts.len()
        invariant
            pos <= tts@.len(),
            items_at(tts@, 0) == prepend(span_args_view(args@), items_at(tts@, pos as int)),
        decreases tts@.len() - pos,
    {
        proof {
            lemma_item_advances(tts@, pos as int);
        }
        match parse_item(tts, pos) {
            Err(_) => {
                return Err(());
            },
            Ok((arg, next)) => {
                args.push(arg);
                if next >= tts.len() {
                    pos = next;
                } else {
                    match &tts[next] {
                        Tree::Token(Token::Comma, _) => {
                            pos = next + 1;
                        },
                        _ => {
                            return Err(());
                        },
                    }
                }
            },
        }
    }
    Ok(args)
}

/// Reads the body at `pos`, which must be the last token, and builds the snippet.
fn parse_body(
    tts: &[Tree],
    pos: usize,
    args: Vec<SpanJsMacArg>,
    ret: Option<WasmPrimitiveType>,
) -> (r: Result<SpanJsMac, ()>)
    ensures
        match snippet_with_body(tts@, pos as int, span_args_view(args@), ret) {
            Some(s) => r matches Ok(m) && m@ == s,
            None => r is Err,
        },
{
    if pos >= tts.len() || tts.len() - pos != 1 {
        return Err(());
    }
    match &tts[pos] {
        Tree::Delimited(DelimToken::Brace, inner, _) => {
            let body = if inner.len() > 0 {
                Some(inner[0].span().extend(inner[inner.len() - 1].span()))
            } else {
                None
            };
            Ok(SpanJsMac { args, ret, body })
        },
        _ => Err(()),
    }
}

/// Reads a snippet declaration. The names of the arguments and the body are returned
/// as spans of the source that the tokens were read from.
pub fn parse_js_mac_span(tts: &[Tree]) -> (r: Result<SpanJsMac, ()>)
    ensures
        match snippet_of_tokens(tts@) {
            Some(s) => r matches Ok(m) && m@ == s,
            None => r is Err,
        },
{
    if tts.len() == 0 {
        return Err(());
    }
    match &tts[0] {
        Tree::Delimited(DelimToken::Bracket, inner, _) => {
            let args = match parse_args(inner.as_slice()) {
                Ok(args) => args,
                Err(_) => {
                    return Err(());
                },
            };
            let is_arrow = if tts.len() > 1 {
                match &tts[1] {
                    Tree::Token(Token::RArrow, _) => true,
                    _ => false,
                }
            } else {
                false
            };
            if is_arrow {
                match parse_wasm_primitive_type(tts, 2) {
                    Ok(ty) => parse_body(tts, 3, args, Some(ty)),
                    Err(_) => Err(()),
                }
            } else {
                parse_body(tts, 1, args, None)
            }
        },
        Tree::Delimited(DelimToken::Brace, _, _) => {
            let args: Vec<SpanJsMacArg> = Vec::new();
            assert(span_args_view(args@) =~= Seq::<SpanArg>::empty());
            parse_body(tts, 0, args, None)
        },
        _ => Err(()),
    }
}

} // verus!
