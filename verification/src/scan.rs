//! Scanning a unit: what each macro invocation of the unit adds to the unit's
//! manifest. Three macros count: `js!` declares a snippet, `include_js!` holds code
//! that runs before the module is loaded, and `include!` names another source file
//! of the unit.

use vstd::prelude::*;
use vstd::string::StringExecFns;
use crate::aggregate::{snippets_view, Manifest};
use crate::lex::{
    all_alike, lemma_group_alike, lemma_raws_alike, lemma_snippet_alike, lexed, tokenize,
    trees_for,
};
use crate::parse::parse_js_mac_span;
use crate::snippet::{JsMac, Snippet};
use crate::source::{resolve_js_mac, snippet_in, Source, SourceMap};
use crate::synth::{bind, lemma_parsed_snippet_wf, stub_of, Binding};
use crate::text::str_eq;
use crate::token::{Span, Token, Tree};

verus! {

/// A macro invocation: the segments of the macro's path and the tokens after the `!`.
#[derive(Debug)]
pub struct Mac {
    pub path: Vec<String>,
    pub tts: Vec<Tree>,
}

/// The model of a piece of a file path.
pub enum Piece {
    Literal(Seq<char>),
    Env(Seq<char>),
}

/// A piece of the path of an included file.
#[derive(Debug)]
pub enum PathPiece {
    /// The text itself.
    Literal(String),
    /// The value of the environment variable of this name.
    Env(String),
}

impl View for PathPiece {
    type V = Piece;

    open spec fn view(&self) -> Piece {
        match *self {
            PathPiece::Literal(s) => Piece::Literal(s@),
            PathPiece::Env(s) => Piece::Env(s@),
        }
    }
}

/// The models of `pieces`, in order.
pub open spec fn pieces_view(pieces: Seq<PathPiece>) -> Seq<Piece> {
    Seq::new(pieces.len(), |i: int| pieces[i]@)
}

/// A source file that the unit includes: the pieces of its path, and where the
/// inclusion stands.
#[derive(Debug)]
pub struct Include {
    pub pieces: Vec<PathPiece>,
    pub at: Span,
}

/// What a macro invocation asks for.
pub enum Effect {
    /// Nothing: not one of the three macros, or not in a form that counts.
    Nothing,
    /// A snippet for the manifest.
    Snippet(Snippet),
    /// Nothing: a `js!` whose tokens break the grammar.
    Rejected,
    /// Code for the prelude.
    Prelude(Seq<char>),
    /// A file to scan next.
    Include(Seq<Piece>, Span),
    /// Code for the prelude that the source map has no text for.
    NoText,
}

/// What became of a macro invocation.
#[derive(Debug)]
pub enum Visit {
    /// Nothing was done.
    Skipped,
    /// A snippet was added to the manifest. Its binding says how the call site is to
    /// call it.
    Snippet(Binding),
    /// The invocation is a `js!` that breaks the grammar. Nothing was done.
    Rejected,
    /// Code was added to the prelude.
    Prelude,
    /// The file named is to be scanned next, with the same visitor.
    Include(Include),
    /// The invocation holds code for the prelude, but the source map has no text for
    /// it. Nothing was done.
    NoText,
}

/// Whether the token at `pos` is `!`.
pub open spec fn is_not_at(tts: Seq<Tree>, pos: int) -> bool {
    &&& 0 <= pos < tts.len()
    &&& tts[pos] matches Tree::Token(Token::Not, _)
}

/// The trees inside the group at `pos`, if there is a group.
pub open spec fn group_at(tts: Seq<Tree>, pos: int) -> Option<Seq<Tree>> {
    if 0 <= pos < tts.len() {
        match tts[pos] {
            Tree::Delimited(_, inner, _) => Some(inner@),
            _ => None,
        }
    } else {
        None
    }
}

/// The name in `env!("name")`, where the group `inner` is that of such an invocation.
pub open spec fn env_name(inner: Seq<Tree>) -> Option<Seq<char>> {
    if inner.len() == 1 {
        match inner[0] {
            Tree::Token(Token::Str(name), _) => Some(name@),
            _ => None,
        }
    } else {
        None
    }
}

/// `piece` in front of `rest`, where there is a `rest`.
pub open spec fn with_piece(piece: Piece, rest: Option<Seq<Piece>>) -> Option<Seq<Piece>> {
    match rest {
        Some(r) => Some(seq![piece] + r),
        None => None,
    }
}

/// The pieces that the arguments of `concat!` name, from `pos` on: string literals and
/// `env!("name")`, with commas anywhere between them.
pub open spec fn concat_pieces(tts: Seq<Tree>, pos: int) -> Option<Seq<Piece>>
    decreases tts.len() - pos,
{
    if pos < 0 {
        None
    } else if pos >= tts.len() {
        Some(Seq::empty())
    } else {
        match tts[pos] {
            Tree::Token(Token::Str(s), _) => with_piece(
                Piece::Literal(s@),
                concat_pieces(tts, pos + 1),
            ),
            Tree::Token(Token::Comma, _) => concat_pieces(tts, pos + 1),
            Tree::Token(Token::Ident(word), _) => if word@ == "env"@ && is_not_at(tts, pos + 1) {
                match group_at(tts, pos + 2) {
                    Some(inner) => match env_name(inner) {
                        Some(name) => with_piece(Piece::Env(name), concat_pieces(tts, pos + 3)),
                        None => None,
                    },
                    None => None,
                }
            } else {
                None
            },
            _ => None,
        }
    }
}

/// The file that the tokens of an `include!` name: one string literal, or `concat!`
/// of pieces. The span is that of the first token.
pub open spec fn include_of(tts: Seq<Tree>) -> Option<(Seq<Piece>, Span)> {
    if tts.len() == 0 {
        None
    } else {
        match tts[0] {
            Tree::Token(Token::Str(path), span) => if tts.len() == 1 {
                Some((seq![Piece::Literal(path@)], span))
            } else {
                None
            },
            Tree::Token(Token::Ident(word), span) => if word@ == "concat"@ && is_not_at(tts, 1) {
                match group_at(tts, 2) {
                    Some(inner) => match concat_pieces(inner, 0) {
                        Some(pieces) => Some((pieces, span)),
                        None => None,
                    },
                    None => None,
                }
            } else {
                None
            },
            _ => None,
        }
    }
}

/// The span from the start of the first to the end of the last of `tts`.
pub open spec fn extent(tts: Seq<Tree>) -> Span
    recommends
        tts.len() > 0,
{
    Span { lo: tts[0].span().lo, hi: tts.last().span().hi }
}

/// What the code in an `include_js!` asks for.
pub open spec fn prelude_effect(tts: Seq<Tree>, source: Source) -> Effect {
    if tts.len() == 0 {
        Effect::Prelude(Seq::empty())
    } else {
        match source.text_of(extent(tts)) {
            Some(text) => Effect::Prelude(text),
            None => Effect::NoText,
        }
    }
}

/// What the invocation of the macro `path` with the tokens `tts` after its `!` asks
/// for, where the spans of the tokens are looked up in `source`.
pub open spec fn effect_in(path: Seq<String>, tts: Seq<Tree>, source: Source) -> Effect {
    if path.len() != 1 {
        Effect::Nothing
    } else {
        match group_at(tts, 0) {
            None => Effect::Nothing,
            Some(inner) => if path[0]@ == "js"@ {
                match snippet_in(inner, source) {
                    Some(s) => Effect::Snippet(s),
                    None => Effect::Rejected,
                }
            } else if path[0]@ == "include_js"@ {
                prelude_effect(inner, source)
            } else if path[0]@ == "include"@ {
                match include_of(inner) {
                    Some((pieces, at)) => Effect::Include(pieces, at),
                    None => Effect::Nothing,
                }
            } else {
                Effect::Nothing
            },
        }
    }
}

/// What a macro invocation asks for.
pub open spec fn effect_of(mac: Mac, source_map: SourceMap) -> Effect {
    effect_in(mac.path@, mac.tts@, Source::Files(&source_map))
}

/// What the invocation of the macro `path` asks for, where `text` is the text of the
/// invocation from the bracket after its `!` to the bracket that closes it. Text that
/// is not a sequence of token trees asks for nothing.
pub open spec fn effect_of_text(path: Seq<String>, text: &str) -> Effect {
    match lexed(text@) {
        Some(raws) => effect_in(path, trees_for(raws), Source::Text(text)),
        None => Effect::Nothing,
    }
}

/// Token trees that hold the same name the same pieces of a path.
proof fn lemma_concat_alike(a: Seq<Tree>, b: Seq<Tree>, pos: int)
    requires
        all_alike(a, b),
    ensures
        concat_pieces(a, pos) == concat_pieces(b, pos),
    decreases a.len() - pos,
{
    if 0 <= pos < a.len() {
        lemma_group_alike(a, b, pos + 2);
        match a[pos] {
            Tree::Token(Token::Str(_), _) => {
                lemma_concat_alike(a, b, pos + 1);
            },
            Tree::Token(Token::Comma, _) => {
                lemma_concat_alike(a, b, pos + 1);
            },
            Tree::Token(Token::Ident(_), _) => {
                if group_at(a, pos + 2) is Some {
                    lemma_concat_alike(a, b, pos + 3);
                }
            },
            _ => {},
        }
    }
}

/// Token trees that hold the same ask for the same.
proof fn lemma_effect_alike(path: Seq<String>, a: Seq<Tree>, b: Seq<Tree>, source: Source)
    requires
        all_alike(a, b),
    ensures
        effect_in(path, a, source) == effect_in(path, b, source),
{
    lemma_group_alike(a, b, 0);
    if let Some(inner) = group_at(a, 0) {
        let other = group_at(b, 0)->0;
        lemma_snippet_alike(inner, other, source);
        if let Some(args) = group_at(inner, 2) {
            lemma_concat_alike(args, group_at(other, 2)->0, 0);
        }
    }
}

/// Whether the token at `pos` is `!`.
fn not_at(tts: &[Tree], pos: usize) -> (r: bool)
    ensures
        r == is_not_at(tts@, pos as int),
{
    if pos < tts.len() {
        match &tts[pos] {
            Tree::Token(Token::Not, _) => true,
            _ => false,
        }
    } else {
        false
    }
}

/// The trees inside the group at `pos`, if there is a group.
fn inner_at(tts: &[Tree], pos: usize) -> (r: Option<&[Tree]>)
    ensures
        match group_at(tts@, pos as int) {
            Some(inner) => r matches Some(s) && s@ == inner,
            None => r is None,
        },
{
    if pos < tts.len() {
        match &tts[pos] {
            Tree::Delimited(_, inner, _) => Some(inner.as_slice()),
            _ => None,
        }
    } else {
        None
    }
}

/// Reads the arguments of `concat!`.
fn parse_concat(tts: &[Tree]) -> (r: Option<Vec<PathPiece>>)
    ensures
        match concat_pieces(tts@, 0) {
            Some(pieces) => r matches Some(v) && pieces_view(v@) == pieces,
            None => r is None,
        },
{
    let len = tts.len();
    let mut out: Vec<PathPiece> = Vec::new();
    let mut pos: usize = 0;
    while pos < len
        invariant
            pos <= len,
            len == tts@.len(),
            concat_pieces(tts@, 0) == match concat_pieces(tts@, pos as int) {
                Some(rest) => Some(pieces_view(out@) + rest),
                None => None,
            },
        decreases len - pos,
    {
        match &tts[pos] {
            Tree::Token(Token::Str(s), _) => {
                out.push(PathPiece::Literal(s.clone()));
                pos += 1;
            },
            Tree::Token(Token::Comma, _) => {
                pos += 1;
            },
            Tree::Token(Token::Ident(word), _) => {
                if !str_eq(word.as_str(), "env") || !not_at(tts, pos + 1) {
                    return None;
                }
                let inner = match inner_at(tts, pos + 2) {
                    Some(inner) => inner,
                    None => {
                        return None;
                    },
                };
                if inner.len() != 1 {
                    return None;
                }
                match &inner[0] {
                    Tree::Token(Token::Str(name), _) => {
                        out.push(PathPiece::Env(name.clone()));
                        pos += 3;
                    },
                    _ => {
                        return None;
                    },
                }
            },
            _ => {
                return None;
            },
        }
    }
    Some(out)
}

/// Reads the file that the tokens of an `include!` name.
pub fn parse_include(tts: &[Tree]) -> (r: Option<Include>)
    ensures
        match include_of(tts@) {
            Some((pieces, at)) => r matches Some(inc) && pieces_view(inc.pieces@) == pieces
                && inc.at == at,
            None => r is None,
        },
{
    if tts.len() == 0 {
        return None;
    }
    match &tts[0] {
        Tree::Token(Token::Str(path), span) => {
            if tts.len() != 1 {
                return None;
            }
            let mut pieces: Vec<PathPiece> = Vec::new();
            pieces.push(PathPiece::Literal(path.clone()));
            Some(Include { pieces, at: *span })
        },
        Tree::Token(Token::Ident(word), span) => {
            if !str_eq(word.as_str(), "concat") || !not_at(tts, 1) {
                return None;
            }
            match inner_at(tts, 2) {
                Some(inner) => match parse_concat(inner) {
                    Some(pieces) => Some(Include { pieces, at: *span }),
                    None => None,
                },
                None => None,
            }
        },
        _ => None,
    }
}

/// The manifest of a unit while the unit is scanned.
#[derive(Debug)]
pub struct JsVisitor {
    /// The snippets found so far, in source order.
    pub instances: Vec<JsMac>,
    /// The prelude found so far.
    pub included_js: String,
}

/// Whether the visitor `after` is the visitor `before` once `effect` was carried out,
/// and `r` reports it.
pub open spec fn visited(before: JsVisitor, after: JsVisitor, r: Visit, effect: Effect) -> bool {
    match effect {
        Effect::Nothing => {
            &&& r is Skipped
            &&& after.instances@ == before.instances@
            &&& after.included_js@ == before.included_js@
        },
        Effect::Rejected => {
            &&& r is Rejected
            &&& after.instances@ == before.instances@
            &&& after.included_js@ == before.included_js@
        },
        Effect::Snippet(s) => {
            &&& r matches Visit::Snippet(binding)
            &&& binding@ == stub_of(s)
            &&& snippets_view(after.instances@) == snippets_view(before.instances@).push(s)
            &&& after.included_js@ == before.included_js@
        },
        Effect::Prelude(text) => {
            &&& r is Prelude
            &&& after.instances@ == before.instances@
            &&& after.included_js@ == before.included_js@ + text + "\n"@
        },
        Effect::Include(pieces, at) => {
            &&& r matches Visit::Include(inc)
            &&& pieces_view(inc.pieces@) == pieces
            &&& inc.at == at
            &&& after.instances@ == before.instances@
            &&& after.included_js@ == before.included_js@
        },
        Effect::NoText => {
            &&& r is NoText
            &&& after.instances@ == before.instances@
            &&& after.included_js@ == before.included_js@
        },
    }
}

impl JsVisitor {
    /// A visitor that has seen nothing yet.
    pub fn new() -> (r: JsVisitor)
        ensures
            r.instances@.len() == 0,
            r.included_js@.len() == 0,
    {
        JsVisitor { instances: Vec::new(), included_js: String::new() }
    }

    /// Looks at the invocation of the macro `path` with the tokens `tts` after its `!`.
    fn visit(&mut self, path: &[String], tts: &[Tree], source: &Source) -> (r: Visit)
        ensures
            visited(*old(self), *final(self), r, effect_in(path@, tts@, *source)),
    {
        if path.len() != 1 {
            return Visit::Skipped;
        }
        let inner = match inner_at(tts, 0) {
            Some(inner) => inner,
            None => {
                return Visit::Skipped;
            },
        };
        let name = path[0].as_str();
        if str_eq(name, "js") {
            let parsed = match parse_js_mac_span(inner) {
                Ok(spanned) => resolve_js_mac(&spanned, source),
                Err(_) => Err(()),
            };
            match parsed {
                Ok(mac) => {
                    proof {
                        lemma_parsed_snippet_wf(inner@, *source);
                    }
                    let ghost s = mac@;
                    let binding = bind(&mac);
                    self.instances.push(mac);
                    assert(snippets_view(self.instances@) =~= snippets_view(
                        old(self).instances@,
                    ).push(s));
                    Visit::Snippet(binding)
                },
                Err(_) => Visit::Rejected,
            }
        } else if str_eq(name, "include_js") {
            if inner.len() > 0 {
                let span = inner[0].span().extend(inner[inner.len() - 1].span());
                match source.source_text(span) {
                    Some(text) => {
                        self.included_js.append(text.as_str());
                        self.included_js.append("\n");
                        Visit::Prelude
                    },
                    None => Visit::NoText,
                }
            } else {
                self.included_js.append("\n");
                Visit::Prelude
            }
        } else if str_eq(name, "include") {
            match parse_include(inner) {
                Some(inc) => Visit::Include(inc),
                None => Visit::Skipped,
            }
        } else {
            Visit::Skipped
        }
    }

    /// Looks at one macro invocation of the unit. A `js!` that declares a snippet adds
    /// it to the manifest and hands its binding back; one that breaks the grammar is
    /// reported and adds nothing. An
    /// `include_js!` adds its text and a line break to the prelude. An `include!` that
    /// names a file is handed back for the caller to scan that file with this visitor.
    /// Everything else is passed over.
    pub fn visit_mac(&mut self, mac: &Mac, source_map: &SourceMap) -> (r: Visit)
        ensures
            visited(*old(self), *final(self), r, effect_of(*mac, *source_map)),
    {
        self.visit(mac.path.as_slice(), mac.tts.as_slice(), &Source::Files(source_map))
    }

    /// Looks at one macro invocation of the unit, given as text: `path` holds the
    /// segments of the macro's path, and `text` is the text of the invocation from the
    /// bracket after its `!` to the bracket that closes it. Spans count from the start of
    /// `text`.
    pub fn visit_text(&mut self, path: &[String], text: &str) -> (r: Visit)
        ensures
            visited(*old(self), *final(self), r, effect_of_text(path@, text)),
    {
        match tokenize(text) {
            None => Visit::Skipped,
            Some(tts) => {
                proof {
                    let raws = lexed(text@)->0;
                    lemma_raws_alike(tts@, trees_for(raws), raws);
                    lemma_effect_alike(path@, tts@, trees_for(raws), Source::Text(text));
                }
                self.visit(path, tts.as_slice(), &Source::Text(text))
            },
        }
    }

    /// The manifest of the unit, once all of it was scanned.
    pub fn into_manifest(self) -> (r: Manifest)
        ensures
            r.snippets@ == self.instances@,
            r.prelude@ == self.included_js@,
    {
        Manifest { snippets: self.instances, prelude: self.included_js }
    }
}

} // verus!
