//! Where the text behind a span comes from: one string, or a map of source files
//! that share one space of byte offsets.

use vstd::prelude::*;
use crate::parse::{
    parse_js_mac_span, snippet_of_tokens, SpanArg, SpanJsMac, SpanJsMacArg, SpanSnippet,
};
use crate::snippet::{opt_text, Arg, JsMac, JsMacArg, Snippet};
use crate::symbol::symbol;
use crate::text::{slice_text, span_in_text, text_between};
use crate::token::{Span, Tree};

verus! {

/// The text that `span` cuts out of `text`, if it cuts between characters.
pub open spec fn text_at(text: Seq<char>, span: Span) -> Option<Seq<char>> {
    if span_in_text(text, span.lo as int, span.hi as int) {
        Some(text_between(text, span.lo as int, span.hi as int))
    } else {
        None
    }
}

/// One source file: its text, and the offset at which the text starts.
#[derive(Debug)]
pub struct SourceFile {
    pub lo: usize,
    pub src: String,
}

impl SourceFile {
    /// Whether `span` is a span and starts at the start of this file or later.
    pub open spec fn starts_in(&self, span: Span) -> bool {
        self.lo <= span.lo <= span.hi
    }

    /// The text of `span` in this file, where the span lies in it.
    pub open spec fn text_of(&self, span: Span) -> Option<Seq<char>> {
        if self.starts_in(span) {
            text_at(
                self.src@,
                Span { lo: (span.lo - self.lo) as usize, hi: (span.hi - self.lo) as usize },
            )
        } else {
            None
        }
    }

    /// The text of `span` in this file, where the span lies in it.
    pub fn source_text(&self, span: Span) -> (r: Option<String>)
        ensures
            opt_text(r) == self.text_of(span),
    {
        if self.lo <= span.lo && span.lo <= span.hi {
            slice_text(self.src.as_str(), span.lo - self.lo, span.hi - self.lo)
        } else {
            None
        }
    }
}

/// The text of `span` in the first of the files from index `from` on that has one.
pub open spec fn text_in_files(files: Seq<SourceFile>, from: int, span: Span) -> Option<Seq<char>>
    decreases files.len() - from,
{
    if from < 0 || from >= files.len() {
        None
    } else if files[from].text_of(span) is Some {
        files[from].text_of(span)
    } else {
        text_in_files(files, from + 1, span)
    }
}

/// Source files that share one space of byte offsets.
#[derive(Debug)]
pub struct SourceMap {
    pub files: Vec<SourceFile>,
}

impl SourceMap {
    /// A map without files.
    pub fn new() -> (r: SourceMap)
        ensures
            r.files@.len() == 0,
    {
        SourceMap { files: Vec::new() }
    }

    /// Adds a file whose text starts at offset `lo`.
    pub fn add_file(&mut self, lo: usize, src: String)
        ensures
            final(self).files@ == old(self).files@.push(SourceFile { lo, src }),
    {
        self.files.push(SourceFile { lo, src });
    }

    /// The text of `span`: that of the first file that has a text for the span.
    pub open spec fn text_of(&self, span: Span) -> Option<Seq<char>> {
        text_in_files(self.files@, 0, span)
    }

    /// The text of `span`, or `None` where no file has a text for the span.
    pub fn source_text(&self, span: Span) -> (r: Option<String>)
        ensures
            opt_text(r) == self.text_of(span),
    {
        let mut i: usize = 0;
        while i < self.files.len()
            invariant
                i <= self.files@.len(),
                self.text_of(span) == text_in_files(self.files@, i as int, span),
            decreases self.files@.len() - i,
        {
            let found = self.files[i].source_text(span);
            if found.is_some() {
                return found;
            }
            i += 1;
        }
        None
    }
}

/// A place to look spans up in.
pub enum Source<'a> {
    /// One text; offsets count its bytes.
    Text(&'a str),
    /// A map of files.
    Files(&'a SourceMap),
}

impl<'a> Source<'a> {
    /// The text of `span` in this source.
    pub open spec fn text_of(&self, span: Span) -> Option<Seq<char>> {
        match *self {
            Source::Text(text) => text_at(text@, span),
            Source::Files(map) => map.text_of(span),
        }
    }

    /// The text of `span` in this source, where it has one.
    pub fn source_text(&self, span: Span) -> (r: Option<String>)
        ensures
            opt_text(r) == self.text_of(span),
    {
        match self {
            Source::Text(text) => slice_text(text, span.lo, span.hi),
            Source::Files(map) => map.source_text(span),
        }
    }
}

/// The argument `a` with its name looked up in `source`.
pub open spec fn resolve_arg(a: SpanArg, source: Source) -> Option<Arg> {
    match a {
        SpanArg::Reference { marker_chain, indirection_depth, name } => match source.text_of(name) {
            Some(source_name) => Some(
                Arg::Reference { marker_chain, indirection_depth, source_name },
            ),
            None => None,
        },
        SpanArg::Primitive { indirection_depth, name, ty } => match source.text_of(name) {
            Some(source_name) => Some(Arg::Primitive { indirection_depth, source_name, ty }),
            None => None,
        },
    }
}

/// The arguments `args` with their names looked up in `source`, if each has a text.
pub open spec fn resolve_args(args: Seq<SpanArg>, source: Source) -> Option<Seq<Arg>> {
    if forall|i: int| 0 <= i < args.len() ==> (#[trigger] resolve_arg(args[i], source)) is Some {
        Some(Seq::new(args.len(), |i: int| resolve_arg(args[i], source)->0))
    } else {
        None
    }
}

/// The body behind `body`, if there is a body and it has a text in `source`. The
/// outer `None` says that a span has no text.
pub open spec fn resolve_body(body: Option<Span>, source: Source) -> Option<Option<Seq<char>>> {
    match body {
        None => Some(None),
        Some(span) => match source.text_of(span) {
            Some(text) => Some(Some(text)),
            None => None,
        },
    }
}

/// The snippet `s` with its names and its body looked up in `source`, if each span
/// has a text there.
pub open spec fn resolve(s: SpanSnippet, source: Source) -> Option<Snippet> {
    match (resolve_args(s.args, source), resolve_body(s.body, source)) {
        (Some(args), Some(body)) => Some(Snippet { args, ret: s.ret, body }),
        _ => None,
    }
}

/// The snippet that the tokens `tts` declare when their spans are looked up in
/// `source`: `None` where the tokens break the grammar or a span has no text.
pub open spec fn snippet_in(tts: Seq<Tree>, source: Source) -> Option<Snippet> {
    match snippet_of_tokens(tts) {
        Some(s) => resolve(s, source),
        None => None,
    }
}

/// Reading the same declaration twice gives the same snippet, and with it the same
/// symbol: whatever two readings of the tokens `tts` against `source` return, the two
/// snippets are equal.
pub proof fn lemma_same_declaration_same_symbol(
    tts: Seq<Tree>,
    source: Source,
    first: JsMac,
    second: JsMac,
)
    requires
        snippet_in(tts, source) == Some(first@),
        snippet_in(tts, source) == Some(second@),
    ensures
        first@ == second@,
        symbol(first@) == symbol(second@),
{
}

/// Looks the name of one argument up.
fn resolve_one(arg: &SpanJsMacArg, source: &Source) -> (r: Option<JsMacArg>)
    ensures
        match resolve_arg(arg@, *source) {
            Some(a) => r matches Some(x) && x@ == a,
            None => r is None,
        },
{
    match arg {
        SpanJsMacArg::Ref(refs, derefs, span) => match source.source_text(*span) {
            Some(name) => Some(JsMacArg::Ref(refs.clone(), *derefs, name)),
            None => None,
        },
        SpanJsMacArg::Primitive(derefs, span, ty) => match source.source_text(*span) {
            Some(name) => Some(JsMacArg::Primitive(*derefs, name, *ty)),
            None => None,
        },
    }
}

/// Looks the names and the body of a snippet up in `source`.
pub fn resolve_js_mac(spanned: &SpanJsMac, source: &Source) -> (r: Result<JsMac, ()>)
    ensures
        match resolve(spanned@, *source) {
            Some(s) => r matches Ok(m) && m@ == s,
            None => r is Err,
        },
{
    let ghost all = spanned@.args;
    let mut args: Vec<JsMacArg> = Vec::new();
    let mut i: usize = 0;
    while i < spanned.args.len()
        invariant
            i <= spanned.args@.len(),
            all == spanned@.args,
            args@.len() == i,
            forall|j: int| 0 <= j < i ==> resolve_arg(all[j], *source) == Some((#[trigger] args@[j])@),
        decreases spanned.args@.len() - i,
    {
        match resolve_one(&spanned.args[i], source) {
            Some(a) => {
                args.push(a);
            },
            None => {
                assert(resolve_arg(all[i as int], *source) is None);
                return Err(());
            },
        }
        i += 1;
    }
    let body = match spanned.body {
        None => None,
        Some(span) => match source.source_text(span) {
            Some(text) => Some(text),
            None => {
                return Err(());
            },
        },
    };
    let mac = JsMac { args, ret: spanned.ret, body };
    proof {
        assert forall|j: int| 0 <= j < all.len() implies (#[trigger] resolve_arg(all[j], *source)) is Some by {
            assert(resolve_arg(all[j], *source) == Some(args@[j]@));
        }
        assert(mac@.args =~= resolve_args(all, *source)->0);
    }
    Ok(mac)
}

/// Reads a snippet declaration whose spans are offsets into the source map
/// `source_map`.
pub fn parse_js_mac_source_map(tts: &[Tree], source_map: &SourceMap) -> (r: Result<JsMac, ()>)
    ensures
        match snippet_in(tts@, Source::Files(source_map)) {
            Some(s) => r matches Ok(m) && m@ == s,
            None => r is Err,
        },
{
    match parse_js_mac_span(tts) {
        Ok(spanned) => resolve_js_mac(&spanned, &Source::Files(source_map)),
        Err(_) => Err(()),
    }
}

/// Reads a snippet declaration whose spans are byte offsets into `string_source`.
pub fn parse_js_mac_string_source(tts: &[Tree], string_source: &str) -> (r: Result<JsMac, ()>)
    ensures
        match snippet_in(tts@, Source::Text(string_source)) {
            Some(s) => r matches Ok(m) && m@ == s,
            None => r is Err,
        },
{
    match parse_js_mac_span(tts) {
        Ok(spanned) => resolve_js_mac(&spanned, &Source::Text(string_source)),
        Err(_) => Err(()),
    }
}

} // verus!
