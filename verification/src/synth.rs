//! Bindings: how a snippet is called. Each argument by value keeps its type across the
//! boundary; each argument by reference crosses it as one address, and the caller
//! keeps the referent's type in a type parameter of the stub.

use vstd::prelude::*;
use crate::lex::{
    all_alike, lemma_group_alike, lemma_raws_alike, lemma_snippet_alike, lexed, tokenize,
    trees_for,
};
use crate::parse::{
    item_at, items_at, lemma_item_advances, snippet_of_tokens, type_of_keyword, SpanArg,
};
use crate::scan::group_at;
use crate::snippet::{Arg, JsMac, JsMacArg, Snippet, WasmPrimitiveType};
use crate::source::{parse_js_mac_string_source, resolve_arg, snippet_in, Source};
use crate::symbol::{symbol, symbol_name};
use crate::token::Tree;

verus! {

/// The keyword that names a type.
pub open spec fn type_keyword(ty: WasmPrimitiveType) -> Seq<char> {
    match ty {
        WasmPrimitiveType::I32 => "i32"@,
        WasmPrimitiveType::I64 => "i64"@,
        WasmPrimitiveType::F32 => "f32"@,
        WasmPrimitiveType::F64 => "f64"@,
    }
}

/// The keyword that names a type.
pub fn prim_to_ty(ty: WasmPrimitiveType) -> (r: &'static str)
    ensures
        r@ == type_keyword(ty),
{
    match ty {
        WasmPrimitiveType::I32 => "i32",
        WasmPrimitiveType::I64 => "i64",
        WasmPrimitiveType::F32 => "f32",
        WasmPrimitiveType::F64 => "f64",
    }
}

/// The keyword of a type names that type.
pub proof fn lemma_keyword_names_type(ty: WasmPrimitiveType)
    ensures
        type_of_keyword(type_keyword(ty)) == Some(ty),
{
    reveal_strlit("i32");
    reveal_strlit("i64");
    reveal_strlit("f32");
    reveal_strlit("f64");
    assert("i32"@[0] == 'i' && "i64"@[0] == 'i' && "f32"@[0] == 'f' && "f64"@[0] == 'f');
    assert("i32"@[1] == '3' && "i64"@[1] == '6' && "f32"@[1] == '3' && "f64"@[1] == '6');
}

/// The trees inside a group, in order.
pub fn unwrap_delimited(t: &Tree) -> (r: &[Tree])
    requires
        t is Delimited,
    ensures
        r@ == t->Delimited_1@,
{
    match t {
        Tree::Delimited(_, inner, _) => inner.as_slice(),
        Tree::Token(_, _) => unreached(),
    }
}

/// What crosses the boundary for one argument.
#[derive(Clone, Copy, Debug, PartialEq, Eq, Structural)]
pub enum ForeignType {
    /// A value of a primitive type.
    Value(WasmPrimitiveType),
    /// An address: one integer as wide as an address of the module.
    Address,
}

/// How the caller hands one argument over.
#[derive(Clone, Copy, Debug, PartialEq, Eq, Structural)]
pub enum Passing {
    /// By value, cast to the type at the call site.
    Value(WasmPrimitiveType),
    /// By the address of its referent. The caller's parameter is a reference to the
    /// stub's type parameter number `type_param`, exclusive where `mutable`. An
    /// exclusive reference is cast to a mutable address; a shared one to a constant
    /// address first and from that to a mutable address, which the foreign side must
    /// not write through.
    Address { type_param: usize, mutable: bool },
}

impl Passing {
    /// What crosses the boundary.
    pub open spec fn spec_foreign_type(self) -> ForeignType {
        match self {
            Passing::Value(ty) => ForeignType::Value(ty),
            Passing::Address { .. } => ForeignType::Address,
        }
    }

    /// What crosses the boundary.
    #[verifier::when_used_as_spec(spec_foreign_type)]
    pub fn foreign_type(self) -> (r: ForeignType)
        ensures
            r == self.spec_foreign_type(),
    {
        match self {
            Passing::Value(ty) => ForeignType::Value(ty),
            Passing::Address { .. } => ForeignType::Address,
        }
    }
}

/// The model of one parameter of a stub.
pub struct Param {
    pub name: Seq<char>,
    pub passing: Passing,
}

/// The model of a binding.
pub struct Stub {
    pub symbol: Seq<char>,
    pub type_params: nat,
    pub params: Seq<Param>,
    pub ret: Option<WasmPrimitiveType>,
}

/// How many of the first `n` arguments are handed over by reference.
pub open spec fn references_before(args: Seq<Arg>, n: int) -> nat
    decreases n,
{
    if n <= 0 || n > args.len() {
        0
    } else {
        references_before(args, n - 1) + if args[n - 1] is Reference {
            1nat
        } else {
            0nat
        }
    }
}

/// The parameter that stands for argument `i`. Each argument by reference has a type
/// parameter of its own; they are numbered in the order of the arguments.
pub open spec fn param_of(args: Seq<Arg>, i: int) -> Param {
    match args[i] {
        Arg::Primitive { source_name, ty, .. } => Param {
            name: source_name,
            passing: Passing::Value(ty),
        },
        Arg::Reference { marker_chain, source_name, .. } => Param {
            name: source_name,
            passing: Passing::Address {
                type_param: references_before(args, i) as usize,
                mutable: marker_chain[0],
            },
        },
    }
}

/// The binding of a snippet: the foreign function has the snippet's symbol as its
/// name, one parameter for each argument in the same order, and the snippet's return
/// type.
pub open spec fn stub_of(s: Snippet) -> Stub {
    Stub {
        symbol: symbol(s),
        type_params: references_before(s.args, s.args.len() as int),
        params: Seq::new(s.args.len(), |i: int| param_of(s.args, i)),
        ret: s.ret,
    }
}

/// The types that cross the boundary, in the order of the parameters.
pub open spec fn foreign_params(params: Seq<Param>) -> Seq<ForeignType> {
    Seq::new(params.len(), |i: int| params[i].passing.foreign_type())
}

/// One parameter of a stub.
#[derive(Debug)]
pub struct BoundArg {
    /// The expression that names the argument at the call site.
    pub name: String,
    /// How the argument is handed over.
    pub passing: Passing,
}

impl View for BoundArg {
    type V = Param;

    open spec fn view(&self) -> Param {
        Param { name: self.name@, passing: self.passing }
    }
}

/// The models of `args`, in order.
pub open spec fn params_view(args: Seq<BoundArg>) -> Seq<Param> {
    Seq::new(args.len(), |i: int| args[i]@)
}

/// The binding of a snippet: what the stub at the call site and the declaration of
/// the foreign function are made of.
#[derive(Debug)]
pub struct Binding {
    /// The name of the foreign function.
    pub symbol: String,
    /// The number of type parameters of the stub.
    pub type_params: usize,
    /// The parameters, in the order of the snippet's arguments.
    pub args: Vec<BoundArg>,
    /// The type that the foreign function returns, if it returns a value.
    pub ret: Option<WasmPrimitiveType>,
}

impl View for Binding {
    type V = Stub;

    open spec fn view(&self) -> Stub {
        Stub {
            symbol: self.symbol@,
            type_params: self.type_params as nat,
            params: params_view(self.args@),
            ret: self.ret,
        }
    }
}

impl Binding {
    /// The parameter types of the foreign function.
    pub fn foreign_signature(&self) -> (r: Vec<ForeignType>)
        ensures
            r@ == foreign_params(self@.params),
    {
        let mut out: Vec<ForeignType> = Vec::new();
        let mut i: usize = 0;
        while i < self.args.len()
            invariant
                i <= self.args@.len(),
                out@.len() == i,
                forall|j: int| 0 <= j < i ==> out@[j] == self.args@[j].passing.foreign_type(),
            decreases self.args@.len() - i,
        {
            out.push(self.args[i].passing.foreign_type());
            i += 1;
        }
        out
    }
}

/// The binding of a snippet.
pub fn bind(mac: &JsMac) -> (r: Binding)
    requires
        mac@.wf(),
    ensures
        r@ == stub_of(mac@),
{
    let ghost args = mac@.args;
    let mut bound: Vec<BoundArg> = Vec::new();
    let mut type_params: usize = 0;
    let mut i: usize = 0;
    while i < mac.args.len()
        invariant
            i <= mac.args@.len(),
            args == mac@.args,
            args.len() == mac.args@.len(),
            mac@.wf(),
            type_params == references_before(args, i as int),
            type_params <= i,
            bound@.len() == i,
            forall|j: int| 0 <= j < i ==> (#[trigger] bound@[j])@ == param_of(args, j),
        decreases mac.args@.len() - i,
    {
        assert(args[i as int] == mac.args@[i as int]@);
        match &mac.args[i] {
            JsMacArg::Primitive(_, name, ty) => {
                bound.push(BoundArg { name: name.clone(), passing: Passing::Value(*ty) });
            },
            JsMacArg::Ref(refs, _, name) => {
                let mutable = refs[0];
                bound.push(
                    BoundArg {
                        name: name.clone(),
                        passing: Passing::Address { type_param: type_params, mutable },
                    },
                );
                type_params += 1;
            },
        }
        i += 1;
    }
    let r = Binding { symbol: symbol_name(mac), type_params, args: bound, ret: mac.ret };
    assert(r@.params =~= stub_of(mac@).params);
    r
}

/// A reference argument that the grammar accepts has at least one reference marker.
pub open spec fn span_arg_wf(a: SpanArg) -> bool {
    a matches SpanArg::Reference { marker_chain, .. } ==> marker_chain.len() > 0
}

/// Every argument of a list that the grammar accepts is well formed.
proof fn lemma_items_wf(tts: Seq<Tree>, pos: int)
    ensures
        items_at(tts, pos) matches Some(args) ==> forall|i: int|
            0 <= i < args.len() ==> span_arg_wf(#[trigger] args[i]),
    decreases tts.len() - pos,
{
    if 0 <= pos < tts.len() {
        if let Some((arg, next)) = item_at(tts, pos) {
            lemma_item_advances(tts, pos);
            if next < tts.len() {
                lemma_items_wf(tts, next + 1);
            }
        }
    }
}

/// Every snippet that the grammar accepts is well formed: its arguments by reference
/// carry at least one reference marker.
pub proof fn lemma_parsed_snippet_wf(tts: Seq<Tree>, source: Source)
    ensures
        snippet_in(tts, source) matches Some(s) ==> s.wf(),
{
    if snippet_in(tts, source) is Some {
        if let Tree::Delimited(_, inner, _) = tts[0] {
            lemma_items_wf(inner@, 0);
        }
    }
}

/// Why no binding was made.
#[derive(Debug, PartialEq, Eq)]
pub enum EmbedError {
    /// The text is not a sequence of token trees.
    Tokens,
    /// The tokens are not those of a snippet wrapped for derivation.
    Shape,
    /// The snippet breaks the grammar.
    Syntax,
}

/// The tokens of the snippet inside its wrapping. A snippet is handed to derivation
/// wrapped in an item: the fifth token of the input is a group, the third token in it
/// is a group, and the third token in that one is the group that holds the snippet.
pub open spec fn payload_of(tokens: Seq<Tree>) -> Option<Seq<Tree>> {
    match group_at(tokens, 4) {
        Some(item) => match group_at(item, 2) {
            Some(value) => group_at(value, 2),
            None => None,
        },
        None => None,
    }
}

/// The binding of the snippet that the tokens `tokens` wrap, or why there is none.
/// `source` is the text that the tokens were read from.
pub open spec fn stub_of_tokens(tokens: Seq<Tree>, source: &str) -> Result<Stub, EmbedError> {
    match payload_of(tokens) {
        None => Err(EmbedError::Shape),
        Some(payload) => match snippet_in(payload, Source::Text(source)) {
            None => Err(EmbedError::Syntax),
            Some(s) => Ok(stub_of(s)),
        },
    }
}

/// The binding of the snippet that the text `input` wraps, or why there is none.
pub open spec fn stub_of_text(input: &str) -> Result<Stub, EmbedError> {
    match lexed(input@) {
        None => Err(EmbedError::Tokens),
        Some(raws) => stub_of_tokens(trees_for(raws), input),
    }
}

/// Whether a binding, or the error in its place, is what `expected` says.
pub open spec fn is_stub(r: Result<Binding, EmbedError>, expected: Result<Stub, EmbedError>) -> bool {
    match expected {
        Ok(stub) => r matches Ok(b) && b@ == stub,
        Err(e) => r == Err::<Binding, EmbedError>(e),
    }
}

/// The group at `pos`, if there is one.
fn group(tokens: &[Tree], pos: usize) -> (r: Option<&[Tree]>)
    ensures
        match group_at(tokens@, pos as int) {
            Some(inner) => r matches Some(s) && s@ == inner,
            None => r is None,
        },
{
    if pos < tokens.len() {
        match &tokens[pos] {
            Tree::Delimited(_, _, _) => Some(unwrap_delimited(&tokens[pos])),
            Tree::Token(_, _) => None,
        }
    } else {
        None
    }
}

/// Derives the binding of a wrapped snippet from its tokens. `tokens` are the tokens
/// of the wrapping item and `source` is the text they were read from.
pub fn embed_js_tokens(tokens: &[Tree], source: &str) -> (r: Result<Binding, EmbedError>)
    ensures
        is_stub(r, stub_of_tokens(tokens@, source)),
{
    let item = match group(tokens, 4) {
        Some(item) => item,
        None => {
            return Err(EmbedError::Shape);
        },
    };
    let value = match group(item, 2) {
        Some(value) => value,
        None => {
            return Err(EmbedError::Shape);
        },
    };
    let payload = match group(value, 2) {
        Some(payload) => payload,
        None => {
            return Err(EmbedError::Shape);
        },
    };
    match parse_js_mac_string_source(payload, source) {
        Ok(mac) => {
            proof {
                lemma_parsed_snippet_wf(payload@, Source::Text(source));
            }
            Ok(bind(&mac))
        },
        Err(_) => Err(EmbedError::Syntax),
    }
}

/// Token trees that hold the same wrap snippets that hold the same.
proof fn lemma_payload_alike(a: Seq<Tree>, b: Seq<Tree>)
    requires
        all_alike(a, b),
    ensures
        match payload_of(a) {
            Some(inner) => payload_of(b) matches Some(other) && all_alike(inner, other),
            None => payload_of(b) is None,
        },
{
    if let Some(item) = group_at(a, 4) {
        lemma_group_alike(item, group_at(b, 4)->0, 2);
    }
}

/// Derives the binding of a wrapped snippet from the text of the wrapping item, or
/// says why there is none.
fn derive(input: &str) -> (r: Result<Binding, EmbedError>)
    ensures
        is_stub(r, stub_of_text(input)),
{
    match tokenize(input) {
        None => Err(EmbedError::Tokens),
        Some(tokens) => {
            proof {
                let raws = lexed(input@)->0;
                let chosen = trees_for(raws);
                lemma_raws_alike(tokens@, chosen, raws);
                lemma_payload_alike(tokens@, chosen);
                if let Some(payload) = payload_of(tokens@) {
                    lemma_snippet_alike(payload, payload_of(chosen)->0, Source::Text(input));
                }
            }
            embed_js_tokens(tokens.as_slice(), input)
        },
    }
}

/// Why the text `input` has no binding; `None` where it has one.
pub fn embed_error(input: &str) -> (r: Option<EmbedError>)
    ensures
        r == match stub_of_text(input) {
            Ok(_) => None::<EmbedError>,
            Err(e) => Some(e),
        },
{
    match derive(input) {
        Ok(_) => None,
        Err(e) => Some(e),
    }
}

/// Derives the binding of a wrapped snippet from the text of the wrapping item. The
/// text must wrap a snippet that keeps to the grammar; `try_embed_js` takes any text.
pub fn embed_js(input: &str) -> (r: Binding)
    requires
        stub_of_text(input) is Ok,
    ensures
        r@ == stub_of_text(input)->Ok_0,
{
    match derive(input) {
        Ok(binding) => binding,
        Err(_) => unreached(),
    }
}

/// Derives the binding of a wrapped snippet from the text of the wrapping item, where
/// the text wraps a snippet that keeps to the grammar, and says why not where it does
/// not.
pub fn try_embed_js(input: &str) -> (r: Result<Binding, EmbedError>)
    ensures
        is_stub(r, stub_of_text(input)),
{
    match embed_error(input) {
        Some(e) => Err(e),
        None => Ok(embed_js(input)),
    }
}

} // verus!
