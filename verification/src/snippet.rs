//! Snippet descriptors and their mathematical model.

use vstd::prelude::*;

verus! {

/// The four value types that may cross the boundary between the module and its host.
#[derive(Clone, Copy, Debug, PartialEq, Eq, PartialOrd, Ord, Hash, Structural)]
pub enum WasmPrimitiveType {
    I32,
    I64,
    F32,
    F64,
}

/// The model of one argument of a snippet.
pub enum Arg {
    /// An argument that is handed over as the address of its referent.
    /// `marker_chain` holds one entry for each `&`, `true` where it was `&mut`.
    Reference { marker_chain: Seq<bool>, indirection_depth: nat, source_name: Seq<char> },
    /// An argument that is handed over by value, cast to `ty`.
    Primitive { indirection_depth: nat, source_name: Seq<char>, ty: WasmPrimitiveType },
}

impl Arg {
    /// The expression that names the argument at the call site.
    pub open spec fn source_name(self) -> Seq<char> {
        match self {
            Arg::Reference { source_name, .. } => source_name,
            Arg::Primitive { source_name, .. } => source_name,
        }
    }

    /// An argument by reference carries at least one reference marker.
    pub open spec fn wf(self) -> bool {
        self matches Arg::Reference { marker_chain, .. } ==> marker_chain.len() > 0
    }
}

/// The model of a snippet: its arguments in call-site order, the type it returns, if
/// any, and its body, if it has one.
pub struct Snippet {
    pub args: Seq<Arg>,
    pub ret: Option<WasmPrimitiveType>,
    pub body: Option<Seq<char>>,
}

impl Snippet {
    /// Every argument is well formed.
    pub open spec fn wf(self) -> bool {
        forall|i: int| 0 <= i < self.args.len() ==> (#[trigger] self.args[i]).wf()
    }
}

/// One argument of a snippet.
#[derive(Debug, Eq, PartialOrd, Ord, Hash)]
pub enum JsMacArg {
    /// Reference markers (`true` for `&mut`), number of `*`, source expression.
    Ref(Vec<bool>, usize, String),
    /// Number of `*`, source expression, type the value is cast to.
    Primitive(usize, String, WasmPrimitiveType),
}

impl View for JsMacArg {
    type V = Arg;

    open spec fn view(&self) -> Arg {
        match *self {
            JsMacArg::Ref(refs, derefs, name) => Arg::Reference {
                marker_chain: refs@,
                indirection_depth: derefs as nat,
                source_name: name@,
            },
            JsMacArg::Primitive(derefs, name, ty) => Arg::Primitive {
                indirection_depth: derefs as nat,
                source_name: name@,
                ty,
            },
        }
    }
}

/// Whether two lists of reference markers are the same.
fn same_markers(a: &Vec<bool>, b: &Vec<bool>) -> (r: bool)
    ensures
        r == (a@ == b@),
{
    if a.len() != b.len() {
        return false;
    }
    let mut i: usize = 0;
    while i < a.len()
        invariant
            a@.len() == b@.len(),
            i <= a@.len(),
            forall|j: int| 0 <= j < i ==> a@[j] == b@[j],
        decreases a@.len() - i,
    {
        if a[i] != b[i] {
            return false;
        }
        i += 1;
    }
    assert(a@ =~= b@);
    true
}

impl JsMacArg {
    /// The expression that names the argument at the call site.
    pub fn name(&self) -> (r: &String)
        ensures
            r@ == self@.source_name(),
    {
        match self {
            JsMacArg::Ref(_, _, name) => name,
            JsMacArg::Primitive(_, name, _) => name,
        }
    }

    /// Whether `self` and `other` describe the same argument.
    pub fn same(&self, other: &JsMacArg) -> (r: bool)
        ensures
            r == (self@ == other@),
    {
        match (self, other) {
            (JsMacArg::Ref(r1, d1, n1), JsMacArg::Ref(r2, d2, n2)) => {
                same_markers(r1, r2) && *d1 == *d2 && *n1 == *n2
            },
            (JsMacArg::Primitive(d1, n1, t1), JsMacArg::Primitive(d2, n2, t2)) => {
                *d1 == *d2 && *n1 == *n2 && *t1 == *t2
            },
            _ => false,
        }
    }
}

impl PartialEq for JsMacArg {
    fn eq(&self, other: &JsMacArg) -> (r: bool) {
        self.same(other)
    }
}

impl vstd::std_specs::cmp::PartialEqSpecImpl for JsMacArg {
    open spec fn obeys_eq_spec() -> bool {
        true
    }

    open spec fn eq_spec(&self, other: &JsMacArg) -> bool {
        self@ == other@
    }
}

impl Clone for JsMacArg {
    fn clone(&self) -> (r: JsMacArg)
        ensures
            r@ == self@,
    {
        match self {
            JsMacArg::Ref(refs, derefs, name) => JsMacArg::Ref(
                refs.clone(),
                *derefs,
                name.clone(),
            ),
            JsMacArg::Primitive(derefs, name, ty) => JsMacArg::Primitive(
                *derefs,
                name.clone(),
                *ty,
            ),
        }
    }
}

/// A snippet of foreign code: typed arguments, an optional return type and an
/// optional body.
#[derive(Debug, Eq, PartialOrd, Ord, Hash)]
pub struct JsMac {
    pub args: Vec<JsMacArg>,
    pub ret: Option<WasmPrimitiveType>,
    pub body: Option<String>,
}

/// The model of an optional text.
pub open spec fn opt_text(s: Option<String>) -> Option<Seq<char>> {
    match s {
        Some(t) => Some(t@),
        None => None,
    }
}

/// The models of the arguments in `args`, in order.
pub open spec fn args_view(args: Seq<JsMacArg>) -> Seq<Arg> {
    Seq::new(args.len(), |i: int| args[i]@)
}

impl View for JsMac {
    type V = Snippet;

    open spec fn view(&self) -> Snippet {
        Snippet { args: args_view(self.args@), ret: self.ret, body: opt_text(self.body) }
    }
}

/// Whether two optional texts are the same.
fn same_opt_text(a: &Option<String>, b: &Option<String>) -> (r: bool)
    ensures
        r == (opt_text(*a) == opt_text(*b)),
{
    match (a, b) {
        (Some(x), Some(y)) => *x == *y,
        (None, None) => true,
        _ => false,
    }
}

/// Whether two optional types are the same.
fn same_opt_type(a: &Option<WasmPrimitiveType>, b: &Option<WasmPrimitiveType>) -> (r: bool)
    ensures
        r == (*a == *b),
{
    match (a, b) {
        (Some(x), Some(y)) => *x == *y,
        (None, None) => true,
        _ => false,
    }
}

impl JsMac {
    /// Whether every argument by reference carries at least one reference marker.
    pub fn is_well_formed(&self) -> (r: bool)
        ensures
            r == self@.wf(),
    {
        let mut i: usize = 0;
        while i < self.args.len()
            invariant
                i <= self.args@.len(),
                self@.args.len() == self.args@.len(),
                forall|j: int| 0 <= j < i ==> (#[trigger] self@.args[j]).wf(),
            decreases self.args@.len() - i,
        {
            assert(self@.args[i as int] == self.args@[i as int]@);
            match &self.args[i] {
                JsMacArg::Ref(refs, _, _) => {
                    if refs.len() == 0 {
                        return false;
                    }
                },
                JsMacArg::Primitive(_, _, _) => {},
            }
            i += 1;
        }
        true
    }

    /// Whether `self` and `other` are the same snippet: the same arguments in the same
    /// order, the same return type and the same body.
    pub fn same(&self, other: &JsMac) -> (r: bool)
        ensures
            r == (self@ == other@),
    {
        if self.args.len() != other.args.len() {
            assert(self@.args.len() != other@.args.len());
            return false;
        }
        let mut i: usize = 0;
        while i < self.args.len()
            invariant
                self.args@.len() == other.args@.len(),
                i <= self.args@.len(),
                forall|j: int| 0 <= j < i ==> self.args@[j]@ == other.args@[j]@,
            decreases self.args@.len() - i,
        {
            if !self.args[i].same(&other.args[i]) {
                assert(self@.args[i as int] != other@.args[i as int]);
                return false;
            }
            i += 1;
        }
        assert(self@.args =~= other@.args);
        same_opt_type(&self.ret, &other.ret) && same_opt_text(&self.body, &other.body)
    }
}

impl PartialEq for JsMac {
    fn eq(&self, other: &JsMac) -> (r: bool) {
        self.same(other)
    }
}

impl vstd::std_specs::cmp::PartialEqSpecImpl for JsMac {
    open spec fn obeys_eq_spec() -> bool {
        true
    }

    open spec fn eq_spec(&self, other: &JsMac) -> bool {
        self@ == other@
    }
}

impl Clone for JsMac {
    fn clone(&self) -> (r: JsMac)
        ensures
            r@ == self@,
    {
        let mut args: Vec<JsMacArg> = Vec::new();
        let mut i: usize = 0;
        while i < self.args.len()
            invariant
                i <= self.args@.len(),
                args@.len() == i,
                forall|j: int| 0 <= j < i ==> args@[j]@ == self.args@[j]@,
            decreases self.args@.len() - i,
        {
            args.push(self.args[i].clone());
            i += 1;
        }
        let body = match &self.body {
            Some(b) => Some(b.clone()),
            None => None,
        };
        let r = JsMac { args, ret: self.ret, body };
        assert(r@.args =~= self@.args);
        r
    }
}

} // verus!
