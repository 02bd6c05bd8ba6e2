//! The stub of a binding as source text: an associated function that declares the
//! foreign function and calls it, with each parameter cast to what crosses the
//! boundary.

use vstd::prelude::*;
use vstd::string::{StrSliceExecFns, StringExecFns};
use crate::snippet::WasmPrimitiveType;
use crate::synth::{params_view, prim_to_ty, type_keyword, Binding, BoundArg, Param, Passing, Stub};

verus! {

/// `n` in decimal digits, without leading zeros.
pub open spec fn decimal(n: nat) -> Seq<char>
    decreases n,
{
    if n < 10 {
        seq!["0123456789"@[n as int]]
    } else {
        decimal(n / 10).push("0123456789"@[(n % 10) as int])
    }
}

/// The name of the stub's type parameter number `k`.
pub open spec fn type_param_name(k: nat) -> Seq<char> {
    "T"@ + decimal(k)
}

/// The names of the first `n` type parameters, with a comma and a blank between one
/// and the next.
pub open spec fn type_param_names(n: nat) -> Seq<char>
    decreases n,
{
    if n == 0 {
        Seq::empty()
    } else if n == 1 {
        type_param_name(0)
    } else {
        type_param_names((n - 1) as nat) + ", "@ + type_param_name((n - 1) as nat)
    }
}

/// The type parameters of a stub with `n` of them, in angle brackets; nothing where
/// there is none.
pub open spec fn generics_text(n: nat) -> Seq<char> {
    if n == 0 {
        Seq::empty()
    } else {
        "<"@ + type_param_names(n) + ">"@
    }
}

/// The type of a parameter of the stub.
pub open spec fn caller_type_text(passing: Passing) -> Seq<char> {
    match passing {
        Passing::Value(ty) => type_keyword(ty),
        Passing::Address { type_param, mutable } => if mutable {
            "&mut "@ + type_param_name(type_param as nat)
        } else {
            "&"@ + type_param_name(type_param as nat)
        },
    }
}

/// The type of a parameter of the foreign function.
pub open spec fn foreign_type_text(passing: Passing) -> Seq<char> {
    match passing {
        Passing::Value(ty) => type_keyword(ty),
        Passing::Address { .. } => "*mut u8"@,
    }
}

/// The casts that turn a parameter of the stub into the argument of the foreign
/// function. An exclusive reference becomes a mutable address; a shared reference
/// becomes a constant address first and a mutable address from that.
pub open spec fn cast_text(passing: Passing) -> Seq<char> {
    match passing {
        Passing::Value(_) => Seq::empty(),
        Passing::Address { type_param, mutable } => if mutable {
            " as *mut "@ + type_param_name(type_param as nat) + " as *mut u8"@
        } else {
            " as *const "@ + type_param_name(type_param as nat) + " as *const u8 as *mut u8"@
        },
    }
}

/// The three lists of a stub in which each parameter stands.
pub enum Listing {
    /// The parameters of the stub: name and type.
    Stub,
    /// The parameters of the foreign function: name and type.
    Foreign,
    /// The arguments of the call: name and casts.
    Call,
}

/// What stands for one parameter in a list.
pub open spec fn listed_param(param: Param, listing: Listing) -> Seq<char> {
    match listing {
        Listing::Stub => param.name + ": "@ + caller_type_text(param.passing),
        Listing::Foreign => param.name + ": "@ + foreign_type_text(param.passing),
        Listing::Call => param.name + cast_text(param.passing),
    }
}

/// The parameters in order in one of the lists, with a comma and a blank between one
/// and the next.
pub open spec fn listed(params: Seq<Param>, listing: Listing) -> Seq<char>
    decreases params.len(),
{
    if params.len() == 0 {
        Seq::empty()
    } else if params.len() == 1 {
        listed_param(params[0], listing)
    } else {
        listed(params.drop_last(), listing) + ", "@ + listed_param(params.last(), listing)
    }
}

/// The return type after an arrow; nothing where no value is returned.
pub open spec fn ret_text(ret: Option<WasmPrimitiveType>) -> Seq<char> {
    match ret {
        Some(ty) => " -> "@ + type_keyword(ty),
        None => Seq::empty(),
    }
}

/// The declaration of the foreign function: its name is the symbol, and its
/// parameters are those of the stub with their foreign types.
pub open spec fn foreign_declaration_text(stub: Stub) -> Seq<char> {
    "fn "@ + stub.symbol + "("@ + listed(stub.params, Listing::Foreign) + ")"@ + ret_text(stub.ret)
        + ";"@
}

/// The call of the foreign function with the parameters of the stub, each cast to
/// what crosses the boundary.
pub open spec fn foreign_call_text(stub: Stub) -> Seq<char> {
    stub.symbol + "("@ + listed(stub.params, Listing::Call) + ")"@
}

/// The stub as source text: an associated function `call` that declares the foreign
/// function and calls it.
pub open spec fn stub_text(stub: Stub) -> Seq<char> {
    "impl EmbedJsStruct { fn call"@ + generics_text(stub.type_params) + "("@ + listed(
        stub.params,
        Listing::Stub,
    ) + ")"@ + ret_text(stub.ret) + " { extern { "@ + foreign_declaration_text(stub)
        + " } unsafe { "@ + foreign_call_text(stub) + " } } }"@
}

/// Appends `n` in decimal digits.
fn push_decimal(out: &mut String, n: usize)
    ensures
        final(out)@ == old(out)@ + decimal(n as nat),
    decreases n,
{
    proof {
        reveal_strlit("0123456789");
    }
    if n >= 10 {
        push_decimal(out, n / 10);
    }
    let digit = "0123456789".get_char(n % 10);
    out.push(digit);
}

/// Appends the name of the type parameter number `k`.
fn push_type_param(out: &mut String, k: usize)
    ensures
        final(out)@ == old(out)@ + type_param_name(k as nat),
{
    out.append("T");
    push_decimal(out, k);
}

/// Appends the return type after an arrow.
fn push_ret(out: &mut String, ret: Option<WasmPrimitiveType>)
    ensures
        final(out)@ == old(out)@ + ret_text(ret),
{
    match ret {
        Some(ty) => {
            out.append(" -> ");
            out.append(prim_to_ty(ty));
        },
        None => {
        },
    }
}

/// Appends what stands for one parameter in a list.
fn push_listed_param(out: &mut String, arg: &BoundArg, listing: &Listing)
    ensures
        final(out)@ == old(out)@ + listed_param(arg@, *listing),
{
    out.append(arg.name.as_str());
    match listing {
        Listing::Stub => {
            out.append(": ");
            match arg.passing {
                Passing::Value(ty) => {
                    out.append(prim_to_ty(ty));
                },
                Passing::Address { type_param, mutable } => {
                    if mutable {
                        out.append("&mut ");
                    } else {
                        out.append("&");
                    }
                    push_type_param(out, type_param);
                },
            }
        },
        Listing::Foreign => {
            out.append(": ");
            match arg.passing {
                Passing::Value(ty) => {
                    out.append(prim_to_ty(ty));
                },
                Passing::Address { .. } => {
                    out.append("*mut u8");
                },
            }
        },
        Listing::Call => {
            match arg.passing {
                Passing::Value(_) => {},
                Passing::Address { type_param, mutable } => {
                    if mutable {
                        out.append(" as *mut ");
                        push_type_param(out, type_param);
                        out.append(" as *mut u8");
                    } else {
                        out.append(" as *const ");
                        push_type_param(out, type_param);
                        out.append(" as *const u8 as *mut u8");
                    }
                },
            }
        },
    }
}

/// Appends the parameters in one of the lists.
fn push_listed(out: &mut String, args: &Vec<BoundArg>, listing: &Listing)
    ensures
        final(out)@ == old(out)@ + listed(params_view(args@), *listing),
{
    let ghost params = params_view(args@);
    let mut i: usize = 0;
    while i < args.len()
        invariant
            i <= args@.len(),
            params == params_view(args@),
            out@ == old(out)@ + listed(params.take(i as int), *listing),
        decreases args@.len() - i,
    {
        if i > 0 {
            out.append(", ");
        }
        push_listed_param(out, &args[i], listing);
        proof {
            let done = params.take(i + 1);
            assert(done.drop_last() =~= params.take(i as int));
        }
        i += 1;
    }
    assert(params.take(params.len() as int) =~= params);
}

/// Appends the type parameters of a stub with `n` of them.
fn push_generics(out: &mut String, n: usize)
    ensures
        final(out)@ == old(out)@ + generics_text(n as nat),
{
    if n == 0 {
        return ;
    }
    out.append("<");
    let ghost head = out@;
    let mut k: usize = 0;
    while k < n
        invariant
            k <= n,
            out@ == head + type_param_names(k as nat),
        decreases n - k,
    {
        if k > 0 {
            out.append(", ");
        }
        push_type_param(out, k);
        k += 1;
    }
    out.append(">");
}

impl Binding {
    /// The declaration of the foreign function, as source text.
    pub fn foreign_declaration(&self) -> (r: String)
        ensures
            r@ == foreign_declaration_text(self@),
    {
        let mut out = String::new();
        out.append("fn ");
        out.append(self.symbol.as_str());
        out.append("(");
        push_listed(&mut out, &self.args, &Listing::Foreign);
        out.append(")");
        push_ret(&mut out, self.ret);
        out.append(";");
        out
    }

    /// The call of the foreign function, as source text.
    pub fn foreign_call(&self) -> (r: String)
        ensures
            r@ == foreign_call_text(self@),
    {
        let mut out = String::new();
        out.append(self.symbol.as_str());
        out.append("(");
        push_listed(&mut out, &self.args, &Listing::Call);
        out.append(")");
        out
    }

    /// The stub at the call site, as source text.
    pub fn stub(&self) -> (r: String)
        ensures
            r@ == stub_text(self@),
    {
        let mut out = String::new();
        out.append("impl EmbedJsStruct { fn call");
        push_generics(&mut out, self.type_params);
        out.append("(");
        push_listed(&mut out, &self.args, &Listing::Stub);
        out.append(")");
        push_ret(&mut out, self.ret);
        out.append(" { extern { ");
        out.append(self.foreign_declaration().as_str());
        out.append(" } unsafe { ");
        out.append(self.foreign_call().as_str());
        out.append(" } } }");
        out
    }
}

} // verus!
