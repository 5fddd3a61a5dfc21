//! Reading storage keys out of call arguments.

use vstd::prelude::*;
use crate::syntax::{Expr, Lit};
use crate::contract::{path_ends_with, path_last_is};
use crate::text::str_eq;

verus! {

/// A method/field chain that calls a method named `name`.
pub open spec fn spec_receiver_chain_contains(e: &Expr, name: Seq<char>) -> bool
    decreases e,
{
    match e {
        Expr::MethodCall { receiver, method, .. } => method@ == name || spec_receiver_chain_contains(receiver, name),
        Expr::Field { base, .. } => spec_receiver_chain_contains(base, name),
        _ => false,
    }
}

/// Whether a method/field chain calls a method named `name`.
pub fn receiver_chain_contains(e: &Expr, name: &str) -> (r: bool)
    ensures r == spec_receiver_chain_contains(e, name@),
    decreases e,
{
    match e {
        Expr::MethodCall { receiver, method, .. } => str_eq(method.as_str(), name) || receiver_chain_contains(receiver, name),
        Expr::Field { base, .. } => receiver_chain_contains(base, name),
        _ => false,
    }
}

/// The value of a string literal.
pub open spec fn str_lit(e: &Expr) -> Option<Seq<char>> {
    match e {
        Expr::Lit { lit: Lit::Str { value } } => Some(value@),
        _ => None,
    }
}

fn str_lit_of(e: &Expr) -> (r: Option<&String>)
    ensures
        r is Some <==> str_lit(e) is Some,
        r is Some ==> r.unwrap()@ == str_lit(e).unwrap(),
{
    match e {
        Expr::Lit { lit: Lit::Str { value } } => Some(value),
        _ => None,
    }
}

/// The key of `Symbol::new(&env, "key")` or `x.new(&env, "key")`: the second
/// argument, when it is a string literal.
pub open spec fn symbol_new_key(e: &Expr) -> Option<Seq<char>> {
    match e {
        Expr::Call { func, args } => match &**func {
            Expr::Path { path, .. } =>
                if path_ends_with(path, "new"@) && args.len() >= 2 { str_lit(&args@[1]) } else { None },
            _ => None,
        },
        Expr::MethodCall { method, args, .. } =>
            if method@ == "new"@ && args.len() >= 2 { str_lit(&args@[1]) } else { None },
        _ => None,
    }
}

fn symbol_new_key_of(e: &Expr) -> (r: Option<&String>)
    ensures
        r is Some <==> symbol_new_key(e) is Some,
        r is Some ==> r.unwrap()@ == symbol_new_key(e).unwrap(),
{
    match e {
        Expr::Call { func, args } => match &**func {
            Expr::Path { path, .. } => {
                if path_last_is(path, "new") && args.len() >= 2 {
                    str_lit_of(&args[1])
                } else {
                    None
                }
            }
            _ => None,
        },
        Expr::MethodCall { method, args, .. } => {
            if str_eq(method.as_str(), "new") && args.len() >= 2 {
                str_lit_of(&args[1])
            } else {
                None
            }
        }
        _ => None,
    }
}

/// The literal key of a call's first argument: `"key"`, `&"key"`,
/// `Symbol::new(&env, "key")` or `&Symbol::new(&env, "key")`.
pub open spec fn spec_extract_key_literal(args: Seq<Expr>) -> Option<Seq<char>> {
    if args.len() == 0 {
        None
    } else {
        match &args[0] {
            Expr::Lit { .. } => str_lit(&args[0]),
            Expr::Reference { expr } => match &**expr {
                Expr::Lit { .. } => str_lit(expr),
                Expr::Call { .. } => symbol_new_key(expr),
                Expr::MethodCall { .. } => symbol_new_key(expr),
                _ => None,
            },
            Expr::Call { .. } => symbol_new_key(&args[0]),
            Expr::MethodCall { .. } => symbol_new_key(&args[0]),
            _ => None,
        }
    }
}

/// The literal key of a call's first argument, if it has one.
pub fn extract_key_literal(args: &Vec<Expr>) -> (r: Option<&String>)
    ensures
        r is Some <==> spec_extract_key_literal(args@) is Some,
        r is Some ==> r.unwrap()@ == spec_extract_key_literal(args@).unwrap(),
{
    if args.len() == 0 {
        return None;
    }
    let first = &args[0];
    match first {
        Expr::Lit { .. } => str_lit_of(first),
        Expr::Reference { expr } => match &**expr {
            Expr::Lit { .. } => str_lit_of(expr),
            Expr::Call { .. } => symbol_new_key_of(expr),
            Expr::MethodCall { .. } => symbol_new_key_of(expr),
            _ => None,
        },
        Expr::Call { .. } => symbol_new_key_of(first),
        Expr::MethodCall { .. } => symbol_new_key_of(first),
        _ => None,
    }
}

} // verus!
