use vstd::prelude::*;
use vstd::string::StringExecFns;

use crate::model::{Directive, DirectiveV, TransformError};
use quote::ToTokens;
use syn::parse::Parser;
use syn::{FnArg, Pat};

verus! {

/// What the external parser makes of a configuration payload: `None` when
/// the token stream is not a comma-separated list of `pattern: type` items,
/// otherwise one entry per item, holding the binding name when the pattern
/// is a plain identifier (and nothing otherwise), and the type's rendered
/// text.  The result depends on the payload text alone.
pub uninterp spec fn raw_items_of(s: Seq<char>) -> Option<Seq<(Option<Seq<char>>, Seq<char>)>>;

/// Relies on syn's `Punctuated::<FnArg, Comma>::parse_terminated` (reached
/// through `syn::parse::Parser::parse_str`) to parse a comma-separated,
/// optionally trailing-comma-terminated list of `pattern: type` items —
/// zero items for an empty payload — and on quote's `ToTokens` rendering
/// for the captured type text.
#[verifier::external_body]
fn parse_raw_items(src: &str) -> (r: Result<Vec<(Option<String>, String)>, String>)
    ensures
        match r {
            Ok(items) => raw_items_of(src@) == Some(items.deep_view()),
            Err(_) => raw_items_of(src@) is None,
        },
        match r {
            Ok(items) => src@.len() == 0 ==> items@.len() == 0,
            Err(_) => src@.len() != 0,
        },
{
    match syn::punctuated::Punctuated::<FnArg, syn::token::Comma>::parse_terminated.parse_str(src)
    {
        Err(e) => Err(e.to_string()),
        Ok(args) => Ok(args.into_iter().map(|arg| match arg {
            FnArg::Typed(pt) => (
                match &*pt.pat {
                    Pat::Ident(pi) if pi.by_ref.is_none() && pi.mutability.is_none()
                        && pi.subpat.is_none() => Some(pi.ident.to_string()),
                    _ => None,
                },
                pt.ty.to_token_stream().to_string(),
            ),
            FnArg::Receiver(rc) => (None, rc.ty.to_token_stream().to_string()),
        }).collect()),
    }
}

/// Every parsed item carries a bare-identifier name.
pub open spec fn all_named(items: Seq<(Option<Seq<char>>, Seq<char>)>) -> bool {
    forall|j: int| 0 <= j < items.len() ==> (#[trigger] items[j]).0 is Some
}

/// The directive set denoted by a list of named items, in input order.
pub open spec fn directives_of(items: Seq<(Option<Seq<char>>, Seq<char>)>) -> Seq<DirectiveV> {
    items.map_values(
        |it: (Option<Seq<char>>, Seq<char>)|
            DirectiveV { arg_name: it.0->Some_0, substitute_type: it.1 },
    )
}

/// Parse a configuration payload into its directive set, preserving input
/// order; duplicate argument names are permitted here.  An empty payload
/// yields an empty set.  Any failure — a malformed list, an item without a
/// bare-identifier name, a missing colon, a malformed type — is a syntax
/// error, and nothing is returned.
pub fn parse_directives(src: &str) -> (r: Result<Vec<Directive>, TransformError>)
    ensures
        match r {
            Ok(ds) => {
                &&& raw_items_of(src@) matches Some(items)
                &&& all_named(items)
                &&& ds.deep_view() == directives_of(items)
            },
            Err(e) => {
                &&& e is Syntax
                &&& match raw_items_of(src@) {
                    Some(items) => !all_named(items),
                    None => true,
                }
            },
        },
        match r {
            Ok(ds) => src@.len() == 0 ==> ds@.len() == 0,
            Err(_) => src@.len() != 0,
        },
{
    let items = match parse_raw_items(src) {
        Ok(v) => v,
        Err(msg) => {
            return Err(TransformError::Syntax { msg });
        },
    };
    let ghost iv = items.deep_view();
    let mut ds: Vec<Directive> = Vec::new();
    let mut i: usize = 0;
    while i < items.len()
        invariant
            i <= items.len(),
            iv == items.deep_view(),
            iv.len() == items@.len(),
            src@.len() == 0 ==> iv.len() == 0,
            raw_items_of(src@) == Some(iv),
            forall|j: int| 0 <= j < i ==> (#[trigger] iv[j]).0 is Some,
            ds@.len() == i,
            ds.deep_view() == directives_of(iv.take(i as int)),
        decreases items.len() - i,
    {
        let item = &items[i];
        match &item.0 {
            Some(name) => {
                let ghost dv_before = ds.deep_view();
                let ghost pushed = DirectiveV {
                    arg_name: iv[i as int].0->Some_0,
                    substitute_type: iv[i as int].1,
                };
                ds.push(Directive { arg_name: name.clone(), substitute_type: item.1.clone() });
                proof {
                    assert(item.0 == Some(*name));
                    assert(ds.deep_view() =~= dv_before.push(pushed));
                    assert(directives_of(iv.take(i + 1)) =~= directives_of(
                        iv.take(i as int),
                    ).push(pushed));
                }
            },
            None => {
                proof {
                    assert(!(iv[i as int].0 is Some));
                }
                return Err(
                    TransformError::Syntax { msg: String::from_str("expected identifier") },
                );
            },
        }
        i += 1;
    }
    proof {
        assert(all_named(iv));
        assert(iv.take(iv.len() as int) =~= iv);
    }
    Ok(ds)
}

} // verus!
