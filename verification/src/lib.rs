//! A compile-time source transformer: given a function definition and a set
//! of `name: type` directives, it replaces each named parameter's declared
//! type with the substitute type and prepends to the body one conversion
//! statement per directive, which turns the substitute-typed argument back
//! into the original type through `.into()` followed by `TryFrom`, with
//! failure propagated out of the enclosing function.
use vstd::prelude::*;

pub mod laws;
pub mod model;
pub mod parse;
pub mod rewrite;

verus! {

pub use crate::model::{
    Directive, DirectiveV, Param, ParamV, FnDef, FnDefV, TransformError, eligible, find_match,
    apply_directive_params, substitute_all, all_ok, first_unmatched, prologue_stmt_text, stmt_for,
    prologue_stmts,
};
pub use crate::parse::{all_named, directives_of, parse_directives, raw_items_of};
pub use crate::rewrite::{rewrite, synthesize_prologue};

/// The whole transformation for one annotated function: parse the
/// configuration payload into its directive set, then rewrite the
/// definition in place.  A malformed payload or a directive naming no
/// eligible parameter is fatal and leaves the definition untouched; an
/// empty payload leaves it unchanged.
pub fn convert_args(attr: &str, def: &mut FnDef) -> (r: Result<(), TransformError>)
    ensures
        ({
            let ps0 = old(def)@.params;
            match r {
                Ok(_) => {
                    &&& raw_items_of(attr@) matches Some(items)
                    &&& all_named(items)
                    &&& ({
                        let dv = directives_of(items);
                        &&& all_ok(ps0, dv)
                        &&& final(def)@.params == substitute_all(ps0, dv)
                        &&& final(def)@.params.len() == ps0.len()
                        &&& final(def)@.stmts == prologue_stmts(ps0, dv) + old(def)@.stmts
                    })
                },
                Err(e) => {
                    &&& final(def)@ == old(def)@
                    &&& match e {
                        TransformError::Syntax { .. } => match raw_items_of(attr@) {
                            Some(items) => !all_named(items),
                            None => true,
                        },
                        TransformError::Unmatched { name } => {
                            &&& raw_items_of(attr@) matches Some(items)
                            &&& all_named(items)
                            &&& !all_ok(ps0, directives_of(items))
                            &&& name@ == directives_of(items)[first_unmatched(
                                ps0,
                                directives_of(items),
                            )].arg_name
                        },
                    }
                },
            }
        }),
        match r {
            Ok(_) => attr@.len() == 0 ==> final(def)@ == old(def)@,
            Err(_) => attr@.len() != 0,
        },
{
    let ds = match parse_directives(attr) {
        Ok(v) => v,
        Err(e) => {
            return Err(e);
        },
    };
    let ghost dv = ds.deep_view();
    let ghost ps0 = def@.params;
    match rewrite(def, &ds) {
        Ok(()) => {
            proof {
                if attr@.len() == 0 {
                    assert(dv.len() == 0);
                    assert(substitute_all(ps0, dv) == ps0);
                    assert(prologue_stmts(ps0, dv) + old(def)@.stmts =~= old(def)@.stmts);
                    assert(def@ =~= old(def)@);
                }
            }
            Ok(())
        },
        Err(e) => Err(e),
    }
}

} // verus!

