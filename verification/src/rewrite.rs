use vstd::prelude::*;
use vstd::string::StringExecFns;

use crate::model::{
    Directive, DirectiveV, FnDef, Param, ParamV, TransformError, all_ok, apply_directive_params,
    eligible, find_match, first_unmatched, lemma_find_match_at, lemma_find_match_congruent,
    lemma_find_match_props, lemma_substitute_all_shape, lemma_substitute_all_snoc,
    prologue_stmt_text, prologue_stmts, stmt_for, substitute_all,
};

verus! {

/// Scan the signature front to back for the first typed, bare-identifier
/// parameter bound to `name`; return its index together with a copy of its
/// declared type, which the caller uses as the conversion target.
fn find_param(params: &Vec<Param>, name: &String) -> (r: Option<(usize, String)>)
    ensures
        match r {
            Some(p) => {
                &&& find_match(params.deep_view(), name@) == Some(p.0 as int)
                &&& p.0 < params@.len()
                &&& params.deep_view()[p.0 as int] is Typed
                &&& p.1@ == params.deep_view()[p.0 as int]->ty
            },
            None => find_match(params.deep_view(), name@) is None,
        },
{
    let ghost ps = params.deep_view();
    let mut i: usize = 0;
    while i < params.len()
        invariant
            i <= params.len(),
            ps == params.deep_view(),
            forall|j: int| 0 <= j < i ==> !eligible(#[trigger] ps[j], name@),
        decreases params.len() - i,
    {
        match &params[i] {
            Param::Typed { name: n, ty } => {
                if *n == *name {
                    proof {
                        assert(eligible(ps[i as int], name@));
                        lemma_find_match_at(ps, name@, i as int);
                    }
                    return Some((i, ty.clone()));
                }
            },
            Param::Other { .. } => {},
        }
        proof {
            assert(!eligible(ps[i as int], name@));
        }
        i += 1;
    }
    proof {
        lemma_find_match_props(ps, name@);
    }
    None
}

/// Build the text of one prologue statement: rebind the argument at the
/// substitute type via the infallible conversion, convert it fallibly into
/// the original type with failure propagated out of the enclosing function,
/// and shadow the argument name with the result.
pub fn synthesize_prologue(name: &String, sub: &String, orig: &String) -> (r: String)
    ensures
        r@ == prologue_stmt_text(name@, sub@, orig@),
{
    let mut s = String::from_str("let ");
    s.append(name.as_str());
    s.append(" = { let ");
    s.append(name.as_str());
    s.append(": ");
    s.append(sub.as_str());
    s.append(" = ");
    s.append(name.as_str());
    s.append(".into(); <");
    s.append(orig.as_str());
    s.append(" as std::convert::TryFrom<_>>::try_from(");
    s.append(name.as_str());
    s.append(")? };");
    s
}

/// A prefix of matched directives followed by an unmatched one pins down
/// `first_unmatched`.
proof fn lemma_first_unmatched_at(ps: Seq<ParamV>, ds: Seq<DirectiveV>, k: int)
    requires
        0 <= k < ds.len(),
        forall|j: int| 0 <= j < k ==> (#[trigger] find_match(ps, ds[j].arg_name)) is Some,
        find_match(ps, ds[k].arg_name) is None,
    ensures
        first_unmatched(ps, ds) == k,
        !all_ok(ps, ds),
    decreases ds.len(),
{
    if k > 0 {
        assert(forall|j: int|
            0 <= j < ds.len() - 1 ==> #[trigger] ds.drop_first()[j] == ds[j + 1]);
        lemma_first_unmatched_at(ps, ds.drop_first(), k - 1);
    }
}

/// Apply a directive set to a function definition, in place.
///
/// On success every directive has matched: each matched parameter's declared
/// type is replaced by its directive's substitute type (later duplicates
/// winning), and the synthesized prologue statements stand at the front of
/// the body in directive order, each converting into the original type the
/// parameter had before any substitution.  If some directive matches no
/// eligible parameter the transformation is abandoned whole: the definition
/// is returned untouched, with the error naming the first such directive.
pub fn rewrite(def: &mut FnDef, ds: &Vec<Directive>) -> (r: Result<(), TransformError>)
    ensures
        ({
            let ps0 = old(def)@.params;
            let dv = ds.deep_view();
            match r {
                Ok(_) => {
                    &&& all_ok(ps0, dv)
                    &&& final(def)@.params == substitute_all(ps0, dv)
                    &&& final(def)@.params.len() == ps0.len()
                    &&& final(def)@.stmts == prologue_stmts(ps0, dv) + old(def)@.stmts
                },
                Err(e) => {
                    &&& !all_ok(ps0, dv)
                    &&& final(def)@ == old(def)@
                    &&& e matches TransformError::Unmatched { name } && name@ == dv[first_unmatched(
                        ps0,
                        dv,
                    )].arg_name
                },
            }
        }),
{
    let ghost ps0 = def@.params;
    let ghost dv = ds.deep_view();
    // First pass: match every directive against the untouched signature and
    // synthesize its prologue statement; abort before any mutation if one
    // fails to match.
    let mut prologue: Vec<String> = Vec::new();
    let mut k: usize = 0;
    while k < ds.len()
        invariant
            k <= ds.len(),
            ps0 == def@.params,
            dv == ds.deep_view(),
            *def == *old(def),
            forall|j: int| 0 <= j < k ==> (#[trigger] find_match(ps0, dv[j].arg_name)) is Some,
            prologue@.len() == k,
            forall|j: int| 0 <= j < k ==> (#[trigger] prologue@[j])@ == stmt_for(ps0, dv[j]),
        decreases ds.len() - k,
    {
        let d = &ds[k];
        match find_param(&def.params, &d.arg_name) {
            Some((i, orig_ty)) => {
                let stmt = synthesize_prologue(&d.arg_name, &d.substitute_type, &orig_ty);
                proof {
                    assert(dv[k as int] == ds@[k as int]@);
                    assert(stmt@ == stmt_for(ps0, dv[k as int]));
                }
                prologue.push(stmt);
            },
            None => {
                proof {
                    lemma_first_unmatched_at(ps0, dv, k as int);
                }
                return Err(TransformError::Unmatched { name: d.arg_name.clone() });
            },
        }
        k += 1;
    }
    // Second pass: install the substitute types, one directive at a time in
    // the order given.
    let mut k2: usize = 0;
    while k2 < ds.len()
        invariant
            k2 <= ds.len(),
            dv == ds.deep_view(),
            def@.stmts == old(def)@.stmts,
            ps0 == old(def)@.params,
            forall|j: int| 0 <= j < ds@.len() ==> (#[trigger] find_match(ps0, dv[j].arg_name))
                is Some,
            def@.params == substitute_all(ps0, dv.take(k2 as int)),
            prologue@.len() == ds@.len(),
            forall|j: int|
                0 <= j < ds@.len() ==> (#[trigger] prologue@[j])@ == stmt_for(ps0, dv[j]),
        decreases ds.len() - k2,
    {
        let d = &ds[k2];
        proof {
            lemma_substitute_all_shape(ps0, dv.take(k2 as int));
            lemma_find_match_congruent(def@.params, ps0, d.arg_name@);
        }
        match find_param(&def.params, &d.arg_name) {
            Some((i, _orig_ty)) => {
                let new_param = Param::Typed {
                    name: d.arg_name.clone(),
                    ty: d.substitute_type.clone(),
                };
                proof {
                    assert(dv.take(k2 as int + 1) =~= dv.take(k2 as int).push(dv[k2 as int]));
                    lemma_substitute_all_snoc(ps0, dv.take(k2 as int), dv[k2 as int]);
                }
                let ghost before = def@.params;
                def.params[i] = new_param;
                proof {
                    assert(def@.params =~= apply_directive_params(before, dv[k2 as int]));
                }
            },
            None => {
                proof {
                    assert(find_match(ps0, dv[k2 as int].arg_name) is Some);
                    assert(false);
                }
            },
        }
        k2 += 1;
    }
    // Third pass: the synthesized statements become the new front of the
    // body, in directive order.
    proof {
        assert(dv.take(ds@.len() as int) =~= dv);
    }
    prologue.append(&mut def.stmts);
    def.stmts = prologue;
    proof {
        lemma_substitute_all_shape(ps0, dv);
        assert(def@.params == substitute_all(ps0, dv));
        assert(def@.stmts =~= prologue_stmts(ps0, dv) + old(def)@.stmts);
        assert(all_ok(ps0, dv));
    }
    Ok(())
}

} // verus!
