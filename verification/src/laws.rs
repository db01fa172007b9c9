use vstd::prelude::*;

use crate::model::{
    DirectiveV, ParamV, all_ok, apply_directive_params, eligible, find_match,
    lemma_apply_directive_shape, lemma_find_match_congruent, lemma_find_match_props,
    lemma_substitute_all_shape, prologue_stmts, stmt_for, substitute_all,
};

verus! {

/// Arity preservation: applying a directive set never changes the number of
/// parameters in the signature — only declared types change.
pub proof fn lemma_arity_preserved(ps: Seq<ParamV>, ds: Seq<DirectiveV>)
    ensures
        substitute_all(ps, ds).len() == ps.len(),
{
    lemma_substitute_all_shape(ps, ds);
}

/// Prologue ordering: the statement synthesized for the directive at
/// position `k` stands at position `k` of the prologue — the statements
/// read in directive order, whatever order they were inserted in.
pub proof fn lemma_prologue_ordering(ps: Seq<ParamV>, ds: Seq<DirectiveV>, k: int)
    requires
        0 <= k < ds.len(),
    ensures
        prologue_stmts(ps, ds).len() == ds.len(),
        prologue_stmts(ps, ds)[k] == stmt_for(ps, ds[k]),
{
}

/// An empty directive set is a no-op: the parameters are returned unchanged
/// and the prologue contributes nothing to the body.
pub proof fn lemma_empty_set_noop(ps: Seq<ParamV>, stmts: Seq<Seq<char>>)
    ensures
        substitute_all(ps, Seq::<DirectiveV>::empty()) == ps,
        prologue_stmts(ps, Seq::<DirectiveV>::empty()) + stmts == stmts,
{
    assert(prologue_stmts(ps, Seq::<DirectiveV>::empty()) + stmts =~= stmts);
}

/// A parameter whose name no directive carries is left exactly as it stands.
proof fn lemma_substitute_all_untouched(ps: Seq<ParamV>, ds: Seq<DirectiveV>, i: int)
    requires
        0 <= i < ps.len(),
        ps[i] is Typed,
        forall|j: int| 0 <= j < ds.len() ==> (#[trigger] ds[j].arg_name) != ps[i]->name,
    ensures
        substitute_all(ps, ds).len() == ps.len(),
        substitute_all(ps, ds)[i] == ps[i],
    decreases ds.len(),
{
    if ds.len() > 0 {
        let ps1 = apply_directive_params(ps, ds[0]);
        lemma_find_match_props(ps, ds[0].arg_name);
        match find_match(ps, ds[0].arg_name) {
            Some(m) => {
                assert(eligible(ps[m], ds[0].arg_name));
                assert(m != i);
                assert(ps1[i] == ps[i]);
            },
            None => {
            },
        }
        assert(forall|j: int|
            0 <= j < ds.len() - 1 ==> #[trigger] ds.drop_first()[j] == ds[j + 1]);
        lemma_substitute_all_untouched(ps1, ds.drop_first(), i);
    }
}

/// Type substitution: when every directive matches, a directive whose name
/// recurs in no later directive leaves the parameter it matched in the
/// original signature declared, structurally, at exactly its substitute
/// type, under the unchanged name.
pub proof fn lemma_type_substituted(ps: Seq<ParamV>, ds: Seq<DirectiveV>, k: int)
    requires
        all_ok(ps, ds),
        0 <= k < ds.len(),
        forall|j: int| k < j < ds.len() ==> (#[trigger] ds[j].arg_name) != ds[k].arg_name,
    ensures
        ({
            let i = find_match(ps, ds[k].arg_name)->Some_0;
            substitute_all(ps, ds)[i] == (ParamV::Typed {
                name: ds[k].arg_name,
                ty: ds[k].substitute_type,
            })
        }),
    decreases ds.len(),
{
    let d0 = ds[0];
    let ps1 = apply_directive_params(ps, d0);
    let rest = ds.drop_first();
    assert(forall|j: int| 0 <= j < rest.len() ==> #[trigger] rest[j] == ds[j + 1]);
    lemma_apply_directive_shape(ps, d0);
    lemma_find_match_props(ps, d0.arg_name);
    if k == 0 {
        let i = find_match(ps, d0.arg_name)->Some_0;
        assert(ps1[i] == ParamV::Typed { name: d0.arg_name, ty: d0.substitute_type });
        assert(forall|j: int|
            0 <= j < rest.len() ==> (#[trigger] rest[j].arg_name) != ps1[i]->name);
        lemma_substitute_all_untouched(ps1, rest, i);
    } else {
        assert forall|j: int| 0 <= j < rest.len() implies (#[trigger] find_match(
            ps1,
            rest[j].arg_name,
        )) is Some by {
            lemma_find_match_congruent(ps1, ps, rest[j].arg_name);
            assert(find_match(ps, ds[j + 1].arg_name) is Some);
        }
        lemma_type_substituted(ps1, rest, k - 1);
        lemma_find_match_congruent(ps1, ps, ds[k].arg_name);
        assert(rest[k - 1] == ds[k]);
    }
}

} // verus!
