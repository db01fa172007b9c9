use vstd::prelude::*;
use vstd::string::StringExecFns;

verus! {

/// One rewrite instruction: the parameter named `arg_name` gets its declared
/// type replaced by `substitute_type`, and a conversion prologue recovers the
/// original type at run time.
#[derive(Debug)]
pub struct Directive {
    pub arg_name: String,
    pub substitute_type: String,
}

/// Spec-level value of a `Directive`: both texts as character sequences.
#[verifier::ext_equal]
pub struct DirectiveV {
    pub arg_name: Seq<char>,
    pub substitute_type: Seq<char>,
}

impl View for Directive {
    type V = DirectiveV;

    open spec fn view(&self) -> DirectiveV {
        DirectiveV { arg_name: self.arg_name@, substitute_type: self.substitute_type@ }
    }
}

impl DeepView for Directive {
    type V = DirectiveV;

    open spec fn deep_view(&self) -> DirectiveV {
        self.view()
    }
}

/// One parameter of the target function's signature.  Only a `Typed`
/// parameter — a bare-identifier binding with a declared type — is eligible
/// for rewriting; a `self`-like or destructured parameter is carried through
/// verbatim as `Other` and never matched.
#[derive(Debug)]
pub enum Param {
    Typed { name: String, ty: String },
    Other { src: String },
}

/// Spec-level value of a `Param`.
#[verifier::ext_equal]
pub enum ParamV {
    Typed { name: Seq<char>, ty: Seq<char> },
    Other { src: Seq<char> },
}

impl View for Param {
    type V = ParamV;

    open spec fn view(&self) -> ParamV {
        match self {
            Param::Typed { name, ty } => ParamV::Typed { name: name@, ty: ty@ },
            Param::Other { src } => ParamV::Other { src: src@ },
        }
    }
}

impl DeepView for Param {
    type V = ParamV;

    open spec fn deep_view(&self) -> ParamV {
        self.view()
    }
}

/// The structured form of the target function, as far as the rewriter reads
/// or changes it: the ordered parameter list and the ordered body statements,
/// each statement held as its source text.  Everything else about the
/// function (its name, generics, return type, and so on) belongs to the
/// surrounding parser/renderer and is never touched by the transformation.
#[derive(Debug)]
pub struct FnDef {
    pub params: Vec<Param>,
    pub stmts: Vec<String>,
}

/// Spec-level value of a `FnDef`.
#[verifier::ext_equal]
pub struct FnDefV {
    pub params: Seq<ParamV>,
    pub stmts: Seq<Seq<char>>,
}

impl View for FnDef {
    type V = FnDefV;

    open spec fn view(&self) -> FnDefV {
        FnDefV { params: self.params.deep_view(), stmts: self.stmts.deep_view() }
    }
}

/// The two failure classes of the transformation, both fatal: a configuration
/// payload that does not match the `ident ":" type` grammar, and a directive
/// whose name matches no eligible parameter.
#[derive(Debug)]
pub enum TransformError {
    Syntax { msg: String },
    Unmatched { name: String },
}

impl TransformError {
    /// The diagnostic text for this failure: the external parser's own
    /// message for a syntax error, and a sentence naming the missing
    /// argument for an unmatched directive.
    pub fn message(&self) -> (r: String)
        ensures
            match self {
                TransformError::Syntax { msg } => r@ == msg@,
                TransformError::Unmatched { name } => r@ == "No argument named "@ + name@,
            },
    {
        match self {
            TransformError::Syntax { msg } => msg.clone(),
            TransformError::Unmatched { name } => {
                let mut s = String::from_str("No argument named ");
                s.append(name.as_str());
                s
            },
        }
    }
}

/// Whether parameter `p` is matched by a directive whose argument name is
/// `name`: only a typed, bare-identifier parameter with exactly that name.
pub open spec fn eligible(p: ParamV, name: Seq<char>) -> bool {
    p matches ParamV::Typed { name: n, .. } && n == name
}

/// The index of the first parameter matched by a directive named `name`,
/// if any: the matching rule scans the signature front to back.
pub open spec fn find_match(ps: Seq<ParamV>, name: Seq<char>) -> Option<int>
    decreases ps.len(),
{
    if ps.len() == 0 {
        None
    } else if eligible(ps[0], name) {
        Some(0)
    } else {
        match find_match(ps.drop_first(), name) {
            Some(i) => Some(i + 1),
            None => None,
        }
    }
}

/// The parameter list after one directive is applied: the first matching
/// parameter keeps its name and takes the substitute type; with no match the
/// list is unchanged (the rewriter treats that case as a fatal error).
pub open spec fn apply_directive_params(ps: Seq<ParamV>, d: DirectiveV) -> Seq<ParamV> {
    match find_match(ps, d.arg_name) {
        Some(i) => ps.update(i, ParamV::Typed { name: d.arg_name, ty: d.substitute_type }),
        None => ps,
    }
}

/// The parameter list after a whole directive set is applied, one directive
/// at a time in the order given.
pub open spec fn substitute_all(ps: Seq<ParamV>, ds: Seq<DirectiveV>) -> Seq<ParamV>
    decreases ds.len(),
{
    if ds.len() == 0 {
        ps
    } else {
        substitute_all(apply_directive_params(ps, ds[0]), ds.drop_first())
    }
}

/// Every directive of the set matches some eligible parameter.
pub open spec fn all_ok(ps: Seq<ParamV>, ds: Seq<DirectiveV>) -> bool {
    forall|k: int| 0 <= k < ds.len() ==> (#[trigger] find_match(ps, ds[k].arg_name)) is Some
}

/// The position of the first directive that matches no parameter
/// (equal to `ds.len()` when all of them match).
pub open spec fn first_unmatched(ps: Seq<ParamV>, ds: Seq<DirectiveV>) -> int
    decreases ds.len(),
{
    if ds.len() == 0 {
        0
    } else if find_match(ps, ds[0].arg_name) is None {
        0
    } else {
        1 + first_unmatched(ps, ds.drop_first())
    }
}

/// The text of the prologue statement synthesized for one directive: rebind
/// the argument to itself at the substitute type through the infallible
/// conversion, convert fallibly into the original type propagating failure
/// out of the enclosing function, and shadow the argument name with the
/// result.
pub open spec fn prologue_stmt_text(name: Seq<char>, sub: Seq<char>, orig: Seq<char>) -> Seq<char> {
    "let "@ + name + " = { let "@ + name + ": "@ + sub + " = "@ + name + ".into(); <"@ + orig
        + " as std::convert::TryFrom<_>>::try_from("@ + name + ")? };"@
}

/// The prologue statement for directive `d` against the signature `ps`:
/// the conversion target is the matched parameter's declared type as it
/// stands in `ps`, captured before any substitution.
pub open spec fn stmt_for(ps: Seq<ParamV>, d: DirectiveV) -> Seq<char>
    recommends
        find_match(ps, d.arg_name) is Some,
{
    prologue_stmt_text(d.arg_name, d.substitute_type, ps[find_match(ps, d.arg_name)->Some_0].ty_of())
}

/// The whole prologue, one statement per directive, in directive order.
pub open spec fn prologue_stmts(ps: Seq<ParamV>, ds: Seq<DirectiveV>) -> Seq<Seq<char>> {
    Seq::new(ds.len(), |k: int| stmt_for(ps, ds[k]))
}

impl ParamV {
    /// The declared type of a typed parameter.
    pub open spec fn ty_of(self) -> Seq<char>
        recommends
            self is Typed,
    {
        self->ty
    }

}

/// `find_match` returns the least index of an eligible parameter, and `None`
/// exactly when no parameter is eligible.
pub proof fn lemma_find_match_props(ps: Seq<ParamV>, name: Seq<char>)
    ensures
        match find_match(ps, name) {
            Some(i) => 0 <= i < ps.len() && eligible(ps[i], name) && forall|j: int|
                0 <= j < i ==> !eligible(#[trigger] ps[j], name),
            None => forall|j: int| 0 <= j < ps.len() ==> !eligible(#[trigger] ps[j], name),
        },
    decreases ps.len(),
{
    if ps.len() > 0 && !eligible(ps[0], name) {
        lemma_find_match_props(ps.drop_first(), name);
        assert(forall|j: int|
            0 < j < ps.len() ==> #[trigger] ps[j] == ps.drop_first()[j - 1]);
    }
}

/// A position that is eligible, with none eligible before it, is exactly
/// what `find_match` returns.
pub proof fn lemma_find_match_at(ps: Seq<ParamV>, name: Seq<char>, i: int)
    requires
        0 <= i < ps.len(),
        eligible(ps[i], name),
        forall|j: int| 0 <= j < i ==> !eligible(#[trigger] ps[j], name),
    ensures
        find_match(ps, name) == Some(i),
    decreases ps.len(),
{
    if i > 0 {
        assert(forall|j: int|
            0 < j < ps.len() ==> #[trigger] ps.drop_first()[j - 1] == ps[j]);
        lemma_find_match_at(ps.drop_first(), name, i - 1);
    }
}

/// Two parameter lists of the same length on which eligibility agrees
/// pointwise are matched identically.
pub proof fn lemma_find_match_congruent(ps1: Seq<ParamV>, ps2: Seq<ParamV>, name: Seq<char>)
    requires
        ps1.len() == ps2.len(),
        forall|j: int|
            0 <= j < ps1.len() ==> (eligible(#[trigger] ps1[j], name) == eligible(
                #[trigger] ps2[j],
                name,
            )),
    ensures
        find_match(ps1, name) == find_match(ps2, name),
{
    lemma_find_match_props(ps1, name);
    lemma_find_match_props(ps2, name);
    match find_match(ps1, name) {
        Some(i) => {
            assert forall|j: int| 0 <= j < i implies !eligible(#[trigger] ps2[j], name) by {
                assert(!eligible(ps1[j], name));
            }
            assert(eligible(ps2[i], name)) by {
                assert(eligible(ps1[i], name));
            }
            lemma_find_match_at(ps2, name, i);
        },
        None => {
            match find_match(ps2, name) {
                Some(i2) => {
                    assert(eligible(ps1[i2], name));
                    assert(false);
                },
                None => {
                },
            }
        },
    }
}

/// Applying one directive keeps the length of the parameter list and the
/// eligibility of every position, for every name.
pub proof fn lemma_apply_directive_shape(ps: Seq<ParamV>, d: DirectiveV)
    ensures
        apply_directive_params(ps, d).len() == ps.len(),
        forall|j: int, n: Seq<char>|
            0 <= j < ps.len() ==> (#[trigger] eligible(apply_directive_params(ps, d)[j], n)
                == eligible(ps[j], n)),
{
    lemma_find_match_props(ps, d.arg_name);
    match find_match(ps, d.arg_name) {
        Some(i) => {
            assert(ps[i] matches ParamV::Typed { name, .. } && name == d.arg_name);
        },
        None => {
        },
    }
}

/// Applying a whole directive set keeps the length of the parameter list and
/// the eligibility of every position, for every name.
pub proof fn lemma_substitute_all_shape(ps: Seq<ParamV>, ds: Seq<DirectiveV>)
    ensures
        substitute_all(ps, ds).len() == ps.len(),
        forall|j: int, n: Seq<char>|
            0 <= j < ps.len() ==> (#[trigger] eligible(substitute_all(ps, ds)[j], n) == eligible(
                ps[j],
                n,
            )),
    decreases ds.len(),
{
    if ds.len() > 0 {
        lemma_apply_directive_shape(ps, ds[0]);
        lemma_substitute_all_shape(apply_directive_params(ps, ds[0]), ds.drop_first());
    }
}

/// Substitution distributes over appending one directive at the end.
pub proof fn lemma_substitute_all_snoc(ps: Seq<ParamV>, ds: Seq<DirectiveV>, d: DirectiveV)
    ensures
        substitute_all(ps, ds.push(d)) == apply_directive_params(substitute_all(ps, ds), d),
    decreases ds.len(),
{
    if ds.len() == 0 {
        assert(ds.push(d)[0] == d);
        assert(ds.push(d).drop_first() =~= Seq::<DirectiveV>::empty());
        assert(substitute_all(ps, ds.push(d)) == substitute_all(
            apply_directive_params(ps, d),
            Seq::<DirectiveV>::empty(),
        ));
    } else {
        assert(ds.push(d)[0] == ds[0]);
        assert(ds.push(d).drop_first() =~= ds.drop_first().push(d));
        lemma_substitute_all_snoc(apply_directive_params(ps, ds[0]), ds.drop_first(), d);
        assert(substitute_all(ps, ds.push(d)) == substitute_all(
            apply_directive_params(ps, ds[0]),
            ds.drop_first().push(d),
        ));
        assert(substitute_all(ps, ds) == substitute_all(
            apply_directive_params(ps, ds[0]),
            ds.drop_first(),
        ));
    }
}

} // verus!
