//! Crate-level laws: determinism of the pipeline and the invariants of
//! the partitioned DAE system.

use vstd::prelude::*;
use crate::ast::{ClassModel, ComponentModel, EquationBlockModel, EquationModel, StoredDefinition};
use crate::dae::{
    DaeModel, comp_names, eqs_first_dangling, opt_or, spec_allowed, spec_classify,
    spec_classify_step, spec_partition, spec_route, spec_route_blocks, spec_route_body,
    spec_route_eq,
};
use crate::error::ErrorModel;
use crate::flatten::spec_flatten;
use crate::visitor::{eqs_free_of, lemma_scn_eqs_free, scn_eqs};

verus! {

/// Scope rewriting: collapsing references through an expanded component
/// `comp` leaves no equation that retains `comp`'s dotted form — every
/// reference that began `comp.sub` stands as the single mangled
/// identifier `comp_sub`.  The expansion step of `spec_flatten` applies
/// exactly this rewrite (`scn_eqs`) to all equations gathered so far and
/// then removes `comp` from the components, so each step's output
/// equations are free of the expanded component's qualified form.
pub proof fn lemma_scope_rewriting(eqs: Seq<EquationModel>, comp: Seq<char>)
    ensures
        eqs_free_of(scn_eqs(eqs, comp), comp),
{
    lemma_scn_eqs_free(eqs, comp);
}

/// Ordering determinism: for one input, any two results that satisfy the
/// flattening contract are the same value, component and equation order
/// included.
pub proof fn lemma_flatten_deterministic(
    def: StoredDefinition,
    path: Seq<char>,
    r1: Result<ClassModel, ErrorModel>,
    r2: Result<ClassModel, ErrorModel>,
)
    requires
        r1 == spec_flatten(def, path),
        r2 == spec_flatten(def, path),
    ensures
        r1 == r2,
{
}

/// Ordering determinism for partitioning: any two results that satisfy
/// the partitioning contract are the same system.
pub proof fn lemma_partition_deterministic(
    class: ClassModel,
    r1: Result<DaeModel, ErrorModel>,
    r2: Result<DaeModel, ErrorModel>,
)
    requires
        r1 == spec_partition(class),
        r2 == spec_partition(class),
    ensures
        r1 == r2,
{
}

/// Classification keeps `x` paired with `x_dot` and `z` with `pre_z`.
proof fn lemma_classify_lengths(
    comps: Seq<(Seq<char>, ComponentModel)>,
    eqs: Seq<EquationModel>,
    acc: DaeModel,
)
    requires
        acc.x.len() == acc.x_dot.len(),
        acc.z.len() == acc.pre_z.len(),
    ensures
        spec_classify(comps, eqs, acc).x.len() == spec_classify(comps, eqs, acc).x_dot.len(),
        spec_classify(comps, eqs, acc).z.len() == spec_classify(comps, eqs, acc).pre_z.len(),
    decreases comps.len(),
{
    if comps.len() > 0 {
        lemma_classify_lengths(
            comps.subrange(1, comps.len() as int),
            eqs,
            spec_classify_step(comps[0].1, eqs, acc),
        );
    }
}

/// Routing a block body never touches the variable buckets.
proof fn lemma_route_body_vars(eqs: Seq<EquationModel>, m: Seq<Seq<char>>, acc: DaeModel)
    ensures
        spec_route_body(eqs, m, acc).x == acc.x,
        spec_route_body(eqs, m, acc).x_dot == acc.x_dot,
        spec_route_body(eqs, m, acc).z == acc.z,
        spec_route_body(eqs, m, acc).pre_z == acc.pre_z,
    decreases eqs.len(),
{
    if eqs.len() > 0 {
        let acc1 = if crate::dae::when_eq_is_m(eqs[0], m) {
            DaeModel { fm: acc.fm.push(eqs[0]), ..acc }
        } else {
            DaeModel { fz: acc.fz.push(eqs[0]), ..acc }
        };
        lemma_route_body_vars(eqs.subrange(1, eqs.len() as int), m, acc1);
    }
}

/// Routing `when` blocks never touches the variable buckets.
proof fn lemma_route_blocks_vars(blocks: Seq<EquationBlockModel>, m: Seq<Seq<char>>, acc: DaeModel)
    ensures
        spec_route_blocks(blocks, m, acc).x == acc.x,
        spec_route_blocks(blocks, m, acc).x_dot == acc.x_dot,
        spec_route_blocks(blocks, m, acc).z == acc.z,
        spec_route_blocks(blocks, m, acc).pre_z == acc.pre_z,
    decreases blocks.len(),
{
    if blocks.len() > 0 {
        let b = blocks[0];
        let acc1 = DaeModel {
            c: acc.c.push(b.cond),
            relation: if crate::dae::cond_is_relation(b.cond) {
                acc.relation.push(b.cond)
            } else {
                acc.relation
            },
            fc: acc.fc.push(b.eqs),
            ..acc
        };
        lemma_route_body_vars(b.eqs, m, acc1);
        lemma_route_blocks_vars(
            blocks.subrange(1, blocks.len() as int),
            m,
            spec_route_body(b.eqs, m, acc1),
        );
    }
}

/// Routing equations never touches the variable buckets.
proof fn lemma_route_vars(eqs: Seq<EquationModel>, m: Seq<Seq<char>>, acc: DaeModel)
    ensures
        spec_route(eqs, m, acc).x == acc.x,
        spec_route(eqs, m, acc).x_dot == acc.x_dot,
        spec_route(eqs, m, acc).z == acc.z,
        spec_route(eqs, m, acc).pre_z == acc.pre_z,
    decreases eqs.len(),
{
    if eqs.len() > 0 {
        match eqs[0] {
            EquationModel::When(blocks) => {
                lemma_route_blocks_vars(blocks, m, acc);
            },
            _ => {},
        }
        lemma_route_vars(eqs.subrange(1, eqs.len() as int), m, spec_route_eq(eqs[0], m, acc));
    }
}

/// The DAE invariant: a successfully partitioned system has as many
/// derivatives as states and as many `pre_z` shadows as `z` variables,
/// and every free identifier of `fx`, `fz` and `fm` names exactly one
/// variable across the classification buckets (`eqs_first_dangling`
/// yields the first name that resolves to none or to several).
pub proof fn lemma_dae_invariant(class: ClassModel, d: DaeModel)
    requires
        spec_partition(class) == Ok::<DaeModel, ErrorModel>(d),
    ensures
        d.x.len() == d.x_dot.len(),
        d.z.len() == d.pre_z.len(),
        eqs_first_dangling(d.fx, spec_allowed(d)) is None,
        eqs_first_dangling(d.fz, spec_allowed(d)) is None,
        eqs_first_dangling(d.fm, spec_allowed(d)) is None,
{
    let d1 = spec_classify(class.components, class.equations, crate::dae::empty_dae_model());
    lemma_classify_lengths(class.components, class.equations, crate::dae::empty_dae_model());
    lemma_route_vars(class.equations, comp_names(d1.m), d1);
}

} // verus!
