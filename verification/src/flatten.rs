//! Flattening of a hierarchical stored definition into a single class.
//!
//! Given a stored definition and a dotted class path, [`flatten`]:
//!
//! 1. walks the path through the nested class maps (a miss is
//!    [`Error::ClassNotFound`]);
//! 2. mangles the output class name by joining the path with `_`;
//! 3. copies each extends clause's base-class components and equations
//!    into the output (base classes are looked up in the top-level map
//!    only);
//! 4. expands each component whose type names a user class: the member
//!    class's equations are scope-pushed with the component's name,
//!    references through the component are collapsed to mangled names,
//!    its components are copied under `comp_sub` names, and the expanded
//!    component is removed.
//!
//! The whole transformation is specified by [`spec_flatten`] over models;
//! iteration order over components and equations follows insertion order
//! and is part of the contract.

use vstd::prelude::*;
use crate::ast::{
    ClassDefinition, ClassModel, Component, ComponentModel, EquationModel, Name,
    StoredDefinition, Token, TokenModel, class_model, class_wf, classes_deep_wf, comp_model,
    comp_entries_model, duplicate_eqs, eqs_model, join_texts, lemma_classes_deep_wf,
    lemma_eqs_model, tokens_model,
};
use crate::error::{Error, ErrorModel, error_model};
use crate::omap::{lemma_seq_index_of, seq_index_of};
use crate::text::{join_path, split_path, split_text};
use crate::visitor::{ScopePusher, SubCompNamer, scn_eqs, sp_eqs, string_views};

verus! {

/// The reserved identifiers that scope pushing never prefixes.
pub open spec fn flatten_globals() -> Seq<Seq<char>> {
    seq!["time"@, "der"@, "pre"@, "cos"@, "sin"@, "tan"@]
}

/// Builds the reserved-identifier list.
pub fn flatten_global_symbols() -> (r: Vec<String>)
    ensures
        string_views(r@) == flatten_globals(),
{
    let mut r: Vec<String> = Vec::new();
    r.push("time".to_owned());
    r.push("der".to_owned());
    r.push("pre".to_owned());
    r.push("cos".to_owned());
    r.push("sin".to_owned());
    r.push("tan".to_owned());
    proof {
        assert(string_views(r@) =~= flatten_globals());
    }
    r
}

// ---------------------------------------------------------------------------
// Model-level operations on component entry sequences
// ---------------------------------------------------------------------------

/// First index whose key is `k`, or `-1`.
pub open spec fn centry_index_of(s: Seq<(Seq<char>, ComponentModel)>, k: Seq<char>) -> int
    decreases s,
{
    if s.len() == 0 {
        -1
    } else if s[0].0 == k {
        0
    } else {
        let r = centry_index_of(s.subrange(1, s.len() as int), k);
        if r < 0 {
            -1
        } else {
            r + 1
        }
    }
}

pub proof fn lemma_centry_index_of(s: Seq<(Seq<char>, ComponentModel)>, k: Seq<char>)
    ensures
        centry_index_of(s, k) == -1 ==> forall|i: int| 0 <= i < s.len() ==> s[i].0 != k,
        centry_index_of(s, k) != -1 ==> 0 <= centry_index_of(s, k) < s.len() && s[centry_index_of(
            s,
            k,
        )].0 == k,
        centry_index_of(s, k) != -1 ==> forall|i: int|
            0 <= i < centry_index_of(s, k) ==> s[i].0 != k,
    decreases s,
{
    if s.len() > 0 && s[0].0 != k {
        let sub = s.subrange(1, s.len() as int);
        lemma_centry_index_of(sub, k);
        assert forall|i: int| 1 <= i < s.len() implies s[i] == sub[i - 1] by {}
    }
}

/// Insertion with ordered-map semantics: a present key keeps its position
/// and takes the new value, an absent key is appended.
pub open spec fn centry_insert(
    s: Seq<(Seq<char>, ComponentModel)>,
    k: Seq<char>,
    v: ComponentModel,
) -> Seq<(Seq<char>, ComponentModel)> {
    let i = centry_index_of(s, k);
    if i == -1 {
        s.push((k, v))
    } else {
        s.update(i, (k, v))
    }
}

/// Removal with swap semantics: the last entry moves into the removed
/// slot.  An absent key leaves the sequence unchanged.
pub open spec fn centry_swap_remove(s: Seq<(Seq<char>, ComponentModel)>, k: Seq<char>) -> Seq<
    (Seq<char>, ComponentModel),
> {
    let i = centry_index_of(s, k);
    if i == -1 {
        s
    } else {
        s.update(i, s.last()).drop_last()
    }
}

/// The entry index of a key equals its key-sequence index when the entry
/// keys mirror the key sequence.
pub proof fn lemma_centry_vs_keys(
    keys: Seq<Seq<char>>,
    e: Seq<(Seq<char>, ComponentModel)>,
    k: Seq<char>,
)
    requires
        e.len() == keys.len(),
        forall|i: int| 0 <= i < e.len() ==> (#[trigger] e[i]).0 == keys[i],
    ensures
        centry_index_of(e, k) == seq_index_of(keys, k),
    decreases e,
{
    if e.len() > 0 && e[0].0 != k {
        let esub = e.subrange(1, e.len() as int);
        let ksub = keys.subrange(1, keys.len() as int);
        assert forall|i: int| 0 <= i < esub.len() implies (#[trigger] esub[i]).0 == ksub[i] by {
            assert(esub[i] == e[i + 1]);
            assert(ksub[i] == keys[i + 1]);
        }
        lemma_centry_vs_keys(ksub, esub, k);
    }
}

/// Inserts every entry in turn.
pub open spec fn centries_insert_all(
    acc: Seq<(Seq<char>, ComponentModel)>,
    entries: Seq<(Seq<char>, ComponentModel)>,
) -> Seq<(Seq<char>, ComponentModel)>
    decreases entries.len(),
{
    if entries.len() == 0 {
        acc
    } else {
        centries_insert_all(
            centry_insert(acc, entries[0].0, entries[0].1),
            entries.subrange(1, entries.len() as int),
        )
    }
}

/// Copies the sub-components of an expanded component under mangled
/// names: each `(sub, m)` is inserted as `(comp_sub, m renamed)`.
pub open spec fn spec_add_subcomps(
    acc: Seq<(Seq<char>, ComponentModel)>,
    comp: Seq<char>,
    subs: Seq<(Seq<char>, ComponentModel)>,
) -> Seq<(Seq<char>, ComponentModel)>
    decreases subs.len(),
{
    if subs.len() == 0 {
        acc
    } else {
        let newname = comp + seq!['_'] + subs[0].0;
        let newcomp = ComponentModel { name: newname, ..subs[0].1 };
        spec_add_subcomps(
            centry_insert(acc, newname, newcomp),
            comp,
            subs.subrange(1, subs.len() as int),
        )
    }
}

// ---------------------------------------------------------------------------
// The stages, over models
// ---------------------------------------------------------------------------

/// Walks the remaining path segments through nested class maps.
pub open spec fn spec_lookup_rest(c: ClassDefinition, parts: Seq<Seq<char>>) -> Option<
    ClassDefinition,
>
    decreases parts.len(),
{
    if parts.len() == 0 {
        Some(c)
    } else {
        match c.classes.spec_get(parts[0]) {
            None => None,
            Some(c2) => spec_lookup_rest(c2, parts.subrange(1, parts.len() as int)),
        }
    }
}

/// Resolves a dotted path: the first segment against the top-level
/// classes, each further segment against the nested classes of the class
/// found so far.
pub open spec fn spec_lookup(def: StoredDefinition, parts: Seq<Seq<char>>) -> Option<
    ClassDefinition,
> {
    if parts.len() == 0 {
        None
    } else {
        match def.classes.spec_get(parts[0]) {
            None => None,
            Some(c) => spec_lookup_rest(c, parts.subrange(1, parts.len() as int)),
        }
    }
}

/// Applies the extends clauses in order: each base class, looked up in
/// the top-level map, contributes its components (by ordered insertion)
/// and its equations (appended).
pub open spec fn spec_extends_fold(
    def: StoredDefinition,
    exts: Seq<Seq<TokenModel>>,
    comps: Seq<(Seq<char>, ComponentModel)>,
    eqs: Seq<EquationModel>,
) -> Result<(Seq<(Seq<char>, ComponentModel)>, Seq<EquationModel>), ErrorModel>
    decreases exts.len(),
{
    if exts.len() == 0 {
        Ok((comps, eqs))
    } else {
        let base_name = join_texts(exts[0].map_values(|t: TokenModel| t.text), '.');
        match def.classes.spec_get(base_name) {
            None => Err(ErrorModel::ClassNotFound { path: base_name }),
            Some(base) => {
                let bm = class_model(base);
                spec_extends_fold(
                    def,
                    exts.subrange(1, exts.len() as int),
                    centries_insert_all(comps, bm.components),
                    eqs + bm.equations,
                )
            },
        }
    }
}

/// Expands the user-class-typed components in order.  For each such
/// component: the member class's equations are scope-pushed under the
/// component's name and appended; references through the component are
/// collapsed in all equations and initial equations gathered so far; the
/// member class's components are inserted under mangled names; and the
/// expanded component is removed.
pub open spec fn spec_expand_fold(
    def: StoredDefinition,
    oc: Seq<(Seq<char>, ComponentModel)>,
    comps: Seq<(Seq<char>, ComponentModel)>,
    eqs: Seq<EquationModel>,
    ieqs: Seq<EquationModel>,
) -> (Seq<(Seq<char>, ComponentModel)>, Seq<EquationModel>, Seq<EquationModel>)
    decreases oc.len(),
{
    if oc.len() == 0 {
        (comps, eqs, ieqs)
    } else {
        let cname = oc[0].0;
        let tname = join_texts(oc[0].1.type_specifier.map_values(|t: TokenModel| t.text), '.');
        match def.classes.spec_get(tname) {
            None => spec_expand_fold(def, oc.subrange(1, oc.len() as int), comps, eqs, ieqs),
            Some(k) => {
                let km = class_model(k);
                let eqs1 = eqs + sp_eqs(km.equations, flatten_globals(), Seq::empty(), cname);
                let eqs2 = scn_eqs(eqs1, cname);
                let ieqs2 = scn_eqs(ieqs, cname);
                let comps1 = spec_add_subcomps(comps, cname, km.components);
                let comps2 = centry_swap_remove(comps1, cname);
                spec_expand_fold(def, oc.subrange(1, oc.len() as int), comps2, eqs2, ieqs2)
            },
        }
    }
}

/// Well-formed stored definition: a well-formed top-level map of deeply
/// well-formed classes.
pub open spec fn sd_wf(d: StoredDefinition) -> bool {
    &&& d.classes.wf()
    &&& classes_deep_wf(d.classes.val_seq())
}

/// The flattened class for `def` and the dotted `path`, or the error.
pub open spec fn spec_flatten(def: StoredDefinition, path: Seq<char>) -> Result<
    ClassModel,
    ErrorModel,
> {
    let parts = split_text(path, '.');
    match spec_lookup(def, parts) {
        None => Err(ErrorModel::ClassNotFound { path }),
        Some(main) => {
            let m = class_model(main);
            match spec_extends_fold(def, m.extends.map_values(|e: crate::ast::ExtendModel| e.comp), m.components, m.equations) {
                Err(e) => Err(e),
                Ok(ce) => {
                    let st = spec_expand_fold(def, m.components, ce.0, ce.1, m.initial_equations);
                    Ok(
                        ClassModel {
                            name: TokenModel {
                                text: join_texts(parts, '_'),
                                location: m.name.location,
                                token_number: m.name.token_number,
                                token_type: m.name.token_type,
                            },
                            encapsulated: m.encapsulated,
                            classes: m.classes,
                            components: st.0,
                            extends: m.extends,
                            imports: m.imports,
                            equations: st.1,
                            initial_equations: st.2,
                            algorithms: m.algorithms,
                            initial_algorithms: m.initial_algorithms,
                        },
                    )
                },
            }
        },
    }
}

// ---------------------------------------------------------------------------
// The executable flattener
// ---------------------------------------------------------------------------

/// Current component entries of a map, as a model sequence.
pub open spec fn map_entries(m: crate::omap::OrderedMap<Component>) -> Seq<
    (Seq<char>, ComponentModel),
> {
    comp_entries_model(m.key_seq(), m.val_seq())
}

/// Flattens the class at the dotted `model_class` path of `def` into a
/// single class, as [`spec_flatten`] states.
pub fn flatten(def: &StoredDefinition, model_class: &str) -> (r: Result<ClassDefinition, Error>)
    requires
        sd_wf(*def),
    ensures
        match r {
            Ok(c) => class_wf(c) && spec_flatten(*def, model_class@) == Ok::<
                ClassModel,
                ErrorModel,
            >(class_model(c)),
            Err(e) => spec_flatten(*def, model_class@) == Err::<ClassModel, ErrorModel>(
                error_model(e),
            ),
        },
{
    let parts = split_path(model_class, '.');
    let ghost pv = parts@.map_values(|x: String| x@);
    let n = parts.len();

    // Stage 1: resolve the path.
    proof {
        lemma_classes_deep_wf(def.classes.val_seq());
        lemma_seq_index_of(def.classes.key_seq(), pv[0]);
    }
    let mut cur: &ClassDefinition = match def.classes.get(&parts[0]) {
        Some(c) => c,
        None => {
            let path = model_class.to_owned();
            proof {
                assert(spec_lookup(*def, pv) == None::<ClassDefinition>);
                assert(spec_flatten(*def, model_class@) == Err::<ClassModel, ErrorModel>(
                    ErrorModel::ClassNotFound { path: model_class@ },
                ));
            }
            return Err(Error::ClassNotFound { path });
        },
    };
    let mut i: usize = 1;
    while i < n
        invariant
            1 <= i <= n,
            n == parts@.len(),
            pv == parts@.map_values(|x: String| x@),
            pv == split_text(model_class@, '.'),
            class_wf(*cur),
            spec_lookup(*def, pv) == spec_lookup_rest(*cur, pv.subrange(i as int, n as int)),
        decreases n - i,
    {
        let ghost rest = pv.subrange(i as int, n as int);
        proof {
            assert(cur.classes.wf());
            assert(rest[0] == pv[i as int]);
            lemma_seq_index_of(cur.classes.key_seq(), pv[i as int]);
        }
        match cur.classes.get(&parts[i]) {
            Some(c2) => {
                proof {
                    match &cur.classes {
                        crate::ast::ClassMap::Empty => {},
                        crate::ast::ClassMap::Present(map) => {
                            lemma_classes_deep_wf(map.vals@);
                        },
                    }
                    assert(rest.subrange(1, rest.len() as int) =~= pv.subrange(
                        i + 1,
                        n as int,
                    ));
                }
                cur = c2;
            },
            None => {
                let path = model_class.to_owned();
                proof {
                    assert(spec_lookup_rest(*cur, rest) == None::<ClassDefinition>);
                    assert(spec_flatten(*def, model_class@) == Err::<ClassModel, ErrorModel>(
                        ErrorModel::ClassNotFound { path: model_class@ },
                    ));
                }
                return Err(Error::ClassNotFound { path });
            },
        }
        i += 1;
    }
    proof {
        assert(pv.subrange(n as int, n as int) =~= Seq::<Seq<char>>::empty());
        assert(spec_lookup(*def, pv) == Some(*cur));
    }

    // Stage 2: copy and mangle.
    let ghost m = class_model(*cur);
    let mut fclass = cur.duplicate();
    proof {
        reveal_strlit("_");
        assert("_"@ =~= seq!['_']);
    }
    fclass.name.text = join_path(&parts, "_");
    let ghost mangled = TokenModel {
        text: join_texts(pv, '_'),
        location: m.name.location,
        token_number: m.name.token_number,
        token_type: m.name.token_type,
    };
    // Stage 3: apply the extends clauses.
    let ghost exts = m.extends.map_values(|e: crate::ast::ExtendModel| e.comp);
    proof {
        assert(map_entries(fclass.components) == m.components);
        assert(eqs_model(fclass.equations@) == m.equations);
        assert(fclass.name@ == mangled);
        assert(exts.subrange(0, cur.extends@.len() as int) =~= exts);
    }
    let elen = cur.extends.len();
    let mut ei: usize = 0;
    while ei < elen
        invariant
            0 <= ei <= elen,
            elen == cur.extends@.len(),
            sd_wf(*def),
            class_wf(*cur),
            m == class_model(*cur),
            pv == split_text(model_class@, '.'),
            spec_lookup(*def, pv) == Some(*cur),
            exts == m.extends.map_values(|e: crate::ast::ExtendModel| e.comp),
            fclass.components.wf(),
            crate::ast::class_map_wf(fclass.classes),
            class_model(fclass) == (ClassModel {
                name: mangled,
                encapsulated: m.encapsulated,
                classes: m.classes,
                components: map_entries(fclass.components),
                extends: m.extends,
                imports: m.imports,
                equations: eqs_model(fclass.equations@),
                initial_equations: m.initial_equations,
                algorithms: m.algorithms,
                initial_algorithms: m.initial_algorithms,
            }),
            spec_extends_fold(
                *def,
                exts.subrange(ei as int, elen as int),
                map_entries(fclass.components),
                eqs_model(fclass.equations@),
            ) == spec_extends_fold(*def, exts, m.components, m.equations),
        decreases elen - ei,
    {
        let ghost erest = exts.subrange(ei as int, elen as int);
        let base_name = cur.extends[ei].comp.text();
        proof {
            assert(erest[0] == exts[ei as int]);
            assert(exts[ei as int] == m.extends[ei as int].comp);
            assert(m.extends[ei as int] == crate::ast::extend_model(cur.extends@[ei as int]));
            assert(base_name@ == join_texts(
                erest[0].map_values(|t: TokenModel| t.text),
                '.',
            ));
            lemma_seq_index_of(def.classes.key_seq(), base_name@);
            lemma_classes_deep_wf(def.classes.val_seq());
        }
        let base = match def.classes.get(&base_name) {
            Some(b) => b,
            None => {
                proof {
                    assert(spec_extends_fold(
                        *def,
                        erest,
                        map_entries(fclass.components),
                        eqs_model(fclass.equations@),
                    ) == Err::<
                        (Seq<(Seq<char>, ComponentModel)>, Seq<EquationModel>),
                        ErrorModel,
                    >(ErrorModel::ClassNotFound { path: base_name@ }));
                    assert(spec_flatten(*def, model_class@) == Err::<ClassModel, ErrorModel>(
                        ErrorModel::ClassNotFound { path: base_name@ },
                    ));
                }
                return Err(Error::ClassNotFound { path: base_name });
            },
        };
        proof {
            assert(class_wf(*base));
        }
        let ghost bm = class_model(*base);
        let ghost bcomps = bm.components;
        let ghost start_entries = map_entries(fclass.components);
        proof {
            assert(bcomps.subrange(0, bcomps.len() as int) =~= bcomps);
        }

        // Copy the base components, in order.
        let ghost eqs_at = eqs_model(fclass.equations@);
        let blen = base.components.len();
        let mut j: usize = 0;
        while j < blen
            invariant
                0 <= j <= blen,
                blen == base.components.spec_len(),
                base.components.wf(),
                fclass.components.wf(),
                crate::ast::class_map_wf(fclass.classes),
                bcomps == map_entries(base.components),
                eqs_model(fclass.equations@) == eqs_at,
                class_model(fclass) == (ClassModel {
                    name: mangled,
                    encapsulated: m.encapsulated,
                    classes: m.classes,
                    components: map_entries(fclass.components),
                    extends: m.extends,
                    imports: m.imports,
                    equations: eqs_model(fclass.equations@),
                    initial_equations: m.initial_equations,
                    algorithms: m.algorithms,
                    initial_algorithms: m.initial_algorithms,
                }),
                centries_insert_all(
                    map_entries(fclass.components),
                    bcomps.subrange(j as int, blen as int),
                ) == centries_insert_all(start_entries, bcomps),
            decreases blen - j,
        {
            let key = base.components.key_at(j).clone();
            let val = base.components.val_at(j).duplicate();
            let ghost before = map_entries(fclass.components);
            let ghost brest = bcomps.subrange(j as int, blen as int);
            proof {
                assert(brest[0] == bcomps[j as int]);
                assert(bcomps[j as int] == (key@, comp_model(val)));
                lemma_centry_vs_keys(fclass.components.key_seq(), before, key@);
                lemma_seq_index_of(fclass.components.key_seq(), key@);
                lemma_centry_index_of(before, key@);
            }
            fclass.components.insert(key, val);
            proof {
                assert(map_entries(fclass.components) =~= centry_insert(
                    before,
                    brest[0].0,
                    brest[0].1,
                ));
                assert(brest.subrange(1, brest.len() as int) =~= bcomps.subrange(
                    j + 1,
                    blen as int,
                ));
            }
            j += 1;
        }

        // Append the base equations.
        let mut base_eqs = duplicate_eqs(&base.equations);
        let ghost eqs_before = eqs_model(fclass.equations@);
        let ghost pre_view = fclass.equations@;
        let ghost base_eqs_view = base_eqs@;
        fclass.equations.append(&mut base_eqs);
        proof {
            crate::ast::lemma_eqs_model_concat(pre_view, base_eqs_view);
            assert(fclass.equations@ == pre_view + base_eqs_view);
            assert(eqs_model(fclass.equations@) == eqs_before + bm.equations);
        }

        proof {
            assert(bcomps.subrange(blen as int, blen as int) =~= Seq::<
                (Seq<char>, ComponentModel),
            >::empty());
            assert(erest.subrange(1, erest.len() as int) =~= exts.subrange(
                ei + 1,
                elen as int,
            ));
        }
        ei += 1;
    }
    proof {
        assert(exts.subrange(elen as int, elen as int) =~= Seq::<Seq<TokenModel>>::empty());
    }
    let ghost ce_comps = map_entries(fclass.components);
    let ghost ce_eqs = eqs_model(fclass.equations@);
    proof {
        assert(spec_extends_fold(*def, exts, m.components, m.equations) == Ok::<
            (Seq<(Seq<char>, ComponentModel)>, Seq<EquationModel>),
            ErrorModel,
        >((ce_comps, ce_eqs)));
        assert(eqs_model(fclass.initial_equations@) == m.initial_equations);
    }

    // Stage 4: expand user-class-typed components.
    let ghost oc = m.components;
    proof {
        assert(oc.subrange(0, oc.len() as int) =~= oc);
    }
    let clen = cur.components.len();
    let mut ci: usize = 0;
    while ci < clen
        invariant
            0 <= ci <= clen,
            clen == cur.components.spec_len(),
            sd_wf(*def),
            class_wf(*cur),
            m == class_model(*cur),
            pv == split_text(model_class@, '.'),
            spec_lookup(*def, pv) == Some(*cur),
            exts == m.extends.map_values(|e: crate::ast::ExtendModel| e.comp),
            spec_extends_fold(*def, exts, m.components, m.equations) == Ok::<
                (Seq<(Seq<char>, ComponentModel)>, Seq<EquationModel>),
                ErrorModel,
            >((ce_comps, ce_eqs)),
            oc == m.components,
            fclass.components.wf(),
            crate::ast::class_map_wf(fclass.classes),
            class_model(fclass) == (ClassModel {
                name: mangled,
                encapsulated: m.encapsulated,
                classes: m.classes,
                components: map_entries(fclass.components),
                extends: m.extends,
                imports: m.imports,
                equations: eqs_model(fclass.equations@),
                initial_equations: eqs_model(fclass.initial_equations@),
                algorithms: m.algorithms,
                initial_algorithms: m.initial_algorithms,
            }),
            spec_expand_fold(
                *def,
                oc.subrange(ci as int, clen as int),
                map_entries(fclass.components),
                eqs_model(fclass.equations@),
                eqs_model(fclass.initial_equations@),
            ) == spec_expand_fold(*def, oc, ce_comps, ce_eqs, m.initial_equations),
        decreases clen - ci,
    {
        let ghost orest = oc.subrange(ci as int, clen as int);
        let cname = cur.components.key_at(ci).clone();
        let comp = cur.components.val_at(ci);
        let tname = comp.type_specifier.text();
        proof {
            assert(orest[0] == oc[ci as int]);
            assert(oc[ci as int] == (
                cur.components.key_seq()[ci as int],
                comp_model(cur.components.val_seq()[ci as int]),
            ));
            assert(tname@ == join_texts(
                orest[0].1.type_specifier.map_values(|t: TokenModel| t.text),
                '.',
            ));
            lemma_seq_index_of(def.classes.key_seq(), tname@);
            lemma_classes_deep_wf(def.classes.val_seq());
        }
        match def.classes.get(&tname) {
            None => {
                proof {
                    assert(orest.subrange(1, orest.len() as int) =~= oc.subrange(
                        ci + 1,
                        clen as int,
                    ));
                }
            },
            Some(comp_class) => {
                proof {
                    assert(class_wf(*comp_class));
                }
                let ghost km = class_model(*comp_class);
                let ghost comps_at = map_entries(fclass.components);
                let ghost eqs_at = eqs_model(fclass.equations@);
                let ghost ieqs_at = eqs_model(fclass.initial_equations@);
                let ghost cname_v = cname@;

                // Scope-push the member class's equations and append them.
                let pusher = ScopePusher {
                    global_symbols: flatten_global_symbols(),
                    symbols: Vec::new(),
                    comp: cname.clone(),
                };
                proof {
                    assert(pusher.sy() =~= Seq::<Seq<char>>::empty());
                }
                let mut pushed = pusher.apply_eqs(&comp_class.equations);
                let ghost pushed_view = pushed@;
                let ghost pre_view = fclass.equations@;
                fclass.equations.append(&mut pushed);
                proof {
                    crate::ast::lemma_eqs_model_concat(pre_view, pushed_view);
                    assert(fclass.equations@ == pre_view + pushed_view);
                    assert(eqs_model(fclass.equations@) == eqs_at + sp_eqs(
                        km.equations,
                        flatten_globals(),
                        Seq::empty(),
                        cname_v,
                    ));
                }

                // Collapse references through the component.
                let namer = SubCompNamer { comp: cname.clone() };
                let new_eqs = namer.apply_eqs(&fclass.equations);
                fclass.equations = new_eqs;
                let new_ieqs = namer.apply_eqs(&fclass.initial_equations);
                fclass.initial_equations = new_ieqs;

                // Copy the member class's components under mangled names.
                let ghost subents = km.components;
                let ghost sub_start = map_entries(fclass.components);
                proof {
                    assert(subents.subrange(0, subents.len() as int) =~= subents);
                }
                let ghost eqs_now = eqs_model(fclass.equations@);
                let ghost ieqs_now = eqs_model(fclass.initial_equations@);
                let slen = comp_class.components.len();
                let mut sj: usize = 0;
                while sj < slen
                    invariant
                        0 <= sj <= slen,
                        slen == comp_class.components.spec_len(),
                        comp_class.components.wf(),
                        fclass.components.wf(),
                        crate::ast::class_map_wf(fclass.classes),
                        subents == map_entries(comp_class.components),
                        cname_v == cname@,
                        eqs_model(fclass.equations@) == eqs_now,
                        eqs_model(fclass.initial_equations@) == ieqs_now,
                        class_model(fclass) == (ClassModel {
                            name: mangled,
                            encapsulated: m.encapsulated,
                            classes: m.classes,
                            components: map_entries(fclass.components),
                            extends: m.extends,
                            imports: m.imports,
                            equations: eqs_model(fclass.equations@),
                            initial_equations: eqs_model(fclass.initial_equations@),
                            algorithms: m.algorithms,
                            initial_algorithms: m.initial_algorithms,
                        }),
                        spec_add_subcomps(
                            map_entries(fclass.components),
                            cname_v,
                            subents.subrange(sj as int, slen as int),
                        ) == spec_add_subcomps(sub_start, cname_v, subents),
                    decreases slen - sj,
                {
                    let ghost srest = subents.subrange(sj as int, slen as int);
                    let sname = comp_class.components.key_at(sj);
                    let mut scomp = comp_class.components.val_at(sj).duplicate();
                    let mut newname = cname.clone();
                    newname.append("_");
                    newname.append(sname.as_str());
                    proof {
                        reveal_strlit("_");
                        assert(newname@ =~= cname@ + seq!['_'] + sname@);
                        assert(srest[0] == subents[sj as int]);
                    }
                    scomp.name = newname.clone();
                    let ghost before = map_entries(fclass.components);
                    proof {
                        assert(comp_model(scomp) == (ComponentModel {
                            name: newname@,
                            ..srest[0].1
                        }));
                        lemma_centry_vs_keys(fclass.components.key_seq(), before, newname@);
                        lemma_seq_index_of(fclass.components.key_seq(), newname@);
                        lemma_centry_index_of(before, newname@);
                    }
                    fclass.components.insert(newname, scomp);
                    proof {
                        assert(map_entries(fclass.components) =~= centry_insert(
                            before,
                            cname_v + seq!['_'] + srest[0].0,
                            ComponentModel { name: cname_v + seq!['_'] + srest[0].0, ..srest[0].1 },
                        ));
                        assert(srest.subrange(1, srest.len() as int) =~= subents.subrange(
                            sj + 1,
                            slen as int,
                        ));
                    }
                    sj += 1;
                }
                proof {
                    assert(subents.subrange(slen as int, slen as int) =~= Seq::<
                        (Seq<char>, ComponentModel),
                    >::empty());
                }

                // Remove the expanded component.
                let ghost before_rm = map_entries(fclass.components);
                proof {
                    lemma_centry_vs_keys(fclass.components.key_seq(), before_rm, cname@);
                    lemma_seq_index_of(fclass.components.key_seq(), cname@);
                    lemma_centry_index_of(before_rm, cname@);
                }
                fclass.components.swap_remove(&cname);
                proof {
                    assert(map_entries(fclass.components) =~= centry_swap_remove(
                        before_rm,
                        cname_v,
                    ));
                    assert(orest.subrange(1, orest.len() as int) =~= oc.subrange(
                        ci + 1,
                        clen as int,
                    ));
                }
            },
        }
        ci += 1;
    }
    proof {
        assert(oc.subrange(clen as int, clen as int) =~= Seq::<
            (Seq<char>, ComponentModel),
        >::empty());
        assert(spec_expand_fold(*def, oc, ce_comps, ce_eqs, m.initial_equations) == (
            map_entries(fclass.components),
            eqs_model(fclass.equations@),
            eqs_model(fclass.initial_equations@),
        ));
        assert(class_wf(fclass));
        assert(spec_flatten(*def, model_class@) == Ok::<ClassModel, ErrorModel>(
            class_model(fclass),
        ));
    }
    Ok(fclass)
}

} // verus!
