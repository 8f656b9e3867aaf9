//! The algebra translator: turns a mapping document into an operator plan.
//! For every triples map it first builds a `Source -> Project` fragment
//! (first pass, establishing the node indices later units join against),
//! then routes non-join predicate-object maps through an
//! `Extend -> Serialize -> Sink` chain and gives every parent-referencing
//! object map its own join fragment against the parent's built fragment
//! (second pass).

use vstd::prelude::*;

use crate::attrset::strs_view;
use crate::model::Document;
use crate::model::ObjectMap;
use crate::model::PredicateMap;
use crate::model::PredicateObjectMap;
use crate::model::SubjectMap;
use crate::model::TermKind;
use crate::model::TermMapInfo;
use crate::model::TermMapType;
use crate::model::TriplesMap;
use crate::model::prefixed_value;
use crate::model::spec_contains_ptm;
use crate::model::tm_info_attrs;
use crate::names::om_attr;
use crate::names::pm_attr;
use crate::names::sm_attr;
use crate::operators::DataFormat;
use crate::operators::Function;
use crate::operators::entries_map;
use crate::operators::func_view;
use crate::operators::FunctionV;
use crate::operators::IOType;
use crate::operators::Operator;
use crate::operators::OperatorV;
use crate::operators::Source;
use crate::operators::Target;
use crate::plan::PlanError;
use crate::plan::PlanGraphV;
use crate::plan::PlanNodeV;
use crate::plan::mapping_edge;
use crate::plan::serialized_edge;

verus! {

// ------------------------------------------------------------------
// Function trees (value function wrapped by a term-shaping function)
// ------------------------------------------------------------------

/// Whether a term map declares a term kind this translator can emit.
pub open spec fn valid_term_kind(info: TermMapInfo) -> bool {
    match info.term_type {
        Some(TermKind::Iri) => true,
        Some(TermKind::Literal) => true,
        Some(TermKind::BlankNode) => true,
        _ => false,
    }
}

/// The value-producing function for a term map type and raw value.
pub open spec fn value_func_of(t: TermMapType, value: Seq<char>) -> FunctionV {
    match t {
        TermMapType::Constant => FunctionV::Constant { value },
        TermMapType::Reference => FunctionV::Reference { value },
        TermMapType::Template => FunctionV::Template { value },
    }
}

/// The full function tree for a term map: the value function wrapped by the
/// shaping function of its term kind (IRIs are URI-encoded first).
pub open spec fn term_func_of(t: TermMapType, value: Seq<char>, kind: Option<TermKind>)
    -> FunctionV {
    match kind {
        Some(TermKind::Iri) => FunctionV::Iri {
            inner: Box::new(
                FunctionV::UriEncode { inner: Box::new(value_func_of(t, value)) },
            ),
        },
        Some(TermKind::Literal) => FunctionV::Literal {
            inner: Box::new(value_func_of(t, value)),
        },
        Some(TermKind::BlankNode) => FunctionV::BlankNode {
            inner: Box::new(value_func_of(t, value)),
        },
        _ => FunctionV::Literal { inner: Box::new(value_func_of(t, value)) },
    }
}

/// The function tree of a term map.
pub open spec fn term_func(info: TermMapInfo) -> FunctionV {
    term_func_of(info.term_map_type, info.term_value@, info.term_type)
}

/// The function tree of a parent subject map after prefixing its attributes
/// with a join alias.
pub open spec fn prefixed_term_func(info: TermMapInfo, alias: Seq<char>) -> FunctionV {
    term_func_of(
        info.term_map_type,
        prefixed_value(info.term_map_type, alias, info.term_value@),
        info.term_type,
    )
}

/// Derives the function tree of a term map: the value function from its
/// term map type, wrapped by the shaping function of its declared term kind.
/// Fails with `UnrecognizedTermKind` when the term kind is absent or not one
/// of Iri / Literal / BlankNode.
pub fn extract_extend_function_from_term_map(tm_info: &TermMapInfo) -> (r: Result<
    Function,
    PlanError,
>)
    ensures
        match r {
            Ok(f) => valid_term_kind(*tm_info) && f@ == term_func(*tm_info),
            Err(e) => !valid_term_kind(*tm_info) && e == PlanError::UnrecognizedTermKind,
        },
{
    let term_value = tm_info.term_value.clone();
    let value_function = match tm_info.term_map_type {
        TermMapType::Constant => Function::Constant { value: term_value },
        TermMapType::Reference => Function::Reference { value: term_value },
        TermMapType::Template => Function::Template { value: term_value },
    };
    proof {
        assert(func_view(value_function) == value_func_of(
            tm_info.term_map_type,
            tm_info.term_value@,
        ));
    }
    match tm_info.term_type {
        Some(TermKind::Iri) => {
            let encoded = Function::UriEncode { inner_function: Box::new(value_function) };
            proof {
                assert(func_view(encoded) == FunctionV::UriEncode {
                    inner: Box::new(
                        value_func_of(tm_info.term_map_type, tm_info.term_value@),
                    ),
                });
            }
            let f = Function::Iri { inner_function: Box::new(encoded) };
            proof {
                assert(f@ == term_func(*tm_info));
            }
            Ok(f)
        },
        Some(TermKind::Literal) => {
            let f = Function::Literal { inner_function: Box::new(value_function) };
            proof {
                assert(f@ == term_func(*tm_info));
            }
            Ok(f)
        },
        Some(TermKind::BlankNode) => {
            let f = Function::BlankNode { inner_function: Box::new(value_function) };
            proof {
                assert(f@ == term_func(*tm_info));
            }
            Ok(f)
        },
        _ => Err(PlanError::UnrecognizedTermKind),
    }
}

// ------------------------------------------------------------------
// Partition of predicate-object maps into join-bearing and non-join work
// ------------------------------------------------------------------

/// Whether an object map's parent reference and join condition are present
/// together or absent together.
pub open spec fn om_wf(om: ObjectMap) -> bool {
    om.parent_tm is Some <==> om.join_condition is Some
}

/// The indices of the object maps that reference a parent (`parent` true) or
/// do not (`parent` false), in order.
pub open spec fn om_idxs_with_parent(oms: Seq<ObjectMap>, parent: bool) -> Seq<int>
    decreases oms.len(),
{
    if oms.len() == 0 {
        seq![]
    } else if (oms.last().parent_tm is Some) == parent {
        om_idxs_with_parent(oms.drop_last(), parent).push(oms.len() - 1)
    } else {
        om_idxs_with_parent(oms.drop_last(), parent)
    }
}

/// All indices below `n`.
pub open spec fn all_idxs(n: nat) -> Seq<int> {
    Seq::new(n, |i: int| i)
}

/// The join-bearing work list: for each predicate-object map with at least
/// one parent-referencing object map, in order, the indices of exactly those
/// object maps.
pub open spec fn join_pom_selection(poms: Seq<PredicateObjectMap>) -> Seq<(int, Seq<int>)>
    decreases poms.len(),
{
    if poms.len() == 0 {
        seq![]
    } else if spec_contains_ptm(poms.last()) {
        join_pom_selection(poms.drop_last()).push(
            (poms.len() - 1, om_idxs_with_parent(poms.last().object_maps@, true)),
        )
    } else {
        join_pom_selection(poms.drop_last())
    }
}

/// The predicate-object maps with no parent-referencing object map, each
/// with all of its object maps.
pub open spec fn nonjoin_primary_selection(poms: Seq<PredicateObjectMap>) -> Seq<
    (int, Seq<int>),
>
    decreases poms.len(),
{
    if poms.len() == 0 {
        seq![]
    } else if !spec_contains_ptm(poms.last()) {
        nonjoin_primary_selection(poms.drop_last()).push(
            (poms.len() - 1, all_idxs(poms.last().object_maps@.len())),
        )
    } else {
        nonjoin_primary_selection(poms.drop_last())
    }
}

/// The plain object maps lifted out of mixed predicate-object maps: for each
/// join-bearing map that also has plain object maps, the indices of the
/// plain ones.
pub open spec fn nonjoin_residual_selection(poms: Seq<PredicateObjectMap>) -> Seq<
    (int, Seq<int>),
>
    decreases poms.len(),
{
    if poms.len() == 0 {
        seq![]
    } else if spec_contains_ptm(poms.last()) && om_idxs_with_parent(
        poms.last().object_maps@,
        false,
    ).len() > 0 {
        nonjoin_residual_selection(poms.drop_last()).push(
            (poms.len() - 1, om_idxs_with_parent(poms.last().object_maps@, false)),
        )
    } else {
        nonjoin_residual_selection(poms.drop_last())
    }
}

/// The non-join work list: whole non-join predicate-object maps first, then
/// the plain residues of mixed ones.
pub open spec fn nonjoin_pom_selection(poms: Seq<PredicateObjectMap>) -> Seq<(int, Seq<int>)> {
    nonjoin_primary_selection(poms) + nonjoin_residual_selection(poms)
}

/// The view of a work list: pairs of a predicate-object-map index and the
/// object-map indices to process under it.
pub open spec fn sel_view(s: Seq<(usize, Vec<usize>)>) -> Seq<(int, Seq<int>)> {
    s.map_values(|p: (usize, Vec<usize>)| (p.0 as int, p.1@.map_values(|i: usize| i as int)))
}

/// Every entry of a work list is in bounds for `poms`.
pub open spec fn sel_in_bounds(sel: Seq<(int, Seq<int>)>, poms: Seq<PredicateObjectMap>)
    -> bool {
    forall|e: int|
        0 <= e < sel.len() ==> 0 <= #[trigger] sel[e].0 < poms.len() && (forall|t: int|
            0 <= t < sel[e].1.len() ==> 0 <= #[trigger] sel[e].1[t] < poms[sel[e].0].object_maps@.len())
}

/// The object-map indices with (or without) a parent reference, as a vector.
fn om_idxs_vec(oms: &Vec<ObjectMap>, parent: bool) -> (r: Vec<usize>)
    ensures
        r@.map_values(|i: usize| i as int) == om_idxs_with_parent(oms@, parent),
{
    let n = oms.len();
    let mut r: Vec<usize> = Vec::new();
    let mut i: usize = 0;
    while i < n
        invariant
            i <= n,
            n == oms@.len(),
            r@.map_values(|x: usize| x as int) == om_idxs_with_parent(
                oms@.take(i as int),
                parent,
            ),
        decreases n - i,
    {
        proof {
            assert(oms@.take(i + 1).drop_last() =~= oms@.take(i as int));
            assert(oms@.take(i + 1).last() == oms@[i as int]);
        }
        let ghost before = r@;
        if oms[i].parent_tm.is_some() == parent {
            r.push(i);
            proof {
                assert(r@.map_values(|x: usize| x as int) =~= before.map_values(
                    |x: usize| x as int,
                ).push(i as int));
            }
        }
        i = i + 1;
    }
    proof {
        assert(oms@.take(n as int) =~= oms@);
    }
    r
}

/// The vector `[0, 1, .., n-1]`.
fn all_idxs_vec(n: usize) -> (r: Vec<usize>)
    ensures
        r@.map_values(|i: usize| i as int) == all_idxs(n as nat),
{
    let mut r: Vec<usize> = Vec::new();
    let mut i: usize = 0;
    while i < n
        invariant
            i <= n,
            r@.map_values(|x: usize| x as int) == all_idxs(i as nat),
        decreases n - i,
    {
        let ghost before = r@;
        r.push(i);
        proof {
            assert(r@.map_values(|x: usize| x as int) =~= before.map_values(
                |x: usize| x as int,
            ).push(i as int));
            assert(before.map_values(|x: usize| x as int).push(i as int) =~= all_idxs(
                (i + 1) as nat,
            ));
        }
        i = i + 1;
    }
    r
}

/// Splits the predicate-object maps into the join-bearing work list and the
/// non-join work list. A map holding a mix of parent-referencing and plain
/// object maps contributes its parent-referencing object maps to the former
/// and its plain ones, under the same predicates, to the latter, so every
/// object map is processed by exactly the operator chain appropriate to it.
pub fn partition_pom_join_nonjoin(poms: &Vec<PredicateObjectMap>) -> (r: (
    Vec<(usize, Vec<usize>)>,
    Vec<(usize, Vec<usize>)>,
))
    ensures
        sel_view(r.0@) == join_pom_selection(poms@),
        sel_view(r.1@) == nonjoin_pom_selection(poms@),
{
    let n = poms.len();
    let mut join_sel: Vec<(usize, Vec<usize>)> = Vec::new();
    let mut primary: Vec<(usize, Vec<usize>)> = Vec::new();
    let mut residual: Vec<(usize, Vec<usize>)> = Vec::new();
    let mut i: usize = 0;
    while i < n
        invariant
            i <= n,
            n == poms@.len(),
            sel_view(join_sel@) == join_pom_selection(poms@.take(i as int)),
            sel_view(primary@) == nonjoin_primary_selection(poms@.take(i as int)),
            sel_view(residual@) == nonjoin_residual_selection(poms@.take(i as int)),
        decreases n - i,
    {
        proof {
            assert(poms@.take(i + 1).drop_last() =~= poms@.take(i as int));
            assert(poms@.take(i + 1).last() == poms@[i as int]);
        }
        let pom = &poms[i];
        let ghost js_before = join_sel@;
        let ghost pr_before = primary@;
        let ghost rs_before = residual@;
        if pom.contains_ptm() {
            let ptm_idxs = om_idxs_vec(&pom.object_maps, true);
            let plain_idxs = om_idxs_vec(&pom.object_maps, false);
            let ghost plain_view = plain_idxs@.map_values(|x: usize| x as int);
            join_sel.push((i, ptm_idxs));
            proof {
                assert(sel_view(join_sel@) =~= sel_view(js_before).push(
                    (i as int, om_idxs_with_parent(poms@[i as int].object_maps@, true)),
                ));
            }
            if plain_idxs.len() > 0 {
                residual.push((i, plain_idxs));
                proof {
                    assert(plain_view.len() > 0);
                    assert(sel_view(residual@) =~= sel_view(rs_before).push(
                        (i as int, om_idxs_with_parent(poms@[i as int].object_maps@, false)),
                    ));
                }
            } else {
                proof {
                    assert(plain_view.len() == 0);
                }
            }
        } else {
            let all = all_idxs_vec(pom.object_maps.len());
            primary.push((i, all));
            proof {
                assert(sel_view(primary@) =~= sel_view(pr_before).push(
                    (i as int, all_idxs(poms@[i as int].object_maps@.len())),
                ));
            }
        }
        i = i + 1;
    }
    proof {
        assert(poms@.take(n as int) =~= poms@);
    }
    let mut nonjoin = primary;
    let ghost pr_final = nonjoin@;
    let mut residual = residual;
    nonjoin.append(&mut residual);
    proof {
        assert(sel_view(nonjoin@) =~= sel_view(pr_final) + sel_view(
            nonjoin@.skip(pr_final.len() as int),
        ));
    }
    (join_sel, nonjoin)
}

/// The sequence index of the triples map with the given identifier, the last
/// one when several share it; `-1` when there is none.
pub open spec fn tm_index_of(tms: Seq<TriplesMap>, id: Seq<char>) -> int
    decreases tms.len(),
{
    if tms.len() == 0 {
        -1
    } else if tms.last().identifier@ == id {
        tms.len() - 1
    } else {
        tm_index_of(tms.drop_last(), id)
    }
}

/// Lookup among the first `n` triples maps, later ones taking precedence.
fn find_tm_prefix(tms: &Vec<TriplesMap>, n: usize, id: &String) -> (r: Option<usize>)
    requires
        n <= tms@.len(),
    ensures
        match r {
            Some(i) => i < n && tm_index_of(tms@.take(n as int), id@) == i,
            None => tm_index_of(tms@.take(n as int), id@) == -1,
        },
    decreases n,
{
    if n == 0 {
        proof {
            assert(tms@.take(0) =~= Seq::<TriplesMap>::empty());
        }
        None
    } else {
        proof {
            assert(tms@.take(n as int).drop_last() =~= tms@.take(n as int - 1));
            assert(tms@.take(n as int).last() == tms@[n as int - 1]);
        }
        if tms[n - 1].identifier == *id {
            Some(n - 1)
        } else {
            find_tm_prefix(tms, n - 1, id)
        }
    }
}

/// The sequence index of the triples map with identifier `id`, if any.
fn find_tm_index(tms: &Vec<TriplesMap>, id: &String) -> (r: Option<usize>)
    ensures
        match r {
            Some(i) => i < tms@.len() && tm_index_of(tms@, id@) == i,
            None => tm_index_of(tms@, id@) == -1,
        },
{
    proof {
        assert(tms@.take(tms@.len() as int) =~= tms@);
    }
    find_tm_prefix(tms, tms.len(), id)
}

// ------------------------------------------------------------------
// Source, projection and sink operators
// ------------------------------------------------------------------

/// The source operator a logical source denotes.
pub open spec fn source_op_of(ls: crate::model::LogicalSource) -> OperatorV {
    OperatorV::SourceOp {
        config: ls.config@,
        source_type: ls.source_type,
        reference_iterators: strs_view(ls.reference_iterators@),
        data_format: ls.data_format,
    }
}

/// The source operator of a triples map's logical source.
pub fn translate_source_op(tm: &TriplesMap) -> (r: Source)
    ensures
        (Operator::SourceOp { config: r })@ == source_op_of(tm.logical_source),
{
    Source {
        config: tm.logical_source.config.duplicate(),
        source_type: tm.logical_source.source_type,
        reference_iterators: crate::attrset::clone_strings(&tm.logical_source.reference_iterators),
        data_format: tm.logical_source.data_format,
    }
}

/// The sink operator for the unit with sequence index `count`: a file target
/// `<count>_output.nt` in N-Triples format.
pub open spec fn target_op_of(count: nat) -> OperatorV {
    OperatorV::TargetOp {
        configuration: Map::<Seq<char>, Seq<char>>::empty().insert(
            ("path")@,
            crate::names::sink_path(count),
        ),
        target_type: IOType::File,
        data_format: DataFormat::NT,
    }
}

fn file_target(count: usize) -> (r: Target)
    ensures
        (Operator::TargetOp { config: r })@ == target_op_of(count as nat),
{
    let mut config = crate::strmap::StrMap::new();
    config.insert(<String as vstd::string::StringExecFns>::from_str("path"), crate::names::sink_path_string(count));
    Target { configuration: config, target_type: IOType::File, data_format: DataFormat::NT }
}

// ------------------------------------------------------------------
// Projection inference
// ------------------------------------------------------------------

/// The attributes an object map contributes to its unit's projection: the
/// join condition's child attributes for a parent-referencing object map
/// (its value comes from the parent after the join, not from this unit's own
/// fields), its own term-map attributes otherwise.
pub open spec fn om_proj_attrs(om: ObjectMap) -> Set<Seq<char>> {
    match om.join_condition {
        Some(jc) => strs_view(jc.child_attributes@).to_set(),
        None => tm_info_attrs(om.tm_info),
    }
}

pub open spec fn pms_attrs(pms: Seq<PredicateMap>) -> Set<Seq<char>>
    decreases pms.len(),
{
    if pms.len() == 0 {
        Set::empty()
    } else {
        pms_attrs(pms.drop_last()).union(tm_info_attrs(pms.last().tm_info))
    }
}

pub open spec fn oms_attrs(oms: Seq<ObjectMap>) -> Set<Seq<char>>
    decreases oms.len(),
{
    if oms.len() == 0 {
        Set::empty()
    } else {
        oms_attrs(oms.drop_last()).union(om_proj_attrs(oms.last()))
    }
}

pub open spec fn poms_attrs(poms: Seq<PredicateObjectMap>) -> Set<Seq<char>>
    decreases poms.len(),
{
    if poms.len() == 0 {
        Set::empty()
    } else {
        poms_attrs(poms.drop_last()).union(oms_attrs(poms.last().object_maps@)).union(
            pms_attrs(poms.last().predicate_maps@),
        )
    }
}

/// The attributes of an optional graph map.
pub open spec fn gm_proj_attrs(gm: Option<crate::model::GraphMap>) -> Set<Seq<char>> {
    match gm {
        Some(g) => tm_info_attrs(g.tm_info),
        None => Set::empty(),
    }
}

/// The minimal set of source attributes a unit needs downstream: subject-map
/// attributes, graph-map attributes if present, and per predicate-object map
/// the predicate and object contributions.
pub open spec fn projection_attrs(tm: TriplesMap) -> Set<Seq<char>> {
    tm_info_attrs(tm.subject_map.tm_info).union(gm_proj_attrs(tm.graph_map)).union(
        poms_attrs(tm.po_maps@),
    )
}

/// The projection operator of one triples map.
pub fn translate_projection_op(tm: &TriplesMap) -> (r: Operator)
    ensures
        r@ == (OperatorV::ProjectOp { attributes: projection_attrs(*tm) }),
{
    let mut attrs = tm.subject_map.tm_info.get_attributes();
    match &tm.graph_map {
        Some(gm) => {
            let gm_attrs = gm.tm_info.get_attributes();
            attrs.add_all(&gm_attrs);
        },
        None => {
            proof {
                assert(attrs@ =~= tm_info_attrs(tm.subject_map.tm_info).union(
                    Set::<Seq<char>>::empty(),
                ));
            }
        },
    }
    let ghost base = tm_info_attrs(tm.subject_map.tm_info).union(gm_proj_attrs(tm.graph_map));
    let n = tm.po_maps.len();
    let mut i: usize = 0;
    proof {
        assert(attrs@ =~= base.union(poms_attrs(tm.po_maps@.take(0))));
    }
    while i < n
        invariant
            i <= n,
            n == tm.po_maps@.len(),
            attrs@ == base.union(poms_attrs(tm.po_maps@.take(i as int))),
        decreases n - i,
    {
        let pom = &tm.po_maps[i];
        let ghost mid = attrs@;
        let o_cnt = pom.object_maps.len();
        let mut j: usize = 0;
        while j < o_cnt
            invariant
                j <= o_cnt,
                o_cnt == pom.object_maps@.len(),
                attrs@ == mid.union(oms_attrs(pom.object_maps@.take(j as int))),
            decreases o_cnt - j,
        {
            proof {
                assert(pom.object_maps@.take(j + 1).drop_last() =~= pom.object_maps@.take(
                    j as int,
                ));
                assert(pom.object_maps@.take(j + 1).last() == pom.object_maps@[j as int]);
            }
            let om = &pom.object_maps[j];
            match &om.join_condition {
                Some(jc) => {
                    attrs.add_all_vec(&jc.child_attributes);
                },
                None => {
                    let om_attrs = om.tm_info.get_attributes();
                    attrs.add_all(&om_attrs);
                },
            }
            proof {
                assert(attrs@ =~= mid.union(oms_attrs(pom.object_maps@.take(j + 1))));
            }
            j = j + 1;
        }
        proof {
            assert(pom.object_maps@.take(o_cnt as int) =~= pom.object_maps@);
        }
        let ghost mid2 = attrs@;
        let p_cnt = pom.predicate_maps.len();
        let mut t: usize = 0;
        while t < p_cnt
            invariant
                t <= p_cnt,
                p_cnt == pom.predicate_maps@.len(),
                attrs@ == mid2.union(pms_attrs(pom.predicate_maps@.take(t as int))),
            decreases p_cnt - t,
        {
            proof {
                assert(pom.predicate_maps@.take(t + 1).drop_last() =~= pom.predicate_maps@.take(
                    t as int,
                ));
                assert(pom.predicate_maps@.take(t + 1).last() == pom.predicate_maps@[t as int]);
            }
            let pm_attrs = pom.predicate_maps[t].tm_info.get_attributes();
            attrs.add_all(&pm_attrs);
            proof {
                assert(attrs@ =~= mid2.union(pms_attrs(pom.predicate_maps@.take(t + 1))));
            }
            t = t + 1;
        }
        proof {
            assert(pom.predicate_maps@.take(p_cnt as int) =~= pom.predicate_maps@);
            assert(tm.po_maps@.take(i + 1).drop_last() =~= tm.po_maps@.take(i as int));
            assert(tm.po_maps@.take(i + 1).last() == tm.po_maps@[i as int]);
            assert(attrs@ =~= base.union(poms_attrs(tm.po_maps@.take(i + 1))));
        }
        i = i + 1;
    }
    proof {
        assert(tm.po_maps@.take(n as int) =~= tm.po_maps@);
        assert(attrs@ =~= projection_attrs(*tm));
    }
    Operator::ProjectOp { config: crate::operators::Projection { projection_attributes: attrs } }
}

// ------------------------------------------------------------------
// Extend pairs
// ------------------------------------------------------------------

/// The extend entries of a predicate-object map's predicate maps:
/// `<prefix>_p<pom>-<j>` bound to the j-th predicate's function tree.
pub open spec fn pm_entries(prefix: Seq<char>, pom_idx: int, pms: Seq<PredicateMap>) -> Seq<
    (Seq<char>, FunctionV),
> {
    Seq::new(
        pms.len(),
        |j: int| (pm_attr(prefix, pom_idx as nat, j as nat), term_func(pms[j].tm_info)),
    )
}

/// The extend entries of the selected object maps: `<prefix>_o<pom>-<t>`
/// (numbered by position in the selection) bound to the object's function
/// tree.
pub open spec fn om_entries(
    prefix: Seq<char>,
    pom_idx: int,
    oms: Seq<ObjectMap>,
    omsel: Seq<int>,
) -> Seq<(Seq<char>, FunctionV)> {
    Seq::new(
        omsel.len(),
        |t: int| (om_attr(prefix, pom_idx as nat, t as nat), term_func(oms[omsel[t]].tm_info)),
    )
}

/// The extend entries of a whole work list, in emission order: per entry the
/// predicate entries then the object entries.
pub open spec fn selection_entries(
    prefix: Seq<char>,
    poms: Seq<PredicateObjectMap>,
    sel: Seq<(int, Seq<int>)>,
) -> Seq<(Seq<char>, FunctionV)>
    decreases sel.len(),
{
    if sel.len() == 0 {
        seq![]
    } else {
        selection_entries(prefix, poms, sel.drop_last()) + pm_entries(
            prefix,
            sel.last().0,
            poms[sel.last().0].predicate_maps@,
        ) + om_entries(
            prefix,
            sel.last().0,
            poms[sel.last().0].object_maps@,
            sel.last().1,
        )
    }
}

/// All extend entries of one branch: the work list's entries followed by the
/// subject entry `<prefix>_sm`.
pub open spec fn extend_entries(
    prefix: Seq<char>,
    sm: SubjectMap,
    poms: Seq<PredicateObjectMap>,
    sel: Seq<(int, Seq<int>)>,
) -> Seq<(Seq<char>, FunctionV)> {
    selection_entries(prefix, poms, sel).push((sm_attr(prefix), term_func(sm.tm_info)))
}

/// Some selected object map has a parent reference without a join condition
/// or a join condition without a parent reference.
pub open spec fn sel_has_malformed(poms: Seq<PredicateObjectMap>, sel: Seq<(int, Seq<int>)>)
    -> bool {
    exists|e: int, t: int|
        0 <= e < sel.len() && 0 <= t < sel[e].1.len() && !om_wf(
            poms[sel[e].0].object_maps@[sel[e].1[t]],
        )
}

/// The subject map or some selected predicate or object map declares a term
/// kind the translator cannot emit.
pub open spec fn sel_has_bad_kind(
    sm: SubjectMap,
    poms: Seq<PredicateObjectMap>,
    sel: Seq<(int, Seq<int>)>,
) -> bool {
    ||| !valid_term_kind(sm.tm_info)
    ||| exists|e: int, j: int|
        0 <= e < sel.len() && 0 <= j < poms[sel[e].0].predicate_maps@.len() && !valid_term_kind(
            poms[sel[e].0].predicate_maps@[j].tm_info,
        )
    ||| exists|e: int, t: int|
        0 <= e < sel.len() && 0 <= t < sel[e].1.len() && !valid_term_kind(
            poms[sel[e].0].object_maps@[sel[e].1[t]].tm_info,
        )
}

/// The subject extend pair `<prefix>_sm` of one branch.
pub fn sm_extract_extend_pair(prefix: &str, sm: &SubjectMap) -> (r: Result<
    (String, Function),
    PlanError,
>)
    ensures
        match r {
            Ok(p) => valid_term_kind(sm.tm_info) && p.0@ == sm_attr(prefix@) && p.1@
                == term_func(sm.tm_info),
            Err(e) => !valid_term_kind(sm.tm_info) && e == PlanError::UnrecognizedTermKind,
        },
{
    let f = match extract_extend_function_from_term_map(&sm.tm_info) {
        Ok(f) => f,
        Err(e) => {
            return Err(e);
        },
    };
    Ok((crate::names::sm_attr_string(prefix), f))
}

/// The extend pairs of one branch: one entry per predicate map
/// (`<prefix>_p<pom>-<j>`), one per selected object map
/// (`<prefix>_o<pom>-<t>`), then one for the subject map (`<prefix>_sm`).
/// Fails with `MalformedJoin` when a selected object map pairs a parent
/// reference and a join condition inconsistently, and with
/// `UnrecognizedTermKind` when a term map's kind cannot be emitted.
pub fn translate_extend_pairs(
    prefix: &str,
    sm: &SubjectMap,
    poms: &Vec<PredicateObjectMap>,
    sel: &Vec<(usize, Vec<usize>)>,
) -> (r: Result<crate::operators::ExtendPairs, PlanError>)
    requires
        sel_in_bounds(sel_view(sel@), poms@),
    ensures
        match r {
            Ok(ep) => {
                &&& !sel_has_malformed(poms@, sel_view(sel@))
                &&& !sel_has_bad_kind(*sm, poms@, sel_view(sel@))
                &&& ep.seq_view() == extend_entries(prefix@, *sm, poms@, sel_view(sel@))
            },
            Err(e) => {
                ||| (e == PlanError::MalformedJoin && sel_has_malformed(poms@, sel_view(sel@)))
                ||| (e == PlanError::UnrecognizedTermKind && sel_has_bad_kind(
                    *sm,
                    poms@,
                    sel_view(sel@),
                ))
            },
        },
{
    let mut ep = crate::operators::ExtendPairs::new();
    let n = sel.len();
    let mut e: usize = 0;
    proof {
        assert(ep.seq_view() =~= selection_entries(prefix@, poms@, sel_view(sel@).take(0)));
    }
    while e < n
        invariant
            e <= n,
            n == sel@.len(),
            sel_in_bounds(sel_view(sel@), poms@),
            ep.seq_view() == selection_entries(prefix@, poms@, sel_view(sel@).take(e as int)),
            forall|e2: int, t: int|
                0 <= e2 < e && 0 <= t < sel_view(sel@)[e2].1.len() ==> om_wf(
                    #[trigger] poms@[sel_view(sel@)[e2].0].object_maps@[sel_view(sel@)[e2].1[t]],
                ) && valid_term_kind(
                    poms@[sel_view(sel@)[e2].0].object_maps@[sel_view(sel@)[e2].1[t]].tm_info,
                ),
            forall|e2: int, j: int|
                0 <= e2 < e && 0 <= j < poms@[sel_view(sel@)[e2].0].predicate_maps@.len()
                    ==> valid_term_kind(
                    #[trigger] poms@[sel_view(sel@)[e2].0].predicate_maps@[j].tm_info,
                ),
        decreases n - e,
    {
        let pom_idx = sel[e].0;
        proof {
            assert(sel_view(sel@)[e as int] == (
                pom_idx as int,
                sel@[e as int].1@.map_values(|i: usize| i as int),
            ));
            assert(0 <= sel_view(sel@)[e as int].0 < poms@.len());
        }
        let pom = &poms[pom_idx];
        let ghost base = ep.seq_view();
        let p_cnt = pom.predicate_maps.len();
        let mut j: usize = 0;
        proof {
            assert(base + pm_entries(prefix@, pom_idx as int, pom.predicate_maps@).take(0)
                =~= base);
        }
        while j < p_cnt
            invariant
                j <= p_cnt,
                e < n,
                n == sel@.len(),
                p_cnt == pom.predicate_maps@.len(),
                pom_idx == sel@[e as int].0,
                pom_idx < poms@.len(),
                *pom == poms@[pom_idx as int],
                ep.seq_view() == base + pm_entries(
                    prefix@,
                    pom_idx as int,
                    pom.predicate_maps@,
                ).take(j as int),
                forall|j2: int|
                    0 <= j2 < j ==> valid_term_kind(
                        #[trigger] pom.predicate_maps@[j2].tm_info,
                    ),
            decreases p_cnt - j,
        {
            let f = match extract_extend_function_from_term_map(&pom.predicate_maps[j].tm_info) {
                Ok(f) => f,
                Err(err) => {
                    proof {
                        assert(!valid_term_kind(
                            poms@[sel_view(sel@)[e as int].0].predicate_maps@[j as int].tm_info,
                        ));
                        assert(sel_has_bad_kind(*sm, poms@, sel_view(sel@)));
                    }
                    return Err(err);
                },
            };
            let name = crate::names::pm_attr_string(prefix, pom_idx, j);
            ep.insert(name, f);
            proof {
                assert(ep.seq_view() =~= base + pm_entries(
                    prefix@,
                    pom_idx as int,
                    pom.predicate_maps@,
                ).take(j + 1));
            }
            j = j + 1;
        }
        proof {
            assert(pm_entries(prefix@, pom_idx as int, pom.predicate_maps@).take(p_cnt as int)
                =~= pm_entries(prefix@, pom_idx as int, pom.predicate_maps@));
        }
        let ghost base2 = ep.seq_view();
        let om_idx_cnt = sel[e].1.len();
        let mut t: usize = 0;
        proof {
            assert(base2 + om_entries(
                prefix@,
                pom_idx as int,
                pom.object_maps@,
                sel_view(sel@)[e as int].1,
            ).take(0) =~= base2);
        }
        while t < om_idx_cnt
            invariant
                t <= om_idx_cnt,
                e < n,
                n == sel@.len(),
                om_idx_cnt == sel@[e as int].1@.len(),
                pom_idx == sel@[e as int].0,
                pom_idx < poms@.len(),
                *pom == poms@[pom_idx as int],
                sel_in_bounds(sel_view(sel@), poms@),
                ep.seq_view() == base2 + om_entries(
                    prefix@,
                    pom_idx as int,
                    pom.object_maps@,
                    sel_view(sel@)[e as int].1,
                ).take(t as int),
                forall|t2: int|
                    0 <= t2 < t ==> om_wf(
                        #[trigger] pom.object_maps@[sel_view(sel@)[e as int].1[t2]],
                    ) && valid_term_kind(
                        pom.object_maps@[sel_view(sel@)[e as int].1[t2]].tm_info,
                    ),
            decreases om_idx_cnt - t,
        {
            proof {
                assert(sel_view(sel@)[e as int].1[t as int] == sel@[e as int].1@[t as int] as int);
                assert(0 <= sel_view(sel@)[e as int].1[t as int] < poms@[sel_view(
                    sel@,
                )[e as int].0].object_maps@.len());
            }
            let om_i = sel[e].1[t];
            let om = &pom.object_maps[om_i];
            if om.parent_tm.is_some() != om.join_condition.is_some() {
                proof {
                    assert(!om_wf(poms@[sel_view(sel@)[e as int].0].object_maps@[sel_view(
                        sel@,
                    )[e as int].1[t as int]]));
                    assert(sel_has_malformed(poms@, sel_view(sel@)));
                }
                return Err(PlanError::MalformedJoin);
            }
            let f = match extract_extend_function_from_term_map(&om.tm_info) {
                Ok(f) => f,
                Err(err) => {
                    proof {
                        assert(!valid_term_kind(
                            poms@[sel_view(sel@)[e as int].0].object_maps@[sel_view(
                                sel@,
                            )[e as int].1[t as int]].tm_info,
                        ));
                        assert(sel_has_bad_kind(*sm, poms@, sel_view(sel@)));
                    }
                    return Err(err);
                },
            };
            let name = crate::names::om_attr_string(prefix, pom_idx, t);
            ep.insert(name, f);
            proof {
                assert(ep.seq_view() =~= base2 + om_entries(
                    prefix@,
                    pom_idx as int,
                    pom.object_maps@,
                    sel_view(sel@)[e as int].1,
                ).take(t + 1));
            }
            t = t + 1;
        }
        proof {
            assert(om_entries(
                prefix@,
                pom_idx as int,
                pom.object_maps@,
                sel_view(sel@)[e as int].1,
            ).take(om_idx_cnt as int) =~= om_entries(
                prefix@,
                pom_idx as int,
                pom.object_maps@,
                sel_view(sel@)[e as int].1,
            ));
            assert(sel_view(sel@).take(e + 1).drop_last() =~= sel_view(sel@).take(e as int));
            assert(sel_view(sel@).take(e + 1).last() == sel_view(sel@)[e as int]);
            assert(ep.seq_view() =~= selection_entries(
                prefix@,
                poms@,
                sel_view(sel@).take(e + 1),
            ));
        }
        e = e + 1;
    }
    proof {
        assert(sel_view(sel@).take(n as int) =~= sel_view(sel@));
    }
    let sub_pair = match sm_extract_extend_pair(prefix, sm) {
        Ok(p) => p,
        Err(err) => {
            return Err(err);
        },
    };
    ep.insert(sub_pair.0, sub_pair.1);
    proof {
        assert(ep.seq_view() =~= extend_entries(prefix@, *sm, poms@, sel_view(sel@)));
    }
    Ok(ep)
}

// ------------------------------------------------------------------
// Serializer templates
// ------------------------------------------------------------------

/// One emission pattern line: `" ?<subject> ?<predicate> ?<object>.\n"`,
/// referencing the extend-stage attribute names.
pub open spec fn pair_line(prefix: Seq<char>, pom_idx: int, p: int, o: int) -> Seq<char> {
    (" ?")@ + sm_attr(prefix) + (" ?")@ + pm_attr(prefix, pom_idx as nat, p as nat) + (" ?")@
        + om_attr(prefix, pom_idx as nat, o as nat) + (".")@ + ("\n")@
}

/// The pattern lines of one predicate against the first `o_cnt` objects.
pub open spec fn lines_for_pred(prefix: Seq<char>, pom_idx: int, p: int, o_cnt: nat) -> Seq<
    char,
>
    decreases o_cnt,
{
    if o_cnt == 0 {
        seq![]
    } else {
        lines_for_pred(prefix, pom_idx, p, (o_cnt - 1) as nat) + pair_line(
            prefix,
            pom_idx,
            p,
            o_cnt - 1,
        )
    }
}

/// The pattern lines of one predicate-object map: the Cartesian product of
/// its first `p_cnt` predicates and `o_cnt` objects.
pub open spec fn lines_for_pom(prefix: Seq<char>, pom_idx: int, p_cnt: nat, o_cnt: nat) -> Seq<
    char,
>
    decreases p_cnt,
{
    if p_cnt == 0 {
        seq![]
    } else {
        lines_for_pom(prefix, pom_idx, (p_cnt - 1) as nat, o_cnt) + lines_for_pred(
            prefix,
            pom_idx,
            p_cnt - 1,
            o_cnt,
        )
    }
}

/// The serializer template of a whole work list.
pub open spec fn template_for_selection(
    prefix: Seq<char>,
    poms: Seq<PredicateObjectMap>,
    sel: Seq<(int, Seq<int>)>,
) -> Seq<char>
    decreases sel.len(),
{
    if sel.len() == 0 {
        seq![]
    } else {
        template_for_selection(prefix, poms, sel.drop_last()) + lines_for_pom(
            prefix,
            sel.last().0,
            poms[sel.last().0].predicate_maps@.len(),
            sel.last().1.len(),
        )
    }
}

/// Builds the serializer template of one branch: for every work-list entry,
/// one pattern line per predicate/object pair, each referencing the extend
/// attribute names synthesized for that entry.
pub fn extract_serializer_template(
    poms: &Vec<PredicateObjectMap>,
    sel: &Vec<(usize, Vec<usize>)>,
    prefix: &str,
) -> (r: String)
    requires
        sel_in_bounds(sel_view(sel@), poms@),
    ensures
        r@ == template_for_selection(prefix@, poms@, sel_view(sel@)),
{
    let subject = crate::names::sm_attr_string(prefix);
    let mut template = String::new();
    let n = sel.len();
    let mut e: usize = 0;
    proof {
        assert(template@ =~= template_for_selection(prefix@, poms@, sel_view(sel@).take(0)));
    }
    while e < n
        invariant
            e <= n,
            n == sel@.len(),
            subject@ == sm_attr(prefix@),
            sel_in_bounds(sel_view(sel@), poms@),
            template@ == template_for_selection(prefix@, poms@, sel_view(sel@).take(e as int)),
        decreases n - e,
    {
        let pom_idx = sel[e].0;
        proof {
            assert(sel_view(sel@)[e as int] == (
                pom_idx as int,
                sel@[e as int].1@.map_values(|i: usize| i as int),
            ));
            assert(0 <= sel_view(sel@)[e as int].0 < poms@.len());
        }
        let pom = &poms[pom_idx];
        let p_cnt = pom.predicate_maps.len();
        let o_cnt = sel[e].1.len();
        let ghost base = template@;
        let mut p: usize = 0;
        proof {
            assert(base + lines_for_pom(prefix@, pom_idx as int, 0, o_cnt as nat) =~= base);
        }
        while p < p_cnt
            invariant
                p <= p_cnt,
                e < n,
                n == sel@.len(),
                subject@ == sm_attr(prefix@),
                p_cnt == poms@[pom_idx as int].predicate_maps@.len(),
                o_cnt == sel@[e as int].1@.len(),
                pom_idx == sel@[e as int].0,
                pom_idx < poms@.len(),
                template@ == base + lines_for_pom(
                    prefix@,
                    pom_idx as int,
                    p as nat,
                    o_cnt as nat,
                ),
            decreases p_cnt - p,
        {
            let ghost base2 = template@;
            let mut o: usize = 0;
            proof {
                assert(base2 + lines_for_pred(prefix@, pom_idx as int, p as int, 0) =~= base2);
            }
            while o < o_cnt
                invariant
                    o <= o_cnt,
                    subject@ == sm_attr(prefix@),
                    pom_idx < poms@.len(),
                    template@ == base2 + lines_for_pred(
                        prefix@,
                        pom_idx as int,
                        p as int,
                        o as nat,
                    ),
                decreases o_cnt - o,
            {
                let ghost line_base = template@;
                let pm_name = crate::names::pm_attr_string(prefix, pom_idx, p);
                let om_name = crate::names::om_attr_string(prefix, pom_idx, o);
                template.append(" ?");
                template.append(subject.as_str());
                template.append(" ?");
                template.append(pm_name.as_str());
                template.append(" ?");
                template.append(om_name.as_str());
                template.append(".");
                template.append("\n");
                proof {
                    assert(template@ =~= line_base + pair_line(
                        prefix@,
                        pom_idx as int,
                        p as int,
                        o as int,
                    ));
                    assert(template@ =~= base2 + lines_for_pred(
                        prefix@,
                        pom_idx as int,
                        p as int,
                        (o + 1) as nat,
                    ));
                }
                o = o + 1;
            }
            proof {
                assert(template@ =~= base + lines_for_pom(
                    prefix@,
                    pom_idx as int,
                    (p + 1) as nat,
                    o_cnt as nat,
                ));
            }
            p = p + 1;
        }
        proof {
            assert(sel_view(sel@).take(e + 1).drop_last() =~= sel_view(sel@).take(e as int));
            assert(sel_view(sel@).take(e + 1).last() == sel_view(sel@)[e as int]);
            assert(template@ =~= template_for_selection(
                prefix@,
                poms@,
                sel_view(sel@).take(e + 1),
            ));
        }
        e = e + 1;
    }
    proof {
        assert(sel_view(sel@).take(n as int) =~= sel_view(sel@));
    }
    template
}

/// The serializer operator of one branch: its template in N-Triples format.
pub fn translate_serializer_op(
    poms: &Vec<PredicateObjectMap>,
    sel: &Vec<(usize, Vec<usize>)>,
    prefix: &str,
) -> (r: crate::operators::Serializer)
    requires
        sel_in_bounds(sel_view(sel@), poms@),
    ensures
        r.template@ == template_for_selection(prefix@, poms@, sel_view(sel@)),
        r.options is None,
        r.format == DataFormat::NT,
{
    let template = extract_serializer_template(poms, sel, prefix);
    crate::operators::Serializer { template, options: None, format: DataFormat::NT }
}

// ------------------------------------------------------------------
// The translated graph, as a mathematical fold over the document
// ------------------------------------------------------------------

/// The string a parent reference holds, if any.
pub open spec fn opt_str_view(o: Option<String>) -> Seq<char> {
    match o {
        Some(s) => s@,
        None => Seq::empty(),
    }
}

pub open spec fn source_node(c: nat, ls: crate::model::LogicalSource) -> PlanNodeV {
    PlanNodeV { id: crate::names::node_id(("Source")@, c), operator: source_op_of(ls) }
}

pub open spec fn projection_node(c: nat, tm: TriplesMap) -> PlanNodeV {
    PlanNodeV {
        id: crate::names::node_id(("Projection")@, c),
        operator: OperatorV::ProjectOp { attributes: projection_attrs(tm) },
    }
}

/// After the first pass the graph holds, per triples map in document order, a
/// source node and a projection node joined by one edge, and nothing else.
pub open spec fn pass1_graph(doc: Seq<TriplesMap>) -> PlanGraphV {
    PlanGraphV {
        nodes: Seq::new(
            2 * doc.len(),
            |i: int|
                if i % 2 == 0 {
                    source_node(i as nat, doc[i / 2].logical_source)
                } else {
                    projection_node(i as nat, doc[i / 2])
                },
        ),
        edges: Seq::new(doc.len(), |k: int| mapping_edge(2 * k, 2 * k + 1)),
        sources: Seq::new(doc.len(), |k: int| 2 * k),
    }
}

pub open spec fn extend_node(c: nat, idprefix: Seq<char>, pairs: Map<Seq<char>, FunctionV>)
    -> PlanNodeV {
    PlanNodeV {
        id: crate::names::node_id(idprefix, c),
        operator: OperatorV::ExtendOp { pairs },
    }
}

pub open spec fn serializer_node(c: nat, template: Seq<char>) -> PlanNodeV {
    PlanNodeV {
        id: crate::names::node_id(("Serialize")@, c),
        operator: OperatorV::SerializerOp {
            template,
            options: None,
            format: DataFormat::NT,
        },
    }
}

pub open spec fn sink_node(c: nat, count: nat) -> PlanNodeV {
    PlanNodeV { id: crate::names::node_id(("Sink")@, c), operator: target_op_of(count) }
}

/// One `Extend -> Serialize -> Sink` chain grown from `frontier`.
pub open spec fn append_chain(
    g: PlanGraphV,
    frontier: int,
    idprefix: Seq<char>,
    pairs: Map<Seq<char>, FunctionV>,
    template: Seq<char>,
    count: nat,
) -> PlanGraphV {
    let c = g.nodes.len() as int;
    PlanGraphV {
        nodes: g.nodes + seq![
            extend_node(c as nat, idprefix, pairs),
            serializer_node((c + 1) as nat, template),
            sink_node((c + 2) as nat, count),
        ],
        edges: g.edges + seq![
            mapping_edge(frontier, c),
            mapping_edge(c, c + 1),
            serialized_edge(c + 1, c + 2),
        ],
        sources: g.sources,
    }
}

/// The non-join branch of the unit with sequence index `k`: one chain from
/// its projection node, over its whole non-join work list.
pub open spec fn nonjoin_branch(g: PlanGraphV, tm: TriplesMap, k: nat) -> PlanGraphV {
    append_chain(
        g,
        2 * (k as int) + 1,
        ("ExtendOp")@,
        entries_map(
            extend_entries(
                crate::names::tm_prefix(k),
                tm.subject_map,
                tm.po_maps@,
                nonjoin_pom_selection(tm.po_maps@),
            ),
        ),
        template_for_selection(
            crate::names::tm_prefix(k),
            tm.po_maps@,
            nonjoin_pom_selection(tm.po_maps@),
        ),
        k,
    )
}

/// The join fragment of one parent-referencing object map (the `om_pos`-th of
/// its predicate-object map's join work): a join node fed by the unit's own
/// projection and the parent's projection, then a chain whose extend pairs
/// additionally bind the alias-prefixed parent subject function to
/// `<prefix>_o<pom>-<om_pos>`.
pub open spec fn join_branch_om(
    g: PlanGraphV,
    doc: Seq<TriplesMap>,
    k: nat,
    pom_idx: int,
    om_pos: int,
) -> PlanGraphV {
    let tm = doc[k as int];
    let prefix = crate::names::tm_prefix(k);
    let pom = tm.po_maps@[pom_idx];
    let omsel = om_idxs_with_parent(pom.object_maps@, true);
    let om = pom.object_maps@[omsel[om_pos]];
    let pidx = tm_index_of(doc, opt_str_view(om.parent_tm));
    let alias = crate::names::join_alias(pidx as nat);
    let c = g.nodes.len() as int;
    let g1 = PlanGraphV {
        nodes: g.nodes.push(
            PlanNodeV {
                id: crate::names::node_id(("Join")@, c as nat),
                operator: OperatorV::JoinOp {
                    alias,
                    child_attributes: strs_view(
                        join_condition_of(om).child_attributes@,
                    ),
                    parent_attributes: strs_view(
                        join_condition_of(om).parent_attributes@,
                    ),
                },
            },
        ),
        edges: g.edges.push(mapping_edge(2 * (k as int) + 1, c)).push(
            mapping_edge(2 * pidx + 1, c),
        ),
        sources: g.sources,
    };
    let singleton = seq![(pom_idx, seq![omsel[om_pos]])];
    append_chain(
        g1,
        c,
        ("Extend")@,
        entries_map(
            extend_entries(prefix, tm.subject_map, tm.po_maps@, singleton).push(
                (
                    om_attr(prefix, pom_idx as nat, om_pos as nat),
                    prefixed_term_func(doc[pidx].subject_map.tm_info, alias),
                ),
            ),
        ),
        template_for_selection(prefix, tm.po_maps@, singleton),
        k,
    )
}

/// The join condition an object map carries.
pub open spec fn join_condition_of(om: ObjectMap) -> crate::model::JoinCondition {
    match om.join_condition {
        Some(jc) => jc,
        None => arbitrary(),
    }
}

/// The join fragments of the first `t` object maps of one join work entry.
pub open spec fn join_branch_oms_upto(
    g: PlanGraphV,
    doc: Seq<TriplesMap>,
    k: nat,
    pom_idx: int,
    t: nat,
) -> PlanGraphV
    decreases t,
{
    if t == 0 {
        g
    } else {
        join_branch_om(
            join_branch_oms_upto(g, doc, k, pom_idx, (t - 1) as nat),
            doc,
            k,
            pom_idx,
            t - 1,
        )
    }
}

/// The join fragments of the first `e` join work entries of unit `k`.
pub open spec fn join_branches_upto(g: PlanGraphV, doc: Seq<TriplesMap>, k: nat, e: nat)
    -> PlanGraphV
    decreases e,
{
    if e == 0 {
        g
    } else {
        let sel = join_pom_selection(doc[k as int].po_maps@);
        join_branch_oms_upto(
            join_branches_upto(g, doc, k, (e - 1) as nat),
            doc,
            k,
            sel[e - 1].0,
            sel[e - 1].1.len(),
        )
    }
}

/// All second-pass fragments of unit `k`: the non-join branch when it has
/// non-join work, then one join fragment per parent-referencing object map.
pub open spec fn tm_branches(g: PlanGraphV, doc: Seq<TriplesMap>, k: nat) -> PlanGraphV {
    let tm = doc[k as int];
    let g1 = if nonjoin_pom_selection(tm.po_maps@).len() > 0 {
        nonjoin_branch(g, tm, k)
    } else {
        g
    };
    join_branches_upto(g1, doc, k, join_pom_selection(tm.po_maps@).len())
}

/// The graph after the second-pass work of the first `k` units.
pub open spec fn pass2_upto(g: PlanGraphV, doc: Seq<TriplesMap>, k: nat) -> PlanGraphV
    decreases k,
{
    if k == 0 {
        g
    } else {
        tm_branches(pass2_upto(g, doc, (k - 1) as nat), doc, (k - 1) as nat)
    }
}

/// The whole translated plan of a document.
pub open spec fn translated_graph(doc: Seq<TriplesMap>) -> PlanGraphV {
    pass2_upto(pass1_graph(doc), doc, doc.len())
}

// ------------------------------------------------------------------
// When translation succeeds
// ------------------------------------------------------------------

/// The object map at position (`e`, `t`) of a work list.
pub open spec fn om_at(tm: TriplesMap, sel: Seq<(int, Seq<int>)>, e: int, t: int)
    -> ObjectMap {
    tm.po_maps@[sel[e].0].object_maps@[sel[e].1[t]]
}

/// Everything one join fragment needs: a join condition, a parent with a
/// built fragment, an emittable parent subject kind, and emittable kinds on
/// the entry's own term maps.
pub open spec fn join_om_all_ok(doc: Seq<TriplesMap>, tm: TriplesMap, e: int, t: int)
    -> bool {
    let sel = join_pom_selection(tm.po_maps@);
    let om = om_at(tm, sel, e, t);
    &&& om.join_condition is Some
    &&& tm_index_of(doc, opt_str_view(om.parent_tm)) >= 0
    &&& valid_term_kind(
        doc[tm_index_of(doc, opt_str_view(om.parent_tm))].subject_map.tm_info,
    )
    &&& !sel_has_bad_kind(tm.subject_map, tm.po_maps@, seq![(sel[e].0, seq![sel[e].1[t]])])
}

/// The whole second pass of one unit goes through.
pub open spec fn tm_ok(doc: Seq<TriplesMap>, tm: TriplesMap) -> bool {
    &&& (nonjoin_pom_selection(tm.po_maps@).len() > 0 ==> !sel_has_malformed(
        tm.po_maps@,
        nonjoin_pom_selection(tm.po_maps@),
    ) && !sel_has_bad_kind(tm.subject_map, tm.po_maps@, nonjoin_pom_selection(tm.po_maps@)))
    &&& (forall|e: int, t: int|
        0 <= e < join_pom_selection(tm.po_maps@).len() && 0 <= t < join_pom_selection(
            tm.po_maps@,
        )[e].1.len() ==> #[trigger] join_om_all_ok(doc, tm, e, t))
}

/// Translation succeeds exactly on these documents.
pub open spec fn doc_translatable(doc: Seq<TriplesMap>) -> bool {
    forall|k: int| 0 <= k < doc.len() ==> tm_ok(doc, #[trigger] doc[k])
}

/// A witness that unit `tm` pairs a parent reference and a join condition
/// inconsistently somewhere the second pass looks.
pub open spec fn tm_malformed_witness(tm: TriplesMap) -> bool {
    ||| (nonjoin_pom_selection(tm.po_maps@).len() > 0 && sel_has_malformed(
        tm.po_maps@,
        nonjoin_pom_selection(tm.po_maps@),
    ))
    ||| exists|e: int, t: int|
        0 <= e < join_pom_selection(tm.po_maps@).len() && 0 <= t < join_pom_selection(
            tm.po_maps@,
        )[e].1.len() && (#[trigger] om_at(
            tm,
            join_pom_selection(tm.po_maps@),
            e,
            t,
        )).join_condition is None
}

/// A witness that some join of `tm` references an identifier with no built
/// fragment.
pub open spec fn tm_missing_witness(doc: Seq<TriplesMap>, tm: TriplesMap) -> bool {
    exists|e: int, t: int|
        0 <= e < join_pom_selection(tm.po_maps@).len() && 0 <= t < join_pom_selection(
            tm.po_maps@,
        )[e].1.len() && tm_index_of(
            doc,
            opt_str_view((#[trigger] om_at(tm, join_pom_selection(tm.po_maps@), e, t)).parent_tm),
        ) < 0
}

/// A witness that a term map the second pass of `tm` derives a function from
/// declares a kind the translator cannot emit.
pub open spec fn tm_badkind_witness(doc: Seq<TriplesMap>, tm: TriplesMap) -> bool {
    ||| (nonjoin_pom_selection(tm.po_maps@).len() > 0 && sel_has_bad_kind(
        tm.subject_map,
        tm.po_maps@,
        nonjoin_pom_selection(tm.po_maps@),
    ))
    ||| exists|e: int, t: int|
        0 <= e < join_pom_selection(tm.po_maps@).len() && 0 <= t < join_pom_selection(
            tm.po_maps@,
        )[e].1.len() && !(#[trigger] join_om_all_ok(doc, tm, e, t)) && om_at(
            tm,
            join_pom_selection(tm.po_maps@),
            e,
            t,
        ).join_condition is Some && tm_index_of(
            doc,
            opt_str_view(om_at(tm, join_pom_selection(tm.po_maps@), e, t).parent_tm),
        ) >= 0
}

/// Which failure a translation error reports: each error kind comes with a
/// witness of its condition in the document.
pub open spec fn err_matches(doc: Seq<TriplesMap>, e: PlanError) -> bool {
    match e {
        PlanError::MalformedJoin => exists|k: int|
            0 <= k < doc.len() && tm_malformed_witness(#[trigger] doc[k]),
        PlanError::MissingParent => exists|k: int|
            0 <= k < doc.len() && tm_missing_witness(doc, #[trigger] doc[k]),
        PlanError::UnrecognizedTermKind => exists|k: int|
            0 <= k < doc.len() && tm_badkind_witness(doc, #[trigger] doc[k]),
        _ => false,
    }
}

/// The join work list's entries are in bounds, name join-bearing maps, and
/// hold exactly the parent-referencing object-map indices.
pub proof fn lemma_join_selection(poms: Seq<PredicateObjectMap>)
    ensures
        forall|e: int|
            0 <= e < join_pom_selection(poms).len() ==> 0 <= (
            #[trigger] join_pom_selection(poms)[e]).0 < poms.len() && join_pom_selection(
                poms,
            )[e].1 == om_idxs_with_parent(
                poms[join_pom_selection(poms)[e].0].object_maps@,
                true,
            ) && spec_contains_ptm(poms[join_pom_selection(poms)[e].0]),
        sel_in_bounds(join_pom_selection(poms), poms),
    decreases poms.len(),
{
    if poms.len() > 0 {
        lemma_join_selection(poms.drop_last());
        assert forall|e: int| 0 <= e < join_pom_selection(poms.drop_last()).len() implies
            poms[join_pom_selection(poms.drop_last())[e].0]
            == poms.drop_last()[join_pom_selection(poms.drop_last())[e].0] by {}
    }
    assert forall|e: int| 0 <= e < join_pom_selection(poms).len() implies 0 <= (
    #[trigger] join_pom_selection(poms)[e]).0 < poms.len() && (forall|t: int|
        0 <= t < join_pom_selection(poms)[e].1.len() ==> 0 <= #[trigger] join_pom_selection(
            poms,
        )[e].1[t] < poms[join_pom_selection(poms)[e].0].object_maps@.len()) by {
        lemma_om_idxs_with_parent(poms[join_pom_selection(poms)[e].0].object_maps@, true);
    }
}

/// The non-join work list's entries are in bounds; each holds either all of
/// its map's object-map indices or exactly the plain ones.
pub proof fn lemma_nonjoin_selection(poms: Seq<PredicateObjectMap>)
    ensures
        forall|e: int|
            0 <= e < nonjoin_pom_selection(poms).len() ==> 0 <= (
            #[trigger] nonjoin_pom_selection(poms)[e]).0 < poms.len() && (nonjoin_pom_selection(
                poms,
            )[e].1 == all_idxs(poms[nonjoin_pom_selection(poms)[e].0].object_maps@.len())
                || nonjoin_pom_selection(poms)[e].1 == om_idxs_with_parent(
                poms[nonjoin_pom_selection(poms)[e].0].object_maps@,
                false,
            )),
        sel_in_bounds(nonjoin_pom_selection(poms), poms),
    decreases poms.len(),
{
    lemma_nonjoin_primary(poms);
    lemma_nonjoin_residual(poms);
    assert forall|e: int| 0 <= e < nonjoin_pom_selection(poms).len() implies 0 <= (
    #[trigger] nonjoin_pom_selection(poms)[e]).0 < poms.len() && (nonjoin_pom_selection(
        poms,
    )[e].1 == all_idxs(poms[nonjoin_pom_selection(poms)[e].0].object_maps@.len())
        || nonjoin_pom_selection(poms)[e].1 == om_idxs_with_parent(
        poms[nonjoin_pom_selection(poms)[e].0].object_maps@,
        false,
    )) by {
        if e < nonjoin_primary_selection(poms).len() {
            assert(nonjoin_pom_selection(poms)[e] == nonjoin_primary_selection(poms)[e]);
        } else {
            assert(nonjoin_pom_selection(poms)[e] == nonjoin_residual_selection(poms)[e
                - nonjoin_primary_selection(poms).len()]);
        }
    }
    assert forall|e: int| #![trigger nonjoin_pom_selection(poms)[e]]
        0 <= e < nonjoin_pom_selection(poms).len() implies (forall|t: int|
        0 <= t < nonjoin_pom_selection(poms)[e].1.len() ==> 0 <= #[trigger] nonjoin_pom_selection(
            poms,
        )[e].1[t] < poms[nonjoin_pom_selection(poms)[e].0].object_maps@.len()) by {
        lemma_om_idxs_with_parent(
            poms[nonjoin_pom_selection(poms)[e].0].object_maps@,
            false,
        );
    }
}

proof fn lemma_nonjoin_primary(poms: Seq<PredicateObjectMap>)
    ensures
        forall|e: int|
            0 <= e < nonjoin_primary_selection(poms).len() ==> 0 <= (
            #[trigger] nonjoin_primary_selection(poms)[e]).0 < poms.len()
                && nonjoin_primary_selection(poms)[e].1 == all_idxs(
                poms[nonjoin_primary_selection(poms)[e].0].object_maps@.len(),
            ),
    decreases poms.len(),
{
    if poms.len() > 0 {
        lemma_nonjoin_primary(poms.drop_last());
        assert forall|e: int| 0 <= e < nonjoin_primary_selection(poms.drop_last()).len() implies
            poms[nonjoin_primary_selection(poms.drop_last())[e].0]
            == poms.drop_last()[nonjoin_primary_selection(poms.drop_last())[e].0] by {}
    }
}

proof fn lemma_nonjoin_residual(poms: Seq<PredicateObjectMap>)
    ensures
        forall|e: int|
            0 <= e < nonjoin_residual_selection(poms).len() ==> 0 <= (
            #[trigger] nonjoin_residual_selection(poms)[e]).0 < poms.len()
                && nonjoin_residual_selection(poms)[e].1 == om_idxs_with_parent(
                poms[nonjoin_residual_selection(poms)[e].0].object_maps@,
                false,
            ),
    decreases poms.len(),
{
    if poms.len() > 0 {
        lemma_nonjoin_residual(poms.drop_last());
        assert forall|e: int| 0 <= e < nonjoin_residual_selection(poms.drop_last()).len() implies
            poms[nonjoin_residual_selection(poms.drop_last())[e].0]
            == poms.drop_last()[nonjoin_residual_selection(poms.drop_last())[e].0] by {}
    }
}

/// The extend operator of one branch.
pub fn translate_extend_op(
    sm: &SubjectMap,
    poms: &Vec<PredicateObjectMap>,
    sel: &Vec<(usize, Vec<usize>)>,
    prefix_id: &str,
) -> (r: Result<Operator, PlanError>)
    requires
        sel_in_bounds(sel_view(sel@), poms@),
    ensures
        match r {
            Ok(op) => {
                &&& !sel_has_malformed(poms@, sel_view(sel@))
                &&& !sel_has_bad_kind(*sm, poms@, sel_view(sel@))
                &&& op@ == (OperatorV::ExtendOp {
                    pairs: entries_map(extend_entries(prefix_id@, *sm, poms@, sel_view(sel@))),
                })
            },
            Err(e) => {
                ||| (e == PlanError::MalformedJoin && sel_has_malformed(poms@, sel_view(sel@)))
                ||| (e == PlanError::UnrecognizedTermKind && sel_has_bad_kind(
                    *sm,
                    poms@,
                    sel_view(sel@),
                ))
            },
        },
{
    let extend_pairs = match translate_extend_pairs(prefix_id, sm, poms, sel) {
        Ok(ep) => ep,
        Err(e) => {
            return Err(e);
        },
    };
    Ok(Operator::ExtendOp { config: crate::operators::Extend { extend_pairs } })
}

/// Routes one non-join work list through `Extend -> Serialize -> Sink` from
/// the unit's own fragment.
fn add_non_join_related_ops(
    g: &mut crate::plan::PlanGraph,
    plan: &crate::plan::Plan<crate::plan::Processed>,
    sm: &SubjectMap,
    prefix_id: &str,
    poms: &Vec<PredicateObjectMap>,
    sel: &Vec<(usize, Vec<usize>)>,
    count: usize,
) -> (r: Result<(), PlanError>)
    requires
        old(g)@.wf(),
        plan.wf_in(*old(g)),
        plan.last_node is Some,
        sel_in_bounds(sel_view(sel@), poms@),
    ensures
        final(g)@.wf(),
        final(g)@.nodes.len() >= old(g)@.nodes.len(),
        match r {
            Ok(()) => {
                &&& !sel_has_malformed(poms@, sel_view(sel@))
                &&& !sel_has_bad_kind(*sm, poms@, sel_view(sel@))
                &&& final(g)@ == append_chain(
                    old(g)@,
                    plan.last_node.unwrap() as int,
                    ("ExtendOp")@,
                    entries_map(extend_entries(prefix_id@, *sm, poms@, sel_view(sel@))),
                    template_for_selection(prefix_id@, poms@, sel_view(sel@)),
                    count as nat,
                )
            },
            Err(e) => {
                &&& final(g)@ == old(g)@
                &&& {
                    ||| (e == PlanError::MalformedJoin && sel_has_malformed(
                        poms@,
                        sel_view(sel@),
                    ))
                    ||| (e == PlanError::UnrecognizedTermKind && sel_has_bad_kind(
                        *sm,
                        poms@,
                        sel_view(sel@),
                    ))
                }
            },
        },
{
    let extend_op = match translate_extend_op(sm, poms, sel, prefix_id) {
        Ok(op) => op,
        Err(e) => {
            return Err(e);
        },
    };
    let serializer_op = translate_serializer_op(poms, sel, prefix_id);
    let ghost chain = append_chain(
        old(g)@,
        plan.last_node.unwrap() as int,
        ("ExtendOp")@,
        entries_map(extend_entries(prefix_id@, *sm, poms@, sel_view(sel@))),
        template_for_selection(prefix_id@, poms@, sel_view(sel@)),
        count as nat,
    );
    let p1 = match plan.apply(g, extend_op, "ExtendOp") {
        Ok(p) => p,
        Err(_) => {
            proof {
                assert(false);
            }
            vstd::pervasive::unreached()
        },
    };
    let p2 = match p1.serialize(g, serializer_op) {
        Ok(p) => p,
        Err(_) => {
            proof {
                assert(false);
            }
            vstd::pervasive::unreached()
        },
    };
    let _p3 = match p2.sink(g, file_target(count)) {
        Ok(p) => p,
        Err(_) => {
            proof {
                assert(false);
            }
            vstd::pervasive::unreached()
        },
    };
    proof {
        assert(g@.nodes =~= chain.nodes);
        assert(g@.edges =~= chain.edges);
        assert(g@.sources =~= chain.sources);
    }
    Ok(())
}

/// Routes the join-bearing work of unit `k` through one independent join
/// fragment per parent-referencing object map: a join of the unit's fragment
/// with the parent's fragment under the alias `join_<parent index>`, then an
/// `Extend -> Serialize -> Sink` chain whose extend pairs additionally bind
/// the alias-prefixed parent subject function.
#[verifier::rlimit(100)]
fn add_join_related_ops(
    g: &mut crate::plan::PlanGraph,
    tms: &Vec<TriplesMap>,
    frags: &Vec<crate::plan::Plan<crate::plan::Processed>>,
    k: usize,
    prefix_id: &str,
    sel: &Vec<(usize, Vec<usize>)>,
) -> (r: Result<(), PlanError>)
    requires
        old(g)@.wf(),
        k < tms@.len(),
        frags@.len() == tms@.len(),
        forall|i: int|
            0 <= i < frags@.len() ==> (#[trigger] frags@[i]).last_node is Some
                && frags@[i].last_node.unwrap() as int == 2 * i + 1,
        2 * tms@.len() <= old(g)@.nodes.len(),
        prefix_id@ == crate::names::tm_prefix(k as nat),
        sel_view(sel@) == join_pom_selection(tms@[k as int].po_maps@),
    ensures
        final(g)@.wf(),
        2 * tms@.len() <= final(g)@.nodes.len(),
        match r {
            Ok(()) => {
                &&& forall|e: int, t: int|
                    0 <= e < join_pom_selection(tms@[k as int].po_maps@).len() && 0 <= t
                        < join_pom_selection(tms@[k as int].po_maps@)[e].1.len()
                        ==> #[trigger] join_om_all_ok(tms@, tms@[k as int], e, t)
                &&& final(g)@ == join_branches_upto(
                    old(g)@,
                    tms@,
                    k as nat,
                    join_pom_selection(tms@[k as int].po_maps@).len(),
                )
            },
            Err(e) => {
                ||| (e == PlanError::MalformedJoin && tm_malformed_witness(tms@[k as int]))
                ||| (e == PlanError::MissingParent && tm_missing_witness(
                    tms@,
                    tms@[k as int],
                ))
                ||| (e == PlanError::UnrecognizedTermKind && tm_badkind_witness(
                    tms@,
                    tms@[k as int],
                ))
            },
        },
{
    proof {
        lemma_join_selection(tms@[k as int].po_maps@);
    }
    let ghost tm_spec = tms@[k as int];
    let ghost jsel = join_pom_selection(tms@[k as int].po_maps@);
    let n = sel.len();
    let mut e: usize = 0;
    while e < n
        invariant
            e <= n,
            n == sel@.len(),
            k < tms@.len(),
            frags@.len() == tms@.len(),
            forall|i: int|
                0 <= i < frags@.len() ==> (#[trigger] frags@[i]).last_node is Some
                    && frags@[i].last_node.unwrap() as int == 2 * i + 1,
            prefix_id@ == crate::names::tm_prefix(k as nat),
            sel_view(sel@) == jsel,
            jsel == join_pom_selection(tms@[k as int].po_maps@),
            tm_spec == tms@[k as int],
            sel_in_bounds(jsel, tms@[k as int].po_maps@),
            forall|e2: int|
                0 <= e2 < jsel.len() ==> (#[trigger] jsel[e2]).1 == om_idxs_with_parent(
                    tms@[k as int].po_maps@[jsel[e2].0].object_maps@,
                    true,
                ),
            g@.wf(),
            2 * tms@.len() <= g@.nodes.len(),
            g@ == join_branches_upto(old(g)@, tms@, k as nat, e as nat),
            forall|e2: int, t2: int|
                0 <= e2 < e && 0 <= t2 < jsel[e2].1.len() ==> #[trigger] join_om_all_ok(
                    tms@,
                    tms@[k as int],
                    e2,
                    t2,
                ),
        decreases n - e,
    {
        let pom_idx = sel[e].0;
        proof {
            assert(sel_view(sel@)[e as int] == (
                pom_idx as int,
                sel@[e as int].1@.map_values(|i: usize| i as int),
            ));
            assert(0 <= jsel[e as int].0 < tms@[k as int].po_maps@.len());
        }
        let m = sel[e].1.len();
        let ghost g_entry = g@;
        let mut t: usize = 0;
        while t < m
            invariant
                t <= m,
                e < n,
                n == sel@.len(),
                m == sel@[e as int].1@.len(),
                pom_idx == sel@[e as int].0,
                k < tms@.len(),
                frags@.len() == tms@.len(),
                forall|i: int|
                    0 <= i < frags@.len() ==> (#[trigger] frags@[i]).last_node is Some
                        && frags@[i].last_node.unwrap() as int == 2 * i + 1,
                prefix_id@ == crate::names::tm_prefix(k as nat),
                sel_view(sel@) == jsel,
                jsel == join_pom_selection(tms@[k as int].po_maps@),
                tm_spec == tms@[k as int],
                sel_in_bounds(jsel, tms@[k as int].po_maps@),
                forall|e2: int|
                    0 <= e2 < jsel.len() ==> (#[trigger] jsel[e2]).1 == om_idxs_with_parent(
                        tms@[k as int].po_maps@[jsel[e2].0].object_maps@,
                        true,
                    ),
                g@.wf(),
                2 * tms@.len() <= g@.nodes.len(),
                g@ == join_branch_oms_upto(g_entry, tms@, k as nat, pom_idx as int, t as nat),
                g_entry == join_branches_upto(old(g)@, tms@, k as nat, e as nat),
                forall|t2: int|
                    0 <= t2 < t ==> #[trigger] join_om_all_ok(tms@, tms@[k as int], e as int, t2),
                forall|e2: int, t2: int|
                    0 <= e2 < e && 0 <= t2 < jsel[e2].1.len() ==> #[trigger] join_om_all_ok(
                        tms@,
                        tms@[k as int],
                        e2,
                        t2,
                    ),
            decreases m - t,
        {
            proof {
                assert(jsel[e as int].1[t as int] == sel@[e as int].1@[t as int] as int);
                assert(0 <= jsel[e as int].1[t as int] < tms@[k as int].po_maps@[jsel[e as int].0].object_maps@.len());
                lemma_om_idxs_with_parent(
                    tms@[k as int].po_maps@[jsel[e as int].0].object_maps@,
                    true,
                );
                assert(tms@[k as int].po_maps@[jsel[e as int].0].object_maps@[jsel[e as int].1[t as int]].parent_tm is Some);
            }
            let om_i = sel[e].1[t];
            let tm = &tms[k];
            let pom = &tm.po_maps[pom_idx];
            let om = &pom.object_maps[om_i];
            let ghost om_spec = om_at(tm_spec, jsel, e as int, t as int);
            proof {
                assert(om_spec == *om);
            }
            let ptm_iri = match &om.parent_tm {
                Some(s) => s,
                None => {
                    proof {
                        assert(false);
                    }
                    vstd::pervasive::unreached()
                },
            };
            let idx = match find_tm_index(tms, ptm_iri) {
                Some(i) => i,
                None => {
                    proof {
                        assert(opt_str_view(om_spec.parent_tm) == ptm_iri@);
                        assert(tm_index_of(tms@, opt_str_view(om_spec.parent_tm)) < 0);
                        assert(tm_missing_witness(tms@, tms@[k as int]));
                    }
                    return Err(PlanError::MissingParent);
                },
            };
            let join_cond = match &om.join_condition {
                Some(jc) => jc,
                None => {
                    proof {
                        assert(om_spec.join_condition is None);
                        assert(tm_malformed_witness(tms@[k as int]));
                    }
                    return Err(PlanError::MalformedJoin);
                },
            };
            let child_attributes = crate::attrset::clone_strings(&join_cond.child_attributes);
            let parent_attributes = crate::attrset::clone_strings(&join_cond.parent_attributes);
            let ptm_alias = crate::names::join_alias_string(idx);
            let builder = match frags[k].join(g, &frags[idx]) {
                Ok(b) => b,
                Err(_) => {
                    proof {
                        assert(false);
                    }
                    vstd::pervasive::unreached()
                },
            };
            let joined_plan = builder.alias(ptm_alias.as_str()).where_by(
                child_attributes,
            ).compared_to(g, parent_attributes);
            // Prefix the parent subject map's attributes with the join alias,
            // and pair its function with the synthetic extend attribute for
            // this object map.
            let ptm_sm_info = tms[idx].subject_map.tm_info.duplicate().prefix_attributes(
                ptm_alias.as_str(),
            );
            let ptm_sub_function = match extract_extend_function_from_term_map(&ptm_sm_info) {
                Ok(f) => f,
                Err(err) => {
                    proof {
                        assert(!valid_term_kind(tms@[idx as int].subject_map.tm_info));
                        assert(!join_om_all_ok(tms@, tms@[k as int], e as int, t as int));
                        assert(tm_badkind_witness(tms@, tms@[k as int]));
                    }
                    return Err(err);
                },
            };
            let om_extend_attr = crate::names::om_attr_string(prefix_id, pom_idx, t);
            let mut single_oms: Vec<usize> = Vec::new();
            single_oms.push(om_i);
            let mut singleton: Vec<(usize, Vec<usize>)> = Vec::new();
            singleton.push((pom_idx, single_oms));
            let ghost singleton_spec: Seq<(int, Seq<int>)> = seq![
                (pom_idx as int, seq![om_i as int]),
            ];
            proof {
                assert(sel_view(singleton@) =~~= singleton_spec);
                assert(singleton_spec[0].1 =~= seq![jsel[e as int].1[t as int]]);
                assert(singleton_spec =~~= seq![
                    (jsel[e as int].0, seq![jsel[e as int].1[t as int]]),
                ]);
                assert(sel_in_bounds(sel_view(singleton@), tms@[k as int].po_maps@));
            }
            let mut extend_pairs = match translate_extend_pairs(
                prefix_id,
                &tms[k].subject_map,
                &tms[k].po_maps,
                &singleton,
            ) {
                Ok(ep) => ep,
                Err(err) => {
                    proof {
                        assert(!sel_has_malformed(tms@[k as int].po_maps@, sel_view(singleton@)))
                            by {
                            assert(om_wf(om_spec));
                        }
                        assert(err == PlanError::UnrecognizedTermKind);
                        assert(sel_has_bad_kind(
                            tms@[k as int].subject_map,
                            tms@[k as int].po_maps@,
                            singleton_spec,
                        ));
                        assert(!join_om_all_ok(tms@, tms@[k as int], e as int, t as int));
                        assert(tm_badkind_witness(tms@, tms@[k as int]));
                    }
                    return Err(err);
                },
            };
            extend_pairs.insert(om_extend_attr, ptm_sub_function);
            let ghost pairs_seq = extend_pairs.seq_view();
            let extend_op = Operator::ExtendOp {
                config: crate::operators::Extend { extend_pairs },
            };
            let serializer_op = translate_serializer_op(&tms[k].po_maps, &singleton, prefix_id);
            let ghost g_before_chain = g@;
            let p1 = match joined_plan.apply(g, extend_op, "Extend") {
                Ok(p) => p,
                Err(_) => {
                    proof {
                        assert(false);
                    }
                    vstd::pervasive::unreached()
                },
            };
            let p2 = match p1.serialize(g, serializer_op) {
                Ok(p) => p,
                Err(_) => {
                    proof {
                        assert(false);
                    }
                    vstd::pervasive::unreached()
                },
            };
            let _p3 = match p2.sink(g, file_target(k)) {
                Ok(p) => p,
                Err(_) => {
                    proof {
                        assert(false);
                    }
                    vstd::pervasive::unreached()
                },
            };
            proof {
                let expected = join_branch_om(
                    join_branch_oms_upto(g_entry, tms@, k as nat, pom_idx as int, t as nat),
                    tms@,
                    k as nat,
                    pom_idx as int,
                    t as int,
                );
                assert(tm_index_of(tms@, opt_str_view(om_spec.parent_tm)) == idx as int);
                assert(ptm_alias@ == crate::names::join_alias(idx as nat));
                assert(term_func(ptm_sm_info) == prefixed_term_func(
                    tms@[idx as int].subject_map.tm_info,
                    ptm_alias@,
                ));
                assert(pairs_seq =~= extend_entries(
                    prefix_id@,
                    tms@[k as int].subject_map,
                    tms@[k as int].po_maps@,
                    singleton_spec,
                ).push(
                    (
                        om_attr(prefix_id@, pom_idx as nat, t as nat),
                        prefixed_term_func(tms@[idx as int].subject_map.tm_info, ptm_alias@),
                    ),
                ));
                assert(g@.nodes =~= expected.nodes);
                assert(g@.edges =~= expected.edges);
                assert(g@.sources =~= expected.sources);
                assert(g@ == join_branch_oms_upto(
                    g_entry,
                    tms@,
                    k as nat,
                    pom_idx as int,
                    (t + 1) as nat,
                ));
                assert(join_om_all_ok(tms@, tms@[k as int], e as int, t as int));
            }
            t = t + 1;
        }
        proof {
            assert(g@ == join_branches_upto(old(g)@, tms@, k as nat, (e + 1) as nat));
        }
        e = e + 1;
    }
    proof {
        assert(jsel.len() == n);
    }
    Ok(())
}

/// A unit with any failure witness is not translatable.
pub proof fn lemma_witness_not_ok(doc: Seq<TriplesMap>, tm: TriplesMap)
    ensures
        tm_malformed_witness(tm) ==> !tm_ok(doc, tm),
        tm_missing_witness(doc, tm) ==> !tm_ok(doc, tm),
        tm_badkind_witness(doc, tm) ==> !tm_ok(doc, tm),
{
    if tm_malformed_witness(tm) {
        if nonjoin_pom_selection(tm.po_maps@).len() > 0 && sel_has_malformed(
            tm.po_maps@,
            nonjoin_pom_selection(tm.po_maps@),
        ) {
            assert(!tm_ok(doc, tm));
        } else {
            let (e, t) = choose|e: int, t: int|
                0 <= e < join_pom_selection(tm.po_maps@).len() && 0 <= t < join_pom_selection(
                    tm.po_maps@,
                )[e].1.len() && (#[trigger] om_at(
                    tm,
                    join_pom_selection(tm.po_maps@),
                    e,
                    t,
                )).join_condition is None;
            assert(!join_om_all_ok(doc, tm, e, t));
            assert(!tm_ok(doc, tm));
        }
    }
    if tm_missing_witness(doc, tm) {
        let (e, t) = choose|e: int, t: int|
            0 <= e < join_pom_selection(tm.po_maps@).len() && 0 <= t < join_pom_selection(
                tm.po_maps@,
            )[e].1.len() && tm_index_of(
                doc,
                opt_str_view(
                    (#[trigger] om_at(tm, join_pom_selection(tm.po_maps@), e, t)).parent_tm,
                ),
            ) < 0;
        assert(!join_om_all_ok(doc, tm, e, t));
        assert(!tm_ok(doc, tm));
    }
    if tm_badkind_witness(doc, tm) {
        if nonjoin_pom_selection(tm.po_maps@).len() > 0 && sel_has_bad_kind(
            tm.subject_map,
            tm.po_maps@,
            nonjoin_pom_selection(tm.po_maps@),
        ) {
            assert(!tm_ok(doc, tm));
        } else {
            let (e, t) = choose|e: int, t: int|
                0 <= e < join_pom_selection(tm.po_maps@).len() && 0 <= t < join_pom_selection(
                    tm.po_maps@,
                )[e].1.len() && !(#[trigger] join_om_all_ok(doc, tm, e, t)) && om_at(
                    tm,
                    join_pom_selection(tm.po_maps@),
                    e,
                    t,
                ).join_condition is Some && tm_index_of(
                    doc,
                    opt_str_view(om_at(tm, join_pom_selection(tm.po_maps@), e, t).parent_tm),
                ) >= 0;
            assert(!tm_ok(doc, tm));
        }
    }
}

/// Translates a mapping document into an operator plan: per triples map a
/// `Source -> Project` fragment (first pass), then per triples map an
/// `Extend -> Serialize -> Sink` chain for its non-join work and an
/// independent join fragment per parent-referencing object map (second pass).
/// The first failure stops translation: `MissingParent` when a join
/// references an unknown identifier, `MalformedJoin` when a parent reference
/// and a join condition are paired inconsistently, `UnrecognizedTermKind`
/// when a term map's kind cannot be emitted.
#[verifier::rlimit(100)]
pub fn translate_to_algebra(doc: Document) -> (r: Result<crate::plan::PlanGraph, PlanError>)
    ensures
        match r {
            Ok(g) => {
                &&& doc_translatable(doc.triples_maps@)
                &&& g@ == translated_graph(doc.triples_maps@)
                &&& g@.wf()
            },
            Err(e) => {
                &&& !doc_translatable(doc.triples_maps@)
                &&& err_matches(doc.triples_maps@, e)
            },
        },
{
    let mut g = crate::plan::PlanGraph::new();
    let plan = crate::plan::Plan::<()>::new();
    let tms = &doc.triples_maps;
    let n = tms.len();
    let mut frags: Vec<crate::plan::Plan<crate::plan::Processed>> = Vec::new();
    let mut k: usize = 0;
    proof {
        assert(g@.nodes =~= pass1_graph(tms@.take(0)).nodes);
        assert(g@.edges =~= pass1_graph(tms@.take(0)).edges);
        assert(g@.sources =~= pass1_graph(tms@.take(0)).sources);
    }
    while k < n
        invariant
            k <= n,
            n == tms@.len(),
            tms@ == doc.triples_maps@,
            g@ == pass1_graph(tms@.take(k as int)),
            g@.wf(),
            frags@.len() == k,
            forall|i: int|
                0 <= i < k ==> (#[trigger] frags@[i]).last_node is Some && frags@[i].last_node.unwrap() as int == 2 * i + 1,
        decreases n - k,
    {
        let tm = &tms[k];
        let source_op = translate_source_op(tm);
        let projection_op = translate_projection_op(tm);
        let p1 = plan.source(&mut g, source_op);
        let p2 = match p1.apply(&mut g, projection_op, "Projection") {
            Ok(p) => p,
            Err(_) => {
                proof {
                    assert(false);
                }
                vstd::pervasive::unreached()
            },
        };
        frags.push(p2);
        proof {
            assert(g@.nodes =~= pass1_graph(tms@.take(k + 1)).nodes);
            assert(g@.edges =~= pass1_graph(tms@.take(k + 1)).edges);
            assert(g@.sources =~= pass1_graph(tms@.take(k + 1)).sources);
        }
        k = k + 1;
    }
    proof {
        assert(tms@.take(n as int) =~= tms@);
        assert(g@.nodes.len() == 2 * n);
    }
    let mut k: usize = 0;
    while k < n
        invariant
            k <= n,
            n == tms@.len(),
            tms@ == doc.triples_maps@,
            frags@.len() == n,
            forall|i: int|
                0 <= i < n ==> (#[trigger] frags@[i]).last_node is Some && frags@[i].last_node.unwrap() as int == 2 * i + 1,
            g@.wf(),
            2 * n <= g@.nodes.len(),
            g@ == pass2_upto(pass1_graph(tms@), tms@, k as nat),
            forall|k2: int| 0 <= k2 < k ==> tm_ok(tms@, #[trigger] tms@[k2]),
        decreases n - k,
    {
        let tm = &tms[k];
        let prefix_id = crate::names::tm_prefix_string(k);
        let partitioned = partition_pom_join_nonjoin(&tm.po_maps);
        let joined_idx_poms = partitioned.0;
        let no_join_idx_poms = partitioned.1;
        proof {
            lemma_nonjoin_selection(tms@[k as int].po_maps@);
            lemma_join_selection(tms@[k as int].po_maps@);
        }
        let ghost g_tm = g@;
        if no_join_idx_poms.len() > 0 {
            match add_non_join_related_ops(
                &mut g,
                &frags[k],
                &tm.subject_map,
                prefix_id.as_str(),
                &tm.po_maps,
                &no_join_idx_poms,
                k,
            ) {
                Ok(()) => {
                    proof {
                        assert(g@ == nonjoin_branch(g_tm, tms@[k as int], k as nat));
                    }
                },
                Err(e) => {
                    proof {
                        assert(nonjoin_pom_selection(tms@[k as int].po_maps@).len() > 0);
                        lemma_witness_not_ok(tms@, tms@[k as int]);
                        if e == PlanError::MalformedJoin {
                            assert(tm_malformed_witness(tms@[k as int]));
                            assert(!tm_ok(tms@, tms@[k as int]));
                            assert(err_matches(tms@, e));
                        } else {
                            assert(e == PlanError::UnrecognizedTermKind);
                            assert(tm_badkind_witness(tms@, tms@[k as int]));
                            assert(!tm_ok(tms@, tms@[k as int]));
                            assert(err_matches(tms@, e));
                        }
                        assert(!doc_translatable(tms@));
                    }
                    return Err(e);
                },
            }
        } else {
            proof {
                assert(nonjoin_pom_selection(tms@[k as int].po_maps@).len() == 0);
            }
        }
        let ghost g_after_nj = g@;
        proof {
            assert(g_after_nj == if nonjoin_pom_selection(tms@[k as int].po_maps@).len() > 0 {
                nonjoin_branch(g_tm, tms@[k as int], k as nat)
            } else {
                g_tm
            });
        }
        if joined_idx_poms.len() > 0 {
            match add_join_related_ops(
                &mut g,
                tms,
                &frags,
                k,
                prefix_id.as_str(),
                &joined_idx_poms,
            ) {
                Ok(()) => {},
                Err(e) => {
                    proof {
                        lemma_witness_not_ok(tms@, tms@[k as int]);
                        if e == PlanError::MalformedJoin {
                            assert(tm_malformed_witness(tms@[k as int]));
                            assert(!tm_ok(tms@, tms@[k as int]));
                            assert(err_matches(tms@, e));
                        } else if e == PlanError::MissingParent {
                            assert(tm_missing_witness(tms@, tms@[k as int]));
                            assert(!tm_ok(tms@, tms@[k as int]));
                            assert(err_matches(tms@, e));
                        } else {
                            assert(e == PlanError::UnrecognizedTermKind);
                            assert(tm_badkind_witness(tms@, tms@[k as int]));
                            assert(!tm_ok(tms@, tms@[k as int]));
                            assert(err_matches(tms@, e));
                        }
                        assert(!doc_translatable(tms@));
                    }
                    return Err(e);
                },
            }
        } else {
            proof {
                assert(join_pom_selection(tms@[k as int].po_maps@).len() == 0);
                assert(g@ == join_branches_upto(g_after_nj, tms@, k as nat, 0));
            }
        }
        proof {
            assert(g@ == join_branches_upto(
                g_after_nj,
                tms@,
                k as nat,
                join_pom_selection(tms@[k as int].po_maps@).len(),
            ));
            assert(g@ == tm_branches(pass2_upto(pass1_graph(tms@), tms@, k as nat), tms@, k as nat));
            assert(g@ == pass2_upto(pass1_graph(tms@), tms@, (k + 1) as nat));
            assert(tm_ok(tms@, tms@[k as int]));
        }
        k = k + 1;
    }
    proof {
        assert(doc_translatable(tms@));
        assert(g@ == translated_graph(tms@));
    }
    Ok(g)
}

/// The indices of the object maps selected by `om_idxs_with_parent` are in
/// bounds and select exactly the object maps with (or without) a parent.
pub proof fn lemma_om_idxs_with_parent(oms: Seq<ObjectMap>, parent: bool)
    ensures
        forall|t: int|
            0 <= t < om_idxs_with_parent(oms, parent).len() ==> 0 <= #[trigger] om_idxs_with_parent(
                oms,
                parent,
            )[t] < oms.len() && (oms[om_idxs_with_parent(oms, parent)[t]].parent_tm is Some)
                == parent,
    decreases oms.len(),
{
    if oms.len() > 0 {
        lemma_om_idxs_with_parent(oms.drop_last(), parent);
        assert forall|t: int| 0 <= t < om_idxs_with_parent(oms.drop_last(), parent).len() implies
            oms[om_idxs_with_parent(oms.drop_last(), parent)[t]]
            == oms.drop_last()[om_idxs_with_parent(oms.drop_last(), parent)[t]] by {}
    }
}

} // verus!
