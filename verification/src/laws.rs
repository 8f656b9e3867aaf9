//! Structural laws of the translation: chain independence for join-free
//! documents, the shape of join fragments, projection coverage, and
//! determinism of the whole translation.

use vstd::prelude::*;

use crate::model::ObjectMap;
use crate::model::PredicateObjectMap;
use crate::model::TriplesMap;
use crate::model::spec_contains_ptm;
use crate::model::tm_info_attrs;
use crate::names::join_alias;
use crate::names::om_attr;
use crate::names::tm_prefix;
use crate::operators::OperatorV;
use crate::operators::entries_map;
use crate::plan::PlanGraphV;
use crate::plan::mapping_edge;
use crate::plan::serialized_edge;
use crate::translate::append_chain;
use crate::translate::doc_translatable;
use crate::translate::extend_entries;
use crate::translate::join_branch_om;
use crate::translate::join_branch_oms_upto;
use crate::translate::join_branches_upto;
use crate::translate::join_pom_selection;
use crate::translate::nonjoin_branch;
use crate::translate::nonjoin_pom_selection;
use crate::translate::nonjoin_primary_selection;
use crate::translate::nonjoin_residual_selection;
use crate::translate::om_at;
use crate::translate::om_idxs_with_parent;
use crate::translate::om_proj_attrs;
use crate::translate::oms_attrs;
use crate::translate::opt_str_view;
use crate::translate::pass1_graph;
use crate::translate::pass2_upto;
use crate::translate::pms_attrs;
use crate::translate::poms_attrs;
use crate::translate::prefixed_term_func;
use crate::translate::projection_attrs;
use crate::translate::tm_branches;
use crate::translate::tm_index_of;
use crate::translate::translated_graph;

verus! {

// ------------------------------------------------------------------
// Determinism
// ------------------------------------------------------------------

/// Translating the same document twice yields the same graph: node
/// operators, identifiers and edge structure are a function of the document
/// alone, so two runs are structurally equal.
pub proof fn lemma_translation_deterministic(doc1: Seq<TriplesMap>, doc2: Seq<TriplesMap>)
    requires
        doc1 == doc2,
    ensures
        translated_graph(doc1) == translated_graph(doc2),
{
}

// ------------------------------------------------------------------
// Projection coverage
// ------------------------------------------------------------------

proof fn lemma_pms_attrs_cover(pms: Seq<crate::model::PredicateMap>)
    ensures
        forall|j: int|
            0 <= j < pms.len() ==> tm_info_attrs((#[trigger] pms[j]).tm_info).subset_of(
                pms_attrs(pms),
            ),
    decreases pms.len(),
{
    if pms.len() > 0 {
        lemma_pms_attrs_cover(pms.drop_last());
        assert forall|j: int| 0 <= j < pms.len() implies tm_info_attrs(
            (#[trigger] pms[j]).tm_info,
        ).subset_of(pms_attrs(pms)) by {
            if j < pms.len() - 1 {
                assert(pms.drop_last()[j] == pms[j]);
            }
        }
    }
}

proof fn lemma_oms_attrs_cover(oms: Seq<ObjectMap>)
    ensures
        forall|j: int|
            0 <= j < oms.len() ==> om_proj_attrs(#[trigger] oms[j]).subset_of(oms_attrs(oms)),
    decreases oms.len(),
{
    if oms.len() > 0 {
        lemma_oms_attrs_cover(oms.drop_last());
        assert forall|j: int| 0 <= j < oms.len() implies om_proj_attrs(
            #[trigger] oms[j],
        ).subset_of(oms_attrs(oms)) by {
            if j < oms.len() - 1 {
                assert(oms.drop_last()[j] == oms[j]);
            }
        }
    }
}

proof fn lemma_poms_attrs_cover(poms: Seq<PredicateObjectMap>)
    ensures
        forall|i: int|
            0 <= i < poms.len() ==> pms_attrs((#[trigger] poms[i]).predicate_maps@).subset_of(
                poms_attrs(poms),
            ) && oms_attrs(poms[i].object_maps@).subset_of(poms_attrs(poms)),
    decreases poms.len(),
{
    if poms.len() > 0 {
        lemma_poms_attrs_cover(poms.drop_last());
        assert forall|i: int| 0 <= i < poms.len() implies pms_attrs(
            (#[trigger] poms[i]).predicate_maps@,
        ).subset_of(poms_attrs(poms)) && oms_attrs(poms[i].object_maps@).subset_of(
            poms_attrs(poms),
        ) by {
            if i < poms.len() - 1 {
                assert(poms.drop_last()[i] == poms[i]);
            }
        }
    }
}

/// The projection attribute set of a unit contains its subject-map
/// attributes and, per predicate-object map, every predicate-map attribute
/// and every object-map contribution — the join child attributes for a
/// parent-referencing object map, its own term-map attributes otherwise.
/// Being exactly the union of these contributions and the graph-map
/// attributes, it holds a parent-referencing object map's own term-map
/// attributes only when some other contribution supplies them.
pub proof fn lemma_projection_covers(tm: TriplesMap)
    ensures
        tm_info_attrs(tm.subject_map.tm_info).subset_of(projection_attrs(tm)),
        forall|i: int, j: int|
            0 <= i < tm.po_maps@.len() && 0 <= j < tm.po_maps@[i].predicate_maps@.len()
                ==> tm_info_attrs(
                (#[trigger] tm.po_maps@[i].predicate_maps@[j]).tm_info,
            ).subset_of(projection_attrs(tm)),
        forall|i: int, j: int|
            0 <= i < tm.po_maps@.len() && 0 <= j < tm.po_maps@[i].object_maps@.len()
                ==> om_proj_attrs(#[trigger] tm.po_maps@[i].object_maps@[j]).subset_of(
                projection_attrs(tm),
            ),
{
    lemma_poms_attrs_cover(tm.po_maps@);
    assert forall|i: int, j: int|
        0 <= i < tm.po_maps@.len() && 0 <= j
            < tm.po_maps@[i].predicate_maps@.len() implies tm_info_attrs(
        (#[trigger] tm.po_maps@[i].predicate_maps@[j]).tm_info,
    ).subset_of(projection_attrs(tm)) by {
        lemma_pms_attrs_cover(tm.po_maps@[i].predicate_maps@);
    }
    assert forall|i: int, j: int|
        0 <= i < tm.po_maps@.len() && 0 <= j
            < tm.po_maps@[i].object_maps@.len() implies om_proj_attrs(
        #[trigger] tm.po_maps@[i].object_maps@[j],
    ).subset_of(projection_attrs(tm)) by {
        lemma_oms_attrs_cover(tm.po_maps@[i].object_maps@);
    }
}

// ------------------------------------------------------------------
// Growth of the graph through the second pass
// ------------------------------------------------------------------

/// `g2` grows out of `g1`: nodes and edges are kept as a prefix, and every
/// new edge points at a node `g1` did not have.
pub open spec fn graph_extends(g1: PlanGraphV, g2: PlanGraphV) -> bool {
    &&& g1.nodes.len() <= g2.nodes.len()
    &&& g2.nodes.take(g1.nodes.len() as int) == g1.nodes
    &&& g1.edges.len() <= g2.edges.len()
    &&& g2.edges.take(g1.edges.len() as int) == g1.edges
    &&& forall|p: int|
        g1.edges.len() <= p < g2.edges.len() ==> (#[trigger] g2.edges[p]).to >= g1.nodes.len()
}

proof fn lemma_extends_refl(g: PlanGraphV)
    ensures
        graph_extends(g, g),
{
    assert(g.nodes.take(g.nodes.len() as int) =~= g.nodes);
    assert(g.edges.take(g.edges.len() as int) =~= g.edges);
}

proof fn lemma_extends_trans(a: PlanGraphV, b: PlanGraphV, c: PlanGraphV)
    requires
        graph_extends(a, b),
        graph_extends(b, c),
    ensures
        graph_extends(a, c),
{
    assert(c.nodes.take(a.nodes.len() as int) =~= b.nodes.take(a.nodes.len() as int));
    assert(c.edges.take(a.edges.len() as int) =~= b.edges.take(a.edges.len() as int));
    assert forall|p: int| a.edges.len() <= p < c.edges.len() implies (#[trigger] c.edges[p]).to
        >= a.nodes.len() by {
        if p < b.edges.len() {
            assert(c.edges[p] == b.edges.take(b.edges.len() as int)[p]);
            assert(c.edges[p] == b.edges[p]);
        }
    }
}

proof fn lemma_chain_extends(
    g: PlanGraphV,
    frontier: int,
    idprefix: Seq<char>,
    pairs: Map<Seq<char>, crate::operators::FunctionV>,
    template: Seq<char>,
    count: nat,
)
    ensures
        graph_extends(g, append_chain(g, frontier, idprefix, pairs, template, count)),
{
    let g2 = append_chain(g, frontier, idprefix, pairs, template, count);
    assert(g2.nodes.take(g.nodes.len() as int) =~= g.nodes);
    assert(g2.edges.take(g.edges.len() as int) =~= g.edges);
}

proof fn lemma_join_om_extends(
    g: PlanGraphV,
    doc: Seq<TriplesMap>,
    k: nat,
    pom_idx: int,
    t: int,
)
    ensures
        graph_extends(g, join_branch_om(g, doc, k, pom_idx, t)),
{
    let g2 = join_branch_om(g, doc, k, pom_idx, t);
    assert(g2.nodes.take(g.nodes.len() as int) =~= g.nodes);
    assert(g2.edges.take(g.edges.len() as int) =~= g.edges);
}

proof fn lemma_oms_upto_extends(
    g: PlanGraphV,
    doc: Seq<TriplesMap>,
    k: nat,
    pom_idx: int,
    t1: nat,
    t2: nat,
)
    requires
        t1 <= t2,
    ensures
        graph_extends(
            join_branch_oms_upto(g, doc, k, pom_idx, t1),
            join_branch_oms_upto(g, doc, k, pom_idx, t2),
        ),
    decreases t2 - t1,
{
    if t1 == t2 {
        lemma_extends_refl(join_branch_oms_upto(g, doc, k, pom_idx, t1));
    } else {
        lemma_oms_upto_extends(g, doc, k, pom_idx, t1, (t2 - 1) as nat);
        lemma_join_om_extends(
            join_branch_oms_upto(g, doc, k, pom_idx, (t2 - 1) as nat),
            doc,
            k,
            pom_idx,
            t2 - 1,
        );
        lemma_extends_trans(
            join_branch_oms_upto(g, doc, k, pom_idx, t1),
            join_branch_oms_upto(g, doc, k, pom_idx, (t2 - 1) as nat),
            join_branch_oms_upto(g, doc, k, pom_idx, t2),
        );
    }
}

proof fn lemma_branches_upto_extends(
    g: PlanGraphV,
    doc: Seq<TriplesMap>,
    k: nat,
    e1: nat,
    e2: nat,
)
    requires
        e1 <= e2,
    ensures
        graph_extends(
            join_branches_upto(g, doc, k, e1),
            join_branches_upto(g, doc, k, e2),
        ),
    decreases e2 - e1,
{
    if e1 == e2 {
        lemma_extends_refl(join_branches_upto(g, doc, k, e1));
    } else {
        let sel = join_pom_selection(doc[k as int].po_maps@);
        lemma_branches_upto_extends(g, doc, k, e1, (e2 - 1) as nat);
        lemma_oms_upto_extends(
            join_branches_upto(g, doc, k, (e2 - 1) as nat),
            doc,
            k,
            sel[e2 - 1].0,
            0,
            sel[e2 - 1].1.len() as nat,
        );
        lemma_extends_trans(
            join_branches_upto(g, doc, k, e1),
            join_branches_upto(g, doc, k, (e2 - 1) as nat),
            join_branches_upto(g, doc, k, e2),
        );
    }
}

proof fn lemma_tm_branches_extends(g: PlanGraphV, doc: Seq<TriplesMap>, k: nat)
    ensures
        graph_extends(g, tm_branches(g, doc, k)),
{
    let tm = doc[k as int];
    let g1 = if nonjoin_pom_selection(tm.po_maps@).len() > 0 {
        nonjoin_branch(g, tm, k)
    } else {
        g
    };
    if nonjoin_pom_selection(tm.po_maps@).len() > 0 {
        lemma_chain_extends(
            g,
            2 * (k as int) + 1,
            ("ExtendOp")@,
            entries_map(
                extend_entries(
                    tm_prefix(k),
                    tm.subject_map,
                    tm.po_maps@,
                    nonjoin_pom_selection(tm.po_maps@),
                ),
            ),
            crate::translate::template_for_selection(
                tm_prefix(k),
                tm.po_maps@,
                nonjoin_pom_selection(tm.po_maps@),
            ),
            k,
        );
    } else {
        lemma_extends_refl(g);
    }
    lemma_branches_upto_extends(g1, doc, k, 0, join_pom_selection(tm.po_maps@).len() as nat);
    lemma_extends_trans(g, g1, tm_branches(g, doc, k));
}

proof fn lemma_pass2_extends(g: PlanGraphV, doc: Seq<TriplesMap>, k1: nat, k2: nat)
    requires
        k1 <= k2,
    ensures
        graph_extends(pass2_upto(g, doc, k1), pass2_upto(g, doc, k2)),
    decreases k2 - k1,
{
    if k1 == k2 {
        lemma_extends_refl(pass2_upto(g, doc, k1));
    } else {
        lemma_pass2_extends(g, doc, k1, (k2 - 1) as nat);
        lemma_tm_branches_extends(pass2_upto(g, doc, (k2 - 1) as nat), doc, (k2 - 1) as nat);
        lemma_extends_trans(
            pass2_upto(g, doc, k1),
            pass2_upto(g, doc, (k2 - 1) as nat),
            pass2_upto(g, doc, k2),
        );
    }
}

// ------------------------------------------------------------------
// Join-free documents: independent chains
// ------------------------------------------------------------------

/// The chain a node index belongs to: each unit owns its source and
/// projection nodes (the first `2n`) and its three chain nodes after them.
pub open spec fn chain_of(n: nat, i: int) -> int {
    if i < 2 * n {
        i / 2
    } else {
        (i - 2 * n) / 3
    }
}

proof fn lemma_no_ptm_selections(poms: Seq<PredicateObjectMap>)
    requires
        forall|i: int, j: int|
            0 <= i < poms.len() && 0 <= j < (#[trigger] poms[i]).object_maps@.len() ==> (
            #[trigger] poms[i].object_maps@[j]).parent_tm is None,
    ensures
        join_pom_selection(poms) == Seq::<(int, Seq<int>)>::empty(),
        nonjoin_residual_selection(poms) == Seq::<(int, Seq<int>)>::empty(),
        nonjoin_primary_selection(poms).len() == poms.len(),
        nonjoin_pom_selection(poms).len() == poms.len(),
    decreases poms.len(),
{
    if poms.len() > 0 {
        assert forall|i: int, j: int|
            0 <= i < poms.drop_last().len() && 0 <= j < (
            #[trigger] poms.drop_last()[i]).object_maps@.len() implies (
        #[trigger] poms.drop_last()[i].object_maps@[j]).parent_tm is None by {
            assert(poms.drop_last()[i] == poms[i]);
        }
        lemma_no_ptm_selections(poms.drop_last());
        assert(!spec_contains_ptm(poms.last())) by {
            assert(forall|j: int|
                0 <= j < poms[poms.len() - 1].object_maps@.len() ==> (
                #[trigger] poms[poms.len() - 1].object_maps@[j]).parent_tm is None);
        }
    }
    assert(nonjoin_pom_selection(poms).len() == nonjoin_primary_selection(poms).len()
        + nonjoin_residual_selection(poms).len());
}

proof fn lemma_no_join_pass2(doc: Seq<TriplesMap>, k: nat)
    requires
        k <= doc.len(),
        forall|m: int, i: int, j: int|
            0 <= m < doc.len() && 0 <= i < (#[trigger] doc[m]).po_maps@.len() && 0 <= j < (
            #[trigger] doc[m].po_maps@[i]).object_maps@.len() ==> (
            #[trigger] doc[m].po_maps@[i].object_maps@[j]).parent_tm is None,
        forall|m: int| 0 <= m < doc.len() ==> (#[trigger] doc[m]).po_maps@.len() > 0,
    ensures
        pass2_upto(pass1_graph(doc), doc, k).nodes.len() == 2 * doc.len() + 3 * k,
        pass2_upto(pass1_graph(doc), doc, k).edges.len() == doc.len() + 3 * k,
        pass2_upto(pass1_graph(doc), doc, k).nodes.take(2 * doc.len() as int) == pass1_graph(
            doc,
        ).nodes,
        forall|e: int|
            0 <= e < doc.len() ==> #[trigger] pass2_upto(pass1_graph(doc), doc, k).edges[e]
                == mapping_edge(2 * e, 2 * e + 1),
        forall|t: int|
            #![trigger pass2_upto(pass1_graph(doc), doc, k).edges[doc.len() + 3 * t]]
            0 <= t < k ==> {
                let g = pass2_upto(pass1_graph(doc), doc, k);
                let n = doc.len() as int;
                &&& g.edges[n + 3 * t] == mapping_edge(2 * t + 1, 2 * n + 3 * t)
                &&& g.edges[n + 3 * t + 1] == mapping_edge(2 * n + 3 * t, 2 * n + 3 * t + 1)
                &&& g.edges[n + 3 * t + 2] == serialized_edge(
                    2 * n + 3 * t + 1,
                    2 * n + 3 * t + 2,
                )
                &&& g.nodes[2 * n + 3 * t].operator is ExtendOp
                &&& g.nodes[2 * n + 3 * t + 1].operator is SerializerOp
                &&& g.nodes[2 * n + 3 * t + 2].operator is TargetOp
            },
    decreases k,
{
    let n = doc.len() as int;
    if k == 0 {
        assert(pass1_graph(doc).nodes.take(2 * n) =~= pass1_graph(doc).nodes);
    } else {
        lemma_no_join_pass2(doc, (k - 1) as nat);
        let g0 = pass2_upto(pass1_graph(doc), doc, (k - 1) as nat);
        let tm = doc[k - 1];
        lemma_no_ptm_selections(tm.po_maps@);
        let g1 = nonjoin_branch(g0, tm, (k - 1) as nat);
        assert(tm_branches(g0, doc, (k - 1) as nat) == g1);
        assert(pass2_upto(pass1_graph(doc), doc, k) == g1);
        assert(g1.nodes.take(2 * n) =~= pass1_graph(doc).nodes);
        assert forall|t: int|
            #![trigger pass2_upto(pass1_graph(doc), doc, k).edges[doc.len() + 3 * t]]
            0 <= t < k implies {
            let g = pass2_upto(pass1_graph(doc), doc, k);
            &&& g.edges[n + 3 * t] == mapping_edge(2 * t + 1, 2 * n + 3 * t)
            &&& g.edges[n + 3 * t + 1] == mapping_edge(2 * n + 3 * t, 2 * n + 3 * t + 1)
            &&& g.edges[n + 3 * t + 2] == serialized_edge(2 * n + 3 * t + 1, 2 * n + 3 * t + 2)
            &&& g.nodes[2 * n + 3 * t].operator is ExtendOp
            &&& g.nodes[2 * n + 3 * t + 1].operator is SerializerOp
            &&& g.nodes[2 * n + 3 * t + 2].operator is TargetOp
        } by {
            if t < k - 1 {
                assert(g1.edges[n + 3 * t] == g0.edges[n + 3 * t]);
                assert(g1.edges[n + 3 * t + 1] == g0.edges[n + 3 * t + 1]);
                assert(g1.edges[n + 3 * t + 2] == g0.edges[n + 3 * t + 2]);
                assert(g1.nodes[2 * n + 3 * t] == g0.nodes[2 * n + 3 * t]);
                assert(g1.nodes[2 * n + 3 * t + 1] == g0.nodes[2 * n + 3 * t + 1]);
                assert(g1.nodes[2 * n + 3 * t + 2] == g0.nodes[2 * n + 3 * t + 2]);
            }
        }
    }
}

/// A document with no parent references and at least one predicate-object
/// map per unit translates to exactly one independent
/// `Source -> Project -> Extend -> Serialize -> Sink` chain per unit: five
/// nodes and four edges each, and every edge stays inside its own unit's
/// chain — there are no cross-chain edges.
pub proof fn lemma_no_join_independent_chains(doc: Seq<TriplesMap>)
    requires
        forall|m: int, i: int, j: int|
            0 <= m < doc.len() && 0 <= i < (#[trigger] doc[m]).po_maps@.len() && 0 <= j < (
            #[trigger] doc[m].po_maps@[i]).object_maps@.len() ==> (
            #[trigger] doc[m].po_maps@[i].object_maps@[j]).parent_tm is None,
        forall|m: int| 0 <= m < doc.len() ==> (#[trigger] doc[m]).po_maps@.len() > 0,
    ensures
        translated_graph(doc).nodes.len() == 5 * doc.len(),
        translated_graph(doc).edges.len() == 4 * doc.len(),
        forall|m: int|
            #![trigger translated_graph(doc).nodes[2 * m]]
            0 <= m < doc.len() ==> {
                let g = translated_graph(doc);
                let n = doc.len() as int;
                &&& g.nodes[2 * m].operator is SourceOp
                &&& g.nodes[2 * m + 1].operator is ProjectOp
                &&& g.nodes[2 * n + 3 * m].operator is ExtendOp
                &&& g.nodes[2 * n + 3 * m + 1].operator is SerializerOp
                &&& g.nodes[2 * n + 3 * m + 2].operator is TargetOp
            },
        forall|e: int|
            0 <= e < translated_graph(doc).edges.len() ==> chain_of(
                doc.len(),
                (#[trigger] translated_graph(doc).edges[e]).from,
            ) == chain_of(doc.len(), translated_graph(doc).edges[e].to),
{
    let n = doc.len() as int;
    lemma_no_join_pass2(doc, doc.len());
    let g = translated_graph(doc);
    assert forall|m: int|
        #![trigger translated_graph(doc).nodes[2 * m]]
        0 <= m < doc.len() implies {
        &&& g.nodes[2 * m].operator is SourceOp
        &&& g.nodes[2 * m + 1].operator is ProjectOp
        &&& g.nodes[2 * n + 3 * m].operator is ExtendOp
        &&& g.nodes[2 * n + 3 * m + 1].operator is SerializerOp
        &&& g.nodes[2 * n + 3 * m + 2].operator is TargetOp
    } by {
        assert(g == pass2_upto(pass1_graph(doc), doc, doc.len()));
        assert(pass2_upto(pass1_graph(doc), doc, doc.len()).nodes.take(2 * n) == pass1_graph(
            doc,
        ).nodes);
        assert(g.nodes[2 * m] == g.nodes.take(2 * n)[2 * m]);
        assert(g.nodes[2 * m + 1] == g.nodes.take(2 * n)[2 * m + 1]);
        assert(pass1_graph(doc).nodes[2 * m].operator is SourceOp);
        assert(pass1_graph(doc).nodes[2 * m + 1].operator is ProjectOp);
        assert(pass2_upto(pass1_graph(doc), doc, doc.len()).edges[doc.len() + 3 * m]
            == mapping_edge(2 * m + 1, 2 * n + 3 * m));
    }
    assert forall|e: int| 0 <= e < g.edges.len() implies chain_of(
        doc.len(),
        (#[trigger] g.edges[e]).from,
    ) == chain_of(doc.len(), g.edges[e].to) by {
        assert(g == pass2_upto(pass1_graph(doc), doc, doc.len()));
        if e < n {
            assert(g.edges[e] == mapping_edge(2 * e, 2 * e + 1));
        } else {
            let t = (e - n) / 3;
            assert(n + 3 * t <= e <= n + 3 * t + 2);
            assert(pass2_upto(pass1_graph(doc), doc, doc.len()).edges[doc.len() + 3 * t]
                == mapping_edge(2 * t + 1, 2 * n + 3 * t));
            assert(g.edges[n + 3 * t] == mapping_edge(2 * t + 1, 2 * n + 3 * t));
            assert(g.edges[n + 3 * t + 1] == mapping_edge(2 * n + 3 * t, 2 * n + 3 * t + 1));
            assert(g.edges[n + 3 * t + 2] == serialized_edge(
                2 * n + 3 * t + 1,
                2 * n + 3 * t + 2,
            ));
        }
    }
}

// ------------------------------------------------------------------
// Join fragments
// ------------------------------------------------------------------

/// The identifier lookup never reaches past the document.
pub proof fn lemma_tm_index_bound(doc: Seq<TriplesMap>, id: Seq<char>)
    ensures
        tm_index_of(doc, id) < doc.len(),
        -1 <= tm_index_of(doc, id),
    decreases doc.len(),
{
    if doc.len() > 0 {
        lemma_tm_index_bound(doc.drop_last(), id);
    }
}

/// For every parent-referencing object map of a translatable document, the
/// translated plan holds a join node carrying the alias `join_<parent
/// index>` and the join condition's key lists, with exactly two incoming
/// edges — one from the unit's own projection, one from the parent's — and
/// directly after it an extend node whose pairs bind the synthetic attribute
/// `<prefix>_o<pom>-<om>` to the alias-prefixed parent subject function.
/// The graph state just before the `t`-th join fragment of the `e`-th join
/// work entry of unit `k` is built.
pub open spec fn join_mid_graph(doc: Seq<TriplesMap>, k: int, e: int, t: nat) -> PlanGraphV {
    let tm = doc[k];
    let g_k = pass2_upto(pass1_graph(doc), doc, k as nat);
    let g1 = if nonjoin_pom_selection(tm.po_maps@).len() > 0 {
        nonjoin_branch(g_k, tm, k as nat)
    } else {
        g_k
    };
    join_branch_oms_upto(
        join_branches_upto(g1, doc, k as nat, e as nat),
        doc,
        k as nat,
        join_pom_selection(tm.po_maps@)[e].0,
        t,
    )
}

/// Every mid-state of a join work entry lies inside the whole translation.
proof fn lemma_join_mid_extends(doc: Seq<TriplesMap>, k: int, e: int, t: nat)
    requires
        0 <= k < doc.len(),
        0 <= e < join_pom_selection(doc[k].po_maps@).len(),
        t <= join_pom_selection(doc[k].po_maps@)[e].1.len(),
    ensures
        graph_extends(join_mid_graph(doc, k, e, t), translated_graph(doc)),
{
    let tm = doc[k];
    let sel = join_pom_selection(tm.po_maps@);
    let g_k = pass2_upto(pass1_graph(doc), doc, k as nat);
    let g1 = if nonjoin_pom_selection(tm.po_maps@).len() > 0 {
        nonjoin_branch(g_k, tm, k as nat)
    } else {
        g_k
    };
    let g_e = join_branches_upto(g1, doc, k as nat, e as nat);
    lemma_oms_upto_extends(g_e, doc, k as nat, sel[e].0, t, sel[e].1.len() as nat);
    assert(join_branches_upto(g1, doc, k as nat, (e + 1) as nat) == join_branch_oms_upto(
        g_e,
        doc,
        k as nat,
        sel[e].0,
        sel[e].1.len() as nat,
    ));
    lemma_branches_upto_extends(g1, doc, k as nat, (e + 1) as nat, sel.len() as nat);
    assert(join_branches_upto(g1, doc, k as nat, sel.len() as nat) == tm_branches(
        g_k,
        doc,
        k as nat,
    ));
    assert(tm_branches(g_k, doc, k as nat) == pass2_upto(
        pass1_graph(doc),
        doc,
        (k + 1) as nat,
    ));
    lemma_pass2_extends(pass1_graph(doc), doc, (k + 1) as nat, doc.len());
    lemma_extends_trans(
        join_mid_graph(doc, k, e, t),
        join_branch_oms_upto(g_e, doc, k as nat, sel[e].0, sel[e].1.len() as nat),
        pass2_upto(pass1_graph(doc), doc, (k + 1) as nat),
    );
    lemma_extends_trans(
        join_mid_graph(doc, k, e, t),
        pass2_upto(pass1_graph(doc), doc, (k + 1) as nat),
        translated_graph(doc),
    );
}

/// Every mid-state of a join work entry is well-formed and at least as large
/// as the first pass.
proof fn lemma_join_mid_wf(doc: Seq<TriplesMap>, k: int, e: int, t: nat)
    requires
        doc_translatable(doc),
        0 <= k < doc.len(),
        0 <= e < join_pom_selection(doc[k].po_maps@).len(),
        t <= join_pom_selection(doc[k].po_maps@)[e].1.len(),
    ensures
        join_mid_graph(doc, k, e, t).wf(),
        2 * doc.len() <= join_mid_graph(doc, k, e, t).nodes.len(),
{
    lemma_pass2_wf(pass1_graph(doc), doc, k as nat);
    lemma_tm_wf_chain(
        pass2_upto(pass1_graph(doc), doc, k as nat),
        doc,
        k as nat,
        e as nat,
        t,
    );
}

/// For every parent-referencing object map of a translatable document, the
/// translated plan holds a join node carrying the alias `join_<parent
/// index>` and the join condition's key lists, with exactly two incoming
/// edges — one from the unit's own projection, one from the parent's — and
/// directly after it an extend node whose pairs bind the synthetic attribute
/// `<prefix>_o<pom>-<om>` to the alias-prefixed parent subject function.
#[verifier::rlimit(100)]
pub proof fn lemma_join_fragment_shape(
    doc: Seq<TriplesMap>,
    k: int,
    e: int,
    t: int,
)
    requires
        doc_translatable(doc),
        0 <= k < doc.len(),
        0 <= e < join_pom_selection(doc[k].po_maps@).len(),
        0 <= t < join_pom_selection(doc[k].po_maps@)[e].1.len(),
    ensures
        ({
            let g = translated_graph(doc);
            let sel = join_pom_selection(doc[k].po_maps@);
            let om = om_at(doc[k], sel, e, t);
            let pidx = tm_index_of(doc, opt_str_view(om.parent_tm));
            exists|c: int, q: int|
                #![trigger translated_graph(doc).nodes[c], translated_graph(doc).edges[q]]
                {
                    &&& 0 <= c < g.nodes.len()
                    &&& 0 <= q
                    &&& q + 1 < g.edges.len()
                    &&& g.nodes[c].operator == (OperatorV::JoinOp {
                        alias: join_alias(pidx as nat),
                        child_attributes: crate::attrset::strs_view(
                            crate::translate::join_condition_of(om).child_attributes@,
                        ),
                        parent_attributes: crate::attrset::strs_view(
                            crate::translate::join_condition_of(om).parent_attributes@,
                        ),
                    })
                    &&& g.edges[q] == mapping_edge(2 * k + 1, c)
                    &&& g.edges[q + 1] == mapping_edge(2 * pidx + 1, c)
                    &&& (forall|p: int|
                        0 <= p < g.edges.len() && (#[trigger] g.edges[p]).to == c ==> p == q
                            || p == q + 1)
                    &&& c + 1 < g.nodes.len()
                    &&& g.nodes[c + 1].operator == (OperatorV::ExtendOp {
                        pairs: entries_map(
                            extend_entries(
                                tm_prefix(k as nat),
                                doc[k].subject_map,
                                doc[k].po_maps@,
                                seq![(sel[e].0, seq![sel[e].1[t]])],
                            ).push(
                                (
                                    om_attr(tm_prefix(k as nat), sel[e].0 as nat, t as nat),
                                    prefixed_term_func(
                                        doc[pidx].subject_map.tm_info,
                                        join_alias(pidx as nat),
                                    ),
                                ),
                            ),
                        ),
                    })
                }
        }),
{
    let g = translated_graph(doc);
    let sel = join_pom_selection(doc[k].po_maps@);
    let om = om_at(doc[k], sel, e, t);
    let pidx = tm_index_of(doc, opt_str_view(om.parent_tm));
    let g_t = join_mid_graph(doc, k, e, t as nat);
    let g_om = join_branch_om(g_t, doc, k as nat, sel[e].0, t);
    assert(g_om == join_mid_graph(doc, k, e, (t + 1) as nat));
    let c = g_t.nodes.len() as int;
    let q = g_t.edges.len() as int;
    crate::translate::lemma_join_selection(doc[k].po_maps@);
    crate::translate::lemma_om_idxs_with_parent(
        doc[k].po_maps@[sel[e].0].object_maps@,
        true,
    );
    lemma_join_mid_extends(doc, k, e, (t + 1) as nat);
    lemma_join_mid_wf(doc, k, e, t as nat);
    assert(graph_extends(g_om, g));
    assert(g.nodes[c] == g_om.nodes.take(g_om.nodes.len() as int)[c]);
    assert(g.nodes[c] == g_om.nodes[c]);
    assert(g.nodes[c + 1] == g_om.nodes[c + 1]);
    assert(g.edges[q] == g_om.edges[q]);
    assert(g.edges[q + 1] == g_om.edges[q + 1]);
    assert(g.edges[q] == mapping_edge(2 * k + 1, c));
    assert(g.edges[q + 1] == mapping_edge(2 * pidx + 1, c));
    assert(g_om.edges[q + 2] == mapping_edge(c, c + 1));
    assert(g_om.edges[q + 3] == mapping_edge(c + 1, c + 2));
    assert(g_om.edges[q + 4] == serialized_edge(c + 2, c + 3));
    assert(g_om.edges.len() == q + 5);
    assert forall|p: int| 0 <= p < g.edges.len() && (#[trigger] g.edges[p]).to == c implies p
        == q || p == q + 1 by {
        if p < g_om.edges.len() {
            assert(g.edges[p] == g.edges.take(g_om.edges.len() as int)[p]);
            assert(g.edges[p] == g_om.edges[p]);
            if p < q {
                assert(g_om.edges[p] == g_t.edges[p]);
                assert(g_t.wf());
                assert(forall|e2: int|
                    0 <= e2 < g_t.edges.len() ==> 0 <= (#[trigger] g_t.edges[e2]).from
                        < g_t.nodes.len() && 0 <= g_t.edges[e2].to < g_t.nodes.len());
                assert(0 <= g_t.edges[p].to < g_t.nodes.len());
            }
        } else {
            assert(g.edges[p].to >= g_om.nodes.len());
        }
    }
    assert(0 <= c < g.nodes.len() && 0 <= q && q + 1 < g.edges.len() && g.nodes[c].operator
        == (OperatorV::JoinOp {
        alias: join_alias(pidx as nat),
        child_attributes: crate::attrset::strs_view(
            crate::translate::join_condition_of(om).child_attributes@,
        ),
        parent_attributes: crate::attrset::strs_view(
            crate::translate::join_condition_of(om).parent_attributes@,
        ),
    }) && g.edges[q] == mapping_edge(2 * k + 1, c) && g.edges[q + 1] == mapping_edge(
        2 * pidx + 1,
        c,
    ) && c + 1 < g.nodes.len() && g.nodes[c + 1].operator == (OperatorV::ExtendOp {
        pairs: entries_map(
            extend_entries(
                tm_prefix(k as nat),
                doc[k].subject_map,
                doc[k].po_maps@,
                seq![(sel[e].0, seq![sel[e].1[t]])],
            ).push(
                (
                    om_attr(tm_prefix(k as nat), sel[e].0 as nat, t as nat),
                    prefixed_term_func(doc[pidx].subject_map.tm_info, join_alias(pidx as nat)),
                ),
            ),
        ),
    }));
}

/// The first pass yields a well-formed graph.
proof fn lemma_pass1_wf(doc: Seq<TriplesMap>)
    ensures
        pass1_graph(doc).wf(),
        pass1_graph(doc).nodes.len() == 2 * doc.len(),
{
}

proof fn lemma_chain_wf(
    g: PlanGraphV,
    frontier: int,
    idprefix: Seq<char>,
    pairs: Map<Seq<char>, crate::operators::FunctionV>,
    template: Seq<char>,
    count: nat,
)
    requires
        g.wf(),
        0 <= frontier < g.nodes.len(),
    ensures
        append_chain(g, frontier, idprefix, pairs, template, count).wf(),
{
    let g2 = append_chain(g, frontier, idprefix, pairs, template, count);
    assert forall|p: int| 0 <= p < g2.edges.len() implies 0 <= #[trigger] g2.edges[p].from
        < g2.nodes.len() && 0 <= g2.edges[p].to < g2.nodes.len() by {
        if p < g.edges.len() {
            assert(g2.edges[p] == g.edges[p]);
        }
    }
}

#[verifier::rlimit(100)]
proof fn lemma_join_om_wf(
    g: PlanGraphV,
    doc: Seq<TriplesMap>,
    k: nat,
    pom_idx: int,
    t: int,
)
    requires
        g.wf(),
        k < doc.len(),
        2 * doc.len() <= g.nodes.len(),
        0 <= pom_idx < doc[k as int].po_maps@.len(),
        0 <= t < om_idxs_with_parent(doc[k as int].po_maps@[pom_idx].object_maps@, true).len(),
        tm_index_of(
            doc,
            opt_str_view(
                doc[k as int].po_maps@[pom_idx].object_maps@[om_idxs_with_parent(
                    doc[k as int].po_maps@[pom_idx].object_maps@,
                    true,
                )[t]].parent_tm,
            ),
        ) >= 0,
    ensures
        join_branch_om(g, doc, k, pom_idx, t).wf(),
{
    let tm = doc[k as int];
    let pom = tm.po_maps@[pom_idx];
    let omsel = om_idxs_with_parent(pom.object_maps@, true);
    let om = pom.object_maps@[omsel[t]];
    let pidx = tm_index_of(doc, opt_str_view(om.parent_tm));
    lemma_tm_index_bound(doc, opt_str_view(om.parent_tm));
    let c = g.nodes.len() as int;
    let g2 = join_branch_om(g, doc, k, pom_idx, t);
    assert(g2.nodes.len() == c + 4);
    assert(g2.edges.len() == g.edges.len() + 5);
    let q = g.edges.len() as int;
    assert(g2.edges[q] == mapping_edge(2 * (k as int) + 1, c));
    assert(g2.edges[q + 1] == mapping_edge(2 * pidx + 1, c));
    assert(g2.edges[q + 2] == mapping_edge(c, c + 1));
    assert(g2.edges[q + 3] == mapping_edge(c + 1, c + 2));
    assert(g2.edges[q + 4] == serialized_edge(c + 2, c + 3));
    assert forall|p: int| 0 <= p < g2.edges.len() implies 0 <= #[trigger] g2.edges[p].from
        < g2.nodes.len() && 0 <= g2.edges[p].to < g2.nodes.len() by {
        if p < g.edges.len() {
            assert(g2.edges[p] == g.edges[p]);
        }
    }
}

#[verifier::rlimit(100)]
proof fn lemma_tm_wf_chain(g_k: PlanGraphV, doc: Seq<TriplesMap>, k: nat, e: nat, t: nat)
    requires
        doc_translatable(doc),
        g_k.wf(),
        2 * doc.len() <= g_k.nodes.len(),
        k < doc.len(),
        e <= join_pom_selection(doc[k as int].po_maps@).len(),
        e < join_pom_selection(doc[k as int].po_maps@).len() ==> t <= join_pom_selection(
            doc[k as int].po_maps@,
        )[e as int].1.len(),
        e == join_pom_selection(doc[k as int].po_maps@).len() ==> t == 0,
    ensures
        ({
            let tm = doc[k as int];
            let g1 = if nonjoin_pom_selection(tm.po_maps@).len() > 0 {
                nonjoin_branch(g_k, tm, k)
            } else {
                g_k
            };
            join_branch_oms_upto(
                join_branches_upto(g1, doc, k, e),
                doc,
                k,
                if e < join_pom_selection(tm.po_maps@).len() {
                    join_pom_selection(tm.po_maps@)[e as int].0
                } else {
                    0
                },
                t,
            ).wf() && 2 * doc.len() <= join_branch_oms_upto(
                join_branches_upto(g1, doc, k, e),
                doc,
                k,
                if e < join_pom_selection(tm.po_maps@).len() {
                    join_pom_selection(tm.po_maps@)[e as int].0
                } else {
                    0
                },
                t,
            ).nodes.len()
        }),
    decreases e, t,
{
    let tm = doc[k as int];
    let sel = join_pom_selection(tm.po_maps@);
    crate::translate::lemma_join_selection(tm.po_maps@);
    let g1 = if nonjoin_pom_selection(tm.po_maps@).len() > 0 {
        nonjoin_branch(g_k, tm, k)
    } else {
        g_k
    };
    if nonjoin_pom_selection(tm.po_maps@).len() > 0 {
        lemma_chain_wf(
            g_k,
            2 * (k as int) + 1,
            ("ExtendOp")@,
            entries_map(
                extend_entries(
                    tm_prefix(k),
                    tm.subject_map,
                    tm.po_maps@,
                    nonjoin_pom_selection(tm.po_maps@),
                ),
            ),
            crate::translate::template_for_selection(
                tm_prefix(k),
                tm.po_maps@,
                nonjoin_pom_selection(tm.po_maps@),
            ),
            k,
        );
    }
    if t == 0 {
        if e == 0 {
        } else {
            lemma_tm_wf_chain(
                g_k,
                doc,
                k,
                (e - 1) as nat,
                sel[e as int - 1].1.len() as nat,
            );
            assert(join_branches_upto(g1, doc, k, e) == join_branch_oms_upto(
                join_branches_upto(g1, doc, k, (e - 1) as nat),
                doc,
                k,
                sel[e as int - 1].0,
                sel[e as int - 1].1.len() as nat,
            ));
        }
    } else {
        lemma_tm_wf_chain(g_k, doc, k, e, (t - 1) as nat);
        assert(crate::translate::tm_ok(doc, doc[k as int]));
        assert(crate::translate::join_om_all_ok(doc, doc[k as int], e as int, t as int - 1));
        lemma_join_om_wf(
            join_branch_oms_upto(
                join_branches_upto(g1, doc, k, e),
                doc,
                k,
                sel[e as int].0,
                (t - 1) as nat,
            ),
            doc,
            k,
            sel[e as int].0,
            t as int - 1,
        );
    }
}

/// The graph stays well-formed through the whole second pass.
proof fn lemma_pass2_wf(g: PlanGraphV, doc: Seq<TriplesMap>, k: nat)
    requires
        g == pass1_graph(doc),
        doc_translatable(doc),
        k <= doc.len(),
    ensures
        pass2_upto(g, doc, k).wf(),
        2 * doc.len() <= pass2_upto(g, doc, k).nodes.len(),
        pass2_upto(g, doc, k).nodes.take(2 * doc.len() as int) == pass1_graph(doc).nodes,
    decreases k,
{
    lemma_pass1_wf(doc);
    if k == 0 {
        assert(pass1_graph(doc).nodes.take(2 * doc.len() as int) =~= pass1_graph(doc).nodes);
    } else {
        lemma_pass2_wf(g, doc, (k - 1) as nat);
        let g0 = pass2_upto(g, doc, (k - 1) as nat);
        lemma_tm_wf_chain(
            g0,
            doc,
            (k - 1) as nat,
            join_pom_selection(doc[k - 1].po_maps@).len() as nat,
            0,
        );
        lemma_extends_refl(g0);
        assert(tm_branches(g0, doc, (k - 1) as nat).wf());
        lemma_tm_branches_extends(g0, doc, (k - 1) as nat);
        assert(pass2_upto(g, doc, k).nodes.take(2 * doc.len() as int) =~= pass1_graph(
            doc,
        ).nodes);
    }
}

} // verus!
