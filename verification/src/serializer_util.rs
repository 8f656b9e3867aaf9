//! Serialization of grouped triples into unterminated triple pattern
//! strings: one line per subject class and one per predicate/object pair,
//! each referencing the variable bound to the term map's identifier.

use vstd::prelude::*;
use vstd::string::StringExecFns;

use crate::attrset::strs_view;
use crate::model::ObjectMap;
use crate::model::PredicateMap;
use crate::model::TermMapInfo;
use crate::strmap::StrMap;

verus! {

/// The subject map of a grouped triples set, with the classes asserted of
/// every subject.
pub struct ClassedSubjectMap {
    pub tm_info: TermMapInfo,
    pub classes: Vec<String>,
}

/// One predicate/object grouping of a triples set.
pub struct QuadPom {
    pub pm: Vec<PredicateMap>,
    pub om: Vec<ObjectMap>,
}

/// The triples of one grouped emission unit.
pub struct Triples {
    pub sm: ClassedSubjectMap,
    pub poms: Vec<QuadPom>,
}

/// One grouped emission unit.
pub struct Quads {
    pub triples: Triples,
}

/// The class pattern lines: `<subject variable> a <class>`.
pub open spec fn class_lines(sm_var: Seq<char>, classes: Seq<String>) -> Seq<Seq<char>> {
    Seq::new(classes.len(), |i: int| sm_var + (" a ")@ + classes[i]@)
}

/// The pattern lines of one predicate variable against the first `t` object
/// maps: `<subject variable> <predicate variable> <object variable>`.
pub open spec fn quad_lines_for_pm(
    vm: Map<Seq<char>, Seq<char>>,
    sm_var: Seq<char>,
    pm_var: Seq<char>,
    oms: Seq<ObjectMap>,
    t: nat,
) -> Seq<Seq<char>>
    decreases t,
{
    if t == 0 {
        seq![]
    } else {
        quad_lines_for_pm(vm, sm_var, pm_var, oms, (t - 1) as nat).push(
            sm_var + (" ")@ + pm_var + (" ")@ + vm[oms[t - 1].tm_info.identifier@],
        )
    }
}

/// The pattern lines of the first `p` predicate maps of one grouping, each
/// against all of its object maps.
pub open spec fn quad_lines_for_pom(
    vm: Map<Seq<char>, Seq<char>>,
    sm_var: Seq<char>,
    pms: Seq<PredicateMap>,
    oms: Seq<ObjectMap>,
    p: nat,
) -> Seq<Seq<char>>
    decreases p,
{
    if p == 0 {
        seq![]
    } else {
        quad_lines_for_pom(vm, sm_var, pms, oms, (p - 1) as nat) + quad_lines_for_pm(
            vm,
            sm_var,
            vm[pms[p - 1].tm_info.identifier@],
            oms,
            oms.len(),
        )
    }
}

/// The pattern lines of all groupings, in order.
pub open spec fn quad_lines(
    vm: Map<Seq<char>, Seq<char>>,
    sm_var: Seq<char>,
    poms: Seq<QuadPom>,
) -> Seq<Seq<char>>
    decreases poms.len(),
{
    if poms.len() == 0 {
        seq![]
    } else {
        quad_lines(vm, sm_var, poms.drop_last()) + quad_lines_for_pom(
            vm,
            sm_var,
            poms.last().pm@,
            poms.last().om@,
            poms.last().pm@.len(),
        )
    }
}

/// Every term-map identifier of the unit is bound in the variable map.
pub open spec fn quads_vars_present(quad: Quads, vm: Map<Seq<char>, Seq<char>>) -> bool {
    &&& vm.contains_key(quad.triples.sm.tm_info.identifier@)
    &&& forall|j: int, p: int|
        0 <= j < quad.triples.poms@.len() && 0 <= p < quad.triples.poms@[j].pm@.len()
            ==> vm.contains_key(
            (#[trigger] quad.triples.poms@[j].pm@[p]).tm_info.identifier@,
        )
    &&& forall|j: int, o: int|
        0 <= j < quad.triples.poms@.len() && 0 <= o < quad.triples.poms@[j].om@.len()
            ==> vm.contains_key(
            (#[trigger] quad.triples.poms@[j].om@[o]).tm_info.identifier@,
        )
}

/// The unterminated triple pattern strings of one grouped unit: the class
/// lines of its subject, then, per grouping, one line per predicate/object
/// pair, all referencing the variables bound to the term-map identifiers.
pub fn unterminated_triple_strings(quad: &Quads, variable_map: &StrMap) -> (r: Vec<String>)
    requires
        quads_vars_present(*quad, variable_map@),
    ensures
        strs_view(r@) == class_lines(
            variable_map@[quad.triples.sm.tm_info.identifier@],
            quad.triples.sm.classes@,
        ) + quad_lines(
            variable_map@,
            variable_map@[quad.triples.sm.tm_info.identifier@],
            quad.triples.poms@,
        ),
{
    proof {
        assert(variable_map@.contains_key(quad.triples.sm.tm_info.identifier@));
    }
    let mut result: Vec<String> = Vec::new();
    let sm_var = match variable_map.get(&quad.triples.sm.tm_info.identifier) {
        Some(v) => v,
        None => vstd::pervasive::unreached(),
    };
    let ghost smv = sm_var@;
    let cls_cnt = quad.triples.sm.classes.len();
    let mut i: usize = 0;
    proof {
        assert(strs_view(result@) =~= class_lines(smv, quad.triples.sm.classes@).take(0));
    }
    while i < cls_cnt
        invariant
            i <= cls_cnt,
            cls_cnt == quad.triples.sm.classes@.len(),
            sm_var@ == smv,
            strs_view(result@) == class_lines(smv, quad.triples.sm.classes@).take(i as int),
        decreases cls_cnt - i,
    {
        let mut line = sm_var.clone();
        line.append(" a ");
        line.append(quad.triples.sm.classes[i].as_str());
        let ghost before = result@;
        result.push(line);
        proof {
            assert(strs_view(result@) =~= strs_view(before).push(
                smv + (" a ")@ + quad.triples.sm.classes@[i as int]@,
            ));
            assert(strs_view(result@) =~= class_lines(smv, quad.triples.sm.classes@).take(
                i + 1,
            ));
        }
        i = i + 1;
    }
    proof {
        assert(class_lines(smv, quad.triples.sm.classes@).take(cls_cnt as int) =~= class_lines(
            smv,
            quad.triples.sm.classes@,
        ));
    }
    let ghost cls_part = class_lines(smv, quad.triples.sm.classes@);
    let pom_cnt = quad.triples.poms.len();
    let mut j: usize = 0;
    proof {
        assert(strs_view(result@) =~= cls_part + quad_lines(
            variable_map@,
            smv,
            quad.triples.poms@.take(0),
        ));
    }
    while j < pom_cnt
        invariant
            j <= pom_cnt,
            pom_cnt == quad.triples.poms@.len(),
            sm_var@ == smv,
            quads_vars_present(*quad, variable_map@),
            cls_part == class_lines(smv, quad.triples.sm.classes@),
            strs_view(result@) == cls_part + quad_lines(
                variable_map@,
                smv,
                quad.triples.poms@.take(j as int),
            ),
        decreases pom_cnt - j,
    {
        let pom = &quad.triples.poms[j];
        let ghost base = strs_view(result@);
        let p_cnt = pom.pm.len();
        let mut p: usize = 0;
        proof {
            assert(base + quad_lines_for_pom(variable_map@, smv, pom.pm@, pom.om@, 0)
                =~= base);
        }
        while p < p_cnt
            invariant
                p <= p_cnt,
                j < pom_cnt,
                pom_cnt == quad.triples.poms@.len(),
                p_cnt == pom.pm@.len(),
                *pom == quad.triples.poms@[j as int],
                sm_var@ == smv,
                quads_vars_present(*quad, variable_map@),
                strs_view(result@) == base + quad_lines_for_pom(
                    variable_map@,
                    smv,
                    pom.pm@,
                    pom.om@,
                    p as nat,
                ),
            decreases p_cnt - p,
        {
            let pm_var = match variable_map.get(&pom.pm[p].tm_info.identifier) {
                Some(v) => v,
                None => vstd::pervasive::unreached(),
            };
            let ghost pmv = pm_var@;
            let ghost base2 = strs_view(result@);
            let o_cnt = pom.om.len();
            let mut o: usize = 0;
            while o < o_cnt
                invariant
                    o <= o_cnt,
                    j < pom_cnt,
                    pom_cnt == quad.triples.poms@.len(),
                    o_cnt == pom.om@.len(),
                    *pom == quad.triples.poms@[j as int],
                    sm_var@ == smv,
                    pm_var@ == pmv,
                    quads_vars_present(*quad, variable_map@),
                    strs_view(result@) == base2 + quad_lines_for_pm(
                        variable_map@,
                        smv,
                        pmv,
                        pom.om@,
                        o as nat,
                    ),
                decreases o_cnt - o,
            {
                let om_var = match variable_map.get(&pom.om[o].tm_info.identifier) {
                    Some(v) => v,
                    None => vstd::pervasive::unreached(),
                };
                let mut line = sm_var.clone();
                line.append(" ");
                line.append(pm_var.as_str());
                line.append(" ");
                line.append(om_var.as_str());
                let ghost before = result@;
                result.push(line);
                proof {
                    assert(strs_view(result@) =~= strs_view(before).push(
                        smv + (" ")@ + pmv + (" ")@ + variable_map@[pom.om@[o as int].tm_info.identifier@],
                    ));
                    assert(strs_view(result@) =~= base2 + quad_lines_for_pm(
                        variable_map@,
                        smv,
                        pmv,
                        pom.om@,
                        (o + 1) as nat,
                    ));
                }
                o = o + 1;
            }
            proof {
                assert(strs_view(result@) =~= base + quad_lines_for_pom(
                    variable_map@,
                    smv,
                    pom.pm@,
                    pom.om@,
                    (p + 1) as nat,
                ));
            }
            p = p + 1;
        }
        proof {
            assert(quad.triples.poms@.take(j + 1).drop_last() =~= quad.triples.poms@.take(
                j as int,
            ));
            assert(quad.triples.poms@.take(j + 1).last() == quad.triples.poms@[j as int]);
            assert(strs_view(result@) =~= cls_part + quad_lines(
                variable_map@,
                smv,
                quad.triples.poms@.take(j + 1),
            ));
        }
        j = j + 1;
    }
    proof {
        assert(quad.triples.poms@.take(pom_cnt as int) =~= quad.triples.poms@);
    }
    result
}

} // verus!
