//! In-memory model of a mapping document: triples maps, term maps,
//! predicate-object maps and join conditions. A document of this shape is the
//! translator's input; parsing mapping-document syntax into it is outside the
//! library.

use vstd::prelude::*;
use vstd::string::StrSliceExecFns;
use vstd::string::StringExecFns;

verus! {

/// How a term map derives its value from a source record.
#[derive(Clone, Copy, PartialEq, Eq, Structural, Debug)]
pub enum TermMapType {
    Constant,
    Reference,
    Template,
}

/// The kind of graph term a term map produces. `Variable` is carried by some
/// mapping dialects but is not a kind this translator can emit.
#[derive(Clone, Copy, PartialEq, Eq, Structural, Debug)]
pub enum TermKind {
    Iri,
    Literal,
    BlankNode,
    Variable,
}

/// One term map: how a single term value is derived.
pub struct TermMapInfo {
    pub identifier: String,
    pub term_map_type: TermMapType,
    pub term_value: String,
    pub term_type: Option<TermKind>,
}

/// Scan of a template value outside a placeholder: collects the names between
/// `{` and `}`, in order. An unterminated placeholder contributes nothing.
pub open spec fn template_attrs_outside(s: Seq<char>) -> Seq<Seq<char>>
    decreases s.len(),
{
    if s.len() == 0 {
        seq![]
    } else if s.first() == '{' {
        template_attrs_inside(s.drop_first(), seq![])
    } else {
        template_attrs_outside(s.drop_first())
    }
}

/// Scan of a template value inside a placeholder whose name so far is `cur`.
pub open spec fn template_attrs_inside(s: Seq<char>, cur: Seq<char>) -> Seq<Seq<char>>
    decreases s.len(),
{
    if s.len() == 0 {
        seq![]
    } else if s.first() == '}' {
        seq![cur] + template_attrs_outside(s.drop_first())
    } else {
        template_attrs_inside(s.drop_first(), cur.push(s.first()))
    }
}

/// The placeholder names of a template value, in order of occurrence.
pub open spec fn template_attr_names(s: Seq<char>) -> Seq<Seq<char>> {
    template_attrs_outside(s)
}

/// The source attributes a term map reads: the placeholder names for a
/// template, the whole value for a reference, nothing for a constant.
pub open spec fn tm_info_attrs(info: TermMapInfo) -> Set<Seq<char>> {
    match info.term_map_type {
        TermMapType::Constant => Set::empty(),
        TermMapType::Reference => Set::empty().insert(info.term_value@),
        TermMapType::Template => template_attr_names(info.term_value@).to_set(),
    }
}

/// Collects the placeholder names of `s`, in order of occurrence.
fn scan_template_attrs(s: &str) -> (r: Vec<String>)
    ensures
        crate::attrset::strs_view(r@) == template_attr_names(s@),
{
    let n = s.unicode_len();
    let mut collected: Vec<String> = Vec::new();
    let mut cur: String = String::new();
    let mut inside: bool = false;
    let mut i: usize = 0;
    proof {
        assert(s@.skip(0) =~= s@);
        assert(crate::attrset::strs_view(collected@) + template_attrs_outside(s@)
            =~= template_attrs_outside(s@));
    }
    while i < n
        invariant
            i <= n,
            n == s@.len(),
            !inside ==> template_attr_names(s@) == crate::attrset::strs_view(collected@)
                + template_attrs_outside(s@.skip(i as int)),
            inside ==> template_attr_names(s@) == crate::attrset::strs_view(collected@)
                + template_attrs_inside(s@.skip(i as int), cur@),
        decreases n - i,
    {
        let c = s.get_char(i);
        proof {
            assert(s@.skip(i as int).len() == n - i);
            assert(s@.skip(i as int).first() == s@[i as int]);
            assert(s@.skip(i as int).drop_first() =~= s@.skip(i as int + 1));
        }
        if !inside {
            if c == '{' {
                inside = true;
                cur = String::new();
                proof {
                    assert(cur@ =~= Seq::<char>::empty());
                    assert(template_attrs_inside(s@.skip(i as int + 1), seq![])
                        == template_attrs_inside(s@.skip(i as int + 1), cur@));
                }
            }
        } else {
            if c == '}' {
                inside = false;
                let ghost before = collected@;
                let ghost cur_view = cur@;
                collected.push(cur);
                cur = String::new();
                proof {
                    assert(crate::attrset::strs_view(collected@) =~= crate::attrset::strs_view(
                        before,
                    ).push(cur_view));
                    assert(crate::attrset::strs_view(before) + (seq![cur_view]
                        + template_attrs_outside(s@.skip(i as int + 1)))
                        =~= crate::attrset::strs_view(collected@) + template_attrs_outside(
                        s@.skip(i as int + 1),
                    ));
                }
            } else {
                let ghost cur_before = cur@;
                let piece = s.substring_char(i, i + 1);
                cur.append(piece);
                proof {
                    assert(s@.subrange(i as int, i as int + 1) =~= seq![s@[i as int]]);
                    assert(cur@ =~= cur_before.push(s@[i as int]));
                }
            }
        }
        i = i + 1;
    }
    proof {
        assert(s@.skip(n as int) =~= Seq::<char>::empty());
        if inside {
            assert(template_attr_names(s@) =~= crate::attrset::strs_view(collected@));
        } else {
            assert(template_attr_names(s@) =~= crate::attrset::strs_view(collected@));
        }
    }
    collected
}

/// The prefixed form of a reference value: `<prefix>_<value>`.
pub open spec fn prefixed_reference(prefix: Seq<char>, value: Seq<char>) -> Seq<char> {
    prefix + seq!['_'] + value
}

/// Rewrite of a template value outside a placeholder: each `{name}` becomes
/// `{<prefix>_name}`; everything else is copied.
pub open spec fn prefixed_template_outside(s: Seq<char>, prefix: Seq<char>) -> Seq<char>
    decreases s.len(),
{
    if s.len() == 0 {
        seq![]
    } else if s.first() == '{' {
        seq!['{'] + prefix + seq!['_'] + prefixed_template_inside(s.drop_first(), prefix)
    } else {
        seq![s.first()] + prefixed_template_outside(s.drop_first(), prefix)
    }
}

/// Rewrite of a template value inside a placeholder: copied until the
/// closing brace.
pub open spec fn prefixed_template_inside(s: Seq<char>, prefix: Seq<char>) -> Seq<char>
    decreases s.len(),
{
    if s.len() == 0 {
        seq![]
    } else if s.first() == '}' {
        seq!['}'] + prefixed_template_outside(s.drop_first(), prefix)
    } else {
        seq![s.first()] + prefixed_template_inside(s.drop_first(), prefix)
    }
}

/// The term value after prefixing every attribute the term map reads.
pub open spec fn prefixed_value(t: TermMapType, prefix: Seq<char>, value: Seq<char>) -> Seq<
    char,
> {
    match t {
        TermMapType::Constant => value,
        TermMapType::Reference => prefixed_reference(prefix, value),
        TermMapType::Template => prefixed_template_outside(value, prefix),
    }
}

/// Rewrites each placeholder name of template `s` to `<prefix>_name`.
fn prefix_template(s: &str, prefix: &str) -> (r: String)
    ensures
        r@ == prefixed_template_outside(s@, prefix@),
{
    let n = s.unicode_len();
    let mut out: String = String::new();
    let mut inside: bool = false;
    let mut i: usize = 0;
    proof {
        assert(s@.skip(0) =~= s@);
        assert(out@ + prefixed_template_outside(s@, prefix@) =~= prefixed_template_outside(
            s@,
            prefix@,
        ));
    }
    while i < n
        invariant
            i <= n,
            n == s@.len(),
            !inside ==> prefixed_template_outside(s@, prefix@) == out@
                + prefixed_template_outside(s@.skip(i as int), prefix@),
            inside ==> prefixed_template_outside(s@, prefix@) == out@
                + prefixed_template_inside(s@.skip(i as int), prefix@),
        decreases n - i,
    {
        let c = s.get_char(i);
        proof {
            reveal_strlit("{");
            reveal_strlit("}");
            reveal_strlit("_");
            assert(s@.skip(i as int).len() == n - i);
            assert(s@.skip(i as int).first() == s@[i as int]);
            assert(s@.skip(i as int).drop_first() =~= s@.skip(i as int + 1));
            assert(("{")@ =~= seq!['{']);
            assert(("}")@ =~= seq!['}']);
            assert(("_")@ =~= seq!['_']);
        }
        let ghost out_before = out@;
        if !inside {
            if c == '{' {
                inside = true;
                out.append("{");
                out.append(prefix);
                out.append("_");
                proof {
                    assert(out@ =~= out_before + (seq!['{'] + prefix@ + seq!['_']));
                    assert(out_before + (seq!['{'] + prefix@ + seq!['_']
                        + prefixed_template_inside(s@.skip(i as int + 1), prefix@)) =~= out@
                        + prefixed_template_inside(s@.skip(i as int + 1), prefix@));
                }
            } else {
                let piece = s.substring_char(i, i + 1);
                out.append(piece);
                proof {
                    assert(s@.subrange(i as int, i as int + 1) =~= seq![s@[i as int]]);
                    assert(out_before + (seq![s@[i as int]] + prefixed_template_outside(
                        s@.skip(i as int + 1),
                        prefix@,
                    )) =~= out@ + prefixed_template_outside(s@.skip(i as int + 1), prefix@));
                }
            }
        } else {
            if c == '}' {
                inside = false;
            }
            let piece = s.substring_char(i, i + 1);
            out.append(piece);
            proof {
                assert(s@.subrange(i as int, i as int + 1) =~= seq![s@[i as int]]);
                if s@[i as int] == '}' {
                    assert(out_before + (seq!['}'] + prefixed_template_outside(
                        s@.skip(i as int + 1),
                        prefix@,
                    )) =~= out@ + prefixed_template_outside(s@.skip(i as int + 1), prefix@));
                } else {
                    assert(out_before + (seq![s@[i as int]] + prefixed_template_inside(
                        s@.skip(i as int + 1),
                        prefix@,
                    )) =~= out@ + prefixed_template_inside(s@.skip(i as int + 1), prefix@));
                }
            }
        }
        i = i + 1;
    }
    proof {
        assert(s@.skip(n as int) =~= Seq::<char>::empty());
        assert(prefixed_template_outside(s@, prefix@) =~= out@);
    }
    out
}

impl TermMapInfo {
    /// A copy with equal fields.
    pub fn duplicate(&self) -> (r: TermMapInfo)
        ensures
            r == *self,
    {
        TermMapInfo {
            identifier: self.identifier.clone(),
            term_map_type: self.term_map_type,
            term_value: self.term_value.clone(),
            term_type: self.term_type,
        }
    }

    /// The set of source attributes this term map reads.
    pub fn get_attributes(&self) -> (r: crate::attrset::AttrSet)
        ensures
            r@ == tm_info_attrs(*self),
    {
        match self.term_map_type {
            TermMapType::Constant => crate::attrset::AttrSet::new(),
            TermMapType::Reference => {
                let mut r = crate::attrset::AttrSet::new();
                r.insert(self.term_value.clone());
                proof {
                    assert(r@ =~= tm_info_attrs(*self));
                }
                r
            },
            TermMapType::Template => {
                let names = scan_template_attrs(self.term_value.as_str());
                let mut r = crate::attrset::AttrSet::new();
                r.add_all_vec(&names);
                proof {
                    assert(r@ =~= tm_info_attrs(*self));
                }
                r
            },
        }
    }

    /// The same term map with every attribute it reads renamed to
    /// `<prefix>_<attribute>`; used when a parent unit's columns are folded
    /// into a joined row under an alias.
    pub fn prefix_attributes(self, prefix: &str) -> (r: TermMapInfo)
        ensures
            r.identifier == self.identifier,
            r.term_map_type == self.term_map_type,
            r.term_type == self.term_type,
            r.term_value@ == prefixed_value(self.term_map_type, prefix@, self.term_value@),
    {
        match self.term_map_type {
            TermMapType::Constant => self,
            TermMapType::Reference => {
                let mut v = prefix.to_owned();
                v.append("_");
                v.append(self.term_value.as_str());
                proof {
                    reveal_strlit("_");
                    assert(("_")@ =~= seq!['_']);
                    assert(v@ =~= prefixed_reference(prefix@, self.term_value@));
                }
                TermMapInfo {
                    identifier: self.identifier,
                    term_map_type: self.term_map_type,
                    term_value: v,
                    term_type: self.term_type,
                }
            },
            TermMapType::Template => {
                let v = prefix_template(self.term_value.as_str(), prefix);
                TermMapInfo {
                    identifier: self.identifier,
                    term_map_type: self.term_map_type,
                    term_value: v,
                    term_type: self.term_type,
                }
            },
        }
    }
}

/// The subject map of a triples map.
pub struct SubjectMap {
    pub tm_info: TermMapInfo,
}

/// One predicate map.
pub struct PredicateMap {
    pub tm_info: TermMapInfo,
}

/// Equi-join keys between a child unit's rows and a parent unit's rows:
/// parallel attribute lists of equal length.
pub struct JoinCondition {
    pub child_attributes: Vec<String>,
    pub parent_attributes: Vec<String>,
}

/// One object map; may reference a parent triples map, in which case a join
/// condition must accompany the reference.
pub struct ObjectMap {
    pub tm_info: TermMapInfo,
    pub parent_tm: Option<String>,
    pub join_condition: Option<JoinCondition>,
}

/// A predicate-object map: the Cartesian product of its predicate maps and
/// object maps is emitted per source record.
pub struct PredicateObjectMap {
    pub predicate_maps: Vec<PredicateMap>,
    pub object_maps: Vec<ObjectMap>,
}

/// Whether some object map of `pom` references a parent triples map.
pub open spec fn spec_contains_ptm(pom: PredicateObjectMap) -> bool {
    exists|j: int|
        0 <= j < pom.object_maps@.len() && pom.object_maps@[j].parent_tm is Some
}

impl PredicateObjectMap {
    /// Whether some object map references a parent triples map.
    pub fn contains_ptm(&self) -> (r: bool)
        ensures
            r == spec_contains_ptm(*self),
    {
        let n = self.object_maps.len();
        let mut i: usize = 0;
        while i < n
            invariant
                i <= n,
                n == self.object_maps@.len(),
                forall|j: int| 0 <= j < i ==> self.object_maps@[j].parent_tm is None,
            decreases n - i,
        {
            if self.object_maps[i].parent_tm.is_some() {
                return true;
            }
            i = i + 1;
        }
        false
    }
}

/// An optional graph map attached to a triples map.
pub struct GraphMap {
    pub tm_info: TermMapInfo,
}

/// Where a mapping unit's records come from; carried opaquely into the
/// source operator.
pub struct LogicalSource {
    pub config: crate::strmap::StrMap,
    pub source_type: crate::operators::IOType,
    pub reference_iterators: Vec<String>,
    pub data_format: crate::operators::DataFormat,
}

/// One mapping unit.
pub struct TriplesMap {
    pub identifier: String,
    pub logical_source: LogicalSource,
    pub subject_map: SubjectMap,
    pub graph_map: Option<GraphMap>,
    pub po_maps: Vec<PredicateObjectMap>,
}

/// A mapping document: an ordered collection of triples maps.
pub struct Document {
    pub triples_maps: Vec<TriplesMap>,
}

} // verus!
