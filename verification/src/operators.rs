//! The operator configuration schema the translator emits: a closed variant
//! set of data-transformation operators, each carrying its own configuration,
//! plus the function trees that describe how extend attributes are computed.
//! Every configuration has a mathematical view so that whole plans can be
//! compared structurally.

use vstd::prelude::*;

verus! {

#[derive(Clone, Copy, PartialEq, Eq, Structural, Debug)]
pub enum IOType {
    File,
    StdOut,
}

#[derive(Clone, Copy, PartialEq, Eq, Structural, Debug)]
pub enum DataFormat {
    CSV,
    JSON,
    XML,
    NT,
}

/// How an extend attribute's runtime value is computed: a value-producing
/// leaf (constant / field reference / template substitution) wrapped by
/// term-shaping steps.
#[derive(PartialEq, Eq, Debug)]
pub enum Function {
    Constant { value: String },
    Reference { value: String },
    Template { value: String },
    UriEncode { inner_function: Box<Function> },
    Iri { inner_function: Box<Function> },
    Literal { inner_function: Box<Function> },
    BlankNode { inner_function: Box<Function> },
}

/// The mathematical shape of a `Function` tree.
pub enum FunctionV {
    Constant { value: Seq<char> },
    Reference { value: Seq<char> },
    Template { value: Seq<char> },
    UriEncode { inner: Box<FunctionV> },
    Iri { inner: Box<FunctionV> },
    Literal { inner: Box<FunctionV> },
    BlankNode { inner: Box<FunctionV> },
}

pub open spec fn func_view(f: Function) -> FunctionV
    decreases f,
{
    match f {
        Function::Constant { value } => FunctionV::Constant { value: value@ },
        Function::Reference { value } => FunctionV::Reference { value: value@ },
        Function::Template { value } => FunctionV::Template { value: value@ },
        Function::UriEncode { inner_function } => FunctionV::UriEncode {
            inner: Box::new(func_view(*inner_function)),
        },
        Function::Iri { inner_function } => FunctionV::Iri {
            inner: Box::new(func_view(*inner_function)),
        },
        Function::Literal { inner_function } => FunctionV::Literal {
            inner: Box::new(func_view(*inner_function)),
        },
        Function::BlankNode { inner_function } => FunctionV::BlankNode {
            inner: Box::new(func_view(*inner_function)),
        },
    }
}

impl View for Function {
    type V = FunctionV;

    open spec fn view(&self) -> FunctionV {
        func_view(*self)
    }
}

/// The views of a sequence of attribute/function pairs.
pub open spec fn func_pairs_view(s: Seq<(String, Function)>) -> Seq<(Seq<char>, FunctionV)> {
    s.map_values(|p: (String, Function)| (p.0@, func_view(p.1)))
}

/// The map denoted by a sequence of attribute/function entries: entries are
/// inserted in order, so a later entry for the same attribute wins.
pub open spec fn entries_map(s: Seq<(Seq<char>, FunctionV)>) -> Map<Seq<char>, FunctionV>
    decreases s.len(),
{
    if s.len() == 0 {
        Map::empty()
    } else {
        entries_map(s.drop_last()).insert(s.last().0, s.last().1)
    }
}

/// The extend pairs of an extend operator: attribute names bound to the
/// function computing their value. Stored in insertion order; a later entry
/// for an attribute shadows an earlier one, as in the map it denotes.
#[derive(PartialEq, Eq, Debug)]
pub struct ExtendPairs {
    pub items: Vec<(String, Function)>,
}

impl ExtendPairs {
    /// The entries in insertion order.
    pub open spec fn seq_view(self) -> Seq<(Seq<char>, FunctionV)> {
        func_pairs_view(self.items@)
    }
}

impl View for ExtendPairs {
    type V = Map<Seq<char>, FunctionV>;

    open spec fn view(&self) -> Map<Seq<char>, FunctionV> {
        entries_map(self.seq_view())
    }
}

/// Lookup among the first `n` entries, later entries taking precedence.
fn extend_get_prefix<'a>(items: &'a Vec<(String, Function)>, n: usize, key: &String) -> (r:
    Option<&'a Function>)
    requires
        n <= items@.len(),
    ensures
        match r {
            Some(f) => entries_map(func_pairs_view(items@.take(n as int))).contains_key(key@)
                && func_view(*f) == entries_map(func_pairs_view(items@.take(n as int)))[key@],
            None => !entries_map(func_pairs_view(items@.take(n as int))).contains_key(key@),
        },
    decreases n,
{
    if n == 0 {
        proof {
            assert(func_pairs_view(items@.take(0)) =~= Seq::<(Seq<char>, FunctionV)>::empty());
        }
        None
    } else {
        proof {
            assert(func_pairs_view(items@.take(n as int)).drop_last() =~= func_pairs_view(
                items@.take(n as int - 1),
            ));
            assert(func_pairs_view(items@.take(n as int)).last() == (
                items@[n as int - 1].0@,
                func_view(items@[n as int - 1].1),
            ));
        }
        let entry = &items[n - 1];
        if entry.0 == *key {
            Some(&entry.1)
        } else {
            extend_get_prefix(items, n - 1, key)
        }
    }
}

impl ExtendPairs {
    pub fn new() -> (r: ExtendPairs)
        ensures
            r.seq_view() == Seq::<(Seq<char>, FunctionV)>::empty(),
            r@ == Map::<Seq<char>, FunctionV>::empty(),
    {
        let r = ExtendPairs { items: Vec::new() };
        proof {
            assert(r.seq_view() =~= Seq::<(Seq<char>, FunctionV)>::empty());
        }
        r
    }

    /// Binds `key` to `f`, shadowing any earlier binding of `key`.
    pub fn insert(&mut self, key: String, f: Function)
        ensures
            final(self).seq_view() == old(self).seq_view().push((key@, func_view(f))),
            final(self)@ == old(self)@.insert(key@, func_view(f)),
    {
        let ghost before = self.items@;
        let ghost fv = func_view(f);
        let ghost k = key@;
        self.items.push((key, f));
        proof {
            assert(self.seq_view() =~= func_pairs_view(before).push((k, fv)));
            assert(self.seq_view().drop_last() =~= func_pairs_view(before));
        }
    }

    pub fn get<'a>(&'a self, key: &String) -> (r: Option<&'a Function>)
        ensures
            match r {
                Some(f) => self@.contains_key(key@) && func_view(*f) == self@[key@],
                None => !self@.contains_key(key@),
            },
    {
        proof {
            assert(self.items@.take(self.items@.len() as int) =~= self.items@);
        }
        extend_get_prefix(&self.items, self.items.len(), key)
    }

    pub fn contains_key(&self, key: &String) -> (r: bool)
        ensures
            r == self@.contains_key(key@),
    {
        match self.get(key) {
            Some(_) => true,
            None => false,
        }
    }
}

/// Source scan configuration.
#[derive(PartialEq, Eq, Debug)]
pub struct Source {
    pub config: crate::strmap::StrMap,
    pub source_type: IOType,
    pub reference_iterators: Vec<String>,
    pub data_format: DataFormat,
}

/// Attribute projection configuration.
#[derive(PartialEq, Eq, Debug)]
pub struct Projection {
    pub projection_attributes: crate::attrset::AttrSet,
}

/// Value derivation configuration: new attributes bound to function trees.
#[derive(PartialEq, Eq, Debug)]
pub struct Extend {
    pub extend_pairs: ExtendPairs,
}

/// Attribute renaming configuration.
#[derive(PartialEq, Eq, Debug)]
pub struct Rename {
    pub rename_pairs: crate::strmap::StrMap,
}

/// Inner equi-join configuration: for each position, the child-row attribute
/// must equal the parent-row attribute; matching rows are kept with
/// multiplicity.
#[derive(PartialEq, Eq, Debug)]
pub struct Join {
    pub join_alias: String,
    pub child_attributes: Vec<String>,
    pub parent_attributes: Vec<String>,
}

/// Serialization configuration: a row-wise emission template.
#[derive(PartialEq, Eq, Debug)]
pub struct Serializer {
    pub template: String,
    pub options: Option<crate::strmap::StrMap>,
    pub format: DataFormat,
}

/// Sink configuration.
#[derive(PartialEq, Eq, Debug)]
pub struct Target {
    pub configuration: crate::strmap::StrMap,
    pub target_type: IOType,
    pub data_format: DataFormat,
}

/// The closed operator variant set carried by plan nodes.
#[derive(PartialEq, Eq, Debug)]
pub enum Operator {
    SourceOp { config: Source },
    ProjectOp { config: Projection },
    ExtendOp { config: Extend },
    RenameOp { config: Rename },
    JoinOp { config: Join },
    SerializerOp { config: Serializer },
    TargetOp { config: Target },
}

/// The mathematical shape of an operator and its configuration.
pub enum OperatorV {
    SourceOp {
        config: Map<Seq<char>, Seq<char>>,
        source_type: IOType,
        reference_iterators: Seq<Seq<char>>,
        data_format: DataFormat,
    },
    ProjectOp { attributes: Set<Seq<char>> },
    ExtendOp { pairs: Map<Seq<char>, FunctionV> },
    RenameOp { pairs: Map<Seq<char>, Seq<char>> },
    JoinOp {
        alias: Seq<char>,
        child_attributes: Seq<Seq<char>>,
        parent_attributes: Seq<Seq<char>>,
    },
    SerializerOp {
        template: Seq<char>,
        options: Option<Map<Seq<char>, Seq<char>>>,
        format: DataFormat,
    },
    TargetOp { configuration: Map<Seq<char>, Seq<char>>, target_type: IOType, data_format: DataFormat },
}

impl View for Operator {
    type V = OperatorV;

    open spec fn view(&self) -> OperatorV {
        match *self {
            Operator::SourceOp { config } => OperatorV::SourceOp {
                config: config.config@,
                source_type: config.source_type,
                reference_iterators: crate::attrset::strs_view(config.reference_iterators@),
                data_format: config.data_format,
            },
            Operator::ProjectOp { config } => OperatorV::ProjectOp {
                attributes: config.projection_attributes@,
            },
            Operator::ExtendOp { config } => OperatorV::ExtendOp { pairs: config.extend_pairs@ },
            Operator::RenameOp { config } => OperatorV::RenameOp { pairs: config.rename_pairs@ },
            Operator::JoinOp { config } => OperatorV::JoinOp {
                alias: config.join_alias@,
                child_attributes: crate::attrset::strs_view(config.child_attributes@),
                parent_attributes: crate::attrset::strs_view(config.parent_attributes@),
            },
            Operator::SerializerOp { config } => OperatorV::SerializerOp {
                template: config.template@,
                options: match config.options {
                    Some(o) => Some(o@),
                    None => None,
                },
                format: config.format,
            },
            Operator::TargetOp { config } => OperatorV::TargetOp {
                configuration: config.configuration@,
                target_type: config.target_type,
                data_format: config.data_format,
            },
        }
    }
}

/// Whether an operator has a dedicated growth entry point and is therefore
/// rejected by the generic `apply`.
pub open spec fn spec_reserved_for_dedicated_entry(op: Operator) -> bool {
    match op {
        Operator::SourceOp { .. } => true,
        Operator::TargetOp { .. } => true,
        Operator::SerializerOp { .. } => true,
        _ => false,
    }
}

} // verus!
