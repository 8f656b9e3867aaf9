//! Rename-pair inference for expression statements over iterators: a basic
//! expression renames either one referenced field or every normal field of
//! its iterator from `<iterator>.<field>` to `<expression>.<field>`.

use vstd::prelude::*;
use vstd::string::StringExecFns;

use crate::strmap::StrMap;

verus! {

/// How an iterator field is populated.
#[derive(Clone, Copy, PartialEq, Eq, Structural, Debug)]
pub enum FieldType {
    Normal,
    Push,
    Pop,
}

/// One field of an iterator.
pub struct ShexmlField {
    pub ident: String,
    pub field_type: FieldType,
}

/// An iterator over a logical source, with its declared fields.
pub struct ShexmlIterator {
    pub ident: String,
    pub fields: Vec<ShexmlField>,
}

/// A reference to an iterator, optionally narrowed to one field.
pub struct ShexmlReference {
    pub iterator_ident: String,
    pub field: Option<String>,
}

/// The shape of an expression statement; only basic references contribute
/// rename pairs.
pub enum ExpressionStmtEnum {
    Basic { reference: ShexmlReference },
    Join,
    Matching,
    Union,
}

/// A named expression statement.
pub struct ExpressionStmt {
    pub ident: String,
    pub expr_enum: ExpressionStmtEnum,
}

/// The map denoted by a sequence of name/iterator pairs, the last binding of
/// a name winning.
pub open spec fn iter_pairs_map(s: Seq<(String, ShexmlIterator)>) -> Map<
    Seq<char>,
    ShexmlIterator,
>
    decreases s.len(),
{
    if s.len() == 0 {
        Map::empty()
    } else {
        iter_pairs_map(s.drop_last()).insert(s.last().0@, s.last().1)
    }
}

/// `<left>.<right>`.
pub open spec fn dotted(left: Seq<char>, right: Seq<char>) -> Seq<char> {
    left + (".")@ + right
}

/// The rename pairs of the first `n` fields: each normal field `f` maps
/// `<iter>.<f>` to `<expr>.<f>`.
pub open spec fn normal_field_pairs(
    fields: Seq<ShexmlField>,
    iter_ident: Seq<char>,
    expr_ident: Seq<char>,
    n: nat,
) -> Map<Seq<char>, Seq<char>>
    decreases n,
{
    if n == 0 {
        Map::empty()
    } else {
        let rest = normal_field_pairs(fields, iter_ident, expr_ident, (n - 1) as nat);
        if fields[n - 1].field_type == FieldType::Normal {
            rest.insert(
                dotted(iter_ident, fields[n - 1].ident@),
                dotted(expr_ident, fields[n - 1].ident@),
            )
        } else {
            rest
        }
    }
}

/// The rename pairs an expression statement denotes: one pair for a basic
/// reference with a field, the normal fields of the referenced iterator for
/// a bare basic reference, nothing otherwise.
pub open spec fn spec_rename_pairs(
    iters: Map<Seq<char>, ShexmlIterator>,
    stmt: ExpressionStmt,
) -> Map<Seq<char>, Seq<char>> {
    match stmt.expr_enum {
        ExpressionStmtEnum::Basic { reference } => match reference.field {
            Some(f) => Map::empty().insert(
                dotted(reference.iterator_ident@, f@),
                dotted(stmt.ident@, f@),
            ),
            None => if iters.contains_key(reference.iterator_ident@) {
                let it = iters[reference.iterator_ident@];
                normal_field_pairs(it.fields@, reference.iterator_ident@, stmt.ident@, it.fields@.len())
            } else {
                Map::empty()
            },
        },
        _ => Map::empty(),
    }
}

/// `<left>.<right>` as an owned string.
fn dotted_string(left: &str, right: &str) -> (r: String)
    ensures
        r@ == dotted(left@, right@),
{
    let mut r = left.to_owned();
    r.append(".");
    r.append(right);
    r
}

/// Lookup among the first `n` iterator bindings, later ones winning.
fn iter_get_prefix<'a>(
    items: &'a Vec<(String, ShexmlIterator)>,
    n: usize,
    key: &String,
) -> (r: Option<&'a ShexmlIterator>)
    requires
        n <= items@.len(),
    ensures
        match r {
            Some(it) => iter_pairs_map(items@.take(n as int)).contains_key(key@) && *it
                == iter_pairs_map(items@.take(n as int))[key@],
            None => !iter_pairs_map(items@.take(n as int)).contains_key(key@),
        },
    decreases n,
{
    if n == 0 {
        proof {
            assert(items@.take(0) =~= Seq::<(String, ShexmlIterator)>::empty());
        }
        None
    } else {
        proof {
            assert(items@.take(n as int).drop_last() =~= items@.take(n as int - 1));
            assert(items@.take(n as int).last() == items@[n as int - 1]);
        }
        let entry = &items[n - 1];
        if entry.0 == *key {
            Some(&entry.1)
        } else {
            iter_get_prefix(items, n - 1, key)
        }
    }
}

/// The rename pairs of one expression statement: for a basic reference with
/// an explicit field, the single pair `<iterator>.<field> ->
/// <expression>.<field>`; for a bare basic reference over a known iterator,
/// one such pair per normal field; otherwise no pairs.
pub fn translate_rename_pairs_map(
    iterators_map: &Vec<(String, ShexmlIterator)>,
    expr_stmt: &ExpressionStmt,
) -> (r: StrMap)
    ensures
        r@ == spec_rename_pairs(iter_pairs_map(iterators_map@), *expr_stmt),
{
    let mut rename_pairs = StrMap::new();
    match &expr_stmt.expr_enum {
        ExpressionStmtEnum::Basic { reference } => {
            let iter_ident = &reference.iterator_ident;
            let expr_ident = &expr_stmt.ident;
            match &reference.field {
                Some(field) => {
                    let from = dotted_string(iter_ident.as_str(), field.as_str());
                    let to = dotted_string(expr_ident.as_str(), field.as_str());
                    rename_pairs.insert(from, to);
                },
                None => {
                    proof {
                        assert(iterators_map@.take(iterators_map@.len() as int)
                            =~= iterators_map@);
                    }
                    match iter_get_prefix(iterators_map, iterators_map.len(), iter_ident) {
                        Some(iterator) => {
                            let n = iterator.fields.len();
                            let mut i: usize = 0;
                            while i < n
                                invariant
                                    i <= n,
                                    n == iterator.fields@.len(),
                                    iter_ident@ == reference.iterator_ident@,
                                    expr_ident@ == expr_stmt.ident@,
                                    rename_pairs@ == normal_field_pairs(
                                        iterator.fields@,
                                        reference.iterator_ident@,
                                        expr_stmt.ident@,
                                        i as nat,
                                    ),
                                decreases n - i,
                            {
                                let field = &iterator.fields[i];
                                if field.field_type == FieldType::Normal {
                                    let from = dotted_string(
                                        iter_ident.as_str(),
                                        field.ident.as_str(),
                                    );
                                    let to = dotted_string(
                                        expr_ident.as_str(),
                                        field.ident.as_str(),
                                    );
                                    rename_pairs.insert(from, to);
                                    proof {
                                        assert(rename_pairs@ =~= normal_field_pairs(
                                            iterator.fields@,
                                            reference.iterator_ident@,
                                            expr_stmt.ident@,
                                            (i + 1) as nat,
                                        ));
                                    }
                                } else {
                                    proof {
                                        assert(rename_pairs@ =~= normal_field_pairs(
                                            iterator.fields@,
                                            reference.iterator_ident@,
                                            expr_stmt.ident@,
                                            (i + 1) as nat,
                                        ));
                                    }
                                }
                                i = i + 1;
                            }
                        },
                        None => {},
                    }
                },
            }
        },
        _ => {},
    }
    rename_pairs
}

} // verus!
