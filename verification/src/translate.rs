//! The query translation engine: maps the legacy request shape into the
//! target protocol shape.
//!
//! Every translation function comes in two layers. A `spec` layer states the
//! mapping mathematically: `spec_*` functions compute what a step must
//! produce, `is_*_map` relations say when a target value is the translation
//! of a legacy value, and `*_err` functions give the exact error (if any)
//! the translation reports for an input. The executable layer is proved
//! against that spec layer.

use vstd::prelude::*;

use crate::api;
use crate::target;
use crate::SpecError;
use crate::TranslateError;

verus! {

use vstd::string::StringExecFns;

/// The qualified name `"<table>.<name>"` used for flattened relationship
/// keys, path elements and related-table references.
pub open spec fn qualified(table: Seq<char>, name: Seq<char>) -> Seq<char> {
    table + "."@ + name
}

/// Builds the qualified name `"<table>.<name>"`.
fn qualify(table: &str, name: &str) -> (r: String)
    ensures
        r@ == qualified(table@, name@),
{
    let mut r = table.to_owned();
    r.append(".");
    r.append(name);
    r
}

/// String equality by contents.
fn str_eq(a: &str, b: &str) -> (r: bool)
    ensures
        r == (a@ == b@),
{
    let a_owned = a.to_owned();
    let b_owned = b.to_owned();
    a_owned.eq(&b_owned)
}

/// Relies on `serde_json::Value`'s `Clone` implementation: the copy is
/// structurally identical to the original scalar value.
#[verifier::external_body]
fn clone_value(v: &serde_json::Value) -> (r: serde_json::Value)
    ensures
        r == v,
{
    v.clone()
}

/// Copies a list of name segments.
fn clone_strings(v: &Vec<String>) -> (r: Vec<String>)
    ensures
        r.deep_view() =~= v.deep_view(),
{
    let mut r: Vec<String> = Vec::new();
    let mut i: usize = 0;
    while i < v.len()
        invariant
            i <= v.len(),
            r@.len() == i,
            forall|j: int| 0 <= j < i ==> r@[j]@ == v@[j]@,
        decreases v.len() - i,
    {
        r.push(v[i].clone());
        i = i + 1;
    }
    assert(r.deep_view() =~= v.deep_view());
    r
}

/// The value under the first occurrence of `key` in an association list.
pub open spec fn lookup<V>(entries: Seq<(String, V)>, key: Seq<char>) -> Option<V>
    decreases entries.len(),
{
    if entries.len() == 0 {
        None
    } else if entries[0].0@ == key {
        Some(entries[0].1)
    } else {
        lookup(entries.drop_first(), key)
    }
}

/// Finds the value under the first occurrence of `key` in an association
/// list.
fn find_entry<'a, V>(entries: &'a Vec<(String, V)>, key: &str) -> (r: Option<&'a V>)
    ensures
        match r {
            Some(v) => lookup(entries@, key@) == Some(*v),
            None => lookup(entries@, key@) is None,
        },
{
    let ghost all = entries@;
    proof {
        assert(all.skip(0) =~= all);
    }
    let n = entries.len();
    let mut i: usize = 0;
    while i < n
        invariant
            n == all.len(),
            all == entries@,
            i <= n,
            lookup(all, key@) == lookup(all.skip(i as int), key@),
        decreases n - i,
    {
        proof {
            assert(all.skip(i as int)[0] == all[i as int]);
            assert(all.skip(i as int).drop_first() =~= all.skip(i as int + 1));
        }
        if str_eq(entries[i].0.as_str(), key) {
            return Some(&entries[i].1);
        }
        i = i + 1;
    }
    proof {
        assert(all.skip(n as int) =~= Seq::<(String, V)>::empty());
    }
    None
}

/// Whether a declared relationship entry is for the given source table: its
/// source table reference must be exactly the single segment `source`.
pub open spec fn matches_source(entry: api::TableRelationships, source: Seq<char>) -> bool {
    entry.source_table@.len() == 1 && entry.source_table@[0]@ == source
}

/// The first declared entry for `source`, if any.
pub open spec fn find_source(
    rels: Seq<api::TableRelationships>,
    source: Seq<char>,
) -> Option<api::TableRelationships>
    decreases rels.len(),
{
    if rels.len() == 0 {
        None
    } else if matches_source(rels[0], source) {
        Some(rels[0])
    } else {
        find_source(rels.drop_first(), source)
    }
}

/// Relationship registry resolution: the target table of relationship
/// `name` out of table `source`, under the declared `rels`; or the exact
/// error when the entry or the name is missing, or the declared target
/// table is not a single-segment name.
pub open spec fn spec_target_table(
    rels: Seq<api::TableRelationships>,
    source: Seq<char>,
    name: Seq<char>,
) -> Result<Seq<char>, SpecError> {
    match find_source(rels, source) {
        None => Err(SpecError::UnresolvedRelationship(source, name)),
        Some(entry) => match lookup(entry.relationships@, name) {
            None => Err(SpecError::UnresolvedRelationship(source, name)),
            Some(rel) => if rel.target_table@.len() == 1 {
                Ok(rel.target_table@[0]@)
            } else {
                Err(SpecError::UnsupportedTableName(rel.target_table.deep_view()))
            },
        },
    }
}

/// Extracts the single segment of a table reference.
///
/// The engine only supports single-segment table names; any other shape is
/// an unsupported-input error.
pub fn table_name(table: Vec<String>) -> (r: Result<String, TranslateError>)
    ensures
        table@.len() == 1 ==> r is Ok && r.unwrap()@ == table@[0]@,
        table@.len() != 1 ==> r is Err && r.unwrap_err().model() == SpecError::UnsupportedTableName(
            table.deep_view(),
        ),
{
    if table.len() == 1 {
        let mut table = table;
        let r = table.remove(0);
        Ok(r)
    } else {
        Err(TranslateError::UnsupportedTableName(table))
    }
}

/// Resolves the relationship named `relationship` out of `source_table`
/// against the declared table relationships: a linear scan for the first
/// entry whose source table is the single segment `source_table`, then a
/// lookup of the relationship name within that entry.
pub fn get_target_table(
    source_table: &str,
    relationship: &str,
    table_relationships: &Vec<api::TableRelationships>,
) -> (r: Result<String, TranslateError>)
    ensures
        match spec_target_table(table_relationships@, source_table@, relationship@) {
            Ok(t) => r is Ok && r.unwrap()@ == t,
            Err(e) => r is Err && r.unwrap_err().model() == e,
        },
{
    let ghost rels = table_relationships@;
    let ghost source = source_table@;
    proof {
        assert(rels.skip(0) =~= rels);
    }
    let n = table_relationships.len();
    let mut i: usize = 0;
    while i < n
        invariant
            n == rels.len(),
            i <= n,
            source == source_table@,
            rels == table_relationships@,
            find_source(rels, source) == find_source(rels.skip(i as int), source),
        decreases n - i,
    {
        let entry = &table_relationships[i];
        let is_match = entry.source_table.len() == 1 && str_eq(
            entry.source_table[0].as_str(),
            source_table,
        );
        proof {
            assert(rels.skip(i as int)[0] == rels[i as int]);
            assert(rels.skip(i as int).drop_first() =~= rels.skip(i as int + 1));
        }
        if is_match {
            assert(find_source(rels, source) == Some(rels[i as int]));
            return resolve_in_entry(entry, source_table, relationship);
        }
        i = i + 1;
    }
    proof {
        assert(rels.skip(n as int) =~= Seq::<api::TableRelationships>::empty());
    }
    Err(TranslateError::UnresolvedRelationship(source_table.to_owned(), relationship.to_owned()))
}

/// The lookup half of registry resolution, within the already-found entry.
fn resolve_in_entry(
    entry: &api::TableRelationships,
    source_table: &str,
    relationship: &str,
) -> (r: Result<String, TranslateError>)
    ensures
        match lookup(entry.relationships@, relationship@) {
            None => r is Err && r.unwrap_err().model() == SpecError::UnresolvedRelationship(
                source_table@,
                relationship@,
            ),
            Some(rel) => if rel.target_table@.len() == 1 {
                r is Ok && r.unwrap()@ == rel.target_table@[0]@
            } else {
                r is Err && r.unwrap_err().model() == SpecError::UnsupportedTableName(
                    rel.target_table.deep_view(),
                )
            },
        },
{
    match find_entry(&entry.relationships, relationship) {
        None => Err(
            TranslateError::UnresolvedRelationship(
                source_table.to_owned(),
                relationship.to_owned(),
            ),
        ),
        Some(rel) => {
            if rel.target_table.len() == 1 {
                Ok(rel.target_table[0].clone())
            } else {
                Err(TranslateError::UnsupportedTableName(clone_strings(&rel.target_table)))
            }
        },
    }
}

/// When `out` is the hop-by-hop resolution of the relationship path `path`
/// starting from the table context `table`: each hop is named
/// `"<current table>.<segment>"` with no static arguments, and the context
/// advances to the hop's resolved target table.
pub open spec fn is_column_path_map(
    path: Seq<String>,
    table: Seq<char>,
    rels: Seq<api::TableRelationships>,
    out: Seq<target::PathElement>,
) -> bool
    decreases path.len(),
{
    if path.len() == 0 {
        out.len() == 0
    } else {
        match spec_target_table(rels, table, path[0]@) {
            Ok(t) => out.len() >= 1 && out[0].relationship@ == qualified(table, path[0]@)
                && out[0].arguments@.len() == 0 && is_column_path_map(
                path.drop_first(),
                t,
                rels,
                out.drop_first(),
            ),
            Err(_) => false,
        }
    }
}

/// The first resolution error along the path, if any.
pub open spec fn column_path_err(
    path: Seq<String>,
    table: Seq<char>,
    rels: Seq<api::TableRelationships>,
) -> Option<SpecError>
    decreases path.len(),
{
    if path.len() == 0 {
        None
    } else {
        match spec_target_table(rels, table, path[0]@) {
            Ok(t) => column_path_err(path.drop_first(), t, rels),
            Err(e) => Some(e),
        }
    }
}

/// Resolves the relationship path `path`, from position `from` on, hop by
/// hop out of the table context `table`, producing one predicate-free path
/// element per hop.
fn map_column_path(
    path: &Vec<String>,
    from: usize,
    table: &str,
    table_relationships: &Vec<api::TableRelationships>,
) -> (r: Result<Vec<target::PathElement>, TranslateError>)
    requires
        from <= path@.len(),
    ensures
        match column_path_err(path@.skip(from as int), table@, table_relationships@) {
            None => r is Ok && is_column_path_map(
                path@.skip(from as int),
                table@,
                table_relationships@,
                r.unwrap()@,
            ),
            Some(e) => r is Err && r.unwrap_err().model() == e,
        },
    decreases path@.len() - from,
{
    let ghost suffix = path@.skip(from as int);
    if from == path.len() {
        proof {
            assert(suffix =~= Seq::<String>::empty());
        }
        Ok(Vec::new())
    } else {
        let segment = &path[from];
        proof {
            assert(suffix[0] == path@[from as int]);
            assert(suffix.drop_first() =~= path@.skip(from as int + 1));
        }
        match get_target_table(table, segment.as_str(), table_relationships) {
            Err(e) => Err(e),
            Ok(t) => {
                let elem = target::PathElement {
                    relationship: qualify(table, segment.as_str()),
                    arguments: Vec::new(),
                };
                match map_column_path(path, from + 1, t.as_str(), table_relationships) {
                    Err(e) => Err(e),
                    Ok(rest) => {
                        let mut rest = rest;
                        let ghost rest_view = rest@;
                        let mut out: Vec<target::PathElement> = Vec::new();
                        out.push(elem);
                        out.append(&mut rest);
                        proof {
                            assert(out@[0] == elem);
                            assert(out@.drop_first() =~= rest_view);
                        }
                        Ok(out)
                    },
                }
            },
        }
    }
}

/// When `out` names the same column as `column` on the root table.
pub open spec fn is_root_column(
    column: api::ComparisonColumn,
    out: target::ComparisonTarget,
) -> bool {
    match out {
        target::ComparisonTarget::RootTableColumn { name } => name@ == column.name@,
        _ => false,
    }
}

/// When `out` is the resolution of the column reference `column` in the
/// table context `table`: a root-table column when the path is absent or
/// empty, else a column reached through the resolved path.
pub open spec fn is_comparison_column_map(
    column: api::ComparisonColumn,
    table: Seq<char>,
    rels: Seq<api::TableRelationships>,
    out: target::ComparisonTarget,
) -> bool {
    match column.path {
        Some(path) => if path@.len() > 0 {
            match out {
                target::ComparisonTarget::Column { name, path: out_path } => name@ == column.name@
                    && is_column_path_map(path@, table, rels, out_path@),
                _ => false,
            }
        } else {
            is_root_column(column, out)
        },
        None => is_root_column(column, out),
    }
}

/// The error, if any, of resolving the column reference `column` in the
/// table context `table`.
pub open spec fn comparison_column_err(
    column: api::ComparisonColumn,
    table: Seq<char>,
    rels: Seq<api::TableRelationships>,
) -> Option<SpecError> {
    match column.path {
        Some(path) => if path@.len() > 0 {
            column_path_err(path@, table, rels)
        } else {
            None
        },
        None => None,
    }
}

/// Resolves a column reference in the table context `table`: a column with
/// an absent or empty path refers to the root table, any other walks its
/// relationship path hop by hop.
pub fn map_comparison_column(
    column: &api::ComparisonColumn,
    table: &str,
    table_relationships: &Vec<api::TableRelationships>,
) -> (r: Result<target::ComparisonTarget, TranslateError>)
    ensures
        match comparison_column_err(*column, table@, table_relationships@) {
            None => r is Ok && is_comparison_column_map(
                *column,
                table@,
                table_relationships@,
                r.unwrap(),
            ),
            Some(e) => r is Err && r.unwrap_err().model() == e,
        },
{
    match &column.path {
        Some(path) => if path.len() > 0 {
            proof {
                assert(path@.skip(0) =~= path@);
            }
            match map_column_path(path, 0, table, table_relationships) {
                Err(e) => Err(e),
                Ok(out_path) => Ok(
                    target::ComparisonTarget::Column { name: column.name.clone(), path: out_path },
                ),
            }
        } else {
            Ok(target::ComparisonTarget::RootTableColumn { name: column.name.clone() })
        },
        None => Ok(target::ComparisonTarget::RootTableColumn { name: column.name.clone() }),
    }
}

/// When `out` is the translation of the comparison right-hand side `value`:
/// a scalar literal passes through (its declared type dropped), a column
/// reference is resolved in the same table context.
pub open spec fn is_comparison_value_map(
    value: api::ComparisonValue,
    table: Seq<char>,
    rels: Seq<api::TableRelationships>,
    out: target::ComparisonValue,
) -> bool {
    match value {
        api::ComparisonValue::ScalarValueComparison { value: v, value_type } => match out {
            target::ComparisonValue::Scalar { value: ov } => ov == v,
            _ => false,
        },
        api::ComparisonValue::AnotherColumnComparison { column } => match out {
            target::ComparisonValue::Column { column: oc } => is_comparison_column_map(
                column,
                table,
                rels,
                oc,
            ),
            _ => false,
        },
    }
}

/// The error, if any, of translating a comparison right-hand side.
pub open spec fn comparison_value_err(
    value: api::ComparisonValue,
    table: Seq<char>,
    rels: Seq<api::TableRelationships>,
) -> Option<SpecError> {
    match value {
        api::ComparisonValue::ScalarValueComparison { value: v, value_type } => None,
        api::ComparisonValue::AnotherColumnComparison { column } => comparison_column_err(
            column,
            table,
            rels,
        ),
    }
}

/// Translates a comparison right-hand side: a scalar literal passes
/// through, a column reference is resolved in the table context.
pub fn map_comparison_value(
    value: &api::ComparisonValue,
    table: &str,
    table_relationships: &Vec<api::TableRelationships>,
) -> (r: Result<target::ComparisonValue, TranslateError>)
    ensures
        match comparison_value_err(*value, table@, table_relationships@) {
            None => r is Ok && is_comparison_value_map(
                *value,
                table@,
                table_relationships@,
                r.unwrap(),
            ),
            Some(e) => r is Err && r.unwrap_err().model() == e,
        },
{
    match value {
        api::ComparisonValue::ScalarValueComparison { value, value_type } => Ok(
            target::ComparisonValue::Scalar { value: clone_value(value) },
        ),
        api::ComparisonValue::AnotherColumnComparison { column } => {
            match map_comparison_column(column, table, table_relationships) {
                Err(e) => Err(e),
                Ok(oc) => Ok(target::ComparisonValue::Column { column: oc }),
            }
        },
    }
}

/// When `out` is the translation of a binary comparison operator name:
/// `equal` maps to the built-in equality, every other name passes through
/// verbatim as a connector-defined operator.
pub open spec fn is_binary_operator_map(
    operator: Seq<char>,
    out: target::BinaryComparisonOperator,
) -> bool {
    if operator == "equal"@ {
        out == target::BinaryComparisonOperator::Equal
    } else {
        match out {
            target::BinaryComparisonOperator::Other { name } => name@ == operator,
            _ => false,
        }
    }
}

/// The table context a nested `Exists` predicate is translated in: the
/// named table itself for an unrelated table, the relationship's resolved
/// target table for a related one; or the error that makes the `Exists`
/// untranslatable.
pub open spec fn exists_context(
    in_table: api::ExistsInTable,
    table: Seq<char>,
    rels: Seq<api::TableRelationships>,
) -> Result<Seq<char>, SpecError> {
    match in_table {
        api::ExistsInTable::UnrelatedTable { table: t } => if t@.len() == 1 {
            Ok(t@[0]@)
        } else {
            Err(SpecError::UnsupportedTableName(t.deep_view()))
        },
        api::ExistsInTable::RelatedTable { relationship } => spec_target_table(
            rels,
            table,
            relationship@,
        ),
    }
}

/// When `out` is the translation of an `Exists` table reference: an
/// unrelated table is used verbatim, a related one is qualified as
/// `"<table>.<relationship>"`; both carry no static arguments.
pub open spec fn is_exists_in_table_map(
    in_table: api::ExistsInTable,
    table: Seq<char>,
    out: target::ExistsInTable,
) -> bool {
    match in_table {
        api::ExistsInTable::UnrelatedTable { table: t } => match out {
            target::ExistsInTable::Unrelated { table: name, arguments } => t@.len() == 1 && name@
                == t@[0]@ && arguments@.len() == 0,
            _ => false,
        },
        api::ExistsInTable::RelatedTable { relationship } => match out {
            target::ExistsInTable::Related { relationship: name, arguments } => name@ == qualified(
                table,
                relationship@,
            ) && arguments@.len() == 0,
            _ => false,
        },
    }
}

/// When `outs` maps each scalar literal of `values` to a scalar comparison
/// value, in order.
pub open spec fn is_scalar_values_map(
    values: Seq<serde_json::Value>,
    outs: Seq<target::ComparisonValue>,
) -> bool {
    &&& outs.len() == values.len()
    &&& forall|i: int|
        0 <= i < values.len() ==> outs[i] == (target::ComparisonValue::Scalar {
            value: values[i],
        })
}

/// Wraps each scalar literal of an array comparison as a scalar comparison
/// value.
fn map_scalar_values(values: &Vec<serde_json::Value>) -> (r: Vec<target::ComparisonValue>)
    ensures
        is_scalar_values_map(values@, r@),
{
    let mut out: Vec<target::ComparisonValue> = Vec::new();
    let mut i: usize = 0;
    while i < values.len()
        invariant
            i <= values.len(),
            out@.len() == i,
            forall|j: int|
                0 <= j < i ==> out@[j] == (target::ComparisonValue::Scalar { value: values@[j] }),
        decreases values.len() - i,
    {
        out.push(target::ComparisonValue::Scalar { value: clone_value(&values[i]) });
        i = i + 1;
    }
    out
}

/// When `out` is the translation of the filter expression `expression` in
/// the table context `table` under the declared relationships `rels`.
pub open spec fn is_expression_map(
    expression: api::Expression,
    table: Seq<char>,
    rels: Seq<api::TableRelationships>,
    out: target::Expression,
) -> bool
    decreases expression,
{
    match expression {
        api::Expression::And { expressions } => match out {
            target::Expression::And { expressions: outs } => is_expression_seq_map(
                expressions@,
                table,
                rels,
                outs@,
            ),
            _ => false,
        },
        api::Expression::Or { expressions } => match out {
            target::Expression::Or { expressions: outs } => is_expression_seq_map(
                expressions@,
                table,
                rels,
                outs@,
            ),
            _ => false,
        },
        api::Expression::Not { expression: inner } => match out {
            target::Expression::Not { expression: out_inner } => is_expression_map(
                *inner,
                table,
                rels,
                *out_inner,
            ),
            _ => false,
        },
        api::Expression::UnaryComparisonOperator { column, operator } => match out {
            target::Expression::UnaryComparisonOperator { column: oc, operator: oo } => {
                &&& operator@ == "is_null"@
                &&& is_comparison_column_map(column, table, rels, oc)
                &&& oo == target::UnaryComparisonOperator::IsNull
            },
            _ => false,
        },
        api::Expression::BinaryComparisonOperator { column, operator, value } => match out {
            target::Expression::BinaryComparisonOperator { column: oc, operator: oo, value: ov } => {
                &&& is_comparison_column_map(column, table, rels, oc)
                &&& is_binary_operator_map(operator@, oo)
                &&& is_comparison_value_map(value, table, rels, ov)
            },
            _ => false,
        },
        api::Expression::BinaryArrayComparisonOperator { column, operator, value_type, values } => match out {
            target::Expression::BinaryArrayComparisonOperator {
                column: oc,
                operator: oo,
                values: ovs,
            } => {
                &&& operator@ == "in"@
                &&& is_comparison_column_map(column, table, rels, oc)
                &&& oo == target::BinaryArrayComparisonOperator::In
                &&& is_scalar_values_map(values@, ovs@)
            },
            _ => false,
        },
        api::Expression::Exists { in_table, selection } => match out {
            target::Expression::Exists { in_table: oi, predicate } => {
                &&& is_exists_in_table_map(in_table, table, oi)
                &&& match exists_context(in_table, table, rels) {
                    Ok(inner_table) => is_expression_map(*selection, inner_table, rels, *predicate),
                    Err(_) => false,
                }
            },
            _ => false,
        },
    }
}

/// When `outs` is the elementwise translation of the expressions `s`, all in
/// the same table context.
pub open spec fn is_expression_seq_map(
    s: Seq<api::Expression>,
    table: Seq<char>,
    rels: Seq<api::TableRelationships>,
    outs: Seq<target::Expression>,
) -> bool
    decreases s,
{
    if s.len() == 0 {
        outs.len() == 0
    } else {
        &&& outs.len() >= 1
        &&& is_expression_map(s[0], table, rels, outs[0])
        &&& is_expression_seq_map(s.drop_first(), table, rels, outs.drop_first())
    }
}

/// The error, if any, of translating the filter expression `expression` in
/// the table context `table`.
pub open spec fn expression_err(
    expression: api::Expression,
    table: Seq<char>,
    rels: Seq<api::TableRelationships>,
) -> Option<SpecError>
    decreases expression,
{
    match expression {
        api::Expression::And { expressions } => expressions_err(expressions@, table, rels),
        api::Expression::Or { expressions } => expressions_err(expressions@, table, rels),
        api::Expression::Not { expression: inner } => expression_err(*inner, table, rels),
        api::Expression::UnaryComparisonOperator {
            column,
            operator,
        } => match comparison_column_err(column, table, rels) {
            Some(e) => Some(e),
            None => if operator@ == "is_null"@ {
                None
            } else {
                Some(SpecError::UnsupportedUnaryOperator(operator@))
            },
        },
        api::Expression::BinaryComparisonOperator {
            column,
            operator,
            value,
        } => match comparison_column_err(column, table, rels) {
            Some(e) => Some(e),
            None => comparison_value_err(value, table, rels),
        },
        api::Expression::BinaryArrayComparisonOperator {
            column,
            operator,
            value_type,
            values,
        } => match comparison_column_err(column, table, rels) {
            Some(e) => Some(e),
            None => if operator@ == "in"@ {
                None
            } else {
                Some(SpecError::UnsupportedArrayOperator(operator@))
            },
        },
        api::Expression::Exists { in_table, selection } => match exists_context(
            in_table,
            table,
            rels,
        ) {
            Err(e) => Some(e),
            Ok(inner_table) => expression_err(*selection, inner_table, rels),
        },
    }
}

/// The first error among the expressions `s`, in order.
pub open spec fn expressions_err(
    s: Seq<api::Expression>,
    table: Seq<char>,
    rels: Seq<api::TableRelationships>,
) -> Option<SpecError>
    decreases s,
{
    if s.len() == 0 {
        None
    } else {
        match expression_err(s[0], table, rels) {
            Some(e) => Some(e),
            None => expressions_err(s.drop_first(), table, rels),
        }
    }
}

/// Translates a filter expression in the table context `table`: boolean
/// connectives map structurally, comparisons resolve their columns through
/// the relationship registry, and `Exists` changes the context for its
/// nested predicate.
pub fn map_expression(
    expression: &api::Expression,
    table: &str,
    table_relationships: &Vec<api::TableRelationships>,
) -> (r: Result<target::Expression, TranslateError>)
    ensures
        match expression_err(*expression, table@, table_relationships@) {
            None => r is Ok && is_expression_map(
                *expression,
                table@,
                table_relationships@,
                r.unwrap(),
            ),
            Some(e) => r is Err && r.unwrap_err().model() == e,
        },
    decreases *expression,
{
    match expression {
        api::Expression::And { expressions } => {
            proof {
                assert(expressions@.skip(0) =~= expressions@);
            }
            match map_expression_vec(expressions, 0, table, table_relationships) {
                Err(e) => Err(e),
                Ok(outs) => Ok(target::Expression::And { expressions: outs }),
            }
        },
        api::Expression::Or { expressions } => {
            proof {
                assert(expressions@.skip(0) =~= expressions@);
            }
            match map_expression_vec(expressions, 0, table, table_relationships) {
                Err(e) => Err(e),
                Ok(outs) => Ok(target::Expression::Or { expressions: outs }),
            }
        },
        api::Expression::Not { expression: inner } => {
            match map_expression(inner, table, table_relationships) {
                Err(e) => Err(e),
                Ok(out) => Ok(target::Expression::Not { expression: Box::new(out) }),
            }
        },
        api::Expression::UnaryComparisonOperator { column, operator } => {
            match map_comparison_column(column, table, table_relationships) {
                Err(e) => Err(e),
                Ok(oc) => if str_eq(operator.as_str(), "is_null") {
                    Ok(
                        target::Expression::UnaryComparisonOperator {
                            column: oc,
                            operator: target::UnaryComparisonOperator::IsNull,
                        },
                    )
                } else {
                    Err(TranslateError::UnsupportedUnaryOperator(operator.clone()))
                },
            }
        },
        api::Expression::BinaryComparisonOperator { column, operator, value } => {
            match map_comparison_column(column, table, table_relationships) {
                Err(e) => Err(e),
                Ok(oc) => {
                    let oo = if str_eq(operator.as_str(), "equal") {
                        target::BinaryComparisonOperator::Equal
                    } else {
                        target::BinaryComparisonOperator::Other { name: operator.clone() }
                    };
                    match map_comparison_value(value, table, table_relationships) {
                        Err(e) => Err(e),
                        Ok(ov) => Ok(
                            target::Expression::BinaryComparisonOperator {
                                column: oc,
                                operator: oo,
                                value: ov,
                            },
                        ),
                    }
                },
            }
        },
        api::Expression::BinaryArrayComparisonOperator { column, operator, value_type, values } => {
            match map_comparison_column(column, table, table_relationships) {
                Err(e) => Err(e),
                Ok(oc) => if str_eq(operator.as_str(), "in") {
                    Ok(
                        target::Expression::BinaryArrayComparisonOperator {
                            column: oc,
                            operator: target::BinaryArrayComparisonOperator::In,
                            values: map_scalar_values(values),
                        },
                    )
                } else {
                    Err(TranslateError::UnsupportedArrayOperator(operator.clone()))
                },
            }
        },
        api::Expression::Exists { in_table, selection } => {
            match in_table {
                api::ExistsInTable::UnrelatedTable { table: t } => {
                    if t.len() == 1 {
                        let name = t[0].clone();
                        match map_expression(selection, name.as_str(), table_relationships) {
                            Err(e) => Err(e),
                            Ok(pred) => Ok(
                                target::Expression::Exists {
                                    in_table: target::ExistsInTable::Unrelated {
                                        table: name,
                                        arguments: Vec::new(),
                                    },
                                    predicate: Box::new(pred),
                                },
                            ),
                        }
                    } else {
                        Err(TranslateError::UnsupportedTableName(clone_strings(t)))
                    }
                },
                api::ExistsInTable::RelatedTable { relationship } => {
                    match get_target_table(table, relationship.as_str(), table_relationships) {
                        Err(e) => Err(e),
                        Ok(inner_table) => {
                            match map_expression(
                                selection,
                                inner_table.as_str(),
                                table_relationships,
                            ) {
                                Err(e) => Err(e),
                                Ok(pred) => Ok(
                                    target::Expression::Exists {
                                        in_table: target::ExistsInTable::Related {
                                            relationship: qualify(table, relationship.as_str()),
                                            arguments: Vec::new(),
                                        },
                                        predicate: Box::new(pred),
                                    },
                                ),
                            }
                        },
                    }
                },
            }
        },
    }
}

/// When `out` is the hop-by-hop translation of the order-by path `path`
/// from the table context `table`: each hop must be declared at the current
/// level of the order-by relation registry `relations` and resolvable
/// through the relationship registry, is named
/// `"<current table>.<segment>"` with no static arguments, and carries as
/// its predicate the hop's recorded selection translated in the hop's
/// target table — or an empty (always-true) conjunction when no selection
/// was recorded.
pub open spec fn is_order_by_path_map(
    path: Seq<String>,
    relations: Seq<(String, api::OrderByRelation)>,
    table: Seq<char>,
    rels: Seq<api::TableRelationships>,
    out: Seq<target::PathElementWithPredicate>,
) -> bool
    decreases path.len(),
{
    if path.len() == 0 {
        out.len() == 0
    } else {
        match lookup(relations, path[0]@) {
            None => false,
            Some(relation) => match spec_target_table(rels, table, path[0]@) {
                Err(_) => false,
                Ok(t) => {
                    &&& out.len() >= 1
                    &&& out[0].relationship@ == qualified(table, path[0]@)
                    &&& out[0].arguments@.len() == 0
                    &&& match relation.selection {
                        Some(selection) => is_expression_map(selection, t, rels, out[0].predicate),
                        None => match out[0].predicate {
                            target::Expression::And { expressions } => expressions@.len() == 0,
                            _ => false,
                        },
                    }
                    &&& is_order_by_path_map(
                        path.drop_first(),
                        relation.subrelations@,
                        t,
                        rels,
                        out.drop_first(),
                    )
                },
            },
        }
    }
}

/// The first error along a predicate-carrying order-by path, if any: an
/// undeclared registry segment, an unresolvable hop, or a failing hop
/// selection.
pub open spec fn order_by_path_err(
    path: Seq<String>,
    relations: Seq<(String, api::OrderByRelation)>,
    table: Seq<char>,
    rels: Seq<api::TableRelationships>,
) -> Option<SpecError>
    decreases path.len(),
{
    if path.len() == 0 {
        None
    } else {
        match lookup(relations, path[0]@) {
            None => Some(SpecError::UnresolvedOrderByRelation(path[0]@)),
            Some(relation) => match spec_target_table(rels, table, path[0]@) {
                Err(e) => Some(e),
                Ok(t) => {
                    let selection_err = match relation.selection {
                        Some(selection) => expression_err(selection, t, rels),
                        None => None,
                    };
                    match selection_err {
                        Some(e) => Some(e),
                        None => order_by_path_err(path.drop_first(), relation.subrelations@, t, rels),
                    }
                },
            },
        }
    }
}

/// When `out` is the hop-by-hop translation of the order-by path `path`
/// without predicates: the same walk as [`is_order_by_path_map`], with the
/// hops' recorded selections ignored.
pub open spec fn is_order_by_path_np_map(
    path: Seq<String>,
    relations: Seq<(String, api::OrderByRelation)>,
    table: Seq<char>,
    rels: Seq<api::TableRelationships>,
    out: Seq<target::PathElement>,
) -> bool
    decreases path.len(),
{
    if path.len() == 0 {
        out.len() == 0
    } else {
        match lookup(relations, path[0]@) {
            None => false,
            Some(relation) => match spec_target_table(rels, table, path[0]@) {
                Err(_) => false,
                Ok(t) => {
                    &&& out.len() >= 1
                    &&& out[0].relationship@ == qualified(table, path[0]@)
                    &&& out[0].arguments@.len() == 0
                    &&& is_order_by_path_np_map(
                        path.drop_first(),
                        relation.subrelations@,
                        t,
                        rels,
                        out.drop_first(),
                    )
                },
            },
        }
    }
}

/// The first error along a predicate-free order-by path, if any.
pub open spec fn order_by_path_np_err(
    path: Seq<String>,
    relations: Seq<(String, api::OrderByRelation)>,
    table: Seq<char>,
    rels: Seq<api::TableRelationships>,
) -> Option<SpecError>
    decreases path.len(),
{
    if path.len() == 0 {
        None
    } else {
        match lookup(relations, path[0]@) {
            None => Some(SpecError::UnresolvedOrderByRelation(path[0]@)),
            Some(relation) => match spec_target_table(rels, table, path[0]@) {
                Err(e) => Some(e),
                Ok(t) => order_by_path_np_err(path.drop_first(), relation.subrelations@, t, rels),
            },
        }
    }
}

/// Translates an order-by traversal path in with-predicate mode, as used
/// for aggregate-based ordering targets: every hop resolves its target
/// table and carries the hop's recorded filter, defaulting to an empty
/// (always-true) conjunction.
pub fn map_order_by_path(
    path: &Vec<String>,
    relations: &Vec<(String, api::OrderByRelation)>,
    table: &str,
    table_relationships: &Vec<api::TableRelationships>,
) -> (r: Result<Vec<target::PathElementWithPredicate>, TranslateError>)
    ensures
        match order_by_path_err(path@, relations@, table@, table_relationships@) {
            None => r is Ok && is_order_by_path_map(
                path@,
                relations@,
                table@,
                table_relationships@,
                r.unwrap()@,
            ),
            Some(e) => r is Err && r.unwrap_err().model() == e,
        },
{
    proof {
        assert(path@.skip(0) =~= path@);
    }
    map_order_by_path_from(path, 0, relations, table, table_relationships)
}

/// The recursive walk behind [`map_order_by_path`], from position `from`
/// of the path on.
fn map_order_by_path_from(
    path: &Vec<String>,
    from: usize,
    relations: &Vec<(String, api::OrderByRelation)>,
    table: &str,
    table_relationships: &Vec<api::TableRelationships>,
) -> (r: Result<Vec<target::PathElementWithPredicate>, TranslateError>)
    requires
        from <= path@.len(),
    ensures
        match order_by_path_err(path@.skip(from as int), relations@, table@, table_relationships@) {
            None => r is Ok && is_order_by_path_map(
                path@.skip(from as int),
                relations@,
                table@,
                table_relationships@,
                r.unwrap()@,
            ),
            Some(e) => r is Err && r.unwrap_err().model() == e,
        },
    decreases path@.len() - from,
{
    let ghost suffix = path@.skip(from as int);
    if from == path.len() {
        proof {
            assert(suffix =~= Seq::<String>::empty());
        }
        Ok(Vec::new())
    } else {
        let segment = &path[from];
        proof {
            assert(suffix[0] == path@[from as int]);
            assert(suffix.drop_first() =~= path@.skip(from as int + 1));
        }
        match find_entry(relations, segment.as_str()) {
            None => Err(TranslateError::UnresolvedOrderByRelation(segment.clone())),
            Some(relation) => {
                match get_target_table(table, segment.as_str(), table_relationships) {
                    Err(e) => Err(e),
                    Ok(t) => {
                        let predicate = match &relation.selection {
                            Some(selection) => {
                                match map_expression(selection, t.as_str(), table_relationships) {
                                    Err(e) => {
                                        return Err(e);
                                    },
                                    Ok(p) => p,
                                }
                            },
                            None => target::Expression::And { expressions: Vec::new() },
                        };
                        let elem = target::PathElementWithPredicate {
                            relationship: qualify(table, segment.as_str()),
                            arguments: Vec::new(),
                            predicate,
                        };
                        match map_order_by_path_from(
                            path,
                            from + 1,
                            &relation.subrelations,
                            t.as_str(),
                            table_relationships,
                        ) {
                            Err(e) => Err(e),
                            Ok(rest) => {
                                let mut rest = rest;
                                let ghost rest_view = rest@;
                                let mut out: Vec<target::PathElementWithPredicate> = Vec::new();
                                out.push(elem);
                                out.append(&mut rest);
                                proof {
                                    assert(out@[0] == elem);
                                    assert(out@.drop_first() =~= rest_view);
                                }
                                Ok(out)
                            },
                        }
                    },
                }
            },
        }
    }
}

/// Translates an order-by traversal path in without-predicate mode, as
/// used for plain-column ordering targets: the same hop-by-hop resolution,
/// omitting predicates.
pub fn map_order_by_path_without_predicate(
    path: &Vec<String>,
    relations: &Vec<(String, api::OrderByRelation)>,
    table: &str,
    table_relationships: &Vec<api::TableRelationships>,
) -> (r: Result<Vec<target::PathElement>, TranslateError>)
    ensures
        match order_by_path_np_err(path@, relations@, table@, table_relationships@) {
            None => r is Ok && is_order_by_path_np_map(
                path@,
                relations@,
                table@,
                table_relationships@,
                r.unwrap()@,
            ),
            Some(e) => r is Err && r.unwrap_err().model() == e,
        },
{
    proof {
        assert(path@.skip(0) =~= path@);
    }
    map_order_by_path_np_from(path, 0, relations, table, table_relationships)
}

/// The recursive walk behind [`map_order_by_path_without_predicate`].
fn map_order_by_path_np_from(
    path: &Vec<String>,
    from: usize,
    relations: &Vec<(String, api::OrderByRelation)>,
    table: &str,
    table_relationships: &Vec<api::TableRelationships>,
) -> (r: Result<Vec<target::PathElement>, TranslateError>)
    requires
        from <= path@.len(),
    ensures
        match order_by_path_np_err(
            path@.skip(from as int),
            relations@,
            table@,
            table_relationships@,
        ) {
            None => r is Ok && is_order_by_path_np_map(
                path@.skip(from as int),
                relations@,
                table@,
                table_relationships@,
                r.unwrap()@,
            ),
            Some(e) => r is Err && r.unwrap_err().model() == e,
        },
    decreases path@.len() - from,
{
    let ghost suffix = path@.skip(from as int);
    if from == path.len() {
        proof {
            assert(suffix =~= Seq::<String>::empty());
        }
        Ok(Vec::new())
    } else {
        let segment = &path[from];
        proof {
            assert(suffix[0] == path@[from as int]);
            assert(suffix.drop_first() =~= path@.skip(from as int + 1));
        }
        match find_entry(relations, segment.as_str()) {
            None => Err(TranslateError::UnresolvedOrderByRelation(segment.clone())),
            Some(relation) => {
                match get_target_table(table, segment.as_str(), table_relationships) {
                    Err(e) => Err(e),
                    Ok(t) => {
                        let elem = target::PathElement {
                            relationship: qualify(table, segment.as_str()),
                            arguments: Vec::new(),
                        };
                        match map_order_by_path_np_from(
                            path,
                            from + 1,
                            &relation.subrelations,
                            t.as_str(),
                            table_relationships,
                        ) {
                            Err(e) => Err(e),
                            Ok(rest) => {
                                let mut rest = rest;
                                let ghost rest_view = rest@;
                                let mut out: Vec<target::PathElement> = Vec::new();
                                out.push(elem);
                                out.append(&mut rest);
                                proof {
                                    assert(out@[0] == elem);
                                    assert(out@.drop_first() =~= rest_view);
                                }
                                Ok(out)
                            },
                        }
                    },
                }
            },
        }
    }
}

/// When `out` is the translation of an ordering direction.
pub open spec fn is_order_direction_map(
    direction: api::OrderDirection,
    out: target::OrderDirection,
) -> bool {
    match direction {
        api::OrderDirection::Asc => out == target::OrderDirection::Asc,
        api::OrderDirection::Desc => out == target::OrderDirection::Desc,
    }
}

/// When `out` is the translation of one ordering element: the direction
/// maps one-to-one, and the target keeps its kind, resolving its traversal
/// path with per-hop predicates for aggregate targets and without them for
/// a plain column; declared result types are dropped.
pub open spec fn is_order_by_element_map(
    element: api::OrderByElement,
    relations: Seq<(String, api::OrderByRelation)>,
    table: Seq<char>,
    rels: Seq<api::TableRelationships>,
    out: target::OrderByElement,
) -> bool {
    &&& is_order_direction_map(element.order_direction, out.order_direction)
    &&& match element.target {
        api::OrderByTarget::StarCountAggregate => match out.target {
            target::OrderByTarget::StarCountAggregate { path } => is_order_by_path_map(
                element.target_path@,
                relations,
                table,
                rels,
                path@,
            ),
            _ => false,
        },
        api::OrderByTarget::SingleColumnAggregate { column, function, result_type } => match out.target {
            target::OrderByTarget::SingleColumnAggregate { column: oc, function: of, path } => {
                &&& oc@ == column@
                &&& of@ == function@
                &&& is_order_by_path_map(element.target_path@, relations, table, rels, path@)
            },
            _ => false,
        },
        api::OrderByTarget::Column { column } => match out.target {
            target::OrderByTarget::Column { name, path } => name@ == column@
                && is_order_by_path_np_map(element.target_path@, relations, table, rels, path@),
            _ => false,
        },
    }
}

/// The error, if any, of translating one ordering element.
pub open spec fn order_by_element_err(
    element: api::OrderByElement,
    relations: Seq<(String, api::OrderByRelation)>,
    table: Seq<char>,
    rels: Seq<api::TableRelationships>,
) -> Option<SpecError> {
    match element.target {
        api::OrderByTarget::StarCountAggregate => order_by_path_err(
            element.target_path@,
            relations,
            table,
            rels,
        ),
        api::OrderByTarget::SingleColumnAggregate { column, function, result_type } => order_by_path_err(
            element.target_path@,
            relations,
            table,
            rels,
        ),
        api::OrderByTarget::Column { column } => order_by_path_np_err(
            element.target_path@,
            relations,
            table,
            rels,
        ),
    }
}

/// When `outs` is the elementwise translation of the ordering elements
/// `s`, each walking the same top-level relation registry from the same
/// table context.
pub open spec fn is_order_by_elements_map(
    s: Seq<api::OrderByElement>,
    relations: Seq<(String, api::OrderByRelation)>,
    table: Seq<char>,
    rels: Seq<api::TableRelationships>,
    outs: Seq<target::OrderByElement>,
) -> bool
    decreases s,
{
    if s.len() == 0 {
        outs.len() == 0
    } else {
        &&& outs.len() >= 1
        &&& is_order_by_element_map(s[0], relations, table, rels, outs[0])
        &&& is_order_by_elements_map(s.drop_first(), relations, table, rels, outs.drop_first())
    }
}

/// The first error among the ordering elements `s`, in order.
pub open spec fn order_by_elements_err(
    s: Seq<api::OrderByElement>,
    relations: Seq<(String, api::OrderByRelation)>,
    table: Seq<char>,
    rels: Seq<api::TableRelationships>,
) -> Option<SpecError>
    decreases s,
{
    if s.len() == 0 {
        None
    } else {
        match order_by_element_err(s[0], relations, table, rels) {
            Some(e) => Some(e),
            None => order_by_elements_err(s.drop_first(), relations, table, rels),
        }
    }
}

/// When `out` is the translation of a whole ordering specification.
pub open spec fn is_order_by_map(
    order_by: api::OrderBy,
    table: Seq<char>,
    rels: Seq<api::TableRelationships>,
    out: target::OrderBy,
) -> bool {
    is_order_by_elements_map(order_by.elements@, order_by.relations@, table, rels, out.elements@)
}

/// The error, if any, of translating a whole ordering specification.
pub open spec fn order_by_err(
    order_by: api::OrderBy,
    table: Seq<char>,
    rels: Seq<api::TableRelationships>,
) -> Option<SpecError> {
    order_by_elements_err(order_by.elements@, order_by.relations@, table, rels)
}

/// Translates one ordering element in the table context `table`.
pub fn map_order_by_element(
    element: api::OrderByElement,
    relations: &Vec<(String, api::OrderByRelation)>,
    table: &str,
    table_relationships: &Vec<api::TableRelationships>,
) -> (r: Result<target::OrderByElement, TranslateError>)
    ensures
        match order_by_element_err(element, relations@, table@, table_relationships@) {
            None => r is Ok && is_order_by_element_map(
                element,
                relations@,
                table@,
                table_relationships@,
                r.unwrap(),
            ),
            Some(e) => r is Err && r.unwrap_err().model() == e,
        },
{
    let api::OrderByElement { order_direction, target: element_target, target_path } = element;
    let direction = match order_direction {
        api::OrderDirection::Asc => target::OrderDirection::Asc,
        api::OrderDirection::Desc => target::OrderDirection::Desc,
    };
    match element_target {
        api::OrderByTarget::StarCountAggregate => {
            match map_order_by_path(&target_path, relations, table, table_relationships) {
                Err(e) => Err(e),
                Ok(path) => Ok(
                    target::OrderByElement {
                        order_direction: direction,
                        target: target::OrderByTarget::StarCountAggregate { path },
                    },
                ),
            }
        },
        api::OrderByTarget::SingleColumnAggregate { column, function, result_type } => {
            match map_order_by_path(&target_path, relations, table, table_relationships) {
                Err(e) => Err(e),
                Ok(path) => Ok(
                    target::OrderByElement {
                        order_direction: direction,
                        target: target::OrderByTarget::SingleColumnAggregate {
                            column,
                            function,
                            path,
                        },
                    },
                ),
            }
        },
        api::OrderByTarget::Column { column } => {
            match map_order_by_path_without_predicate(
                &target_path,
                relations,
                table,
                table_relationships,
            ) {
                Err(e) => Err(e),
                Ok(path) => Ok(
                    target::OrderByElement {
                        order_direction: direction,
                        target: target::OrderByTarget::Column { name: column, path },
                    },
                ),
            }
        },
    }
}

/// Translates a whole ordering specification: each element walks the same
/// top-level relation registry from the same table context.
pub fn map_order_by(
    order_by: api::OrderBy,
    table: &str,
    table_relationships: &Vec<api::TableRelationships>,
) -> (r: Result<target::OrderBy, TranslateError>)
    ensures
        match order_by_err(order_by, table@, table_relationships@) {
            None => r is Ok && is_order_by_map(
                order_by,
                table@,
                table_relationships@,
                r.unwrap(),
            ),
            Some(e) => r is Err && r.unwrap_err().model() == e,
        },
{
    let api::OrderBy { elements, relations } = order_by;
    match map_order_by_elements(elements, &relations, table, table_relationships) {
        Err(e) => Err(e),
        Ok(outs) => Ok(target::OrderBy { elements: outs }),
    }
}

/// Translates a list of ordering elements, stopping at the first failing
/// one.
fn map_order_by_elements(
    elements: Vec<api::OrderByElement>,
    relations: &Vec<(String, api::OrderByRelation)>,
    table: &str,
    table_relationships: &Vec<api::TableRelationships>,
) -> (r: Result<Vec<target::OrderByElement>, TranslateError>)
    ensures
        match order_by_elements_err(elements@, relations@, table@, table_relationships@) {
            None => r is Ok && is_order_by_elements_map(
                elements@,
                relations@,
                table@,
                table_relationships@,
                r.unwrap()@,
            ),
            Some(e) => r is Err && r.unwrap_err().model() == e,
        },
    decreases elements@.len(),
{
    let ghost orig = elements@;
    if elements.len() == 0 {
        Ok(Vec::new())
    } else {
        let mut elements = elements;
        let hd = elements.remove(0);
        proof {
            assert(elements@ =~= orig.drop_first());
            assert(hd == orig[0]);
        }
        match map_order_by_element(hd, relations, table, table_relationships) {
            Err(e) => Err(e),
            Ok(hd_out) => {
                match map_order_by_elements(elements, relations, table, table_relationships) {
                    Err(e) => Err(e),
                    Ok(rest) => {
                        let mut rest = rest;
                        let ghost rest_view = rest@;
                        let mut out: Vec<target::OrderByElement> = Vec::new();
                        out.push(hd_out);
                        out.append(&mut rest);
                        proof {
                            assert(out@[0] == hd_out);
                            assert(out@.drop_first() =~= rest_view);
                        }
                        Ok(out)
                    },
                }
            },
        }
    }
}

/// Translates the expressions of `expressions`, from position `from` on,
/// all in the same table context, stopping at the first failing element.
fn map_expression_vec(
    expressions: &Vec<api::Expression>,
    from: usize,
    table: &str,
    table_relationships: &Vec<api::TableRelationships>,
) -> (r: Result<Vec<target::Expression>, TranslateError>)
    requires
        from <= expressions@.len(),
    ensures
        match expressions_err(expressions@.skip(from as int), table@, table_relationships@) {
            None => r is Ok && is_expression_seq_map(
                expressions@.skip(from as int),
                table@,
                table_relationships@,
                r.unwrap()@,
            ),
            Some(e) => r is Err && r.unwrap_err().model() == e,
        },
    decreases expressions@.skip(from as int),
{
    let ghost suffix = expressions@.skip(from as int);
    if from == expressions.len() {
        proof {
            assert(suffix =~= Seq::<api::Expression>::empty());
        }
        Ok(Vec::new())
    } else {
        proof {
            assert(suffix[0] == expressions@[from as int]);
            assert(suffix.drop_first() =~= expressions@.skip(from as int + 1));
        }
        match map_expression(&expressions[from], table, table_relationships) {
            Err(e) => Err(e),
            Ok(hd_out) => {
                match map_expression_vec(expressions, from + 1, table, table_relationships) {
                    Err(e) => Err(e),
                    Ok(rest) => {
                        let mut rest = rest;
                        let ghost rest_view = rest@;
                        let mut out: Vec<target::Expression> = Vec::new();
                        out.push(hd_out);
                        out.append(&mut rest);
                        proof {
                            assert(out@[0] == hd_out);
                            assert(out@.drop_first() =~= rest_view);
                        }
                        Ok(out)
                    },
                }
            },
        }
    }
}

/// When `out` is the translation of one aggregate: the kind and its column
/// and function carry over, a declared result type is dropped.
pub open spec fn is_aggregate_map(aggregate: api::Aggregate, out: target::Aggregate) -> bool {
    match aggregate {
        api::Aggregate::ColumnCount { column, distinct } => match out {
            target::Aggregate::ColumnCount { column: oc, distinct: od } => oc@ == column@ && od
                == distinct,
            _ => false,
        },
        api::Aggregate::SingleColumn { column, function, result_type } => match out {
            target::Aggregate::SingleColumn { column: oc, function: of } => oc@ == column@ && of@
                == function@,
            _ => false,
        },
        api::Aggregate::StarCount => out == target::Aggregate::StarCount,
    }
}

/// When `outs` is the elementwise translation of the named aggregates `s`,
/// names kept in order.
pub open spec fn is_aggregates_map(
    s: Seq<(String, api::Aggregate)>,
    outs: Seq<(String, target::Aggregate)>,
) -> bool
    decreases s,
{
    if s.len() == 0 {
        outs.len() == 0
    } else {
        &&& outs.len() >= 1
        &&& outs[0].0@ == s[0].0@
        &&& is_aggregate_map(s[0].1, outs[0].1)
        &&& is_aggregates_map(s.drop_first(), outs.drop_first())
    }
}

/// When `out` is the translation of one selected field in the table context
/// `table`: a plain column keeps its name (its declared type dropped) with
/// no static arguments; a relationship field is qualified as
/// `"<table>.<relationship>"` and its nested query is translated in the
/// relationship's resolved target table.
pub open spec fn is_field_map(
    field: api::Field,
    table: Seq<char>,
    rels: Seq<api::TableRelationships>,
    out: target::Field,
) -> bool
    decreases field,
{
    match field {
        api::Field::Column { column, column_type } => match out {
            target::Field::Column { column: oc, arguments } => oc@ == column@ && arguments@.len()
                == 0,
            _ => false,
        },
        api::Field::Relationship { query, relationship } => match out {
            target::Field::Relationship { query: oq, relationship: orel, arguments } => {
                &&& orel@ == qualified(table, relationship@)
                &&& arguments@.len() == 0
                &&& match spec_target_table(rels, table, relationship@) {
                    Ok(t) => is_query_map(*query, t, rels, *oq),
                    Err(_) => false,
                }
            },
            _ => false,
        },
    }
}

/// The error, if any, of translating one selected field.
pub open spec fn field_err(
    field: api::Field,
    table: Seq<char>,
    rels: Seq<api::TableRelationships>,
) -> Option<SpecError>
    decreases field,
{
    match field {
        api::Field::Column { column, column_type } => None,
        api::Field::Relationship { query, relationship } => match spec_target_table(
            rels,
            table,
            relationship@,
        ) {
            Err(e) => Some(e),
            Ok(t) => query_err(*query, t, rels),
        },
    }
}

/// When `outs` is the elementwise translation of the named fields `s`,
/// aliases kept in order.
pub open spec fn is_fields_map(
    s: Seq<(String, api::Field)>,
    table: Seq<char>,
    rels: Seq<api::TableRelationships>,
    outs: Seq<(String, target::Field)>,
) -> bool
    decreases s,
{
    if s.len() == 0 {
        outs.len() == 0
    } else {
        &&& outs.len() >= 1
        &&& outs[0].0@ == s[0].0@
        &&& is_field_map(s[0].1, table, rels, outs[0].1)
        &&& is_fields_map(s.drop_first(), table, rels, outs.drop_first())
    }
}

/// The first error among the named fields `s`, in order.
pub open spec fn fields_err(
    s: Seq<(String, api::Field)>,
    table: Seq<char>,
    rels: Seq<api::TableRelationships>,
) -> Option<SpecError>
    decreases s,
{
    if s.len() == 0 {
        None
    } else {
        match field_err(s[0].1, table, rels) {
            Some(e) => Some(e),
            None => fields_err(s.drop_first(), table, rels),
        }
    }
}

/// When `out` is the translation of one query node in the table context
/// `table`: fields, aggregates, ordering and predicate map as their own
/// relations say; limit and offset pass through unchanged; an aggregates
/// limit of the legacy shape has no counterpart and is dropped.
pub open spec fn is_query_map(
    query: api::Query,
    table: Seq<char>,
    rels: Seq<api::TableRelationships>,
    out: target::Query,
) -> bool
    decreases query,
{
    &&& match query.aggregates {
        None => out.aggregates is None,
        Some(aggs) => match out.aggregates {
            Some(oaggs) => is_aggregates_map(aggs@, oaggs@),
            None => false,
        },
    }
    &&& match query.fields {
        None => out.fields is None,
        Some(fs) => match out.fields {
            Some(ofs) => is_fields_map(fs@, table, rels, ofs@),
            None => false,
        },
    }
    &&& out.limit == query.limit
    &&& out.offset == query.offset
    &&& match query.order_by {
        None => out.order_by is None,
        Some(ob) => match out.order_by {
            Some(oob) => is_order_by_map(ob, table, rels, oob),
            None => false,
        },
    }
    &&& match query.selection {
        None => out.predicate is None,
        Some(selection) => match out.predicate {
            Some(op) => is_expression_map(selection, table, rels, op),
            None => false,
        },
    }
}

/// The error, if any, of translating one query node: the ordering is
/// translated first, then the fields, then the predicate.
pub open spec fn query_err(
    query: api::Query,
    table: Seq<char>,
    rels: Seq<api::TableRelationships>,
) -> Option<SpecError>
    decreases query,
{
    let ob_err = match query.order_by {
        Some(ob) => order_by_err(ob, table, rels),
        None => None,
    };
    match ob_err {
        Some(e) => Some(e),
        None => {
            let fs_err = match query.fields {
                Some(fs) => fields_err(fs@, table, rels),
                None => None,
            };
            match fs_err {
                Some(e) => Some(e),
                None => match query.selection {
                    Some(selection) => expression_err(selection, table, rels),
                    None => None,
                },
            }
        },
    }
}

/// Translates the named aggregates of a query, dropping declared result
/// types.
fn map_aggregates(aggregates: Vec<(String, api::Aggregate)>) -> (r: Vec<
    (String, target::Aggregate),
>)
    ensures
        is_aggregates_map(aggregates@, r@),
    decreases aggregates@.len(),
{
    let ghost orig = aggregates@;
    if aggregates.len() == 0 {
        Vec::new()
    } else {
        let mut aggregates = aggregates;
        let (name, aggregate) = aggregates.remove(0);
        proof {
            assert(aggregates@ =~= orig.drop_first());
            assert((name, aggregate) == orig[0]);
        }
        let out_aggregate = match aggregate {
            api::Aggregate::ColumnCount { column, distinct } => target::Aggregate::ColumnCount {
                column,
                distinct,
            },
            api::Aggregate::SingleColumn {
                column,
                function,
                result_type,
            } => target::Aggregate::SingleColumn { column, function },
            api::Aggregate::StarCount => target::Aggregate::StarCount,
        };
        let mut rest = map_aggregates(aggregates);
        let ghost rest_view = rest@;
        let mut out: Vec<(String, target::Aggregate)> = Vec::new();
        out.push((name, out_aggregate));
        out.append(&mut rest);
        proof {
            assert(out@.drop_first() =~= rest_view);
        }
        out
    }
}

/// Translates one selected field in the table context `table`.
fn map_field(
    field: api::Field,
    table: &str,
    table_relationships: &Vec<api::TableRelationships>,
) -> (r: Result<target::Field, TranslateError>)
    ensures
        match field_err(field, table@, table_relationships@) {
            None => r is Ok && is_field_map(field, table@, table_relationships@, r.unwrap()),
            Some(e) => r is Err && r.unwrap_err().model() == e,
        },
    decreases field,
{
    match field {
        api::Field::Column { column, column_type } => Ok(
            target::Field::Column { column, arguments: Vec::new() },
        ),
        api::Field::Relationship { query, relationship } => {
            match get_target_table(table, relationship.as_str(), table_relationships) {
                Err(e) => Err(e),
                Ok(t) => {
                    match map_query(*query, t, table_relationships) {
                        Err(e) => Err(e),
                        Ok(oq) => Ok(
                            target::Field::Relationship {
                                query: Box::new(oq),
                                relationship: qualify(table, relationship.as_str()),
                                arguments: Vec::new(),
                            },
                        ),
                    }
                },
            }
        },
    }
}

/// Translates the named fields of a query, stopping at the first failing
/// one.
fn map_fields(
    fields: Vec<(String, api::Field)>,
    table: &str,
    table_relationships: &Vec<api::TableRelationships>,
) -> (r: Result<Vec<(String, target::Field)>, TranslateError>)
    ensures
        match fields_err(fields@, table@, table_relationships@) {
            None => r is Ok && is_fields_map(
                fields@,
                table@,
                table_relationships@,
                r.unwrap()@,
            ),
            Some(e) => r is Err && r.unwrap_err().model() == e,
        },
    decreases fields@,
{
    let ghost orig = fields@;
    if fields.len() == 0 {
        Ok(Vec::new())
    } else {
        let mut fields = fields;
        let (alias, field) = fields.remove(0);
        proof {
            assert(fields@ =~= orig.drop_first());
            assert((alias, field) == orig[0]);
        }
        match map_field(field, table, table_relationships) {
            Err(e) => Err(e),
            Ok(out_field) => {
                match map_fields(fields, table, table_relationships) {
                    Err(e) => Err(e),
                    Ok(rest) => {
                        let mut rest = rest;
                        let ghost rest_view = rest@;
                        let mut out: Vec<(String, target::Field)> = Vec::new();
                        out.push((alias, out_field));
                        out.append(&mut rest);
                        proof {
                            assert(out@.drop_first() =~= rest_view);
                        }
                        Ok(out)
                    },
                }
            },
        }
    }
}

/// Translates one query node in the table context `table`: the ordering
/// first, then aggregates, fields (recursing into relationship fields with
/// a changed context), and finally the predicate; limit and offset pass
/// through.
pub fn map_query(
    query: api::Query,
    table: String,
    table_relationships: &Vec<api::TableRelationships>,
) -> (r: Result<target::Query, TranslateError>)
    ensures
        match query_err(query, table@, table_relationships@) {
            None => r is Ok && is_query_map(query, table@, table_relationships@, r.unwrap()),
            Some(e) => r is Err && r.unwrap_err().model() == e,
        },
    decreases query,
{
    let api::Query { aggregates, aggregates_limit, fields, limit, offset, order_by, selection } =
        query;
    let order_by_out = match order_by {
        None => None,
        Some(ob) => match map_order_by(ob, table.as_str(), table_relationships) {
            Err(e) => {
                return Err(e);
            },
            Ok(o) => Some(o),
        },
    };
    let aggregates_out = match aggregates {
        None => None,
        Some(aggs) => Some(map_aggregates(aggs)),
    };
    let fields_out = match fields {
        None => None,
        Some(fs) => {
            proof {
                assert(fs@ == query.fields->0@);
            }
            match map_fields(fs, table.as_str(), table_relationships) {
                Err(e) => {
                    return Err(e);
                },
                Ok(o) => Some(o),
            }
        },
    };
    let predicate = match selection {
        None => None,
        Some(selection) => match map_expression(&selection, table.as_str(), table_relationships) {
            Err(e) => {
                return Err(e);
            },
            Ok(p) => Some(p),
        },
    };
    Ok(
        target::Query {
            aggregates: aggregates_out,
            fields: fields_out,
            limit,
            offset,
            order_by: order_by_out,
            predicate,
        },
    )
}

/// When `outs` keeps, for each batch element of `s`, each variable's name
/// and bare scalar value, the declared types dropped.
pub open spec fn is_variables_map(
    s: Seq<api::ForeachRow>,
    outs: Seq<Vec<(String, serde_json::Value)>>,
) -> bool {
    &&& outs.len() == s.len()
    &&& forall|i: int| 0 <= i < s.len() ==> #[trigger] is_variable_row_map(s[i]@, outs[i]@)
}

/// When `out` keeps each variable's name and bare scalar value of one batch
/// element.
pub open spec fn is_variable_row_map(
    row: Seq<(String, api::ScalarValue)>,
    out: Seq<(String, serde_json::Value)>,
) -> bool {
    &&& out.len() == row.len()
    &&& forall|i: int|
        0 <= i < row.len() ==> (#[trigger] out[i]).0@ == row[i].0@ && out[i].1 == row[i].1.value
}

/// Keeps each variable's name and bare scalar value of one batch element.
fn map_variable_row(row: api::ForeachRow) -> (r: Vec<(String, serde_json::Value)>)
    ensures
        is_variable_row_map(row@, r@),
{
    let ghost orig = row@;
    let mut row = row;
    let mut out: Vec<(String, serde_json::Value)> = Vec::new();
    let mut i: usize = 0;
    let n = row.len();
    while i < n
        invariant
            n == orig.len(),
            i <= n,
            row@ =~= orig.skip(i as int),
            out@.len() == i,
            forall|j: int|
                0 <= j < i ==> (#[trigger] out@[j]).0@ == orig[j].0@ && out@[j].1 == orig[j].1.value,
        decreases n - i,
    {
        let (name, scalar) = row.remove(0);
        proof {
            assert((name, scalar) == orig[i as int]);
            assert(row@ =~= orig.skip(i as int + 1));
        }
        out.push((name, scalar.value));
        i = i + 1;
    }
    out
}

/// Builds the variable-batch list of a batched request.
fn map_variables(foreach: Vec<api::ForeachRow>) -> (r: Vec<Vec<(String, serde_json::Value)>>)
    ensures
        is_variables_map(foreach@, r@),
{
    let ghost orig = foreach@;
    let mut foreach = foreach;
    let mut out: Vec<Vec<(String, serde_json::Value)>> = Vec::new();
    let mut i: usize = 0;
    let n = foreach.len();
    while i < n
        invariant
            n == orig.len(),
            i <= n,
            foreach@ =~= orig.skip(i as int),
            out@.len() == i,
            forall|j: int| 0 <= j < i ==> #[trigger] is_variable_row_map(orig[j]@, out@[j]@),
        decreases n - i,
    {
        let row = foreach.remove(0);
        proof {
            assert(row == orig[i as int]);
            assert(foreach@ =~= orig.skip(i as int + 1));
        }
        out.push(map_variable_row(row));
        i = i + 1;
    }
    out
}

/// When `out` is the translation of one declared relationship out of the
/// single-segment source table `source`: the column mapping carries over,
/// the kind maps one-to-one, the source and the single-segment target table
/// are named directly, and no static arguments are emitted.
pub open spec fn is_relationship_map(
    source: Seq<char>,
    rel: api::Relationship,
    out: target::Relationship,
) -> bool {
    &&& out.column_mapping@ == rel.column_mapping@
    &&& match rel.relationship_type {
        api::RelationshipType::Object => out.relationship_type == target::RelationshipType::Object,
        api::RelationshipType::Array => out.relationship_type == target::RelationshipType::Array,
    }
    &&& out.source_table_or_type@ == source
    &&& rel.target_table@.len() == 1
    &&& out.target_table@ == rel.target_table@[0]@
    &&& out.arguments@.len() == 0
}

/// When `out` is the flattened pair for one relationship of one declared
/// entry: keyed `"<source table>.<relationship name>"`.
pub open spec fn is_flat_pair_map(
    entry: api::TableRelationships,
    pair: (String, api::Relationship),
    out: (String, target::Relationship),
) -> bool {
    &&& entry.source_table@.len() == 1
    &&& out.0@ == qualified(entry.source_table@[0]@, pair.0@)
    &&& is_relationship_map(entry.source_table@[0]@, pair.1, out.1)
}

/// The error, if any, of flattening one relationship of one declared entry:
/// a source or target table reference that is not a single-segment name.
pub open spec fn flat_pair_err(
    entry: api::TableRelationships,
    pair: (String, api::Relationship),
) -> Option<SpecError> {
    if entry.source_table@.len() != 1 {
        Some(SpecError::UnsupportedTableName(entry.source_table.deep_view()))
    } else if pair.1.target_table@.len() != 1 {
        Some(SpecError::UnsupportedTableName(pair.1.target_table.deep_view()))
    } else {
        None
    }
}

/// The first error among one entry's relationships, in order.
pub open spec fn entry_pairs_err(
    entry: api::TableRelationships,
    pairs: Seq<(String, api::Relationship)>,
) -> Option<SpecError>
    decreases pairs,
{
    if pairs.len() == 0 {
        None
    } else {
        match flat_pair_err(entry, pairs[0]) {
            Some(e) => Some(e),
            None => entry_pairs_err(entry, pairs.drop_first()),
        }
    }
}

/// When `outs` is the flattening of the two-level relationship declaration
/// `entries` into one list keyed `"<source table>.<relationship name>"`,
/// entry by entry and in declaration order.
pub open spec fn is_flat_relationships_map(
    entries: Seq<api::TableRelationships>,
    outs: Seq<(String, target::Relationship)>,
) -> bool
    decreases entries,
{
    if entries.len() == 0 {
        outs.len() == 0
    } else {
        let k = entries[0].relationships@.len();
        &&& outs.len() >= k
        &&& forall|j: int|
            0 <= j < k ==> #[trigger] is_flat_pair_map(
                entries[0],
                entries[0].relationships@[j],
                outs[j],
            )
        &&& is_flat_relationships_map(entries.drop_first(), outs.skip(k as int))
    }
}

/// The first error while flattening the relationship declaration, in
/// declaration order.
pub open spec fn flat_relationships_err(entries: Seq<api::TableRelationships>) -> Option<SpecError>
    decreases entries,
{
    if entries.len() == 0 {
        None
    } else {
        match entry_pairs_err(entries[0], entries[0].relationships@) {
            Some(e) => Some(e),
            None => flat_relationships_err(entries.drop_first()),
        }
    }
}

/// Flattens the relationships of one declared entry into qualified pairs.
#[verifier::loop_isolation(false)]
fn map_entry_pairs(entry: api::TableRelationships) -> (r: Result<
    Vec<(String, target::Relationship)>,
    TranslateError,
>)
    ensures
        match entry_pairs_err(entry, entry.relationships@) {
            None => r is Ok && r.unwrap()@.len() == entry.relationships@.len() && forall|j: int|
                0 <= j < entry.relationships@.len() ==> #[trigger] is_flat_pair_map(
                    entry,
                    entry.relationships@[j],
                    r.unwrap()@[j],
                ),
            Some(e) => r is Err && r.unwrap_err().model() == e,
        },
{
    let ghost entry_spec = entry;
    let api::TableRelationships { source_table, relationships } = entry;
    let ghost pairs = relationships@;
    let mut relationships = relationships;
    let mut out: Vec<(String, target::Relationship)> = Vec::new();
    if relationships.len() == 0 {
        return Ok(out);
    }
    if source_table.len() != 1 {
        proof {
            assert(entry_pairs_err(entry_spec, pairs) == flat_pair_err(entry_spec, pairs[0]));
        }
        return Err(TranslateError::UnsupportedTableName(source_table));
    }
    let source = &source_table[0];
    let mut i: usize = 0;
    let n = relationships.len();
    while i < n
        invariant
            n == pairs.len(),
            i <= n,
            source_table@.len() == 1,
            source@ == source_table@[0]@,
            entry_spec.source_table == source_table,
            relationships@ =~= pairs.skip(i as int),
            out@.len() == i,
            forall|j: int| 0 <= j < i ==> #[trigger] is_flat_pair_map(entry_spec, pairs[j], out@[j]),
            forall|j: int| 0 <= j < i ==> flat_pair_err(entry_spec, pairs[j]) is None,
        decreases n - i,
    {
        let (name, rel) = relationships.remove(0);
        proof {
            assert((name, rel) == pairs[i as int]);
            assert(relationships@ =~= pairs.skip(i as int + 1));
        }
        let api::Relationship { column_mapping, relationship_type, target_table } = rel;
        if target_table.len() != 1 {
            proof {
                assert(pairs.skip(i as int)[0] == pairs[i as int]);
                assert(flat_pair_err(entry_spec, pairs[i as int]) == Some(
                    SpecError::UnsupportedTableName(target_table.deep_view()),
                ));
                assert(entry_pairs_err(entry_spec, pairs.skip(i as int)) == Some(
                    SpecError::UnsupportedTableName(target_table.deep_view()),
                ));
                lemma_entry_pairs_err_prefix(entry_spec, pairs, i as int);
            }
            return Err(TranslateError::UnsupportedTableName(target_table));
        }
        let mut target_table = target_table;
        let target = target_table.remove(0);
        let key = qualify(source.as_str(), name.as_str());
        let out_rel = target::Relationship {
            column_mapping,
            relationship_type: match relationship_type {
                api::RelationshipType::Object => target::RelationshipType::Object,
                api::RelationshipType::Array => target::RelationshipType::Array,
            },
            source_table_or_type: source.clone(),
            target_table: target,
            arguments: Vec::new(),
        };
        out.push((key, out_rel));
        i = i + 1;
    }
    proof {
        lemma_entry_pairs_err_none(entry_spec, pairs);
    }
    Ok(out)
}

/// The first error among one entry's relationships from position `from`
/// on.
pub open spec fn entry_pairs_err_from(
    entry: api::TableRelationships,
    pairs: Seq<(String, api::Relationship)>,
    from: int,
) -> Option<SpecError> {
    entry_pairs_err(entry, pairs.skip(from))
}

/// If every pair before `from` flattens cleanly, the first error of the
/// whole list is the first error from `from` on.
proof fn lemma_entry_pairs_err_prefix(
    entry: api::TableRelationships,
    pairs: Seq<(String, api::Relationship)>,
    from: int,
)
    requires
        0 <= from <= pairs.len(),
        forall|j: int| 0 <= j < from ==> flat_pair_err(entry, pairs[j]) is None,
    ensures
        entry_pairs_err(entry, pairs) == entry_pairs_err_from(entry, pairs, from),
    decreases from,
{
    if from == 0 {
        assert(pairs.skip(0) =~= pairs);
    } else {
        lemma_entry_pairs_err_prefix(entry, pairs, from - 1);
        assert(pairs.skip(from - 1)[0] == pairs[from - 1]);
        assert(pairs.skip(from - 1).drop_first() =~= pairs.skip(from));
    }
}

/// If every pair flattens cleanly, the whole list reports no error.
proof fn lemma_entry_pairs_err_none(
    entry: api::TableRelationships,
    pairs: Seq<(String, api::Relationship)>,
)
    requires
        forall|j: int| 0 <= j < pairs.len() ==> flat_pair_err(entry, pairs[j]) is None,
    ensures
        entry_pairs_err(entry, pairs) is None,
    decreases pairs,
{
    if pairs.len() > 0 {
        assert(pairs.drop_first() =~= pairs.skip(1));
        lemma_entry_pairs_err_none(entry, pairs.drop_first());
    }
}

/// Flattens the two-level relationship declaration into one list keyed
/// `"<source table>.<relationship name>"`, in declaration order, stopping
/// at the first malformed table reference.
fn map_table_relationships(entries: Vec<api::TableRelationships>) -> (r: Result<
    Vec<(String, target::Relationship)>,
    TranslateError,
>)
    ensures
        match flat_relationships_err(entries@) {
            None => r is Ok && is_flat_relationships_map(entries@, r.unwrap()@),
            Some(e) => r is Err && r.unwrap_err().model() == e,
        },
    decreases entries@,
{
    let ghost orig = entries@;
    if entries.len() == 0 {
        Ok(Vec::new())
    } else {
        let mut entries = entries;
        let entry = entries.remove(0);
        proof {
            assert(entries@ =~= orig.drop_first());
            assert(entry == orig[0]);
        }
        match map_entry_pairs(entry) {
            Err(e) => Err(e),
            Ok(first) => {
                match map_table_relationships(entries) {
                    Err(e) => Err(e),
                    Ok(rest) => {
                        let ghost first_view = first@;
                        let ghost rest_view = rest@;
                        let mut out = first;
                        let mut rest = rest;
                        out.append(&mut rest);
                        proof {
                            assert(out@.skip(first_view.len() as int) =~= rest_view);
                        }
                        Ok(out)
                    },
                }
            },
        }
    }
}

/// When `out` is the translation of the whole request envelope: the root
/// table resolved to its single segment, an empty static-arguments map, the
/// variable batches kept (scalar values only) exactly when the request is
/// batched, the query translated with the root table as initial context,
/// and the relationship declaration flattened.
pub open spec fn is_request_map(request: api::QueryRequest, out: target::QueryRequest) -> bool {
    &&& request.table@.len() == 1
    &&& out.table@ == request.table@[0]@
    &&& out.arguments@.len() == 0
    &&& match request.foreach {
        None => out.variables is None,
        Some(foreach) => match out.variables {
            Some(vs) => is_variables_map(foreach@, vs@),
            None => false,
        },
    }
    &&& is_query_map(request.query, request.table@[0]@, request.table_relationships@, out.query)
    &&& is_flat_relationships_map(request.table_relationships@, out.table_relationships@)
}

/// The error, if any, of translating the whole request envelope: a
/// malformed root table first, then the query, then the flattening.
pub open spec fn request_err(request: api::QueryRequest) -> Option<SpecError> {
    if request.table@.len() != 1 {
        Some(SpecError::UnsupportedTableName(request.table.deep_view()))
    } else {
        match query_err(request.query, request.table@[0]@, request.table_relationships@) {
            Some(e) => Some(e),
            None => flat_relationships_err(request.table_relationships@),
        }
    }
}

/// Translates the whole legacy request envelope into the target shape.
pub fn map_request(request: api::QueryRequest) -> (r: Result<target::QueryRequest, TranslateError>)
    ensures
        match request_err(request) {
            None => r is Ok && is_request_map(request, r.unwrap()),
            Some(e) => r is Err && r.unwrap_err().model() == e,
        },
{
    let api::QueryRequest { foreach, table, table_relationships, query } = request;
    let root = match table_name(table) {
        Err(e) => {
            return Err(e);
        },
        Ok(t) => t,
    };
    let variables = match foreach {
        None => None,
        Some(foreach) => Some(map_variables(foreach)),
    };
    let query_out = match map_query(query, root.clone(), &table_relationships) {
        Err(e) => {
            return Err(e);
        },
        Ok(q) => q,
    };
    let rels_out = match map_table_relationships(table_relationships) {
        Err(e) => {
            return Err(e);
        },
        Ok(flat) => flat,
    };
    Ok(
        target::QueryRequest {
            table: root,
            arguments: Vec::new(),
            variables,
            query: query_out,
            table_relationships: rels_out,
        },
    )
}

} // verus!
