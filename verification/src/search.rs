//! Stored values: where they are searched for, and to which dataset a value
//! that was found belongs.

use vstd::prelude::*;
use vstd::string::StringExecFns;
use crate::text::{
    contains,
    decimal_text,
    has_part,
    lowercase,
    number_text,
    same_text,
    to_lowercase,
};

verus! {

/// A table and a column to search within.
#[derive(Debug)]
pub struct SearchTarget {
    pub database_name: String,
    pub schema_name: String,
    pub table_name: String,
    pub column_name: String,
}

/// What a search target names.
pub struct SearchTargetView {
    pub database_name: Seq<char>,
    pub schema_name: Seq<char>,
    pub table_name: Seq<char>,
    pub column_name: Seq<char>,
}

impl View for SearchTarget {
    type V = SearchTargetView;

    open spec fn view(&self) -> SearchTargetView {
        SearchTargetView {
            database_name: self.database_name@,
            schema_name: self.schema_name@,
            table_name: self.table_name@,
            column_name: self.column_name@,
        }
    }
}

impl Clone for SearchTarget {
    fn clone(&self) -> (r: SearchTarget)
        ensures
            r@ == self@,
    {
        SearchTarget {
            database_name: self.database_name.clone(),
            schema_name: self.schema_name.clone(),
            table_name: self.table_name.clone(),
            column_name: self.column_name.clone(),
        }
    }
}

/// A value that a search found, with the place it was found at.
#[derive(Debug)]
pub struct StoredValueResult {
    pub id: uuid::Uuid,
    pub value: String,
    pub database_name: String,
    pub column_name: String,
    pub table_name: String,
    pub schema_name: String,
}

impl StoredValueResult {
    /// The place at which the value was found.
    pub open spec fn place(&self) -> SearchTargetView {
        SearchTargetView {
            database_name: self.database_name@,
            schema_name: self.schema_name@,
            table_name: self.table_name@,
            column_name: self.column_name@,
        }
    }
}

/// Whether one of the targets is `place`.
pub open spec fn has_target(targets: Seq<SearchTarget>, place: SearchTargetView) -> bool {
    exists|i: int| 0 <= i < targets.len() && (#[trigger] targets[i])@ == place
}

/// Whether a value was found at one of the targets.
pub fn matches_targets(targets: &Vec<SearchTarget>, value: &StoredValueResult) -> (r: bool)
    ensures
        r == has_target(targets@, value.place()),
{
    let mut i: usize = 0;
    while i < targets.len()
        invariant
            i <= targets.len(),
            forall|j: int| 0 <= j < i ==> (#[trigger] targets@[j])@ != value.place(),
        decreases targets.len() - i,
    {
        let target = &targets[i];
        if same_text(&target.database_name, &value.database_name) && same_text(&target.schema_name, &value.schema_name) && same_text(&target.table_name, &value.table_name) && same_text(&target.column_name, &value.column_name) {
            assert(targets@[i as int]@ == value.place());
            return true;
        }
        i = i + 1;
    }
    false
}

/// The first dataset one of whose targets is the place of a value: the
/// dataset to which the value belongs.
pub fn dataset_of_value(datasets: &Vec<Vec<SearchTarget>>, value: &StoredValueResult) -> (r: Option<
    usize,
>)
    ensures
        match r {
            Some(d) => d < datasets@.len() && has_target(datasets@[d as int]@, value.place())
                && forall|j: int|
                0 <= j < d ==> !has_target((#[trigger] datasets@[j])@, value.place()),
            None => forall|j: int|
                0 <= j < datasets@.len() ==> !has_target((#[trigger] datasets@[j])@, value.place()),
        },
{
    let mut d: usize = 0;
    while d < datasets.len()
        invariant
            d <= datasets.len(),
            forall|j: int| 0 <= j < d ==> !has_target((#[trigger] datasets@[j])@, value.place()),
        decreases datasets.len() - d,
    {
        if matches_targets(&datasets[d], value) {
            return Some(d);
        }
        d = d + 1;
    }
    None
}

/// The condition on one column, whose value is the parameter at `place`.
pub open spec fn filter_condition(column: Seq<char>, place: nat) -> Seq<char> {
    column + " = $"@ + decimal_text(place)
}

/// The conditions of a search, one for each filter that is given, with the
/// places of their parameters: the first filter given is the second
/// parameter of the query.
pub open spec fn filter_conditions(
    database_name: bool,
    schema_name: bool,
    table_name: bool,
    column_name: bool,
) -> Seq<Seq<char>> {
    let a = if database_name {
        seq![filter_condition("database_name"@, 2)]
    } else {
        Seq::empty()
    };
    let b = if schema_name {
        a.push(filter_condition("schema_name"@, 2 + a.len()))
    } else {
        a
    };
    let c = if table_name {
        b.push(filter_condition("table_name"@, 2 + b.len()))
    } else {
        b
    };
    if column_name {
        c.push(filter_condition("column_name"@, 2 + c.len()))
    } else {
        c
    }
}

/// The condition on one column, with the place of its parameter.
fn condition(column: &str, place: usize) -> (r: String)
    ensures
        r@ == filter_condition(column@, place as nat),
{
    let mut out = String::from_str(column);
    out.append(" = $");
    out.append(number_text(place).as_str());
    out
}

/// The conditions of a search, one for each filter that is given.
pub fn build_filter_conditions(
    database_name: bool,
    schema_name: bool,
    table_name: bool,
    column_name: bool,
) -> (r: Vec<String>)
    ensures
        crate::agent::texts_view(r@) == filter_conditions(
            database_name,
            schema_name,
            table_name,
            column_name,
        ),
{
    let mut filters: Vec<String> = Vec::new();
    assert(crate::agent::texts_view(filters@) =~= Seq::empty());
    if database_name {
        let ghost before = crate::agent::texts_view(filters@);
        let text = condition("database_name", 2 + filters.len());
        filters.push(text);
        assert(crate::agent::texts_view(filters@) =~= before.push(text@));
    }
    if schema_name {
        let ghost before = crate::agent::texts_view(filters@);
        let text = condition("schema_name", 2 + filters.len());
        filters.push(text);
        assert(crate::agent::texts_view(filters@) =~= before.push(text@));
    }
    if table_name {
        let ghost before = crate::agent::texts_view(filters@);
        let text = condition("table_name", 2 + filters.len());
        filters.push(text);
        assert(crate::agent::texts_view(filters@) =~= before.push(text@));
    }
    if column_name {
        let ghost before = crate::agent::texts_view(filters@);
        let text = condition("column_name", 2 + filters.len());
        filters.push(text);
        assert(crate::agent::texts_view(filters@) =~= before.push(text@));
    }
    filters
}

/// Whether a search has anything to look for and anywhere to look: it has
/// where there is a term and there is a dataset.
pub fn has_search_work(term_count: usize, dataset_count: usize) -> (r: bool)
    ensures
        r == (term_count > 0 && dataset_count > 0),
{
    term_count > 0 && dataset_count > 0
}

/// Whether a term is long enough to be searched for: its text takes two
/// bytes or more.
pub fn is_searchable_term(term: &str) -> (r: bool)
    ensures
        r == (term.len() >= 2),
{
    term.len() >= 2
}

/// A column of a table, as a dataset describes it.
#[derive(Debug)]
pub struct ColumnDescription {
    pub name: Option<String>,
    pub data_type: Option<String>,
}

/// A table of a dataset, as the dataset describes it.
#[derive(Debug)]
pub struct TableDescription {
    pub schema: Option<String>,
    pub name: Option<String>,
    pub table: Option<String>,
    pub columns: Option<Vec<ColumnDescription>>,
}

/// What a dataset says of itself.
#[derive(Debug)]
pub struct DatasetDescription {
    pub database: Option<String>,
    pub tables: Option<Vec<TableDescription>>,
}

/// A text, or another where it is absent.
pub open spec fn text_or(text: Option<String>, other: Seq<char>) -> Seq<char> {
    match text {
        Some(s) => s@,
        None => other,
    }
}

/// Whether a column of the type `data_type` can be searched: it can where
/// the type, in lower case, speaks of text, characters or strings.
pub open spec fn is_searchable_type(data_type: Seq<char>) -> bool {
    let lower = lowercase(data_type);
    has_part(lower, "text"@) || has_part(lower, "char"@) || has_part(lower, "string"@)
}

/// The name of a table: its `name`, else its `table`, else a name that says
/// that it is unknown.
pub open spec fn table_name_of(table: TableDescription) -> Seq<char> {
    match table.name {
        Some(name) => name@,
        None => text_or(table.table, "unknown_table"@),
    }
}

/// The targets among the columns of one table, in order.
pub open spec fn column_targets(
    database: Seq<char>,
    schema: Seq<char>,
    table: Seq<char>,
    columns: Seq<ColumnDescription>,
) -> Seq<SearchTargetView>
    decreases columns.len(),
{
    if columns.len() == 0 {
        Seq::empty()
    } else if is_searchable_type(text_or(columns.last().data_type, ""@)) {
        column_targets(database, schema, table, columns.drop_last()).push(
            SearchTargetView {
                database_name: database,
                schema_name: schema,
                table_name: table,
                column_name: text_or(columns.last().name, "unknown_column"@),
            },
        )
    } else {
        column_targets(database, schema, table, columns.drop_last())
    }
}

/// The columns of a table, none where it describes none.
pub open spec fn columns_of(table: TableDescription) -> Seq<ColumnDescription> {
    match table.columns {
        Some(columns) => columns@,
        None => Seq::empty(),
    }
}

/// The targets among the columns of a sequence of tables, in order.
pub open spec fn table_targets(database: Seq<char>, tables: Seq<TableDescription>) -> Seq<
    SearchTargetView,
>
    decreases tables.len(),
{
    if tables.len() == 0 {
        Seq::empty()
    } else {
        table_targets(database, tables.drop_last()) + column_targets(
            database,
            text_or(tables.last().schema, "public"@),
            table_name_of(tables.last()),
            columns_of(tables.last()),
        )
    }
}

/// The targets that a dataset offers to a search: its columns of a
/// searchable type, table by table.
pub open spec fn dataset_targets(dataset: DatasetDescription) -> Seq<SearchTargetView> {
    table_targets(
        text_or(dataset.database, "unknown"@),
        match dataset.tables {
            Some(tables) => tables@,
            None => Seq::empty(),
        },
    )
}

/// The views of a sequence of targets, in order.
pub open spec fn targets_view(targets: Seq<SearchTarget>) -> Seq<SearchTargetView> {
    targets.map_values(|t: SearchTarget| t@)
}

/// A copy of a text, or of another where it is absent.
fn text_or_default(text: &Option<String>, other: &str) -> (r: String)
    ensures
        r@ == text_or(*text, other@),
{
    match text {
        Some(s) => s.clone(),
        None => String::from_str(other),
    }
}

/// Whether a column of the type `data_type` can be searched.
pub fn is_searchable(data_type: &str) -> (r: bool)
    ensures
        r == is_searchable_type(data_type@),
{
    let lower = to_lowercase(data_type);
    contains(lower.as_str(), "text") || contains(lower.as_str(), "char") || contains(
        lower.as_str(),
        "string",
    )
}

/// The targets that a dataset offers to a search, given what the YAML of
/// the dataset says of it.
pub fn extract_searchable_columns_from_yaml(dataset: &DatasetDescription) -> (r: Vec<SearchTarget>)
    ensures
        targets_view(r@) == dataset_targets(*dataset),
{
    let mut targets: Vec<SearchTarget> = Vec::new();
    let database = text_or_default(&dataset.database, "unknown");
    assert(targets_view(targets@) =~= Seq::empty());
    match &dataset.tables {
        None => {},
        Some(tables) => {
            let mut t: usize = 0;
            assert(tables@.take(0) =~= Seq::empty());
            while t < tables.len()
                invariant
                    t <= tables.len(),
                    database@ == text_or(dataset.database, "unknown"@),
                    targets_view(targets@) == table_targets(database@, tables@.take(t as int)),
                decreases tables.len() - t,
            {
                let table = &tables[t];
                let schema = text_or_default(&table.schema, "public");
                let name = match &table.name {
                    Some(name) => name.clone(),
                    None => text_or_default(&table.table, "unknown_table"),
                };
                let ghost before = targets_view(targets@);
                proof {
                    let next = tables@.take(t as int + 1);
                    assert(next.drop_last() =~= tables@.take(t as int));
                    assert(next.last() == tables@[t as int]);
                }
                match &table.columns {
                    None => {
                        assert(before + Seq::<SearchTargetView>::empty() =~= before);
                    },
                    Some(columns) => {
                        let mut c: usize = 0;
                        assert(columns@.take(0) =~= Seq::empty());
                        assert(before + Seq::<SearchTargetView>::empty() =~= before);
                        while c < columns.len()
                            invariant
                                c <= columns.len(),
                                targets_view(targets@) == before + column_targets(
                                    database@,
                                    schema@,
                                    name@,
                                    columns@.take(c as int),
                                ),
                            decreases columns.len() - c,
                        {
                            let column = &columns[c];
                            proof {
                                let next = columns@.take(c as int + 1);
                                assert(next.drop_last() =~= columns@.take(c as int));
                                assert(next.last() == columns@[c as int]);
                            }
                            let data_type = text_or_default(&column.data_type, "");
                            let ghost so_far = targets_view(targets@);
                            if is_searchable(data_type.as_str()) {
                                let target = SearchTarget {
                                    database_name: database.clone(),
                                    schema_name: schema.clone(),
                                    table_name: name.clone(),
                                    column_name: text_or_default(&column.name, "unknown_column"),
                                };
                                targets.push(target);
                                assert(targets_view(targets@) =~= so_far.push(target@));
                                assert(so_far.push(target@) =~= before + column_targets(
                                    database@,
                                    schema@,
                                    name@,
                                    columns@.take(c as int),
                                ).push(target@));
                            }
                            c = c + 1;
                        }
                        assert(columns@.take(c as int) =~= columns@);
                    },
                }
                t = t + 1;
            }
            assert(tables@.take(t as int) =~= tables@);
        },
    }
    targets
}

} // verus!
