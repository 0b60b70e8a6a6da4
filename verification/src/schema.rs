//! What the plugin reports of a database's schema, read from the rows that
//! ClickHouse's `system` tables return.

use vstd::prelude::*;
use crate::text::{chars_of, contains, has_prefix, has_substring, same_text, starts_with, views};
use crate::value::{lemma_models, models, Json, JsonValue};

verus! {

/// The view of an optional text.
pub open spec fn opt_text(o: Option<String>) -> Option<Seq<char>> {
    match o {
        Some(s) => Some(s@),
        None => None,
    }
}

/// The text in cell `i` of a row, if the cell exists and holds a string.
pub open spec fn cell_text(row: Seq<JsonValue>, i: int) -> Option<Seq<char>> {
    if 0 <= i < row.len() {
        match row[i]@ {
            Json::Str(s) => Some(s),
            _ => None,
        }
    } else {
        None
    }
}

/// The text in cell `i`, or `d`.
pub open spec fn text_or(row: Seq<JsonValue>, i: int, d: Seq<char>) -> Seq<char> {
    match cell_text(row, i) {
        Some(s) => s,
        None => d,
    }
}

/// The value in cell `i` of a row, null where the row has no such cell.
pub open spec fn cell_value(row: Seq<JsonValue>, i: int) -> Json {
    if 0 <= i < row.len() {
        row[i]@
    } else {
        Json::Null
    }
}

/// The text in cell `i`, if it is a non-empty string.
pub open spec fn non_empty_text(row: Seq<JsonValue>, i: int) -> Option<Seq<char>> {
    match cell_text(row, i) {
        Some(s) => if s.len() > 0 {
            Some(s)
        } else {
            None
        },
        None => None,
    }
}

/// Cell `i` holds the number 1 or the string `"1"`.
pub open spec fn flag_set(row: Seq<JsonValue>, i: int) -> bool {
    0 <= i < row.len() && (row[i]@ == Json::Number("1"@) || row[i]@ == Json::Str("1"@))
}

/// The text in cell `i` of a row.
pub fn cell_string(row: &Vec<JsonValue>, i: usize) -> (r: Option<String>)
    ensures
        opt_text(r) == cell_text(row@, i as int),
{
    if i < row.len() {
        match row[i].as_text() {
            Some(s) => Some(s.clone()),
            None => None,
        }
    } else {
        None
    }
}

/// The text in cell `i`, or `d`.
pub fn cell_string_or(row: &Vec<JsonValue>, i: usize, d: &str) -> (r: String)
    ensures
        r@ == text_or(row@, i as int, d@),
{
    match cell_string(row, i) {
        Some(s) => s,
        None => String::from_str(d),
    }
}

/// A copy of the value in cell `i`, null where the row has no such cell.
pub fn cell_or_null(row: &Vec<JsonValue>, i: usize) -> (r: JsonValue)
    ensures
        r@ == cell_value(row@, i as int),
{
    if i < row.len() {
        row[i].duplicate()
    } else {
        JsonValue::Null
    }
}

/// The text in cell `i`, if non-empty.
pub fn cell_non_empty(row: &Vec<JsonValue>, i: usize) -> (r: Option<String>)
    ensures
        opt_text(r) == non_empty_text(row@, i as int),
{
    match cell_string(row, i) {
        Some(s) => {
            if s.as_str().is_empty() {
                None
            } else {
                Some(s)
            }
        },
        None => None,
    }
}

/// Whether cell `i` holds the number 1 or the string `"1"`.
pub fn cell_flag(row: &Vec<JsonValue>, i: usize) -> (r: bool)
    ensures
        r == flag_set(row@, i as int),
{
    if i < row.len() {
        if row[i].is_number_one() {
            true
        } else {
            match row[i].as_text() {
                Some(s) => same_text(s.as_str(), "1"),
                None => false,
            }
        }
    } else {
        false
    }
}

/// The first cell of every row that has one, in order.
pub open spec fn first_cells_of(rows: Seq<Vec<JsonValue>>) -> Seq<Json>
    decreases rows.len(),
{
    if rows.len() == 0 {
        seq![]
    } else if rows.last().len() > 0 {
        first_cells_of(rows.drop_last()).push(rows.last()@[0]@)
    } else {
        first_cells_of(rows.drop_last())
    }
}

/// The first cell of every row that has one (the database list).
pub fn first_cells(rows: &Vec<Vec<JsonValue>>) -> (r: Vec<JsonValue>)
    ensures
        models(r@) == first_cells_of(rows@),
{
    let mut out: Vec<JsonValue> = Vec::new();
    let mut i: usize = 0;
    assert(rows@.take(0) =~= Seq::<Vec<JsonValue>>::empty());
    while i < rows.len()
        invariant
            i <= rows.len(),
            models(out@) == first_cells_of(rows@.take(i as int)),
        decreases rows.len() - i,
    {
        assert(rows@.take(i + 1).drop_last() =~= rows@.take(i as int));
        if rows[i].len() > 0 {
            let v = rows[i][0].duplicate();
            let ghost before = out@;
            out.push(v);
            assert(out@.drop_last() =~= before);
        }
        i = i + 1;
    }
    assert(rows@.take(rows.len() as int) =~= rows@);
    out
}

/// The text of the first cell of the first row, or the empty text (a view's
/// definition, a table's `CREATE TABLE`).
pub open spec fn first_text_of(rows: Seq<Vec<JsonValue>>) -> Seq<char> {
    if rows.len() > 0 {
        text_or(rows[0]@, 0, ""@)
    } else {
        ""@
    }
}

/// The text of the first cell of the first row, or the empty text.
pub fn first_text(rows: &Vec<Vec<JsonValue>>) -> (r: String)
    ensures
        r@ == first_text_of(rows@),
{
    if rows.len() > 0 {
        cell_string_or(&rows[0], 0, "")
    } else {
        String::from_str("")
    }
}

/// A table of a database.
pub struct TableInfo {
    pub name: String,
    pub schema: String,
    pub comment: Option<String>,
}

/// The tables listed by rows of (name, comment), in `database`.
pub fn tables_from_rows(rows: &Vec<Vec<JsonValue>>, database: &str) -> (r: Vec<TableInfo>)
    ensures
        r.len() == rows.len(),
        forall|i: int|
            0 <= i < r.len() ==> {
                &&& #[trigger] r@[i].name@ == text_or(rows@[i]@, 0, ""@)
                &&& r@[i].schema@ == database@
                &&& opt_text(r@[i].comment) == non_empty_text(rows@[i]@, 1)
            },
{
    let mut out: Vec<TableInfo> = Vec::new();
    let mut i: usize = 0;
    while i < rows.len()
        invariant
            i <= rows.len(),
            out.len() == i,
            forall|k: int|
                0 <= k < i ==> {
                    &&& #[trigger] out@[k].name@ == text_or(rows@[k]@, 0, ""@)
                    &&& out@[k].schema@ == database@
                    &&& opt_text(out@[k].comment) == non_empty_text(rows@[k]@, 1)
                },
        decreases rows.len() - i,
    {
        let name = cell_string_or(&rows[i], 0, "");
        let comment = cell_non_empty(&rows[i], 1);
        out.push(TableInfo { name, schema: String::from_str(database), comment });
        i = i + 1;
    }
    out
}

/// A column of a table.
pub struct ColumnInfo {
    pub name: String,
    pub data_type: String,
    pub is_primary_key: bool,
    pub is_nullable: bool,
    pub is_auto_increment: bool,
    pub column_default: Option<String>,
    pub comment: Option<String>,
}

/// The model of a column.
pub struct ColumnModel {
    pub name: Seq<char>,
    pub data_type: Seq<char>,
    pub is_primary_key: bool,
    pub is_nullable: bool,
    pub is_auto_increment: bool,
    pub column_default: Option<Seq<char>>,
    pub comment: Option<Seq<char>>,
}

impl View for ColumnInfo {
    type V = ColumnModel;

    open spec fn view(&self) -> ColumnModel {
        ColumnModel {
            name: self.name@,
            data_type: self.data_type@,
            is_primary_key: self.is_primary_key,
            is_nullable: self.is_nullable,
            is_auto_increment: self.is_auto_increment,
            column_default: opt_text(self.column_default),
            comment: opt_text(self.comment),
        }
    }
}

/// The column a row of `system.columns` describes, its cells starting at
/// `base`: name, type (`String` when missing), default kind, default
/// expression, comment, primary-key flag. A column is nullable when its type
/// begins with `Nullable`; it has a default only when the default kind is not
/// empty; it is never auto-increment.
pub open spec fn column_of_row(row: Seq<JsonValue>, base: int) -> ColumnModel {
    let data_type = text_or(row, base + 1, "String"@);
    ColumnModel {
        name: text_or(row, base, ""@),
        data_type,
        is_primary_key: flag_set(row, base + 5),
        is_nullable: has_prefix(data_type, "Nullable"@),
        is_auto_increment: false,
        column_default: if text_or(row, base + 2, ""@).len() == 0 {
            None
        } else {
            non_empty_text(row, base + 3)
        },
        comment: non_empty_text(row, base + 4),
    }
}

/// The column a row describes, its cells starting at `base`.
pub fn column_from_row(row: &Vec<JsonValue>, base: usize) -> (r: ColumnInfo)
    requires
        base <= usize::MAX - 5,
    ensures
        r@ == column_of_row(row@, base as int),
{
    let name = cell_string_or(row, base, "");
    let data_type = cell_string_or(row, base + 1, "String");
    let dt = chars_of(data_type.as_str());
    let is_nullable = starts_with(&dt, "Nullable");
    let default_kind = cell_string_or(row, base + 2, "");
    let default_expr = cell_non_empty(row, base + 3);
    let is_primary_key = cell_flag(row, base + 5);
    let column_default = if default_kind.as_str().is_empty() {
        None
    } else {
        default_expr
    };
    let comment = cell_non_empty(row, base + 4);
    ColumnInfo {
        name,
        data_type,
        is_primary_key,
        is_nullable,
        is_auto_increment: false,
        column_default,
        comment,
    }
}

/// What a row of the one-table column listing (name, type, default kind,
/// default expression, comment, primary-key flag) says of its column: the name
/// is cell 0 (empty when missing); the type is cell 1 (`String` when missing);
/// the column is nullable exactly when its type begins with `Nullable`; it is
/// in the primary key exactly when cell 5 is 1; it has a default exactly when
/// the default kind is not empty and the expression is, and the default is
/// that expression; its comment is cell 4 when not empty; it is never
/// auto-increment.
pub proof fn lemma_column_reads_its_row(row: Seq<JsonValue>)
    ensures
        ({
            let c = column_of_row(row, 0);
            &&& c.name == text_or(row, 0, ""@)
            &&& c.data_type == text_or(row, 1, "String"@)
            &&& c.is_nullable == has_prefix(text_or(row, 1, "String"@), "Nullable"@)
            &&& c.is_primary_key == (row.len() > 5 && (row[5]@ == Json::Number("1"@) || row[5]@
                == Json::Str("1"@)))
            &&& c.column_default == (if text_or(row, 2, ""@).len() == 0 {
                None
            } else {
                non_empty_text(row, 3)
            })
            &&& c.comment == non_empty_text(row, 4)
            &&& !c.is_auto_increment
        }),
{
}

/// A row with one more cell in front reads as the same column one cell further
/// on. So a row of the all-tables listing, which has the table's name before
/// the cells of the one-table listing, describes the same column as the
/// one-table row without that name.
pub proof fn lemma_column_of_shifted_row(row: Seq<JsonValue>, base: int)
    requires
        row.len() > 0,
        base >= 0,
    ensures
        column_of_row(row, base + 1) == column_of_row(row.drop_first(), base),
{
    let t = row.drop_first();
    assert(cell_text(row, base + 1) == cell_text(t, base));
    assert(cell_text(row, base + 2) == cell_text(t, base + 1));
    assert(cell_text(row, base + 3) == cell_text(t, base + 2));
    assert(cell_text(row, base + 4) == cell_text(t, base + 3));
    assert(cell_text(row, base + 5) == cell_text(t, base + 4));
    assert(flag_set(row, base + 6) == flag_set(t, base + 5));
}

/// The columns listed by rows of `system.columns` for one table.
pub fn columns_from_rows(rows: &Vec<Vec<JsonValue>>) -> (r: Vec<ColumnInfo>)
    ensures
        r.len() == rows.len(),
        forall|i: int| 0 <= i < r.len() ==> #[trigger] r@[i]@ == column_of_row(rows@[i]@, 0),
{
    let mut out: Vec<ColumnInfo> = Vec::new();
    let mut i: usize = 0;
    while i < rows.len()
        invariant
            i <= rows.len(),
            out.len() == i,
            forall|k: int| 0 <= k < i ==> #[trigger] out@[k]@ == column_of_row(rows@[k]@, 0),
        decreases rows.len() - i,
    {
        out.push(column_from_row(&rows[i], 0));
        i = i + 1;
    }
    out
}

/// A view of a database.
pub struct ViewInfo {
    pub name: String,
    pub schema: String,
    pub is_materialized: bool,
    pub comment: Option<String>,
}

/// The views listed by rows of (name, engine, comment), in `database`; a view is
/// materialized when its engine's name holds `Materialized`.
pub fn views_from_rows(rows: &Vec<Vec<JsonValue>>, database: &str) -> (r: Vec<ViewInfo>)
    ensures
        r.len() == rows.len(),
        forall|i: int|
            0 <= i < r.len() ==> {
                &&& #[trigger] r@[i].name@ == text_or(rows@[i]@, 0, ""@)
                &&& r@[i].schema@ == database@
                &&& r@[i].is_materialized == has_substring(
                    text_or(rows@[i]@, 1, ""@),
                    "Materialized"@,
                )
                &&& opt_text(r@[i].comment) == non_empty_text(rows@[i]@, 2)
            },
{
    let mut out: Vec<ViewInfo> = Vec::new();
    let mut i: usize = 0;
    while i < rows.len()
        invariant
            i <= rows.len(),
            out.len() == i,
            forall|k: int|
                0 <= k < i ==> {
                    &&& #[trigger] out@[k].name@ == text_or(rows@[k]@, 0, ""@)
                    &&& out@[k].schema@ == database@
                    &&& out@[k].is_materialized == has_substring(
                        text_or(rows@[k]@, 1, ""@),
                        "Materialized"@,
                    )
                    &&& opt_text(out@[k].comment) == non_empty_text(rows@[k]@, 2)
                },
        decreases rows.len() - i,
    {
        let name = cell_string_or(&rows[i], 0, "");
        let engine = cell_string_or(&rows[i], 1, "");
        let ev = chars_of(engine.as_str());
        let is_materialized = contains(&ev, "Materialized");
        let comment = cell_non_empty(&rows[i], 2);
        out.push(ViewInfo { name, schema: String::from_str(database), is_materialized, comment });
        i = i + 1;
    }
    out
}

/// An index of a table.
pub struct IndexInfo {
    pub index_name: String,
    pub columns: Vec<String>,
    pub is_unique: bool,
    pub is_primary: bool,
    pub index_type: String,
    /// The index's granularity as the server gave it; null for the primary key.
    pub granularity: JsonValue,
}

/// The model of an index.
pub struct IndexModel {
    pub index_name: Seq<char>,
    pub columns: Seq<Seq<char>>,
    pub is_unique: bool,
    pub is_primary: bool,
    pub index_type: Seq<char>,
    pub granularity: Json,
}

impl View for IndexInfo {
    type V = IndexModel;

    open spec fn view(&self) -> IndexModel {
        IndexModel {
            index_name: self.index_name@,
            columns: views(self.columns@),
            is_unique: self.is_unique,
            is_primary: self.is_primary,
            index_type: self.index_type@,
            granularity: self.granularity@,
        }
    }
}

/// The data-skipping index a row of (name, expression, type, granularity)
/// describes.
pub open spec fn skipping_index_of_row(row: Seq<JsonValue>) -> IndexModel {
    IndexModel {
        index_name: text_or(row, 0, ""@),
        columns: seq![text_or(row, 1, ""@)],
        is_unique: false,
        is_primary: false,
        index_type: text_or(row, 2, ""@),
        granularity: cell_value(row, 3),
    }
}

/// The texts in the first cells of the rows, where they are strings.
pub open spec fn first_texts_of(rows: Seq<Vec<JsonValue>>) -> Seq<Seq<char>>
    decreases rows.len(),
{
    if rows.len() == 0 {
        seq![]
    } else {
        match cell_text(rows.last()@, 0) {
            Some(s) => first_texts_of(rows.drop_last()).push(s),
            None => first_texts_of(rows.drop_last()),
        }
    }
}

/// The synthetic primary-key index over the given key columns.
pub open spec fn primary_index_of(pk_rows: Seq<Vec<JsonValue>>) -> IndexModel {
    IndexModel {
        index_name: "PRIMARY"@,
        columns: first_texts_of(pk_rows),
        is_unique: true,
        is_primary: true,
        index_type: "primary"@,
        granularity: Json::Null,
    }
}

/// The indexes of a table: a primary index first when the key query gave rows,
/// then the data-skipping indexes in the order of their rows.
pub open spec fn indexes_of(index_rows: Seq<Vec<JsonValue>>, pk_rows: Option<Seq<Vec<JsonValue>>>) -> Seq<
    IndexModel,
> {
    let skipping = Seq::new(index_rows.len(), |i: int| skipping_index_of_row(index_rows[i]@));
    match pk_rows {
        Some(pk) => if pk.len() > 0 {
            seq![primary_index_of(pk)] + skipping
        } else {
            skipping
        },
        None => skipping,
    }
}

/// The indexes of a table, in order: when the primary-key query gave rows, the
/// primary index first (named `PRIMARY`, unique, of type `primary`, over the
/// key columns' names in the order of their rows, with no granularity); then,
/// one for each row of the index query and in the order of those rows, the
/// data-skipping index that row describes: its name (cell 0), its one
/// expression as its column (cell 1), its type (cell 2) and its granularity
/// (cell 3), neither unique nor primary.
pub proof fn lemma_indexes_in_row_order(
    index_rows: Seq<Vec<JsonValue>>,
    pk_rows: Option<Seq<Vec<JsonValue>>>,
)
    ensures
        ({
            let r = indexes_of(index_rows, pk_rows);
            let d: int = if pk_rows matches Some(pk) && pk.len() > 0 {
                1
            } else {
                0
            };
            &&& r.len() == index_rows.len() + d
            &&& d == 1 ==> {
                &&& r[0].index_name == "PRIMARY"@
                &&& r[0].columns == first_texts_of(pk_rows->0)
                &&& r[0].is_unique && r[0].is_primary
                &&& r[0].index_type == "primary"@
                &&& r[0].granularity == Json::Null
            }
            &&& forall|k: int|
                0 <= k < index_rows.len() ==> {
                    let row = #[trigger] index_rows[k]@;
                    &&& r[k + d].index_name == text_or(row, 0, ""@)
                    &&& r[k + d].columns == seq![text_or(row, 1, ""@)]
                    &&& r[k + d].index_type == text_or(row, 2, ""@)
                    &&& r[k + d].granularity == cell_value(row, 3)
                    &&& !r[k + d].is_unique && !r[k + d].is_primary
                }
        }),
{
}

/// The key columns' names: the text in the first cell of each row that holds
/// one, in the order of the rows.
pub proof fn lemma_first_texts_in_row_order(rows: Seq<Vec<JsonValue>>)
    ensures
        (forall|k: int| 0 <= k < rows.len() ==> cell_text(#[trigger] rows[k]@, 0) is Some)
            ==> first_texts_of(rows).len() == rows.len() && forall|k: int|
            0 <= k < rows.len() ==> Some(#[trigger] first_texts_of(rows)[k]) == cell_text(
                rows[k]@,
                0,
            ),
    decreases rows.len(),
{
    if rows.len() > 0 {
        let prev = rows.drop_last();
        lemma_first_texts_in_row_order(prev);
        if forall|k: int| 0 <= k < rows.len() ==> cell_text(#[trigger] rows[k]@, 0) is Some {
            assert forall|k: int| 0 <= k < prev.len() implies cell_text(#[trigger] prev[k]@, 0) is Some by {
                assert(prev[k] == rows[k]);
            }
            assert(cell_text(rows[rows.len() - 1]@, 0) is Some);
            assert forall|k: int| 0 <= k < rows.len() implies Some(
                #[trigger] first_texts_of(rows)[k],
            ) == cell_text(rows[k]@, 0) by {
                if k < prev.len() {
                    assert(prev[k] == rows[k]);
                }
            }
        }
    }
}

/// The texts in the first cells of the rows.
fn first_texts(rows: &Vec<Vec<JsonValue>>) -> (r: Vec<String>)
    ensures
        views(r@) == first_texts_of(rows@),
{
    let mut out: Vec<String> = Vec::new();
    let mut i: usize = 0;
    assert(rows@.take(0) =~= Seq::<Vec<JsonValue>>::empty());
    while i < rows.len()
        invariant
            i <= rows.len(),
            views(out@) == first_texts_of(rows@.take(i as int)),
        decreases rows.len() - i,
    {
        assert(rows@.take(i + 1).drop_last() =~= rows@.take(i as int));
        let ghost before = views(out@);
        match cell_string(&rows[i], 0) {
            Some(s) => {
                out.push(s);
                assert(views(out@) =~= before.push(s@));
            },
            None => {},
        }
        i = i + 1;
    }
    assert(rows@.take(rows.len() as int) =~= rows@);
    out
}

/// The indexes of a table, from the rows of its data-skipping indexes and, when
/// that query succeeded, the rows of its primary-key columns.
pub fn indexes_from_rows(index_rows: &Vec<Vec<JsonValue>>, pk_rows: Option<&Vec<Vec<JsonValue>>>) -> (r:
    Vec<IndexInfo>)
    ensures
        r@.map_values(|x: IndexInfo| x@) == indexes_of(
            index_rows@,
            match pk_rows {
                Some(p) => Some(p@),
                None => None,
            },
        ),
{
    let mut out: Vec<IndexInfo> = Vec::new();
    let mut i: usize = 0;
    while i < index_rows.len()
        invariant
            i <= index_rows.len(),
            out.len() == i,
            forall|k: int|
                0 <= k < i ==> #[trigger] out@[k]@ == skipping_index_of_row(index_rows@[k]@),
        decreases index_rows.len() - i,
    {
        let name = cell_string_or(&index_rows[i], 0, "");
        let expr = cell_string_or(&index_rows[i], 1, "");
        let idx_type = cell_string_or(&index_rows[i], 2, "");
        let granularity = cell_or_null(&index_rows[i], 3);
        let mut columns: Vec<String> = Vec::new();
        columns.push(expr);
        assert(views(columns@) =~= seq![text_or(index_rows@[i as int]@, 1, ""@)]);
        out.push(
            IndexInfo {
                index_name: name,
                columns,
                is_unique: false,
                is_primary: false,
                index_type: idx_type,
                granularity,
            },
        );
        i = i + 1;
    }
    let ghost skipping = Seq::new(
        index_rows@.len(),
        |k: int| skipping_index_of_row(index_rows@[k]@),
    );
    assert(out@.map_values(|x: IndexInfo| x@) =~= skipping);
    match pk_rows {
        Some(pk) => {
            if pk.len() > 0 {
                let cols = first_texts(pk);
                let primary = IndexInfo {
                    index_name: String::from_str("PRIMARY"),
                    columns: cols,
                    is_unique: true,
                    is_primary: true,
                    index_type: String::from_str("primary"),
                    granularity: JsonValue::Null,
                };
                out.insert(0, primary);
                assert(out@.map_values(|x: IndexInfo| x@) =~= seq![primary_index_of(pk@)]
                    + skipping);
            }
        },
        None => {},
    }
    out
}

/// One table's group of columns.
pub type ColumnGroup = (String, Vec<ColumnInfo>);

/// The model of a list of column groups.
pub open spec fn group_views(groups: Seq<ColumnGroup>) -> Seq<(Seq<char>, Seq<ColumnModel>)> {
    groups.map_values(|g: ColumnGroup| (g.0@, g.1@.map_values(|c: ColumnInfo| c@)))
}

/// The index of the first group with key `k`.
pub open spec fn key_index(groups: Seq<(Seq<char>, Seq<ColumnModel>)>, k: Seq<char>) -> Option<int>
    decreases groups.len(),
{
    if groups.len() == 0 {
        None
    } else {
        match key_index(groups.drop_last(), k) {
            Some(i) => Some(i),
            None => if groups.last().0 == k {
                Some(groups.len() - 1)
            } else {
                None
            },
        }
    }
}

/// Adds a column to the group of key `k`, starting the group when there is none.
pub open spec fn add_to_group(
    groups: Seq<(Seq<char>, Seq<ColumnModel>)>,
    k: Seq<char>,
    c: ColumnModel,
) -> Seq<(Seq<char>, Seq<ColumnModel>)> {
    match key_index(groups, k) {
        Some(i) => groups.update(i, (k, groups[i].1.push(c))),
        None => groups.push((k, seq![c])),
    }
}

/// The columns of rows of (table, name, type, default kind, default expression,
/// comment, primary-key flag), grouped by table in the order the tables first
/// appear.
pub open spec fn grouped_columns(rows: Seq<Vec<JsonValue>>) -> Seq<(Seq<char>, Seq<ColumnModel>)>
    decreases rows.len(),
{
    if rows.len() == 0 {
        seq![]
    } else {
        add_to_group(
            grouped_columns(rows.drop_last()),
            text_or(rows.last()@, 0, ""@),
            column_of_row(rows.last()@, 1),
        )
    }
}

proof fn lemma_key_index(groups: Seq<(Seq<char>, Seq<ColumnModel>)>, k: Seq<char>)
    ensures
        key_index(groups, k) matches Some(i) ==> 0 <= i < groups.len() && groups[i].0 == k
            && forall|j: int| 0 <= j < i ==> groups[j].0 != k,
        key_index(groups, k) is None ==> forall|j: int| 0 <= j < groups.len() ==> groups[j].0 != k,
    decreases groups.len(),
{
    if groups.len() > 0 {
        let prev = groups.drop_last();
        lemma_key_index(prev, k);
        assert(forall|j: int| 0 <= j < prev.len() ==> #[trigger] prev[j] == groups[j]);
        match key_index(prev, k) {
            Some(i) => {
                assert(key_index(groups, k) == Some(i));
                assert(prev[i] == groups[i]);
                assert forall|j: int| 0 <= j < i implies groups[j].0 != k by {
                    assert(prev[j] == groups[j]);
                }
            },
            None => {
                if groups.last().0 == k {
                    assert(key_index(groups, k) == Some(groups.len() - 1));
                    assert forall|j: int| 0 <= j < groups.len() - 1 implies groups[j].0 != k by {
                        assert(prev[j] == groups[j]);
                    }
                } else {
                    assert(key_index(groups, k) is None);
                    assert forall|j: int| 0 <= j < groups.len() implies groups[j].0 != k by {
                        if j < prev.len() {
                            assert(prev[j] == groups[j]);
                        }
                    }
                }
            },
        }
    }
}

/// The index of the first group with key `k`.
fn find_group(groups: &Vec<ColumnGroup>, k: &String) -> (r: Option<usize>)
    ensures
        r matches Some(i) ==> i < groups.len(),
        match r {
            Some(i) => key_index(group_views(groups@), k@) == Some(i as int),
            None => key_index(group_views(groups@), k@) is None,
        },
{
    let ghost g = group_views(groups@);
    proof {
        lemma_key_index(g, k@);
    }
    let mut i: usize = 0;
    while i < groups.len()
        invariant
            i <= groups.len(),
            g == group_views(groups@),
            forall|j: int| 0 <= j < i ==> g[j].0 != k@,
        decreases groups.len() - i,
    {
        assert(g[i as int].0 == groups@[i as int].0@);
        proof {
            lemma_key_index(g, k@);
        }
        if same_text(groups[i].0.as_str(), k.as_str()) {
            proof {
                match key_index(g, k@) {
                    Some(m) => {
                        assert(m == i);
                    },
                    None => {},
                }
            }
            return Some(i);
        }
        i = i + 1;
    }
    proof {
        lemma_key_index(g, k@);
    }
    None
}

/// Groups the columns of every table of a database by table.
pub fn group_columns(rows: &Vec<Vec<JsonValue>>) -> (r: Vec<ColumnGroup>)
    ensures
        group_views(r@) == grouped_columns(rows@),
{
    let mut groups: Vec<ColumnGroup> = Vec::new();
    let mut i: usize = 0;
    assert(rows@.take(0) =~= Seq::<Vec<JsonValue>>::empty());
    assert(group_views(groups@) =~= Seq::<(Seq<char>, Seq<ColumnModel>)>::empty());
    while i < rows.len()
        invariant
            i <= rows.len(),
            group_views(groups@) == grouped_columns(rows@.take(i as int)),
        decreases rows.len() - i,
    {
        assert(rows@.take(i + 1).drop_last() =~= rows@.take(i as int));
        let table = cell_string_or(&rows[i], 0, "");
        let col = column_from_row(&rows[i], 1);
        let ghost before = group_views(groups@);
        let ghost cm = col@;
        match find_group(&groups, &table) {
            Some(idx) => {
                proof {
                    lemma_key_index(before, table@);
                }
                let ghost old_groups = groups@;
                let (k, mut cols) = groups.remove(idx);
                assert(k == old_groups[idx as int].0 && cols == old_groups[idx as int].1);
                let ghost old_cols = cols@.map_values(|c: ColumnInfo| c@);
                cols.push(col);
                assert(cols@.map_values(|c: ColumnInfo| c@) =~= old_cols.push(cm));
                groups.insert(idx, (k, cols));
                assert(groups@ =~= old_groups.update(idx as int, (k, cols)));
                assert(before[idx as int].0 == table@);
                assert(before[idx as int].1 == old_cols);
                assert(group_views(groups@) =~= before.update(
                    idx as int,
                    (table@, before[idx as int].1.push(cm)),
                ));
            },
            None => {
                let mut cols: Vec<ColumnInfo> = Vec::new();
                cols.push(col);
                assert(cols@.map_values(|c: ColumnInfo| c@) =~= seq![cm]);
                groups.push((table, cols));
                assert(group_views(groups@) =~= before.push((table@, seq![cm])));
            },
        }
        i = i + 1;
    }
    assert(rows@.take(rows.len() as int) =~= rows@);
    groups
}

/// The columns of the rows whose table is `k`, in row order.
pub open spec fn columns_of_table(rows: Seq<Vec<JsonValue>>, k: Seq<char>) -> Seq<ColumnModel>
    decreases rows.len(),
{
    if rows.len() == 0 {
        seq![]
    } else if text_or(rows.last()@, 0, ""@) == k {
        columns_of_table(rows.drop_last(), k).push(column_of_row(rows.last()@, 1))
    } else {
        columns_of_table(rows.drop_last(), k)
    }
}

/// The rows of table `k` in an all-columns listing, each without its leading
/// table cell, in order: what the one-table listing gives for `k`.
pub open spec fn table_rows(rows: Seq<Vec<JsonValue>>, k: Seq<char>) -> Seq<Seq<JsonValue>>
    decreases rows.len(),
{
    if rows.len() == 0 {
        seq![]
    } else if text_or(rows.last()@, 0, ""@) == k {
        table_rows(rows.drop_last(), k).push(rows.last()@.drop_first())
    } else {
        table_rows(rows.drop_last(), k)
    }
}

/// The columns that the one-table reading gives for rows.
pub open spec fn single_table_columns(rows: Seq<Seq<JsonValue>>) -> Seq<ColumnModel> {
    rows.map_values(|r: Seq<JsonValue>| column_of_row(r, 0))
}

/// The all-tables column listing agrees with the one-table listing: where each
/// row starts with its table's name, the group of table `k` holds exactly the
/// columns that `columns_from_rows` reads from `k`'s rows without that name, in
/// the same order; a table without rows has no group.
pub proof fn lemma_batch_group_is_table_listing(rows: Seq<Vec<JsonValue>>, k: Seq<char>)
    requires
        forall|i: int| 0 <= i < rows.len() ==> #[trigger] rows[i]@.len() > 0,
    ensures
        columns_of_table(rows, k) == single_table_columns(table_rows(rows, k)),
        match key_index(grouped_columns(rows), k) {
            Some(i) => grouped_columns(rows)[i].1 == single_table_columns(table_rows(rows, k)),
            None => table_rows(rows, k).len() == 0,
        },
    decreases rows.len(),
{
    lemma_grouped_columns(rows, k);
    if rows.len() > 0 {
        let prev = rows.drop_last();
        assert forall|i: int| 0 <= i < prev.len() implies #[trigger] prev[i]@.len() > 0 by {
            assert(prev[i] == rows[i]);
        }
        lemma_batch_group_is_table_listing(prev, k);
        let last = rows.last()@;
        assert(last.len() > 0);
        if text_or(last, 0, ""@) == k {
            lemma_column_of_shifted_row(last, 0);
            assert(single_table_columns(table_rows(rows, k)) =~= single_table_columns(
                table_rows(prev, k),
            ).push(column_of_row(last.drop_first(), 0)));
        }
    }
}

/// Keys of groups are distinct.
pub open spec fn distinct_keys(groups: Seq<(Seq<char>, Seq<ColumnModel>)>) -> bool {
    forall|a: int, b: int| 0 <= a < b < groups.len() ==> groups[a].0 != groups[b].0
}

/// Storing a group under `t` (in place where `t` is held, appended where it is
/// not) keeps keys distinct and moves no key: `t` is then found where it was,
/// or at the end, and every other key where it was.
proof fn lemma_key_index_after_store(
    prev: Seq<(Seq<char>, Seq<ColumnModel>)>,
    cur: Seq<(Seq<char>, Seq<ColumnModel>)>,
    t: Seq<char>,
    v: Seq<ColumnModel>,
    k: Seq<char>,
)
    requires
        distinct_keys(prev),
        match key_index(prev, t) {
            Some(i) => cur == prev.update(i, (t, v)),
            None => cur == prev.push((t, v)),
        },
    ensures
        distinct_keys(cur),
        key_index(cur, k) == (if k == t {
            match key_index(prev, t) {
                Some(i) => Some(i),
                None => Some(prev.len() as int),
            }
        } else {
            key_index(prev, k)
        }),
{
    lemma_key_index(prev, k);
    lemma_key_index(prev, t);
    lemma_key_index(cur, k);
    match key_index(prev, t) {
        Some(i) => {
            assert forall|a: int, b: int| 0 <= a < b < cur.len() implies cur[a].0 != cur[b].0 by {
                assert(prev[a].0 != prev[b].0);
            }
            if t == k {
                match key_index(cur, k) {
                    Some(m) => {
                        if m < i {
                            assert(cur[m].0 == prev[m].0);
                        }
                        if m > i {
                            assert(cur[i].0 == k);
                        }
                    },
                    None => {
                        assert(cur[i].0 == k);
                    },
                }
            } else {
                match key_index(prev, k) {
                    Some(j) => {
                        match key_index(cur, k) {
                            Some(m) => {
                                if m < j {
                                    assert(cur[m].0 == prev[m].0);
                                }
                                if m > j {
                                    assert(cur[j].0 == prev[j].0);
                                }
                            },
                            None => {
                                assert(cur[j].0 == prev[j].0);
                            },
                        }
                    },
                    None => {
                        match key_index(cur, k) {
                            Some(m) => {
                                assert(cur[m].0 == prev[m].0 || m == i);
                            },
                            None => {},
                        }
                    },
                }
            }
        },
        None => {
            assert forall|a: int, b: int| 0 <= a < b < cur.len() implies cur[a].0 != cur[b].0 by {
                if b < prev.len() {
                    assert(prev[a].0 != prev[b].0);
                } else {
                    assert(prev[a].0 != t);
                }
            }
            if t == k {
                match key_index(cur, k) {
                    Some(m) => {
                        if m < prev.len() {
                            assert(cur[m].0 == prev[m].0);
                        }
                    },
                    None => {
                        assert(cur[prev.len() as int].0 == k);
                    },
                }
            } else {
                match key_index(prev, k) {
                    Some(j) => {
                        match key_index(cur, k) {
                            Some(m) => {
                                if m < j {
                                    assert(cur[m].0 == prev[m].0);
                                }
                                if m > j {
                                    assert(cur[j].0 == prev[j].0);
                                }
                            },
                            None => {
                                assert(cur[j].0 == prev[j].0);
                            },
                        }
                    },
                    None => {
                        match key_index(cur, k) {
                            Some(m) => {
                                if m < prev.len() {
                                    assert(cur[m].0 == prev[m].0);
                                }
                            },
                            None => {},
                        }
                    },
                }
            }
        },
    }
}

/// Grouping columns by table loses and invents nothing: each table appears in
/// one group only, and the group of a table holds exactly the columns of the
/// rows of that table, in row order; a table without rows has no group.
pub proof fn lemma_grouped_columns(rows: Seq<Vec<JsonValue>>, k: Seq<char>)
    ensures
        forall|a: int, b: int|
            0 <= a < b < grouped_columns(rows).len() ==> grouped_columns(rows)[a].0
                != grouped_columns(rows)[b].0,
        match key_index(grouped_columns(rows), k) {
            Some(i) => grouped_columns(rows)[i].1 == columns_of_table(rows, k) && columns_of_table(
                rows,
                k,
            ).len() > 0,
            None => columns_of_table(rows, k).len() == 0,
        },
    decreases rows.len(),
{
    if rows.len() > 0 {
        let prev = grouped_columns(rows.drop_last());
        let t = text_or(rows.last()@, 0, ""@);
        let c = column_of_row(rows.last()@, 1);
        lemma_grouped_columns(rows.drop_last(), k);
        lemma_grouped_columns(rows.drop_last(), t);
        let cur = grouped_columns(rows);
        assert(cur == add_to_group(prev, t, c));
        let v = match key_index(prev, t) {
            Some(i) => prev[i].1.push(c),
            None => seq![c],
        };
        lemma_key_index_after_store(prev, cur, t, v, k);
        lemma_key_index(prev, k);
        lemma_key_index(prev, t);
        lemma_key_index(cur, k);
        if t == k && key_index(prev, t) is None {
            assert(columns_of_table(rows.drop_last(), k) =~= seq![]);
            assert(columns_of_table(rows, k) =~= seq![c]);
        }
    }
}

/// The names of the listed tables, in order.
pub fn table_names(tables: &Vec<TableInfo>) -> (r: Vec<String>)
    ensures
        r.len() == tables.len(),
        forall|i: int| 0 <= i < r.len() ==> #[trigger] r@[i]@ == tables@[i].name@,
{
    let mut out: Vec<String> = Vec::new();
    let mut i: usize = 0;
    while i < tables.len()
        invariant
            i <= tables.len(),
            out.len() == i,
            forall|k: int| 0 <= k < i ==> #[trigger] out@[k]@ == tables@[k].name@,
        decreases tables.len() - i,
    {
        out.push(tables[i].name.clone());
        i = i + 1;
    }
    out
}

/// Sets the group of key `k` to `cols`, adding the group when there is none.
pub open spec fn set_group(
    groups: Seq<(Seq<char>, Seq<ColumnModel>)>,
    k: Seq<char>,
    cols: Seq<ColumnModel>,
) -> Seq<(Seq<char>, Seq<ColumnModel>)> {
    match key_index(groups, k) {
        Some(i) => groups.update(i, (k, cols)),
        None => groups.push((k, cols)),
    }
}

/// The groups that setting each entry in turn leaves: a later entry for a key
/// replaces an earlier one.
pub open spec fn set_groups(entries: Seq<(Seq<char>, Seq<ColumnModel>)>) -> Seq<
    (Seq<char>, Seq<ColumnModel>),
>
    decreases entries.len(),
{
    if entries.len() == 0 {
        seq![]
    } else {
        set_group(set_groups(entries.drop_last()), entries.last().0, entries.last().1)
    }
}

/// The columns of each table of a schema snapshot, one group per table name:
/// the columns given last for a name stand.
pub fn snapshot_columns(entries: Vec<ColumnGroup>) -> (r: Vec<ColumnGroup>)
    ensures
        group_views(r@) == set_groups(group_views(entries@)),
{
    let ghost all = group_views(entries@);
    let mut rest = entries;
    let mut groups: Vec<ColumnGroup> = Vec::new();
    let mut i: usize = 0;
    let n = rest.len();
    assert(all.take(0) =~= Seq::<(Seq<char>, Seq<ColumnModel>)>::empty());
    assert(group_views(groups@) =~= Seq::<(Seq<char>, Seq<ColumnModel>)>::empty());
    assert(all.skip(0) =~= all);
    while rest.len() > 0
        invariant
            n == all.len(),
            i + rest.len() == n,
            group_views(rest@) == all.skip(i as int),
            group_views(groups@) == set_groups(all.take(i as int)),
        decreases rest.len(),
    {
        let ghost rv = group_views(rest@);
        let ghost old_rest = rest@;
        let (k, cols) = rest.remove(0);
        assert forall|j: int| 0 <= j < rest@.len() implies #[trigger] group_views(rest@)[j] == all.skip(
            i + 1,
        )[j] by {
            assert(rest@[j] == old_rest[j + 1]);
            assert(rv[j + 1] == all.skip(i as int)[j + 1]);
        }
        assert(rv[0] == (k@, cols@.map_values(|c: ColumnInfo| c@)));
        assert(all[i as int] == rv[0]);
        assert(all.take(i + 1).drop_last() =~= all.take(i as int));
        assert(group_views(rest@) =~= all.skip(i + 1));
        let ghost before = group_views(groups@);
        let ghost cm = cols@.map_values(|c: ColumnInfo| c@);
        match find_group(&groups, &k) {
            Some(idx) => {
                proof {
                    lemma_key_index(before, k@);
                }
                groups.set(idx, (k, cols));
                assert(group_views(groups@) =~= before.update(idx as int, (before[idx as int].0, cm)));
            },
            None => {
                groups.push((k, cols));
                assert(group_views(groups@) =~= before.push((k@, cm)));
            },
        }
        i = i + 1;
    }
    assert(all.take(n as int) =~= all);
    groups
}

/// The columns given last for key `k`, if any.
pub open spec fn last_given(entries: Seq<(Seq<char>, Seq<ColumnModel>)>, k: Seq<char>) -> Option<
    Seq<ColumnModel>,
>
    decreases entries.len(),
{
    if entries.len() == 0 {
        None
    } else if entries.last().0 == k {
        Some(entries.last().1)
    } else {
        last_given(entries.drop_last(), k)
    }
}

/// The model of the column query results of a snapshot, in order: a table's
/// columns, or `None` where its query failed.
pub open spec fn result_models(results: Seq<Option<Vec<ColumnInfo>>>) -> Seq<
    Option<Seq<ColumnModel>>,
> {
    results.map_values(
        |o: Option<Vec<ColumnInfo>>|
            match o {
                Some(v) => Some(v@.map_values(|c: ColumnInfo| c@)),
                None => None,
            },
    )
}

/// The entries of a schema snapshot: for each table name, in order, the
/// columns its query gave, or none where the query failed.
pub open spec fn snapshot_entries_of(
    names: Seq<Seq<char>>,
    results: Seq<Option<Seq<ColumnModel>>>,
) -> Seq<(Seq<char>, Seq<ColumnModel>)> {
    Seq::new(
        names.len(),
        |i: int|
            (
                names[i],
                match results[i] {
                    Some(c) => c,
                    None => seq![],
                },
            ),
    )
}

/// The column groups of a schema snapshot, from the table names and the result
/// of each table's column query (`None` where it failed): one group per name,
/// holding the columns given last for that name, an empty list where its
/// query failed.
pub fn snapshot_from_results(names: Vec<String>, results: Vec<Option<Vec<ColumnInfo>>>) -> (r: Vec<
    ColumnGroup,
>)
    requires
        names.len() == results.len(),
    ensures
        group_views(r@) == set_groups(snapshot_entries_of(views(names@), result_models(results@))),
{
    let ghost all = snapshot_entries_of(views(names@), result_models(results@));
    let ghost n0 = names@;
    let ghost r0 = results@;
    let mut names = names;
    let mut results = results;
    let mut entries: Vec<ColumnGroup> = Vec::new();
    let mut i: usize = 0;
    let total = names.len();
    while names.len() > 0
        invariant
            total == n0.len(),
            n0.len() == r0.len(),
            all == snapshot_entries_of(views(n0), result_models(r0)),
            i + names.len() == total,
            names.len() == results.len(),
            names@ == n0.skip(i as int),
            results@ == r0.skip(i as int),
            group_views(entries@) == all.take(i as int),
        decreases names.len(),
    {
        let name = names.remove(0);
        let result = results.remove(0);
        assert(name == n0[i as int]);
        assert(result == r0[i as int]);
        let cols = match result {
            Some(c) => c,
            None => Vec::new(),
        };
        assert(cols@.map_values(|c: ColumnInfo| c@) =~= all[i as int].1);
        let ghost before = group_views(entries@);
        entries.push((name, cols));
        proof {
            assert(all[i as int] == (n0[i as int]@, match r0[i as int] {
                Some(c) => c@.map_values(|c: ColumnInfo| c@),
                None => seq![],
            }));
            assert(group_views(entries@) =~= before.push(all[i as int]));
            assert(all.take(i + 1) =~= all.take(i as int).push(all[i as int]));
            assert(names@ =~= n0.skip(i + 1));
            assert(results@ =~= r0.skip(i + 1));
        }
        i = i + 1;
    }
    assert(all.take(i as int) =~= all);
    snapshot_columns(entries)
}

/// A schema snapshot keeps one group per table name, and the group of a name
/// holds the columns given last for it; a name never given has no group.
pub proof fn lemma_snapshot_last_wins(entries: Seq<(Seq<char>, Seq<ColumnModel>)>, k: Seq<char>)
    ensures
        forall|a: int, b: int|
            0 <= a < b < set_groups(entries).len() ==> set_groups(entries)[a].0 != set_groups(
                entries,
            )[b].0,
        match key_index(set_groups(entries), k) {
            Some(i) => last_given(entries, k) == Some(set_groups(entries)[i].1),
            None => last_given(entries, k) is None,
        },
    decreases entries.len(),
{
    if entries.len() > 0 {
        let prev = set_groups(entries.drop_last());
        let t = entries.last().0;
        let c = entries.last().1;
        lemma_snapshot_last_wins(entries.drop_last(), k);
        lemma_snapshot_last_wins(entries.drop_last(), t);
        let cur = set_groups(entries);
        assert(cur == set_group(prev, t, c));
        lemma_key_index_after_store(prev, cur, t, c, k);
        lemma_key_index(prev, k);
        lemma_key_index(prev, t);
        lemma_key_index(cur, k);
    }
}

} // verus!
