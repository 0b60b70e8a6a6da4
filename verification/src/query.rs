//! How a user's SQL query is run: whether it reads, whether it names its own
//! output format, how it is paged, and how a page of result rows is shaped.

use vstd::prelude::*;
use crate::text::{
    all_ws, ascii_upper, ascii_upper_char, chars_of, contains, decimal, decimal_string, find_last, has_prefix,
    has_substring, is_ascii, lemma_trimmed_ascii, lemma_trimmed_ascii_upper,
    lemma_trimmed_ignores_surrounding_ws,
    lemma_trim_idempotent, matches_at, non_blank, result_lines, same_text, starts_with,
    string_from_range, text_lines, to_upper, trim, trimmed, uppercase, utf8_lossy, views,
};
use crate::value::{Json, JsonValue, lemma_models};

verus! {

/// An upper-cased query reads data: it begins with `SELECT`, `SHOW`,
/// `DESCRIBE`, `DESC ` (with its space), `EXPLAIN` or `WITH`.
pub open spec fn select_keyword(upper: Seq<char>) -> bool {
    ||| has_prefix(upper, "SELECT"@)
    ||| has_prefix(upper, "SHOW"@)
    ||| has_prefix(upper, "DESCRIBE"@)
    ||| has_prefix(upper, "DESC "@)
    ||| has_prefix(upper, "EXPLAIN"@)
    ||| has_prefix(upper, "WITH"@)
}

/// Whether an already upper-cased, trimmed query reads data.
pub fn is_select_like_upper(upper: &str) -> (r: bool)
    ensures
        r == select_keyword(upper@),
{
    let u = chars_of(upper);
    starts_with(&u, "SELECT") || starts_with(&u, "SHOW") || starts_with(&u, "DESCRIBE")
        || starts_with(&u, "DESC ") || starts_with(&u, "EXPLAIN") || starts_with(&u, "WITH")
}

/// Whether a query reads data: its trimmed, upper-cased text begins with one of
/// the reading keywords.
pub fn is_select_like(query: &str) -> (r: bool)
    ensures
        r == select_keyword(uppercase(trimmed(query@))),
        is_ascii(query@) ==> r == select_keyword(ascii_upper(trimmed(query@))),
{
    let t = trim(query);
    proof {
        if is_ascii(query@) {
            lemma_trimmed_ascii(query@);
        }
    }
    let upper = to_upper(t.as_str());
    is_select_like_upper(upper.as_str())
}

/// On ASCII queries, whether a query reads data does not depend on letter
/// case or on white space around it: two queries that agree up to the case of
/// their letters are classified alike, and so are a query and the query with
/// white space added before and after it.
pub proof fn lemma_select_like_ignores_case_and_space(
    q: Seq<char>,
    q2: Seq<char>,
    w1: Seq<char>,
    w2: Seq<char>,
)
    requires
        all_ws(w1),
        all_ws(w2),
    ensures
        ascii_upper(q2) == ascii_upper(q) ==> select_keyword(ascii_upper(trimmed(q2)))
            == select_keyword(ascii_upper(trimmed(q))),
        select_keyword(ascii_upper(trimmed(w1 + q + w2))) == select_keyword(
            ascii_upper(trimmed(q)),
        ),
{
    lemma_trimmed_ascii_upper(q);
    lemma_trimmed_ascii_upper(q2);
    lemma_trimmed_ignores_surrounding_ws(w1, q, w2);
}

/// The keyword that names an output format, with the spaces around it.
pub open spec fn format_keyword() -> Seq<char> {
    " FORMAT "@
}

/// Whether an upper-cased query holds ` FORMAT `.
pub fn has_format_keyword(upper: &str) -> (r: bool)
    ensures
        r == has_substring(upper@, format_keyword()),
{
    let u = chars_of(upper);
    contains(&u, " FORMAT ")
}

/// Whether a query names its own output format: its upper-cased text holds
/// ` FORMAT `.
pub fn has_format_clause(query: &str) -> (r: bool)
    ensures
        r == has_substring(uppercase(query@), format_keyword()),
{
    let upper = to_upper(query);
    has_format_keyword(upper.as_str())
}

/// The index of the last occurrence of `p` in `s` at or before `i`.
pub open spec fn last_match_from(s: Seq<char>, p: Seq<char>, i: int) -> Option<int>
    decreases i + 1,
{
    if i < 0 {
        None
    } else if matches_at(s, p, i) {
        Some(i)
    } else {
        last_match_from(s, p, i - 1)
    }
}

/// The index of the last occurrence of `p` in `s`.
pub open spec fn last_match(s: Seq<char>, p: Seq<char>) -> Option<int> {
    last_match_from(s, p, s.len() as int)
}

proof fn lemma_last_match(s: Seq<char>, p: Seq<char>, i: int, k: Option<int>)
    requires
        k matches Some(j) ==> j <= i && matches_at(s, p, j) && forall|m: int|
            j < m ==> !matches_at(s, p, m),
        k is None ==> forall|m: int| !matches_at(s, p, m),
    ensures
        last_match_from(s, p, i) == (if k matches Some(j) && j <= i {
            k
        } else {
            None::<int>
        }),
    decreases i + 1,
{
    if i >= 0 && !matches_at(s, p, i) {
        lemma_last_match(s, p, i - 1, k);
    }
}

/// The upper-case form of one character where it is an ASCII letter.
fn ascii_upper_of(c: char) -> (r: char)
    ensures
        r == ascii_upper_char(c),
{
    let u = c as u32;
    if 97 <= u && u <= 122 {
        let b: u8 = (u - 32) as u8;
        b as char
    } else {
        c
    }
}

/// `v` with its ASCII letters in upper case.
fn ascii_upper_chars(v: &Vec<char>) -> (r: Vec<char>)
    ensures
        r@ == ascii_upper(v@),
{
    let mut r: Vec<char> = Vec::new();
    let mut i: usize = 0;
    while i < v.len()
        invariant
            i <= v.len(),
            r@ == ascii_upper(v@.take(i as int)),
        decreases v.len() - i,
    {
        r.push(ascii_upper_of(v[i]));
        assert(ascii_upper(v@.take(i + 1)) =~= ascii_upper(v@.take(i as int)).push(
            ascii_upper_char(v@[i as int]),
        ));
        i = i + 1;
    }
    assert(v@.take(v.len() as int) =~= v@);
    r
}

/// Where the last ` FORMAT ` stands in `q`, its letters matched in either ASCII
/// case.
pub open spec fn format_clause_at(q: Seq<char>) -> Option<int> {
    last_match(ascii_upper(q), format_keyword())
}

/// How a reading query that names its own format is split: at the last
/// ` FORMAT ` in the query itself (letters in either case), into the body before
/// it and the trimmed format name after it; the whole query with `TSV` where
/// it holds no such clause.
pub open spec fn format_split(q: Seq<char>) -> (Seq<char>, Seq<char>) {
    match format_clause_at(q) {
        Some(k) => (q.take(k), trimmed(q.skip(k + format_keyword().len()))),
        None => (q, "TSV"@),
    }
}

proof fn lemma_last_match_found(s: Seq<char>, p: Seq<char>, i: int)
    ensures
        last_match_from(s, p, i) matches Some(j) ==> j <= i && matches_at(s, p, j) && forall|m: int|
            j < m <= i ==> !#[trigger] matches_at(s, p, m),
        last_match_from(s, p, i) is None ==> forall|m: int| m <= i ==> !#[trigger] matches_at(s, p, m),
    decreases i + 1,
{
    if i >= 0 && !matches_at(s, p, i) {
        lemma_last_match_found(s, p, i - 1);
    }
}

/// The split of a query at its format clause loses nothing but the clause: the
/// body is the query up to the clause, the clause reads ` FORMAT ` once its
/// letters are upper-cased, the format is the trimmed rest after it, and no
/// such clause stands later in the query.
pub proof fn lemma_format_split_parts(q: Seq<char>)
    ensures
        match format_clause_at(q) {
            Some(k) => {
                &&& 0 <= k && k + 8 <= q.len()
                &&& q == format_split(q).0 + q.subrange(k, k + 8) + q.skip(k + 8)
                &&& ascii_upper(q.subrange(k, k + 8)) == format_keyword()
                &&& format_split(q).1 == trimmed(q.skip(k + 8))
                &&& forall|m: int| k < m ==> !#[trigger] matches_at(ascii_upper(q), format_keyword(), m)
            },
            None => format_split(q) == (q, "TSV"@) && forall|m: int|
                !#[trigger] matches_at(ascii_upper(q), format_keyword(), m),
        },
{
    reveal_strlit(" FORMAT ");
    let u = ascii_upper(q);
    lemma_last_match_found(u, format_keyword(), u.len() as int);
    match format_clause_at(q) {
        Some(k) => {
            assert(q =~= q.take(k) + q.subrange(k, k + 8) + q.skip(k + 8));
            assert(ascii_upper(q.subrange(k, k + 8)) =~= u.subrange(k, k + 8));
            assert forall|m: int| k < m implies !#[trigger] matches_at(u, format_keyword(), m) by {
                if m > u.len() {
                    assert(!matches_at(u, format_keyword(), m));
                }
            }
        },
        None => {
            assert forall|m: int| !#[trigger] matches_at(u, format_keyword(), m) by {
                if m > u.len() {
                    assert(!matches_at(u, format_keyword(), m));
                }
            }
        },
    }
}

/// Splits a query that names its own format into its body and the format name.
pub fn split_format_clause(q: &str) -> (r: (String, String))
    ensures
        format_split(q@) == (r.0@, r.1@),
{
    let qv = chars_of(q);
    let uv = ascii_upper_chars(&qv);
    let kw = chars_of(" FORMAT ");
    let found = find_last(&uv, &kw);
    proof {
        let k = match found {
            Some(i) => Some(i as int),
            None => None::<int>,
        };
        lemma_last_match(uv@, kw@, uv@.len() as int, k);
    }
    match found {
        Some(k) => {
            let body = string_from_range(&qv, 0, k);
            let rest = string_from_range(&qv, k + kw.len(), qv.len());
            let fmt = trim(rest.as_str());
            assert(qv@.subrange(0, k as int) =~= qv@.take(k as int));
            assert(qv@.subrange(k + kw.len(), qv@.len() as int) =~= qv@.skip(k + kw.len()));
            (body, fmt)
        },
        None => (String::from_str(q), String::from_str("TSV")),
    }
}

/// What the plugin does with a query.
pub enum QueryPlan {
    /// Not a reading query: run it as a statement; the answer is an empty result.
    Statement(String),
    /// A reading query that names its own format: fetch `body` in `format` and
    /// answer with the text of the result.
    Formatted { body: String, format: String },
    /// A reading query: fetch `sql` as one JSON object per line. With a page
    /// size, `sql` asks for one row more than the page holds, which tells
    /// whether more rows follow.
    Paged { sql: String, page: u32, page_size: Option<u32> },
}

/// The model of a plan.
pub enum PlanModel {
    Statement(Seq<char>),
    Formatted(Seq<char>, Seq<char>),
    Paged(Seq<char>, u32, Option<u32>),
}

impl View for QueryPlan {
    type V = PlanModel;

    open spec fn view(&self) -> PlanModel {
        match self {
            QueryPlan::Statement(s) => PlanModel::Statement(s@),
            QueryPlan::Formatted { body, format } => PlanModel::Formatted(body@, format@),
            QueryPlan::Paged { sql, page, page_size } => PlanModel::Paged(sql@, *page, *page_size),
        }
    }
}

/// The query that fetches one page: the user's query wrapped in a `SELECT *`
/// with a limit and an offset.
pub open spec fn paged_sql(q: Seq<char>, fetch: nat, offset: nat) -> Seq<char> {
    "SELECT * FROM ("@ + q + ") LIMIT "@ + decimal(fetch) + " OFFSET "@ + decimal(offset)
}

/// The plan for the trimmed query `q` whose upper-cased text is `upper`, on
/// page `page` (0 counts as 1) of `limit` rows. `None` where no plan can be
/// made: a page's row count or offset beyond `u32`.
pub open spec fn plan_model(q: Seq<char>, upper: Seq<char>, limit: Option<u32>, page: u32) -> Option<
    PlanModel,
> {
    if !select_keyword(upper) {
        Some(PlanModel::Statement(q))
    } else if has_substring(upper, format_keyword()) {
        Some(PlanModel::Formatted(format_split(q).0, format_split(q).1))
    } else {
        let p: u32 = if page == 0 {
            1
        } else {
            page
        };
        match limit {
            None => Some(PlanModel::Paged(q, p, None)),
            Some(l) => if l + 1 > u32::MAX || (p - 1) * l > u32::MAX {
                None
            } else {
                Some(
                    PlanModel::Paged(
                        paged_sql(q, (l + 1) as nat, ((p - 1) * l) as nat),
                        p,
                        Some(l),
                    ),
                )
            },
        }
    }
}

/// Plans the trimmed query `q`, given its upper-cased text.
pub fn plan_query_upper(q: &str, upper: &str, limit: Option<u32>, page: u32) -> (r: Option<
    QueryPlan,
>)
    ensures
        match r {
            Some(p) => plan_model(q@, upper@, limit, page) == Some(p@),
            None => plan_model(q@, upper@, limit, page) is None,
        },
{
    if !is_select_like_upper(upper) {
        return Some(QueryPlan::Statement(String::from_str(q)));
    }
    if has_format_keyword(upper) {
        let (body, format) = split_format_clause(q);
        return Some(QueryPlan::Formatted { body, format });
    }
    let p: u32 = if page == 0 {
        1
    } else {
        page
    };
    match limit {
        None => Some(QueryPlan::Paged { sql: String::from_str(q), page: p, page_size: None }),
        Some(l) => {
            if l == u32::MAX {
                return None;
            }
            let fetch: u32 = l + 1;
            let pm: u64 = p as u64 - 1;
            let lw: u64 = l as u64;
            assert(pm * lw <= 0xffff_ffff * 0xffff_ffff) by (nonlinear_arith)
                requires
                    pm <= 0xffff_ffff,
                    lw <= 0xffff_ffff,
            ;
            let offset_wide: u64 = pm * lw;
            if offset_wide > u32::MAX as u64 {
                return None;
            }
            let offset: u32 = offset_wide as u32;
            let mut sql = String::from_str("SELECT * FROM (");
            sql.append(q);
            sql.append(") LIMIT ");
            let f = decimal_string(fetch as u64);
            sql.append(f.as_str());
            sql.append(" OFFSET ");
            let o = decimal_string(offset as u64);
            sql.append(o.as_str());
            Some(QueryPlan::Paged { sql, page: p, page_size: Some(l) })
        },
    }
}

/// Plans a query as the plugin runs it: trimmed, classified by its upper-cased
/// text, split at its format clause or wrapped for paging. `None` where no plan
/// can be made (see `plan_model`).
pub fn plan_query(query: &str, limit: Option<u32>, page: u32) -> (r: Option<QueryPlan>)
    ensures
        match r {
            Some(p) => plan_model(trimmed(query@), uppercase(trimmed(query@)), limit, page) == Some(
                p@,
            ),
            None => plan_model(trimmed(query@), uppercase(trimmed(query@)), limit, page) is None,
        },
{
    let q = trim(query);
    let upper = to_upper(q.as_str());
    plan_query_upper(q.as_str(), upper.as_str(), limit, page)
}

/// The plan agrees with the two classifying functions: a query is run as a
/// statement exactly when it does not read, and split at its format clause
/// exactly when it reads and names a format.
pub proof fn lemma_plan_follows_classification(query: Seq<char>, limit: Option<u32>, page: u32)
    ensures
        ({
            let q = trimmed(query);
            let plan = plan_model(q, uppercase(q), limit, page);
            let select = select_keyword(uppercase(trimmed(q)));
            let format = has_substring(uppercase(q), format_keyword());
            &&& (plan matches Some(PlanModel::Statement(s)) <==> !select)
            &&& (plan matches Some(PlanModel::Statement(s)) ==> s == q)
            &&& (plan matches Some(PlanModel::Formatted(b, f)) ==> select && format)
            &&& (plan matches Some(PlanModel::Paged(s, p, l)) ==> select && !format && p >= 1 && l
                == limit)
        }),
{
    lemma_trim_idempotent(query);
}

/// The page size asked for: a `u64` parameter cut to `u32` as `as u32` does.
pub fn page_size_param(v: Option<u64>) -> (r: Option<u32>)
    ensures
        match v {
            Some(x) => r == Some((x % 0x1_0000_0000) as u32),
            None => r is None,
        },
{
    match v {
        Some(x) => Some((x % 0x1_0000_0000) as u32),
        None => None,
    }
}

/// The page asked for: a `u64` parameter cut to `u32`, 1 when absent.
pub fn page_param(v: Option<u64>) -> (r: u32)
    ensures
        r == match v {
            Some(x) => (x % 0x1_0000_0000) as u32,
            None => 1u32,
        },
{
    match v {
        Some(x) => (x % 0x1_0000_0000) as u32,
        None => 1,
    }
}

/// One result row: a JSON object's entries, keys distinct, in the object's order.
pub type JsonObject = Vec<(String, JsonValue)>;

/// The keys of an object, in order.
pub open spec fn object_keys(obj: Seq<(String, JsonValue)>) -> Seq<Seq<char>> {
    obj.map_values(|e: (String, JsonValue)| e.0@)
}

/// The value under `key` in an object (its first entry with that key), or null.
pub open spec fn lookup(obj: Seq<(String, JsonValue)>, key: Seq<char>) -> Json
    decreases obj.len(),
{
    if obj.len() == 0 {
        Json::Null
    } else if obj[0].0@ == key {
        obj[0].1@
    } else {
        lookup(obj.skip(1), key)
    }
}

/// The columns of a result: the keys of its first row, none when it has no rows.
pub open spec fn result_columns(objects: Seq<JsonObject>) -> Seq<Seq<char>> {
    if objects.len() == 0 {
        seq![]
    } else {
        object_keys(objects[0]@)
    }
}

/// `rows` holds, for each object and each column, the object's value under the
/// column's name (null where it has none).
pub open spec fn rows_by_columns(
    objects: Seq<JsonObject>,
    columns: Seq<Seq<char>>,
    rows: Seq<Vec<JsonValue>>,
) -> bool {
    &&& rows.len() == objects.len()
    &&& forall|i: int|
        0 <= i < rows.len() ==> {
            &&& #[trigger] rows[i].len() == columns.len()
            &&& forall|c: int|
                0 <= c < columns.len() ==> #[trigger] rows[i]@[c]@ == lookup(
                    objects[i]@,
                    columns[c],
                )
        }
}

/// The value under `key` in `obj`, copied, or null.
fn value_of(obj: &JsonObject, key: &String) -> (r: JsonValue)
    ensures
        r@ == lookup(obj@, key@),
{
    let mut i: usize = 0;
    assert(obj@.skip(0) =~= obj@);
    while i < obj.len()
        invariant
            i <= obj.len(),
            lookup(obj@, key@) == lookup(obj@.skip(i as int), key@),
        decreases obj.len() - i,
    {
        assert(obj@.skip(i as int)[0] == obj@[i as int]);
        assert(obj@.skip(i as int).skip(1) =~= obj@.skip(i + 1));
        if same_text(obj[i].0.as_str(), key.as_str()) {
            return obj[i].1.duplicate();
        }
        i = i + 1;
    }
    JsonValue::Null
}

/// Shapes result objects into columns and rows: the columns are the keys of the
/// first object; each row holds an object's values in column order, null where
/// the object lacks a column.
pub fn decode_rows(objects: &Vec<JsonObject>) -> (r: (Vec<String>, Vec<Vec<JsonValue>>))
    ensures
        views(r.0@) == result_columns(objects@),
        rows_by_columns(objects@, views(r.0@), r.1@),
{
    let mut columns: Vec<String> = Vec::new();
    if objects.len() > 0 {
        let first = &objects[0];
        let mut k: usize = 0;
        while k < first.len()
            invariant
                objects.len() > 0,
                *first == objects@[0],
                k <= first.len(),
                views(columns@) == object_keys(first@.take(k as int)),
            decreases first.len() - k,
        {
            let ghost before = views(columns@);
            columns.push(first[k].0.clone());
            proof {
                assert(first@.take(k + 1) =~= first@.take(k as int).push(first@[k as int]));
                assert(views(columns@) =~= before.push(first@[k as int].0@));
                assert(object_keys(first@.take(k + 1)) =~= object_keys(first@.take(k as int)).push(
                    first@[k as int].0@,
                ));
            }
            k = k + 1;
        }
        assert(first@.take(first.len() as int) =~= first@);
    } else {
        assert(views(columns@) =~= result_columns(objects@));
    }
    let mut rows: Vec<Vec<JsonValue>> = Vec::new();
    let mut i: usize = 0;
    while i < objects.len()
        invariant
            i <= objects.len(),
            views(columns@) == result_columns(objects@),
            rows.len() == i,
            forall|m: int|
                0 <= m < i ==> {
                    &&& #[trigger] rows@[m].len() == columns.len()
                    &&& forall|c: int|
                        0 <= c < columns.len() ==> #[trigger] rows@[m]@[c]@ == lookup(
                            objects@[m]@,
                            views(columns@)[c],
                        )
                },
        decreases objects.len() - i,
    {
        let mut row: Vec<JsonValue> = Vec::new();
        let mut c: usize = 0;
        while c < columns.len()
            invariant
                i < objects.len(),
                c <= columns.len(),
                row.len() == c,
                views(columns@) == result_columns(objects@),
                forall|d: int|
                    0 <= d < c ==> #[trigger] row@[d]@ == lookup(
                        objects@[i as int]@,
                        views(columns@)[d],
                    ),
            decreases columns.len() - c,
        {
            let v = value_of(&objects[i], &columns[c]);
            assert(views(columns@)[c as int] == columns@[c as int]@);
            row.push(v);
            c = c + 1;
        }
        rows.push(row);
        i = i + 1;
    }
    (columns, rows)
}

#[verifier::external_type_specification]
#[verifier::external_body]
pub struct ExJsonValue(serde_json::Value);

/// The entries of an object as plain values: each key's text and value's model.
pub open spec fn object_model(obj: Seq<(String, JsonValue)>) -> Seq<(Seq<char>, Json)> {
    obj.map_values(|e: (String, JsonValue)| (e.0@, e.1@))
}

/// What serde_json makes of a line parsed as a JSON object
/// (`serde_json::from_str` into a `serde_json::Map`, keys kept in the order
/// the text gives them): its entries, each value as the library holds it;
/// `None` where the line is not one JSON object.
pub uninterp spec fn json_object_of(line: Seq<char>) -> Option<Seq<(Seq<char>, Json)>>;

/// The message of serde_json's error for a line that is not one JSON object.
pub uninterp spec fn json_parse_error(line: Seq<char>) -> Seq<char>;

/// A serde_json value as the library holds it, one for one: a number by its
/// JSON text, an array item by item, an object by its JSON text. Nothing is
/// claimed here; `parse_json_object`, the one place it is used, states the
/// result of parsing and converting together.
#[verifier::external_body]
fn json_value_of(v: serde_json::Value) -> JsonValue {
    match v {
        serde_json::Value::Null => JsonValue::Null,
        serde_json::Value::Bool(b) => JsonValue::Bool(b),
        serde_json::Value::Number(n) => JsonValue::Number(n.to_string()),
        serde_json::Value::String(t) => JsonValue::String(t),
        serde_json::Value::Array(a) => JsonValue::Array(a.into_iter().map(json_value_of).collect()),
        o => JsonValue::Object(o.to_string()),
    }
}

/// Parses a line as one JSON object (`serde_json::from_str` into a
/// `serde_json::Map`). The contract claims that the line parses exactly when
/// the named parse gives an object, that the entries are that object's, with
/// distinct keys, and that a failure carries serde_json's message for the line.
#[verifier::external_body]
fn parse_json_object(line: &str) -> (r: Result<JsonObject, String>)
    ensures
        match r {
            Ok(o) => json_object_of(line@) == Some(object_model(o@)) && object_keys(
                o@,
            ).no_duplicates(),
            Err(e) => json_object_of(line@) is None && e@ == json_parse_error(line@),
        },
{
    match serde_json::from_str::<serde_json::Map<String, serde_json::Value>>(line) {
        Ok(m) => Ok(m.into_iter().map(|(k, v)| (k, json_value_of(v))).collect()),
        Err(e) => Err(e.to_string()),
    }
}

/// `objects` put in front of what parsing the rest gave.
pub open spec fn prepend_objects(
    objects: Seq<Seq<(Seq<char>, Json)>>,
    rest: Result<Seq<Seq<(Seq<char>, Json)>>, Seq<char>>,
) -> Result<Seq<Seq<(Seq<char>, Json)>>, Seq<char>> {
    match rest {
        Ok(r) => Ok(objects + r),
        Err(e) => Err(e),
    }
}

/// Each line parsed as one JSON object, in order; the error of the first line
/// that is not one.
pub open spec fn parse_lines(lines: Seq<Seq<char>>) -> Result<Seq<Seq<(Seq<char>, Json)>>, Seq<char>>
    decreases lines.len(),
{
    if lines.len() == 0 {
        Ok(seq![])
    } else {
        match json_object_of(lines[0]) {
            None => Err(json_parse_error(lines[0])),
            Some(o) => prepend_objects(seq![o], parse_lines(lines.drop_first())),
        }
    }
}

/// The models of parsed objects, in order.
pub open spec fn objects_model(objects: Seq<JsonObject>) -> Seq<Seq<(Seq<char>, Json)>> {
    objects.map_values(|o: JsonObject| object_model(o@))
}

/// The rows of a `JSONEachRow` result body: each non-blank line parsed as one
/// JSON object, in order. When a line does not parse, the error is `prefix`
/// followed by the first such line's parse error.
pub fn parse_result_rows(bytes: &[u8], prefix: &str) -> (r: Result<Vec<JsonObject>, String>)
    ensures
        match r {
            Ok(objects) => parse_lines(non_blank(text_lines(utf8_lossy(bytes@)))) == Ok::<
                Seq<Seq<(Seq<char>, Json)>>,
                Seq<char>,
            >(objects_model(objects@)) && forall|i: int|
                0 <= i < objects.len() ==> object_keys(#[trigger] objects@[i]@).no_duplicates(),
            Err(e) => match parse_lines(non_blank(text_lines(utf8_lossy(bytes@)))) {
                Err(m) => e@ == prefix@ + m,
                Ok(_) => false,
            },
        },
{
    let lines = result_lines(bytes);
    let ghost ls = views(lines@);
    let mut out: Vec<JsonObject> = Vec::new();
    let mut i: usize = 0;
    assert(ls.skip(0) =~= ls);
    assert(objects_model(out@) =~= Seq::<Seq<(Seq<char>, Json)>>::empty());
    while i < lines.len()
        invariant
            ls == views(lines@),
            ls == non_blank(text_lines(utf8_lossy(bytes@))),
            i <= lines.len(),
            parse_lines(ls) == prepend_objects(objects_model(out@), parse_lines(ls.skip(i as int))),
            forall|j: int| 0 <= j < out.len() ==> object_keys(#[trigger] out@[j]@).no_duplicates(),
        decreases lines.len() - i,
    {
        let ghost tail = ls.skip(i as int);
        assert(tail[0] == lines@[i as int]@);
        assert(tail.drop_first() =~= ls.skip(i + 1));
        match parse_json_object(lines[i].as_str()) {
            Ok(o) => {
                let ghost before = objects_model(out@);
                out.push(o);
                proof {
                    assert(objects_model(out@) =~= before + seq![object_model(o@)]);
                    match parse_lines(ls.skip(i + 1)) {
                        Ok(r) => {
                            assert(before + (seq![object_model(o@)] + r) =~= (before + seq![
                                object_model(o@),
                            ]) + r);
                        },
                        Err(_) => {},
                    }
                }
            },
            Err(e) => {
                assert(parse_lines(tail) == Err::<Seq<Seq<(Seq<char>, Json)>>, Seq<char>>(
                    json_parse_error(tail[0]),
                ));
                let mut msg = String::from_str(prefix);
                msg.append(e.as_str());
                assert(msg@ == prefix@ + json_parse_error(tail[0]));
                return Err(msg);
            },
        }
        i = i + 1;
    }
    assert(ls.skip(lines.len() as int) =~= Seq::<Seq<char>>::empty());
    assert(objects_model(out@) + Seq::<Seq<(Seq<char>, Json)>>::empty() =~= objects_model(out@));
    Ok(out)
}

/// The message that a result row fails to parse with comes after this.
pub open spec fn row_error_prefix() -> Seq<char> {
    "Failed to parse row: "@
}

/// The columns and rows of a `JSONEachRow` result body: its non-blank lines
/// parsed as JSON objects, shaped by `decode_rows`. When a line does not
/// parse, the error is `Failed to parse row: ` and that line's parse error.
pub fn result_rows(bytes: &[u8]) -> (r: Result<(Vec<String>, Vec<Vec<JsonValue>>), String>)
    ensures
        match r {
            Ok((columns, rows)) => exists|objects: Seq<JsonObject>|
                #![trigger objects_model(objects)]
                parse_lines(non_blank(text_lines(utf8_lossy(bytes@)))) == Ok::<
                    Seq<Seq<(Seq<char>, Json)>>,
                    Seq<char>,
                >(objects_model(objects)) && views(columns@) == result_columns(objects)
                    && rows_by_columns(objects, views(columns@), rows@),
            Err(e) => match parse_lines(non_blank(text_lines(utf8_lossy(bytes@)))) {
                Err(m) => e@ == row_error_prefix() + m,
                Ok(_) => false,
            },
        },
{
    let objects = parse_result_rows(bytes, "Failed to parse row: ");
    match objects {
        Ok(objects) => {
            let (columns, rows) = decode_rows(&objects);
            assert(objects_model(objects@) == objects_model(objects@));
            Ok((columns, rows))
        },
        Err(e) => Err(e),
    }
}

/// One page of a result.
pub struct PageResult {
    pub columns: Vec<String>,
    pub rows: Vec<Vec<JsonValue>>,
    /// More rows follow this page; the page was cut to its size.
    pub has_more: bool,
    pub page: u32,
    pub page_size: Option<u32>,
}

/// More rows came back than the page holds.
pub open spec fn page_overflows(count: nat, page_size: Option<u32>) -> bool {
    page_size matches Some(l) && count > l
}

/// The rows a page keeps: the first `page_size` when more came back.
pub open spec fn page_rows(objects: Seq<JsonObject>, page_size: Option<u32>) -> Seq<JsonObject> {
    if page_overflows(objects.len(), page_size) {
        objects.take(page_size->0 as int)
    } else {
        objects
    }
}

/// Shapes the objects fetched for one page: when more came back than the page
/// holds (the extra row the plan asks for), the page is cut to its size and
/// says that more follow; the kept objects become columns and rows.
pub fn finish_page(objects: Vec<JsonObject>, page: u32, page_size: Option<u32>) -> (r: PageResult)
    ensures
        r.has_more == page_overflows(objects@.len(), page_size),
        views(r.columns@) == result_columns(page_rows(objects@, page_size)),
        rows_by_columns(page_rows(objects@, page_size), views(r.columns@), r.rows@),
        r.page == page,
        r.page_size == page_size,
{
    let mut kept = objects;
    let has_more = match page_size {
        Some(l) => kept.len() > l as usize,
        None => false,
    };
    if has_more {
        let l = page_size.unwrap();
        kept.truncate(l as usize);
    }
    assert(kept@ =~= page_rows(objects@, page_size));
    let (columns, rows) = decode_rows(&kept);
    PageResult { columns, rows, has_more, page, page_size }
}

/// Which queries are run as statements: exactly those whose upper-cased text
/// does not begin with `SELECT`, `SHOW`, `DESCRIBE`, `DESC ` (with its space),
/// `EXPLAIN` or `WITH`, and such a query is run as it stands. In particular a
/// query whose text begins with any other letter than `S`, `D`, `E` or `W`
/// (`ALTER`, `INSERT`, `CREATE`, ...) is a statement, and so is `DESC` with
/// nothing after it.
pub proof fn lemma_statements_are_the_non_reading_queries(
    q: Seq<char>,
    upper: Seq<char>,
    limit: Option<u32>,
    page: u32,
)
    ensures
        (plan_model(q, upper, limit, page) == Some(PlanModel::Statement(q))) <==> !(has_prefix(
            upper,
            "SELECT"@,
        ) || has_prefix(upper, "SHOW"@) || has_prefix(upper, "DESCRIBE"@) || has_prefix(
            upper,
            "DESC "@,
        ) || has_prefix(upper, "EXPLAIN"@) || has_prefix(upper, "WITH"@)),
        upper.len() > 0 && upper[0] != 'S' && upper[0] != 'D' && upper[0] != 'E' && upper[0]
            != 'W' ==> plan_model(q, upper, limit, page) == Some(PlanModel::Statement(q)),
        upper == "DESC"@ ==> plan_model(q, upper, limit, page) == Some(PlanModel::Statement(q)),
        plan_model(q, upper, limit, page) matches Some(PlanModel::Statement(t)) ==> t == q,
{
    reveal_strlit("SELECT");
    reveal_strlit("SHOW");
    reveal_strlit("DESCRIBE");
    reveal_strlit("DESC ");
    reveal_strlit("DESC");
    reveal_strlit("EXPLAIN");
    reveal_strlit("WITH");
    if upper.len() > 0 {
        assert("SELECT"@[0] == 'S');
        assert("SHOW"@[0] == 'S');
        assert("DESCRIBE"@[0] == 'D');
        assert("DESC "@[0] == 'D');
        assert("EXPLAIN"@[0] == 'E');
        assert("WITH"@[0] == 'W');
        if has_prefix(upper, "SELECT"@) {
            assert(upper.subrange(0, 6)[0] == upper[0]);
        }
        if has_prefix(upper, "SHOW"@) {
            assert(upper.subrange(0, 4)[0] == upper[0]);
        }
        if has_prefix(upper, "DESCRIBE"@) {
            assert(upper.subrange(0, 8)[0] == upper[0]);
        }
        if has_prefix(upper, "DESC "@) {
            assert(upper.subrange(0, 5)[0] == upper[0]);
        }
        if has_prefix(upper, "EXPLAIN"@) {
            assert(upper.subrange(0, 7)[0] == upper[0]);
        }
        if has_prefix(upper, "WITH"@) {
            assert(upper.subrange(0, 4)[0] == upper[0]);
        }
    }
}

/// Page 0 is read as page 1: both plan the same fetch.
pub proof fn lemma_page_zero_is_first(q: Seq<char>, upper: Seq<char>, limit: Option<u32>)
    ensures
        plan_model(q, upper, limit, 0) == plan_model(q, upper, limit, 1),
{
}

/// Consecutive pages do not overlap and leave no gap: page `p + 1` starts
/// `limit` rows after page `p`, and each asks for one row more than a page.
pub proof fn lemma_pages_follow_each_other(q: Seq<char>, upper: Seq<char>, l: u32, p: u32)
    requires
        p >= 1,
        p < u32::MAX,
        l < u32::MAX,
        p * l <= u32::MAX,
        select_keyword(upper),
        !has_substring(upper, format_keyword()),
    ensures
        plan_model(q, upper, Some(l), p) == Some(
            PlanModel::Paged(paged_sql(q, (l + 1) as nat, ((p - 1) * l) as nat), p, Some(l)),
        ),
        plan_model(q, upper, Some(l), (p + 1) as u32) == Some(
            PlanModel::Paged(
                paged_sql(q, (l + 1) as nat, ((p - 1) * l + l) as nat),
                (p + 1) as u32,
                Some(l),
            ),
        ),
{
    assert((p - 1) * l <= p * l) by (nonlinear_arith)
        requires
            p >= 1,
    ;
    let p1: u32 = (p + 1) as u32;
    assert(p1 == p + 1);
    assert((p1 - 1) * l == (p - 1) * l + l) by (nonlinear_arith)
        requires
            p1 == p + 1,
    ;
}

/// A page keeps the rows that came back from their start, in order: all of
/// them without a page size, else the first ones up to the page size.
pub proof fn lemma_page_is_a_prefix(objects: Seq<JsonObject>, page_size: Option<u32>)
    ensures
        ({
            let kept = page_rows(objects, page_size);
            &&& kept.len() <= objects.len()
            &&& forall|i: int| 0 <= i < kept.len() ==> #[trigger] kept[i] == objects[i]
            &&& page_size is None ==> kept.len() == objects.len()
            &&& page_size matches Some(l) ==> kept.len() == (if objects.len() > l {
                l as int
            } else {
                objects.len() as int
            })
        }),
{
}

/// A page holds at most its size, and says that more follow exactly when rows
/// beyond it came back.
pub proof fn lemma_page_bounded(objects: Seq<JsonObject>, l: u32)
    ensures
        page_rows(objects, Some(l)).len() <= l,
        page_rows(objects, Some(l)).len() == (if objects.len() > l {
            l as nat
        } else {
            objects.len()
        }),
        page_overflows(objects.len(), Some(l)) <==> objects.len() > l,
{
}

} // verus!
