//! JSON values as the plugin's logic reads them, and their rendering as SQL
//! literals.

use vstd::prelude::*;
use crate::escape::{
    closed_string_literal, escape_string, escaped_string, lemma_string_literal_round_trip,
    read_string_literal,
};
use crate::text::same_text;

verus! {

/// The mathematical model of a JSON value.
pub enum Json {
    Null,
    Bool(bool),
    /// A number, by the text that JSON renders for it.
    Number(Seq<char>),
    Str(Seq<char>),
    Array(Seq<Json>),
    /// An object, by its serialized JSON text.
    Object(Seq<char>),
}

/// A JSON value: a request parameter or a cell of a query result.
///
/// A number is held as the text that JSON renders for it (an integer as its
/// decimal digits, a float as its shortest round-trip form, so that the integer
/// one is exactly the text `1`); an object is held as its serialized JSON text.
pub enum JsonValue {
    Null,
    Bool(bool),
    Number(String),
    String(String),
    Array(Vec<JsonValue>),
    Object(String),
}

impl JsonValue {
    /// The model of this value.
    pub open spec fn model(self) -> Json
        decreases self,
    {
        match self {
            JsonValue::Null => Json::Null,
            JsonValue::Bool(b) => Json::Bool(b),
            JsonValue::Number(t) => Json::Number(t@),
            JsonValue::String(s) => Json::Str(s@),
            JsonValue::Array(items) => Json::Array(models(items@)),
            JsonValue::Object(t) => Json::Object(t@),
        }
    }
}

/// The models of a sequence of values, in order.
pub open spec fn models(s: Seq<JsonValue>) -> Seq<Json>
    decreases s,
{
    if s.len() == 0 {
        seq![]
    } else {
        models(s.drop_last()).push(s.last().model())
    }
}

impl View for JsonValue {
    type V = Json;

    open spec fn view(&self) -> Json {
        self.model()
    }
}

/// `models` keeps length and position.
pub proof fn lemma_models(s: Seq<JsonValue>)
    ensures
        models(s).len() == s.len(),
        forall|k: int| 0 <= k < s.len() ==> #[trigger] models(s)[k] == s[k]@,
    decreases s.len(),
{
    if s.len() > 0 {
        lemma_models(s.drop_last());
    }
}

/// `models` of a prefix one longer.
proof fn lemma_models_take(s: Seq<JsonValue>, i: int)
    requires
        0 <= i < s.len(),
    ensures
        models(s.take(i + 1)) == models(s.take(i)).push(s[i]@),
{
    assert(s.take(i + 1).drop_last() =~= s.take(i));
}

/// A quoted SQL string literal holding `s`.
pub open spec fn quoted_string(s: Seq<char>) -> Seq<char> {
    seq!['\''] + escaped_string(s) + seq!['\'']
}

/// How a JSON value is written as an SQL literal: `NULL`, `1` or `0` for a
/// boolean, a number as its text, a string (and an object, by its JSON text)
/// quoted and escaped, an array as its items in brackets, separated by `, `.
pub open spec fn sql_literal(j: Json) -> Seq<char>
    decreases j,
{
    match j {
        Json::Null => "NULL"@,
        Json::Bool(b) => if b {
            "1"@
        } else {
            "0"@
        },
        Json::Number(t) => t,
        Json::Str(s) => quoted_string(s),
        Json::Array(items) => "["@ + list_literal(items) + "]"@,
        Json::Object(t) => quoted_string(t),
    }
}

/// What a value's SQL literal holds: a string, or an object's JSON text,
/// comes out between single quotes and reads back, as ClickHouse reads a
/// literal, as exactly that text, the literal ending at its closing quote; a
/// number is its own text; null is `NULL`; a boolean is `1` or `0`; an array
/// is bracketed.
pub proof fn lemma_sql_literal_reads_back(j: Json)
    ensures
        match j {
            Json::Str(s) => {
                let l = sql_literal(j);
                &&& l.len() >= 2 && l[0] == '\'' && l.last() == '\''
                &&& read_string_literal(l.subrange(1, l.len() - 1)) == s
                &&& closed_string_literal(l.subrange(1, l.len() - 1))
            },
            Json::Object(t) => {
                let l = sql_literal(j);
                &&& l.len() >= 2 && l[0] == '\'' && l.last() == '\''
                &&& read_string_literal(l.subrange(1, l.len() - 1)) == t
                &&& closed_string_literal(l.subrange(1, l.len() - 1))
            },
            Json::Number(t) => sql_literal(j) == t,
            Json::Null => sql_literal(j) == seq!['N', 'U', 'L', 'L'],
            Json::Bool(b) => sql_literal(j) == (if b {
                seq!['1']
            } else {
                seq!['0']
            }),
            Json::Array(_) => {
                let l = sql_literal(j);
                &&& l.len() >= 2 && l[0] == '[' && l.last() == ']'
            },
        },
{
    reveal_strlit("NULL");
    reveal_strlit("1");
    reveal_strlit("0");
    reveal_strlit("[");
    reveal_strlit("]");
    match j {
        Json::Str(s) => {
            let l = sql_literal(j);
            assert(l.subrange(1, l.len() - 1) =~= escaped_string(s));
            lemma_string_literal_round_trip(s);
        },
        Json::Object(t) => {
            let l = sql_literal(j);
            assert(l.subrange(1, l.len() - 1) =~= escaped_string(t));
            lemma_string_literal_round_trip(t);
        },
        Json::Array(items) => {
            let l = sql_literal(j);
            assert(l == "["@ + list_literal(items) + "]"@);
            assert(l[0] == '[');
            assert(l.last() == ']');
        },
        _ => {
            assert(seq!['N', 'U', 'L', 'L'] =~= "NULL"@);
            assert(seq!['1'] =~= "1"@);
            assert(seq!['0'] =~= "0"@);
        },
    }
}

/// The SQL literals of `items`, separated by `, `.
pub open spec fn list_literal(items: Seq<Json>) -> Seq<char>
    decreases items,
{
    if items.len() == 0 {
        seq![]
    } else if items.len() == 1 {
        sql_literal(items[0])
    } else {
        list_literal(items.drop_last()) + ", "@ + sql_literal(items.last())
    }
}

/// `s` as a quoted, escaped SQL string literal.
pub fn quote_string(s: &str) -> (r: String)
    ensures
        r@ == quoted_string(s@),
{
    let mut r = String::from_str("'");
    let e = escape_string(s);
    r.append(e.as_str());
    r.append("'");
    proof {
        reveal_strlit("'");
    }
    assert(r@ =~= quoted_string(s@));
    r
}

/// Writes a JSON value as an SQL literal.
pub fn format_value_for_sql(val: &JsonValue) -> (r: String)
    ensures
        r@ == sql_literal(val@),
    decreases val,
{
    match val {
        JsonValue::Null => String::from_str("NULL"),
        JsonValue::Bool(b) => {
            if *b {
                String::from_str("1")
            } else {
                String::from_str("0")
            }
        },
        JsonValue::Number(n) => n.clone(),
        JsonValue::String(s) => quote_string(s.as_str()),
        JsonValue::Array(items) => {
            let mut r = String::from_str("[");
            let mut i: usize = 0;
            proof {
                assert(items@.take(0) =~= Seq::<JsonValue>::empty());
            }
            while i < items.len()
                invariant
                    *val == JsonValue::Array(*items),
                    i <= items.len(),
                    r@ == "["@ + list_literal(models(items@.take(i as int))),
                decreases items.len() - i,
            {
                proof {
                    lemma_models_take(items@, i as int);
                    lemma_models(items@.take(i as int));
                    assert(decreases_to!(*items => items[i as int]));
                    assert(decreases_to!(*val => (*val)->Array_0));
                    assert(decreases_to!(*val => items[i as int]));
                }
                let item = format_value_for_sql(&items[i]);
                let ghost prev = models(items@.take(i as int));
                let ghost next = models(items@.take(i + 1));
                assert(next.drop_last() =~= prev);
                if i > 0 {
                    r.append(", ");
                }
                r.append(item.as_str());
                proof {
                    if i == 0 {
                        assert(next =~= seq![items@[0]@]);
                    }
                    assert(r@ =~= "["@ + list_literal(next));
                }
                i = i + 1;
            }
            r.append("]");
            proof {
                assert(items@.take(items.len() as int) =~= items@);
            }
            r
        },
        JsonValue::Object(t) => quote_string(t.as_str()),
    }
}

impl JsonValue {
    /// The text of a JSON string, if this is one (serde_json's `as_str`).
    pub fn as_text(&self) -> (r: Option<&String>)
        ensures
            r matches Some(s) ==> self@ == Json::Str(s@),
            r is None ==> !(self@ is Str),
    {
        match self {
            JsonValue::String(s) => Some(s),
            _ => None,
        }
    }

    /// Whether this is the JSON number 1.
    pub fn is_number_one(&self) -> (r: bool)
        ensures
            r == (self@ == Json::Number("1"@)),
    {
        match self {
            JsonValue::Number(t) => same_text(t.as_str(), "1"),
            _ => false,
        }
    }

    /// A copy of this value.
    pub fn duplicate(&self) -> (r: JsonValue)
        ensures
            r@ == self@,
        decreases self,
    {
        match self {
            JsonValue::Null => JsonValue::Null,
            JsonValue::Bool(b) => JsonValue::Bool(*b),
            JsonValue::Number(t) => JsonValue::Number(t.clone()),
            JsonValue::String(s) => JsonValue::String(s.clone()),
            JsonValue::Array(items) => {
                let mut out: Vec<JsonValue> = Vec::new();
                let mut i: usize = 0;
                while i < items.len()
                    invariant
                        *self == JsonValue::Array(*items),
                        i <= items.len(),
                        out.len() == i,
                        forall|k: int| 0 <= k < i ==> #[trigger] out@[k]@ == items@[k]@,
                    decreases items.len() - i,
                {
                    proof {
                        assert(decreases_to!(*items => items[i as int]));
                        assert(decreases_to!(*self => (*self)->Array_0));
                        assert(decreases_to!(*self => items[i as int]));
                    }
                    let item = items[i].duplicate();
                    out.push(item);
                    i = i + 1;
                }
                proof {
                    lemma_models(out@);
                    lemma_models(items@);
                    assert(models(out@) =~= models(items@));
                }
                JsonValue::Array(out)
            },
            JsonValue::Object(t) => JsonValue::Object(t.clone()),
        }
    }
}

} // verus!
