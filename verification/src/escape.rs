//! Escaping of values for ClickHouse SQL: string literals in single quotes,
//! identifiers in backticks.

use vstd::prelude::*;
use crate::text::{chars_of, push_char};

verus! {

/// How one character appears inside a single-quoted string literal: a
/// backslash and a single quote are each preceded by a backslash.
pub open spec fn escaped_string_char(c: char) -> Seq<char> {
    if c == '\\' {
        seq!['\\', '\\']
    } else if c == '\'' {
        seq!['\\', '\'']
    } else {
        seq![c]
    }
}

/// `s` escaped for a single-quoted string literal, character by character.
pub open spec fn escaped_string(s: Seq<char>) -> Seq<char>
    decreases s.len(),
{
    if s.len() == 0 {
        seq![]
    } else {
        escaped_string_char(s[0]) + escaped_string(s.drop_first())
    }
}

/// How one character appears inside a backtick-quoted identifier: a backtick
/// is doubled.
pub open spec fn escaped_identifier_char(c: char) -> Seq<char> {
    if c == '`' {
        seq!['`', '`']
    } else {
        seq![c]
    }
}

/// `s` escaped for a backtick-quoted identifier, character by character.
pub open spec fn escaped_identifier(s: Seq<char>) -> Seq<char>
    decreases s.len(),
{
    if s.len() == 0 {
        seq![]
    } else {
        escaped_identifier_char(s[0]) + escaped_identifier(s.drop_first())
    }
}

proof fn lemma_escaped_string_push(s: Seq<char>, c: char)
    ensures
        escaped_string(s.push(c)) == escaped_string(s) + escaped_string_char(c),
    decreases s.len(),
{
    if s.len() == 0 {
        assert(s.push(c).drop_first() =~= Seq::<char>::empty());
        assert(escaped_string(Seq::<char>::empty()) =~= Seq::<char>::empty());
        assert(escaped_string(s.push(c)) =~= escaped_string(s) + escaped_string_char(c));
    } else {
        assert(s.push(c).drop_first() =~= s.drop_first().push(c));
        lemma_escaped_string_push(s.drop_first(), c);
        assert(escaped_string(s.push(c)) =~= escaped_string(s) + escaped_string_char(c));
    }
}

proof fn lemma_escaped_identifier_push(s: Seq<char>, c: char)
    ensures
        escaped_identifier(s.push(c)) == escaped_identifier(s) + escaped_identifier_char(c),
    decreases s.len(),
{
    if s.len() == 0 {
        assert(s.push(c).drop_first() =~= Seq::<char>::empty());
        assert(escaped_identifier(Seq::<char>::empty()) =~= Seq::<char>::empty());
        assert(escaped_identifier(s.push(c)) =~= escaped_identifier(s) + escaped_identifier_char(
            c,
        ));
    } else {
        assert(s.push(c).drop_first() =~= s.drop_first().push(c));
        lemma_escaped_identifier_push(s.drop_first(), c);
        assert(escaped_identifier(s.push(c)) =~= escaped_identifier(s) + escaped_identifier_char(
            c,
        ));
    }
}

/// Escapes `s` for use between single quotes: every `\` becomes `\\` and every
/// `'` becomes `\'`; all other characters stay.
pub fn escape_string(s: &str) -> (r: String)
    ensures
        r@ == escaped_string(s@),
{
    let v = chars_of(s);
    let mut r = String::new();
    let mut i: usize = 0;
    assert(v@.take(0) =~= Seq::<char>::empty());
    assert(escaped_string(Seq::<char>::empty()) =~= Seq::<char>::empty());
    while i < v.len()
        invariant
            v@ == s@,
            i <= v.len(),
            r@ == escaped_string(v@.take(i as int)),
        decreases v.len() - i,
    {
        let c = v[i];
        proof {
            assert(v@.take(i + 1) =~= v@.take(i as int).push(c));
            lemma_escaped_string_push(v@.take(i as int), c);
        }
        if c == '\\' {
            push_char(&mut r, '\\');
            push_char(&mut r, '\\');
        } else if c == '\'' {
            push_char(&mut r, '\\');
            push_char(&mut r, '\'');
        } else {
            push_char(&mut r, c);
        }
        assert(r@ =~= escaped_string(v@.take(i + 1)));
        i = i + 1;
    }
    assert(v@.take(v.len() as int) =~= v@);
    r
}

/// Escapes `s` for use between backticks: every `` ` `` is doubled; all other
/// characters stay.
pub fn escape_identifier(s: &str) -> (r: String)
    ensures
        r@ == escaped_identifier(s@),
{
    let v = chars_of(s);
    let mut r = String::new();
    let mut i: usize = 0;
    assert(v@.take(0) =~= Seq::<char>::empty());
    assert(escaped_identifier(Seq::<char>::empty()) =~= Seq::<char>::empty());
    while i < v.len()
        invariant
            v@ == s@,
            i <= v.len(),
            r@ == escaped_identifier(v@.take(i as int)),
        decreases v.len() - i,
    {
        let c = v[i];
        proof {
            assert(v@.take(i + 1) =~= v@.take(i as int).push(c));
            lemma_escaped_identifier_push(v@.take(i as int), c);
        }
        if c == '`' {
            push_char(&mut r, '`');
            push_char(&mut r, '`');
        } else {
            push_char(&mut r, c);
        }
        assert(r@ =~= escaped_identifier(v@.take(i + 1)));
        i = i + 1;
    }
    assert(v@.take(v.len() as int) =~= v@);
    r
}

/// How ClickHouse reads the body of a single-quoted literal: a backslash takes
/// the next character as it is.
pub open spec fn read_string_literal(t: Seq<char>) -> Seq<char>
    decreases t.len(),
{
    if t.len() == 0 {
        seq![]
    } else if t[0] == '\\' && t.len() >= 2 {
        seq![t[1]] + read_string_literal(t.skip(2))
    } else {
        seq![t[0]] + read_string_literal(t.skip(1))
    }
}

/// `t` can stand between single quotes without ending the literal early: each
/// quote is taken by a backslash before it, and no backslash is left dangling.
pub open spec fn closed_string_literal(t: Seq<char>) -> bool
    decreases t.len(),
{
    if t.len() == 0 {
        true
    } else if t[0] == '\\' {
        t.len() >= 2 && closed_string_literal(t.skip(2))
    } else {
        t[0] != '\'' && closed_string_literal(t.skip(1))
    }
}

/// How ClickHouse reads the body of a backtick-quoted identifier: a doubled
/// backtick stands for one.
pub open spec fn read_identifier(t: Seq<char>) -> Seq<char>
    decreases t.len(),
{
    if t.len() == 0 {
        seq![]
    } else if t[0] == '`' && t.len() >= 2 && t[1] == '`' {
        seq!['`'] + read_identifier(t.skip(2))
    } else {
        seq![t[0]] + read_identifier(t.skip(1))
    }
}

/// `t` can stand between backticks without ending the identifier early: its
/// backticks come in pairs.
pub open spec fn closed_identifier(t: Seq<char>) -> bool
    decreases t.len(),
{
    if t.len() == 0 {
        true
    } else if t[0] == '`' {
        t.len() >= 2 && t[1] == '`' && closed_identifier(t.skip(2))
    } else {
        closed_identifier(t.skip(1))
    }
}

/// An escaped string, put between single quotes, reads back as the text it
/// was made from, and the literal ends at the closing quote.
pub proof fn lemma_string_literal_round_trip(s: Seq<char>)
    ensures
        read_string_literal(escaped_string(s)) == s,
        closed_string_literal(escaped_string(s)),
    decreases s.len(),
{
    if s.len() == 0 {
        assert(escaped_string(s) =~= Seq::<char>::empty());
    } else {
        let rest = escaped_string(s.drop_first());
        lemma_string_literal_round_trip(s.drop_first());
        let t = escaped_string(s);
        let c = s[0];
        if c == '\\' || c == '\'' {
            assert(t =~= seq!['\\', c] + rest);
            assert(t.skip(2) =~= rest);
        } else {
            assert(t =~= seq![c] + rest);
            assert(t.skip(1) =~= rest);
        }
        assert(read_string_literal(t) =~= s);
    }
}

/// An escaped identifier, put between backticks, reads back as the name it
/// was made from, and the identifier ends at the closing backtick.
pub proof fn lemma_identifier_round_trip(s: Seq<char>)
    ensures
        read_identifier(escaped_identifier(s)) == s,
        closed_identifier(escaped_identifier(s)),
    decreases s.len(),
{
    if s.len() == 0 {
        assert(escaped_identifier(s) =~= Seq::<char>::empty());
    } else {
        let rest = escaped_identifier(s.drop_first());
        lemma_identifier_round_trip(s.drop_first());
        let t = escaped_identifier(s);
        let c = s[0];
        if c == '`' {
            assert(t =~= seq!['`', '`'] + rest);
            assert(t.skip(2) =~= rest);
        } else {
            assert(t =~= seq![c] + rest);
            assert(t.skip(1) =~= rest);
        }
        assert(read_identifier(t) =~= s);
    }
}

/// Escaping is injective: two texts that escape alike are the same text.
pub proof fn lemma_escape_injective(a: Seq<char>, b: Seq<char>)
    ensures
        escaped_string(a) == escaped_string(b) ==> a == b,
        escaped_identifier(a) == escaped_identifier(b) ==> a == b,
{
    lemma_string_literal_round_trip(a);
    lemma_string_literal_round_trip(b);
    lemma_identifier_round_trip(a);
    lemma_identifier_round_trip(b);
}

} // verus!
