//! Character-level helpers on which the SQL text builders rest: whitespace
//! trimming, prefix and substring search, decimal rendering, line splitting.

use vstd::prelude::*;

verus! {

/// Appends one character to a string (std `String::push`).
#[verifier::external_body]
pub(crate) fn push_char(s: &mut String, c: char)
    ensures
        final(s)@ == old(s)@.push(c),
{
    s.push(c);
}

/// The characters of a string slice, in order.
pub fn chars_of(s: &str) -> (r: Vec<char>)
    ensures
        r@ == s@,
{
    let mut r: Vec<char> = Vec::new();
    for c in it: s.chars()
        invariant
            r@ == it.seq().take(it.index()),
            it.seq() == s@,
    {
        r.push(c);
    }
    r
}

/// The string made of `s[lo..hi]`.
pub fn string_from_range(s: &Vec<char>, lo: usize, hi: usize) -> (r: String)
    requires
        lo <= hi <= s.len(),
    ensures
        r@ == s@.subrange(lo as int, hi as int),
{
    let mut r = String::new();
    let mut i = lo;
    while i < hi
        invariant
            lo <= i <= hi <= s.len(),
            r@ == s@.subrange(lo as int, i as int),
        decreases hi - i,
    {
        push_char(&mut r, s[i]);
        assert(s@.subrange(lo as int, i + 1) =~= s@.subrange(lo as int, i as int).push(s@[i as int]));
        i = i + 1;
    }
    r
}

/// The string made of all of `s`.
pub fn string_from_chars(s: &Vec<char>) -> (r: String)
    ensures
        r@ == s@,
{
    let r = string_from_range(s, 0, s.len());
    assert(s@.subrange(0, s@.len() as int) =~= s@);
    r
}

/// Whether two string slices hold the same characters.
pub fn same_text(a: &str, b: &str) -> (r: bool)
    ensures
        r == (a@ == b@),
{
    let x = chars_of(a);
    let y = chars_of(b);
    if x.len() != y.len() {
        return false;
    }
    let mut i: usize = 0;
    while i < x.len()
        invariant
            x@ == a@,
            y@ == b@,
            x.len() == y.len(),
            i <= x.len(),
            forall|k: int| 0 <= k < i ==> x@[k] == y@[k],
        decreases x.len() - i,
    {
        if x[i] != y[i] {
            return false;
        }
        i = i + 1;
    }
    assert(x@ =~= y@);
    true
}

/// Unicode White_Space, the property that std's `char::is_whitespace` tests.
pub open spec fn is_ws(c: char) -> bool {
    let u = c as u32;
    ||| 0x09 <= u <= 0x0D
    ||| u == 0x20
    ||| u == 0x85
    ||| u == 0xA0
    ||| u == 0x1680
    ||| 0x2000 <= u <= 0x200A
    ||| u == 0x2028
    ||| u == 0x2029
    ||| u == 0x202F
    ||| u == 0x205F
    ||| u == 0x3000
}

/// Whether `c` is white space.
pub fn is_whitespace(c: char) -> (r: bool)
    ensures
        r == is_ws(c),
{
    let u = c as u32;
    (0x09 <= u && u <= 0x0D) || u == 0x20 || u == 0x85 || u == 0xA0 || u == 0x1680 || (0x2000
        <= u && u <= 0x200A) || u == 0x2028 || u == 0x2029 || u == 0x202F || u == 0x205F || u
        == 0x3000
}

/// `s` without its leading white space.
pub open spec fn trim_start(s: Seq<char>) -> Seq<char>
    decreases s.len(),
{
    if s.len() > 0 && is_ws(s[0]) {
        trim_start(s.drop_first())
    } else {
        s
    }
}

/// `s` without its trailing white space.
pub open spec fn trim_end(s: Seq<char>) -> Seq<char>
    decreases s.len(),
{
    if s.len() > 0 && is_ws(s.last()) {
        trim_end(s.drop_last())
    } else {
        s
    }
}

/// `s` without leading and trailing white space, as std's `str::trim` gives it.
pub open spec fn trimmed(s: Seq<char>) -> Seq<char> {
    trim_end(trim_start(s))
}

/// The bounds of the trimmed part of `s`.
pub fn trim_bounds(s: &Vec<char>) -> (r: (usize, usize))
    ensures
        r.0 <= r.1 <= s.len(),
        s@.subrange(r.0 as int, r.1 as int) == trimmed(s@),
{
    let n = s.len();
    let mut lo: usize = 0;
    assert(s@.subrange(0, n as int) =~= s@);
    while lo < n && is_whitespace(s[lo])
        invariant
            n == s.len(),
            lo <= n,
            trim_start(s@) == trim_start(s@.subrange(lo as int, n as int)),
        decreases n - lo,
    {
        assert(s@.subrange(lo as int, n as int).drop_first() =~= s@.subrange(lo + 1, n as int));
        lo = lo + 1;
    }
    let ghost t = s@.subrange(lo as int, n as int);
    assert(trim_start(s@) == t);
    let mut hi: usize = n;
    while hi > lo && is_whitespace(s[hi - 1])
        invariant
            n == s.len(),
            lo <= hi <= n,
            trim_start(s@) == t,
            t == s@.subrange(lo as int, n as int),
            trim_end(t) == trim_end(s@.subrange(lo as int, hi as int)),
        decreases hi - lo,
    {
        assert(s@.subrange(lo as int, hi as int).drop_last() =~= s@.subrange(
            lo as int,
            hi - 1,
        ));
        hi = hi - 1;
    }
    (lo, hi)
}

proof fn lemma_trim_start_shape(s: Seq<char>)
    ensures
        trim_start(s).len() == 0 || !is_ws(trim_start(s)[0]),
        trim_start(s).len() <= s.len(),
        trim_start(s) == s.subrange(s.len() - trim_start(s).len(), s.len() as int),
    decreases s.len(),
{
    if s.len() > 0 && is_ws(s[0]) {
        lemma_trim_start_shape(s.drop_first());
        let t = trim_start(s.drop_first());
        assert(s.drop_first().subrange(s.drop_first().len() - t.len(), s.drop_first().len() as int)
            =~= s.subrange(s.len() - t.len(), s.len() as int));
    } else {
        assert(s.subrange(0, s.len() as int) =~= s);
    }
}

proof fn lemma_trim_end_shape(s: Seq<char>)
    ensures
        trim_end(s).len() == 0 || !is_ws(trim_end(s).last()),
        trim_end(s).len() <= s.len(),
        trim_end(s) == s.subrange(0, trim_end(s).len() as int),
    decreases s.len(),
{
    if s.len() > 0 && is_ws(s.last()) {
        lemma_trim_end_shape(s.drop_last());
        let t = trim_end(s.drop_last());
        assert(s.drop_last().subrange(0, t.len() as int) =~= s.subrange(0, t.len() as int));
    } else {
        assert(s.subrange(0, s.len() as int) =~= s);
    }
}

/// Trimming twice trims no more than trimming once.
pub proof fn lemma_trim_idempotent(s: Seq<char>)
    ensures
        trimmed(trimmed(s)) == trimmed(s),
{
    let a = trim_start(s);
    let t = trim_end(a);
    lemma_trim_start_shape(s);
    lemma_trim_end_shape(a);
    // `t` is empty or starts and ends with a character that is not white space.
    if t.len() > 0 {
        assert(t[0] == a[0]);
        assert(trim_start(t) == t);
        lemma_trim_end_shape(t);
        assert(trim_end(t) == t);
    } else {
        assert(trim_start(t) == t);
        assert(trim_end(t) == t);
    }
}

/// Every character of `s` is white space.
pub open spec fn all_ws(s: Seq<char>) -> bool {
    forall|i: int| 0 <= i < s.len() ==> is_ws(#[trigger] s[i])
}

/// Trimming keeps only characters of the text, so ASCII text trims to ASCII.
pub proof fn lemma_trimmed_ascii(s: Seq<char>)
    requires
        is_ascii(s),
    ensures
        is_ascii(trimmed(s)),
{
    let a = trim_start(s);
    lemma_trim_start_shape(s);
    lemma_trim_end_shape(a);
    assert forall|i: int| 0 <= i < trimmed(s).len() implies (#[trigger] trimmed(s)[i] as u32)
        < 128 by {
        assert(trimmed(s)[i] == a[i]);
        assert(a[i] == s[s.len() - a.len() + i]);
    }
}

proof fn lemma_trim_start_of_ws(w: Seq<char>)
    requires
        all_ws(w),
    ensures
        trim_start(w) == Seq::<char>::empty(),
    decreases w.len(),
{
    if w.len() > 0 {
        assert(is_ws(w[0]));
        lemma_trim_start_of_ws(w.drop_first());
    } else {
        assert(w =~= Seq::<char>::empty());
    }
}

proof fn lemma_trim_start_skips_ws(w: Seq<char>, x: Seq<char>)
    requires
        all_ws(w),
    ensures
        trim_start(w + x) == trim_start(x),
    decreases w.len(),
{
    if w.len() > 0 {
        assert(is_ws(w[0]));
        assert((w + x)[0] == w[0]);
        assert((w + x).drop_first() =~= w.drop_first() + x);
        lemma_trim_start_skips_ws(w.drop_first(), x);
    } else {
        assert(w + x =~= x);
    }
}

proof fn lemma_trim_end_skips_ws(x: Seq<char>, w: Seq<char>)
    requires
        all_ws(w),
    ensures
        trim_end(x + w) == trim_end(x),
    decreases w.len(),
{
    if w.len() > 0 {
        assert(is_ws(w.last()));
        assert((x + w).last() == w.last());
        assert((x + w).drop_last() =~= x + w.drop_last());
        lemma_trim_end_skips_ws(x, w.drop_last());
    } else {
        assert(x + w =~= x);
    }
}

proof fn lemma_trim_start_append_ws(x: Seq<char>, w: Seq<char>)
    requires
        all_ws(w),
    ensures
        trim_start(x + w) == (if trim_start(x).len() > 0 {
            trim_start(x) + w
        } else {
            Seq::<char>::empty()
        }),
    decreases x.len(),
{
    if x.len() == 0 {
        assert(x + w =~= w);
        lemma_trim_start_of_ws(w);
    } else if is_ws(x[0]) {
        assert((x + w)[0] == x[0]);
        assert((x + w).drop_first() =~= x.drop_first() + w);
        lemma_trim_start_append_ws(x.drop_first(), w);
    } else {
        assert((x + w)[0] == x[0]);
    }
}

/// White space around a text does not change what it trims to.
pub proof fn lemma_trimmed_ignores_surrounding_ws(w1: Seq<char>, x: Seq<char>, w2: Seq<char>)
    requires
        all_ws(w1),
        all_ws(w2),
    ensures
        trimmed(w1 + x + w2) == trimmed(x),
{
    assert(w1 + x + w2 =~= w1 + (x + w2));
    lemma_trim_start_skips_ws(w1, x + w2);
    lemma_trim_start_append_ws(x, w2);
    if trim_start(x).len() > 0 {
        lemma_trim_end_skips_ws(trim_start(x), w2);
    } else {
        assert(trim_start(x) =~= Seq::<char>::empty());
    }
}

proof fn lemma_ascii_upper_keeps_ws(c: char)
    ensures
        is_ws(ascii_upper_char(c)) == is_ws(c),
{
}

/// Upper-casing ASCII letters and trimming can be done in either order.
pub proof fn lemma_trimmed_ascii_upper(x: Seq<char>)
    ensures
        trimmed(ascii_upper(x)) == ascii_upper(trimmed(x)),
{
    lemma_trim_start_ascii_upper(x);
    lemma_trim_end_ascii_upper(trim_start(x));
}

proof fn lemma_trim_start_ascii_upper(x: Seq<char>)
    ensures
        trim_start(ascii_upper(x)) == ascii_upper(trim_start(x)),
    decreases x.len(),
{
    if x.len() > 0 {
        lemma_ascii_upper_keeps_ws(x[0]);
        assert(ascii_upper(x)[0] == ascii_upper_char(x[0]));
        assert(ascii_upper(x).drop_first() =~= ascii_upper(x.drop_first()));
        lemma_trim_start_ascii_upper(x.drop_first());
    } else {
        assert(ascii_upper(x) =~= x);
    }
}

proof fn lemma_trim_end_ascii_upper(x: Seq<char>)
    ensures
        trim_end(ascii_upper(x)) == ascii_upper(trim_end(x)),
    decreases x.len(),
{
    if x.len() > 0 {
        lemma_ascii_upper_keeps_ws(x.last());
        assert(ascii_upper(x).last() == ascii_upper_char(x.last()));
        assert(ascii_upper(x).drop_last() =~= ascii_upper(x.drop_last()));
        lemma_trim_end_ascii_upper(x.drop_last());
    } else {
        assert(ascii_upper(x) =~= x);
    }
}

/// `s` with leading and trailing white space removed (std `str::trim`).
pub fn trim(s: &str) -> (r: String)
    ensures
        r@ == trimmed(s@),
{
    let v = chars_of(s);
    let (lo, hi) = trim_bounds(&v);
    string_from_range(&v, lo, hi)
}

/// Whether `s` is empty or white space only.
pub fn is_blank(s: &Vec<char>) -> (r: bool)
    ensures
        r == (trimmed(s@).len() == 0),
{
    let (lo, hi) = trim_bounds(s);
    lo == hi
}

/// `p` occurs in `s` at index `i`.
pub open spec fn matches_at(s: Seq<char>, p: Seq<char>, i: int) -> bool {
    0 <= i && i + p.len() <= s.len() && s.subrange(i, i + p.len()) == p
}

/// `s` begins with `p`.
pub open spec fn has_prefix(s: Seq<char>, p: Seq<char>) -> bool {
    matches_at(s, p, 0)
}

/// `p` occurs somewhere in `s`.
pub open spec fn has_substring(s: Seq<char>, p: Seq<char>) -> bool {
    exists|i: int| matches_at(s, p, i)
}

/// Whether `p` occurs in `s` at index `i`.
pub fn occurs_at(s: &Vec<char>, p: &Vec<char>, i: usize) -> (r: bool)
    ensures
        r == matches_at(s@, p@, i as int),
{
    if p.len() > s.len() || i > s.len() - p.len() {
        return false;
    }
    let mut k: usize = 0;
    while k < p.len()
        invariant
            i + p.len() <= s.len(),
            k <= p.len(),
            forall|j: int| 0 <= j < k ==> s@[i + j] == p@[j],
        decreases p.len() - k,
    {
        if s[i + k] != p[k] {
            assert(s@.subrange(i as int, i + p.len())[k as int] != p@[k as int]);
            return false;
        }
        k = k + 1;
    }
    assert(s@.subrange(i as int, i + p.len()) =~= p@);
    true
}

/// Whether `s` begins with `p`.
pub fn starts_with(s: &Vec<char>, p: &str) -> (r: bool)
    ensures
        r == has_prefix(s@, p@),
{
    let pv = chars_of(p);
    occurs_at(s, &pv, 0)
}

/// The index of the last occurrence of `p` in `s`, if any (std `str::rfind`,
/// counted in characters).
pub fn find_last(s: &Vec<char>, p: &Vec<char>) -> (r: Option<usize>)
    ensures
        r matches Some(i) ==> matches_at(s@, p@, i as int) && forall|j: int|
            i < j ==> !matches_at(s@, p@, j),
        r is None ==> forall|j: int| !matches_at(s@, p@, j),
{
    if p.len() > s.len() {
        return None;
    }
    let mut i: usize = s.len() - p.len();
    loop
        invariant
            p.len() <= s.len(),
            i <= s.len() - p.len(),
            forall|j: int| i < j ==> !matches_at(s@, p@, j),
        decreases i,
    {
        if occurs_at(s, p, i) {
            return Some(i);
        }
        if i == 0 {
            return None;
        }
        i = i - 1;
    }
}

/// Whether `p` occurs in `s` (std `str::contains`).
pub fn contains(s: &Vec<char>, p: &str) -> (r: bool)
    ensures
        r == has_substring(s@, p@),
{
    let pv = chars_of(p);
    match find_last(s, &pv) {
        Some(_) => true,
        None => false,
    }
}

/// The decimal digit character for `d < 10`.
pub open spec fn digit_char(d: int) -> char {
    if d == 0 {
        '0'
    } else if d == 1 {
        '1'
    } else if d == 2 {
        '2'
    } else if d == 3 {
        '3'
    } else if d == 4 {
        '4'
    } else if d == 5 {
        '5'
    } else if d == 6 {
        '6'
    } else if d == 7 {
        '7'
    } else if d == 8 {
        '8'
    } else {
        '9'
    }
}

/// The decimal rendering of `n`, without sign or leading zeros.
pub open spec fn decimal(n: nat) -> Seq<char>
    decreases n,
{
    if n < 10 {
        seq![digit_char(n as int)]
    } else {
        decimal(n / 10).push(digit_char((n % 10) as int))
    }
}

fn digit(d: u64) -> (c: char)
    requires
        d < 10,
    ensures
        c == digit_char(d as int),
{
    if d == 0 {
        '0'
    } else if d == 1 {
        '1'
    } else if d == 2 {
        '2'
    } else if d == 3 {
        '3'
    } else if d == 4 {
        '4'
    } else if d == 5 {
        '5'
    } else if d == 6 {
        '6'
    } else if d == 7 {
        '7'
    } else if d == 8 {
        '8'
    } else {
        '9'
    }
}

/// `n` in decimal, as `Display` renders an unsigned integer.
pub fn decimal_string(n: u64) -> (r: String)
    ensures
        r@ == decimal(n as nat),
    decreases n,
{
    if n < 10 {
        let mut r = String::new();
        push_char(&mut r, digit(n));
        r
    } else {
        let mut r = decimal_string(n / 10);
        push_char(&mut r, digit(n % 10));
        r
    }
}

/// `l` without one trailing carriage return.
pub open spec fn strip_cr(l: Seq<char>) -> Seq<char> {
    if l.len() > 0 && l.last() == '\r' {
        l.drop_last()
    } else {
        l
    }
}

/// The lines of `s` after the partial line `cur`, as std's `str::lines` splits
/// them: at each `\n`, with one `\r` before it dropped; no line after a final `\n`.
pub open spec fn lines_after(s: Seq<char>, cur: Seq<char>) -> Seq<Seq<char>>
    decreases s.len(),
{
    if s.len() == 0 {
        if cur.len() == 0 {
            seq![]
        } else {
            seq![cur]
        }
    } else if s[0] == '\n' {
        seq![strip_cr(cur)] + lines_after(s.drop_first(), seq![])
    } else {
        lines_after(s.drop_first(), cur.push(s[0]))
    }
}

/// The lines of `s` (std `str::lines`).
pub open spec fn text_lines(s: Seq<char>) -> Seq<Seq<char>> {
    lines_after(s, seq![])
}

/// The lines of `ls` that hold something besides white space, in order.
pub open spec fn non_blank(ls: Seq<Seq<char>>) -> Seq<Seq<char>>
    decreases ls.len(),
{
    if ls.len() == 0 {
        seq![]
    } else if trimmed(ls.last()).len() == 0 {
        non_blank(ls.drop_last())
    } else {
        non_blank(ls.drop_last()).push(ls.last())
    }
}

/// The views of a vector of strings.
pub open spec fn views(v: Seq<String>) -> Seq<Seq<char>> {
    v.map_values(|x: String| x@)
}

proof fn lemma_non_blank_concat(a: Seq<Seq<char>>, b: Seq<Seq<char>>)
    ensures
        non_blank(a + b) == non_blank(a) + non_blank(b),
    decreases b.len(),
{
    if b.len() == 0 {
        assert(a + b =~= a);
        assert(non_blank(b) =~= seq![]);
        assert(non_blank(a) + non_blank(b) =~= non_blank(a));
    } else {
        assert((a + b).drop_last() =~= a + b.drop_last());
        lemma_non_blank_concat(a, b.drop_last());
        if trimmed(b.last()).len() == 0 {
        } else {
            assert(non_blank(a) + non_blank(b.drop_last()).push(b.last()) =~= (non_blank(a)
                + non_blank(b.drop_last())).push(b.last()));
        }
    }
}

/// The non-blank lines of `s`, the ones a `JSONEachRow` body holds rows in:
/// every line of `s` whose trimmed text is not empty, untrimmed.
pub fn non_blank_lines(s: &str) -> (r: Vec<String>)
    ensures
        views(r@) == non_blank(text_lines(s@)),
{
    let v = chars_of(s);
    let n = v.len();
    let mut out: Vec<String> = Vec::new();
    let mut cur: Vec<char> = Vec::new();
    let ghost mut done: Seq<Seq<char>> = seq![];
    let mut i: usize = 0;
    assert(v@.skip(0) =~= v@);
    while i < n
        invariant
            n == v.len(),
            v@ == s@,
            i <= n,
            text_lines(s@) == done + lines_after(v@.skip(i as int), cur@),
            views(out@) == non_blank(done),
        decreases n - i,
    {
        let c = v[i];
        let ghost cur0 = cur@;
        let ghost out0 = views(out@);
        assert(v@.skip(i as int).drop_first() =~= v@.skip(i + 1));
        if c == '\n' {
            let ghost line = strip_cr(cur@);
            if cur.len() > 0 && cur[cur.len() - 1] == '\r' {
                cur.pop();
            }
            assert(cur@ == line);
            assert(seq![line] + lines_after(v@.skip(i + 1), seq![]) == lines_after(
                v@.skip(i as int),
                cur0,
            ));
            proof {
                assert(done + lines_after(v@.skip(i as int), cur0) =~= done.push(line)
                    + lines_after(v@.skip(i + 1), seq![]));
                assert(done.push(line).drop_last() =~= done);
            }
            if !is_blank(&cur) {
                let l = string_from_chars(&cur);
                out.push(l);
                assert(views(out@) =~= out0.push(line));
            }
            proof {
                done = done.push(line);
            }
            cur = Vec::new();
            assert(cur@ =~= Seq::<char>::empty());
        } else {
            cur.push(c);
        }
        i = i + 1;
    }
    assert(v@.skip(n as int) =~= Seq::<char>::empty());
    let ghost tail = lines_after(v@.skip(n as int), cur@);
    let ghost out0 = views(out@);
    let blank = is_blank(&cur);
    if !blank {
        let l = string_from_chars(&cur);
        out.push(l);
        assert(views(out@) =~= out0.push(cur@));
    }
    proof {
        lemma_non_blank_concat(done, tail);
        assert(non_blank(seq![]) =~= Seq::<Seq<char>>::empty());
        if cur@.len() == 0 {
            assert(tail =~= seq![]);
            assert(trimmed(cur@) =~= cur@);
            assert(non_blank(done) + non_blank(tail) =~= non_blank(done));
        } else {
            assert(tail =~= seq![cur@]);
            assert(tail.drop_last() =~= seq![]);
            if blank {
                assert(non_blank(tail) =~= Seq::<Seq<char>>::empty());
                assert(non_blank(done) + non_blank(tail) =~= non_blank(done));
            } else {
                assert(non_blank(tail) =~= seq![cur@]);
                assert(non_blank(done) + non_blank(tail) =~= non_blank(done).push(cur@));
            }
        }
    }
    out
}

/// What std's `String::from_utf8_lossy` makes of `bytes`: valid UTF-8 decoded,
/// each invalid sequence replaced by U+FFFD.
pub uninterp spec fn utf8_lossy(bytes: Seq<u8>) -> Seq<char>;

/// Decodes `bytes` as UTF-8, replacing invalid sequences (std
/// `String::from_utf8_lossy`). The contract claims that the result is the named
/// decoding of the bytes, and that valid UTF-8 decodes to the characters it encodes.
#[verifier::external_body]
fn decode_lossy(bytes: &[u8]) -> (r: String)
    ensures
        r@ == utf8_lossy(bytes@),
        vstd::utf8::valid_utf8(bytes@) ==> r@ == vstd::utf8::decode_utf8(bytes@),
{
    String::from_utf8_lossy(bytes).into_owned()
}

/// The text of a result body, decoded leniently.
pub fn result_text(bytes: &[u8]) -> (r: String)
    ensures
        r@ == utf8_lossy(bytes@),
        vstd::utf8::valid_utf8(bytes@) ==> r@ == vstd::utf8::decode_utf8(bytes@),
{
    decode_lossy(bytes)
}

/// The rows of a `JSONEachRow` result body: its non-blank lines, each to be
/// parsed as one JSON object.
pub fn result_lines(bytes: &[u8]) -> (r: Vec<String>)
    ensures
        views(r@) == non_blank(text_lines(utf8_lossy(bytes@))),
        vstd::utf8::valid_utf8(bytes@) ==> views(r@) == non_blank(
            text_lines(vstd::utf8::decode_utf8(bytes@)),
        ),
{
    let text = decode_lossy(bytes);
    non_blank_lines(text.as_str())
}

/// What std's `str::to_uppercase` makes of `s`: its Unicode upper-case mapping.
pub uninterp spec fn uppercase(s: Seq<char>) -> Seq<char>;

/// Every character of `s` is ASCII.
pub open spec fn is_ascii(s: Seq<char>) -> bool {
    forall|i: int| 0 <= i < s.len() ==> (#[trigger] s[i] as u32) < 128
}

/// The upper-case form of an ASCII character: `a` to `z` become `A` to `Z`.
pub open spec fn ascii_upper_char(c: char) -> char {
    if 97 <= (c as u32) <= 122 {
        ((c as u32) - 32) as char
    } else {
        c
    }
}

/// `s` with its ASCII letters in upper case.
pub open spec fn ascii_upper(s: Seq<char>) -> Seq<char> {
    s.map_values(|c: char| ascii_upper_char(c))
}

/// The upper-case form of `s` (std `str::to_uppercase`). The contract claims
/// that the result is the named upper-case mapping of the text, a function of
/// the text alone, and that on ASCII text the mapping turns `a` to `z` into
/// `A` to `Z` and keeps every other character, as Unicode's mapping does there.
#[verifier::external_body]
pub(crate) fn to_upper(s: &str) -> (r: String)
    ensures
        r@ == uppercase(s@),
        is_ascii(s@) ==> r@ == ascii_upper(s@),
{
    s.to_uppercase()
}

} // verus!
