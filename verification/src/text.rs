//! Character-level helpers shared by the parsers and renderers of the crate.
//!
//! Every string is modelled by its view, a `Seq<char>`.
use vstd::prelude::*;

verus! {

/// The Unicode `White_Space` property.
pub open spec fn is_white_space(c: char) -> bool {
    let u = c as u32;
    ||| (0x09 <= u && u <= 0x0d)
    ||| u == 0x20
    ||| u == 0x85
    ||| u == 0xa0
    ||| u == 0x1680
    ||| (0x2000 <= u && u <= 0x200a)
    ||| u == 0x2028
    ||| u == 0x2029
    ||| u == 0x202f
    ||| u == 0x205f
    ||| u == 0x3000
}

/// Decides the Unicode `White_Space` property of a character.
pub fn char_is_white_space(c: char) -> (r: bool)
    ensures
        r == is_white_space(c),
{
    let u = c as u32;
    (0x09 <= u && u <= 0x0d) || u == 0x20 || u == 0x85 || u == 0xa0 || u == 0x1680 || (0x2000
        <= u && u <= 0x200a) || u == 0x2028 || u == 0x2029 || u == 0x202f || u == 0x205f || u
        == 0x3000
}

/// `s` without its leading white space.
pub open spec fn trim_start(s: Seq<char>) -> Seq<char>
    decreases s.len(),
{
    if s.len() > 0 && is_white_space(s[0]) {
        trim_start(s.drop_first())
    } else {
        s
    }
}

/// `s` without its trailing white space.
pub open spec fn trim_end(s: Seq<char>) -> Seq<char>
    decreases s.len(),
{
    if s.len() > 0 && is_white_space(s.last()) {
        trim_end(s.drop_last())
    } else {
        s
    }
}

/// `s` without leading and trailing white space.
pub open spec fn trim(s: Seq<char>) -> Seq<char> {
    trim_end(trim_start(s))
}

/// `pat` occurs in `t` at position `i`.
pub open spec fn occurs_at(t: Seq<char>, pat: Seq<char>, i: int) -> bool {
    0 <= i && i + pat.len() <= t.len() && t.subrange(i, i + pat.len()) == pat
}

/// The first position at or after `i` where `pat` occurs in `t`.
pub open spec fn first_at(t: Seq<char>, pat: Seq<char>, i: int) -> Option<int>
    decreases t.len() - i,
{
    if i < 0 || i + pat.len() > t.len() {
        None
    } else if t.subrange(i, i + pat.len()) == pat {
        Some(i)
    } else if i >= t.len() {
        None
    } else {
        first_at(t, pat, i + 1)
    }
}

/// `t` contains `pat` somewhere.
pub open spec fn contains(t: Seq<char>, pat: Seq<char>) -> bool {
    exists|i: int| occurs_at(t, pat, i)
}

/// ASCII lower-casing of one character; other characters are unchanged.
pub open spec fn ascii_lower(c: char) -> char {
    if 'A' <= c && c <= 'Z' {
        ((c as u32) + 32) as char
    } else {
        c
    }
}

/// ASCII lower-casing of a string.
pub open spec fn ascii_lowercase(s: Seq<char>) -> Seq<char> {
    s.map_values(|c: char| ascii_lower(c))
}

/// The decimal digit for `d < 10`.
pub open spec fn digit(d: nat) -> char {
    ((d + 48) as u32) as char
}

/// The decimal rendering of a natural number, without leading zeros.
pub open spec fn decimal(n: nat) -> Seq<char>
    decreases n,
{
    if n < 10 {
        seq![digit(n)]
    } else {
        decimal(n / 10).push(digit(n % 10))
    }
}

/// The decimal rendering of an integer, with a leading `-` when negative.
pub open spec fn signed_decimal(n: int) -> Seq<char> {
    if n < 0 {
        seq!['-'] + decimal((-n) as nat)
    } else {
        decimal(n as nat)
    }
}

/// Appends one character to a string (`String::push`).
#[verifier::external_body]
pub fn push_char(s: &mut String, c: char)
    ensures
        final(s)@ == old(s)@.push(c),
{
    s.push(c);
}

/// The characters of a string, in order.
pub fn chars_of(s: &str) -> (v: Vec<char>)
    ensures
        v@ == s@,
{
    let mut v: Vec<char> = Vec::new();
    for c in it: s.chars()
        invariant
            v@ == it.seq().take(it.index() as int),
    {
        v.push(c);
    }
    v
}

/// The string made of `t[lo..hi]`.
pub fn string_from(t: &Vec<char>, lo: usize, hi: usize) -> (r: String)
    requires
        lo <= hi <= t@.len(),
    ensures
        r@ == t@.subrange(lo as int, hi as int),
{
    let mut r = String::new();
    let mut i = lo;
    while i < hi
        invariant
            lo <= i <= hi <= t@.len(),
            r@ == t@.subrange(lo as int, i as int),
        decreases hi - i,
    {
        push_char(&mut r, t[i]);
        assert(t@.subrange(lo as int, i + 1) =~= t@.subrange(lo as int, i as int).push(t@[i as int]));
        i = i + 1;
    }
    r
}

/// Appends `t[lo..hi]` to `s`.
pub fn push_range(s: &mut String, t: &Vec<char>, lo: usize, hi: usize)
    requires
        lo <= hi <= t@.len(),
    ensures
        final(s)@ == old(s)@ + t@.subrange(lo as int, hi as int),
{
    let mut i = lo;
    while i < hi
        invariant
            lo <= i <= hi <= t@.len(),
            s@ == old(s)@ + t@.subrange(lo as int, i as int),
        decreases hi - i,
    {
        push_char(s, t[i]);
        assert(t@.subrange(lo as int, i + 1) =~= t@.subrange(lo as int, i as int).push(t@[i as int]));
        i = i + 1;
    }
}

/// Appends a string to another.
pub fn push_str(s: &mut String, other: &str)
    ensures
        final(s)@ == old(s)@ + other@,
{
    s.append(other);
}

/// The same string, as a new `String`.
pub fn owned(s: &str) -> (r: String)
    ensures
        r@ == s@,
{
    String::from_str(s)
}

/// Whether two strings are equal.
pub fn text_eq(a: &str, b: &str) -> (r: bool)
    ensures
        r == (a@ == b@),
{
    let x = String::from_str(a);
    let y = String::from_str(b);
    x == y
}

/// Whether `pat` occurs in `t` at position `i`.
pub fn matches_at(t: &Vec<char>, pat: &Vec<char>, i: usize) -> (r: bool)
    ensures
        r == occurs_at(t@, pat@, i as int),
{
    if pat.len() > t.len() || i > t.len() - pat.len() {
        return false;
    }
    let mut k: usize = 0;
    while k < pat.len()
        invariant
            i + pat.len() <= t.len(),
            k <= pat@.len(),
            forall|j: int| 0 <= j < k ==> t@[i + j] == pat@[j],
        decreases pat@.len() - k,
    {
        assert(i + k < t.len());
        if t[i + k] != pat[k] {
            assert(t@.subrange(i as int, i + pat@.len())[k as int] != pat@[k as int]);
            return false;
        }
        k = k + 1;
    }
    assert(t@.subrange(i as int, i + pat@.len()) =~= pat@);
    true
}

/// The first position at or after `i` where `pat` occurs in `t`.
pub fn find_from(t: &Vec<char>, pat: &Vec<char>, i: usize) -> (r: Option<usize>)
    ensures
        match r {
            Some(p) => first_at(t@, pat@, i as int) == Some(p as int),
            None => first_at(t@, pat@, i as int) is None,
        },
{
    if pat.len() > t.len() || i > t.len() - pat.len() {
        return None;
    }
    let last = t.len() - pat.len();
    let mut j = i;
    while j <= last
        invariant
            i <= j,
            last == t@.len() - pat@.len(),
            first_at(t@, pat@, i as int) == first_at(t@, pat@, j as int),
        decreases last + 1 - j,
    {
        if matches_at(t, pat, j) {
            return Some(j);
        }
        if j == last {
            if pat.len() == 0 {
                assert(t@.subrange(j as int, j as int) =~= pat@);
            } else {
                assert(first_at(t@, pat@, j + 1) is None);
            }
            return None;
        }
        j = j + 1;
    }
    None
}

/// Lemma: the occurrence found by `first_at` is an occurrence, and none
/// lies between the starting point and it.
pub proof fn lemma_first_at(t: Seq<char>, pat: Seq<char>, i: int)
    requires
        0 <= i,
    ensures
        match first_at(t, pat, i) {
            Some(p) => i <= p && occurs_at(t, pat, p) && forall|q: int|
                i <= q < p ==> !occurs_at(t, pat, q),
            None => forall|q: int| i <= q ==> !occurs_at(t, pat, q),
        },
    decreases t.len() - i,
{
    if i + pat.len() > t.len() {
    } else if t.subrange(i, i + pat.len()) == pat {
    } else if i >= t.len() {
        assert(t.subrange(i, i + pat.len()) =~= pat);
    } else {
        lemma_first_at(t, pat, i + 1);
    }
}

/// The bounds `(a, b)` of `t[lo..hi]` with white space removed at both ends.
pub fn trim_bounds(t: &Vec<char>, lo: usize, hi: usize) -> (r: (usize, usize))
    requires
        lo <= hi <= t@.len(),
    ensures
        lo <= r.0 <= r.1 <= hi,
        t@.subrange(r.0 as int, r.1 as int) == trim(t@.subrange(lo as int, hi as int)),
{
    let mut a = lo;
    while a < hi && char_is_white_space(t[a])
        invariant
            lo <= a <= hi <= t@.len(),
            trim_start(t@.subrange(lo as int, hi as int)) == trim_start(
                t@.subrange(a as int, hi as int),
            ),
        decreases hi - a,
    {
        assert(t@.subrange(a as int, hi as int).drop_first() =~= t@.subrange(a + 1, hi as int));
        a = a + 1;
    }
    assert(trim_start(t@.subrange(a as int, hi as int)) == t@.subrange(a as int, hi as int));
    let mut b = hi;
    while b > a && char_is_white_space(t[b - 1])
        invariant
            lo <= a <= b <= hi <= t@.len(),
            trim_end(t@.subrange(a as int, hi as int)) == trim_end(t@.subrange(a as int, b as int)),
        decreases b - a,
    {
        assert(t@.subrange(a as int, b as int).drop_last() =~= t@.subrange(a as int, b - 1));
        b = b - 1;
    }
    (a, b)
}

/// `s` trimmed of white space at both ends.
pub fn trimmed(s: &str) -> (r: String)
    ensures
        r@ == trim(s@),
{
    let t = chars_of(s);
    let (a, b) = trim_bounds(&t, 0, t.len());
    assert(t@.subrange(0, t@.len() as int) =~= t@);
    string_from(&t, a, b)
}

/// ASCII lower-casing of a string.
pub fn to_ascii_lowercase(s: &str) -> (r: String)
    ensures
        r@ == ascii_lowercase(s@),
{
    let t = chars_of(s);
    let mut r = String::new();
    let mut i: usize = 0;
    while i < t.len()
        invariant
            i <= t@.len(),
            t@ == s@,
            r@ == ascii_lowercase(t@.take(i as int)),
        decreases t@.len() - i,
    {
        let c = t[i];
        let l = if 'A' <= c && c <= 'Z' {
            let u = (c as u32) + 32;
            char_from_ascii(u)
        } else {
            c
        };
        push_char(&mut r, l);
        assert(ascii_lowercase(t@.take(i + 1)) =~= ascii_lowercase(t@.take(i as int)).push(
            ascii_lower(t@[i as int]),
        ));
        i = i + 1;
    }
    assert(t@.take(t@.len() as int) =~= t@);
    r
}

/// The character with a given ASCII code.
fn char_from_ascii(u: u32) -> (c: char)
    requires
        u < 128,
    ensures
        c == u as char,
{
    let b = u as u8;
    b as char
}

/// Appends the decimal rendering of `n`.
pub fn push_decimal(s: &mut String, n: u64)
    ensures
        final(s)@ == old(s)@ + decimal(n as nat),
    decreases n,
{
    if n >= 10 {
        push_decimal(s, n / 10);
    }
    let d = (n % 10) as u32;
    push_char(s, char_from_ascii(d + 48));
    assert(decimal(n as nat) == if n < 10 {
        seq![digit(n as nat)]
    } else {
        decimal((n / 10) as nat).push(digit((n % 10) as nat))
    });
}

/// Appends the decimal rendering of `n`, with a leading `-` when negative.
pub fn push_signed_decimal(s: &mut String, n: i64)
    requires
        n > i64::MIN,
    ensures
        final(s)@ == old(s)@ + signed_decimal(n as int),
{
    if n < 0 {
        push_char(s, '-');
        let m = (-n) as u64;
        push_decimal(s, m);
        assert(s@ =~= old(s)@ + (seq!['-'] + decimal((-n) as nat)));
    } else {
        push_decimal(s, n as u64);
    }
}

/// Lexicographic order of strings by character code, which is the order of
/// their UTF-8 bytes.
pub open spec fn text_lt(a: Seq<char>, b: Seq<char>) -> bool
    decreases a.len(),
{
    if a.len() == 0 {
        b.len() > 0
    } else if b.len() == 0 {
        false
    } else if a[0] != b[0] {
        a[0] < b[0]
    } else {
        text_lt(a.drop_first(), b.drop_first())
    }
}

/// No string precedes itself.
pub proof fn lemma_text_lt_irreflexive(a: Seq<char>)
    ensures
        !text_lt(a, a),
    decreases a.len(),
{
    if a.len() > 0 {
        lemma_text_lt_irreflexive(a.drop_first());
    }
}

/// Of two different strings, one precedes the other.
pub proof fn lemma_text_lt_total(a: Seq<char>, b: Seq<char>)
    ensures
        a == b || text_lt(a, b) || text_lt(b, a),
    decreases a.len(),
{
    if a.len() > 0 && b.len() > 0 && a[0] == b[0] {
        lemma_text_lt_total(a.drop_first(), b.drop_first());
        if a.drop_first() == b.drop_first() {
            assert(a =~= seq![a[0]] + a.drop_first());
            assert(b =~= seq![b[0]] + b.drop_first());
        }
    } else if a.len() == 0 && b.len() == 0 {
        assert(a =~= b);
    } else if a.len() > 0 && b.len() > 0 {
        assert(a[0] != b[0]);
    }
}

/// The order is transitive.
pub proof fn lemma_text_lt_transitive(a: Seq<char>, b: Seq<char>, c: Seq<char>)
    requires
        text_lt(a, b),
        text_lt(b, c),
    ensures
        text_lt(a, c),
    decreases a.len(),
{
    if a.len() > 0 && b.len() > 0 && c.len() > 0 && a[0] == b[0] && b[0] == c[0] {
        lemma_text_lt_transitive(a.drop_first(), b.drop_first(), c.drop_first());
    }
}

/// The order is asymmetric.
pub proof fn lemma_text_lt_asymmetric(a: Seq<char>, b: Seq<char>)
    requires
        text_lt(a, b),
    ensures
        !text_lt(b, a),
{
    if text_lt(b, a) {
        lemma_text_lt_transitive(a, b, a);
        lemma_text_lt_irreflexive(a);
    }
}

/// Law: a text precedes every longer text that begins with it (so the
/// empty text precedes every other), and never follows it.
pub proof fn lemma_text_lt_prefix(a: Seq<char>, s: Seq<char>)
    requires
        s.len() > 0,
    ensures
        text_lt(a, a + s),
        !text_lt(a + s, a),
    decreases a.len(),
{
    if a.len() > 0 {
        assert((a + s)[0] == a[0]);
        assert((a + s).drop_first() =~= a.drop_first() + s);
        lemma_text_lt_prefix(a.drop_first(), s);
    }
}

/// Law: of two texts that agree up to some position and then differ, the
/// one with the smaller character there comes first, whatever follows.
pub proof fn lemma_text_lt_first_difference(
    p: Seq<char>,
    c: char,
    d: char,
    x: Seq<char>,
    y: Seq<char>,
)
    requires
        c < d,
    ensures
        text_lt(p + seq![c] + x, p + seq![d] + y),
        !text_lt(p + seq![d] + y, p + seq![c] + x),
    decreases p.len(),
{
    let a = p + seq![c] + x;
    let b = p + seq![d] + y;
    if p.len() == 0 {
        assert(a[0] == c);
        assert(b[0] == d);
    } else {
        assert(a[0] == p[0]);
        assert(b[0] == p[0]);
        assert(a.drop_first() =~= p.drop_first() + seq![c] + x);
        assert(b.drop_first() =~= p.drop_first() + seq![d] + y);
        lemma_text_lt_first_difference(p.drop_first(), c, d, x, y);
    }
}

/// How two strings compare.
#[derive(Debug, Clone, Copy, PartialEq, Eq, Structural)]
pub enum TextOrder {
    Less,
    Equal,
    Greater,
}

/// Compares two strings lexicographically.
pub fn compare_text(a: &str, b: &str) -> (r: TextOrder)
    ensures
        r == TextOrder::Less <==> text_lt(a@, b@),
        r == TextOrder::Equal <==> a@ == b@,
        r == TextOrder::Greater <==> text_lt(b@, a@),
{
    let x = chars_of(a);
    let y = chars_of(b);
    let mut i: usize = 0;
    assert(x@.skip(0) =~= x@);
    assert(y@.skip(0) =~= y@);
    while i < x.len() && i < y.len() && x[i] == y[i]
        invariant
            i <= x@.len(),
            i <= y@.len(),
            x@.take(i as int) == y@.take(i as int),
            text_lt(x@, y@) == text_lt(x@.skip(i as int), y@.skip(i as int)),
            text_lt(y@, x@) == text_lt(y@.skip(i as int), x@.skip(i as int)),
        decreases x@.len() - i,
    {
        assert(x@.skip(i as int).drop_first() =~= x@.skip(i + 1));
        assert(y@.skip(i as int).drop_first() =~= y@.skip(i + 1));
        assert(x@.take(i + 1) =~= x@.take(i as int).push(x@[i as int]));
        assert(y@.take(i + 1) =~= y@.take(i as int).push(y@[i as int]));
        i = i + 1;
    }
    proof {
        lemma_text_lt_total(x@, y@);
        lemma_text_lt_irreflexive(x@);
        if text_lt(x@, y@) {
            lemma_text_lt_asymmetric(x@, y@);
        }
    }
    if i == x.len() && i == y.len() {
        assert(x@ =~= x@.take(i as int));
        assert(y@ =~= y@.take(i as int));
        TextOrder::Equal
    } else if i == x.len() {
        assert(x@.skip(i as int).len() == 0);
        assert(x@ != y@);
        TextOrder::Less
    } else if i == y.len() {
        assert(y@.skip(i as int).len() == 0);
        assert(x@ != y@);
        TextOrder::Greater
    } else if x[i] < y[i] {
        assert(x@.skip(i as int)[0] == x@[i as int]);
        assert(y@.skip(i as int)[0] == y@[i as int]);
        TextOrder::Less
    } else {
        assert(x@.skip(i as int)[0] == x@[i as int]);
        assert(y@.skip(i as int)[0] == y@[i as int]);
        TextOrder::Greater
    }
}

/// The first position of `c` in `s`.
pub open spec fn char_index(s: Seq<char>, c: char) -> Option<int>
    decreases s.len(),
{
    if s.len() == 0 {
        None
    } else if s[0] == c {
        Some(0)
    } else {
        match char_index(s.drop_first(), c) {
            Some(i) => Some(i + 1),
            None => None,
        }
    }
}

/// The first position of `c` in `s` is where `c` occurs, and earlier
/// positions hold other characters.
pub proof fn lemma_char_index(s: Seq<char>, c: char)
    ensures
        match char_index(s, c) {
            Some(i) => 0 <= i < s.len() && s[i] == c && forall|j: int| 0 <= j < i ==> s[j] != c,
            None => forall|j: int| 0 <= j < s.len() ==> s[j] != c,
        },
    decreases s.len(),
{
    if s.len() > 0 && s[0] != c {
        lemma_char_index(s.drop_first(), c);
        match char_index(s.drop_first(), c) {
            Some(i) => {
                assert forall|j: int| 0 <= j < i + 1 implies s[j] != c by {
                    if j > 0 {
                        assert(s[j] == s.drop_first()[j - 1]);
                    }
                }
            },
            None => {
                assert forall|j: int| 0 <= j < s.len() implies s[j] != c by {
                    if j > 0 {
                        assert(s[j] == s.drop_first()[j - 1]);
                    }
                }
            },
        }
    }
}


/// `c` first occurs in `s` at `i` when it is there and nowhere before.
pub proof fn lemma_char_index_at(s: Seq<char>, c: char, i: int)
    requires
        0 <= i < s.len(),
        s[i] == c,
        forall|j: int| 0 <= j < i ==> s[j] != c,
    ensures
        char_index(s, c) == Some(i),
    decreases i,
{
    if i > 0 {
        assert forall|j: int| 0 <= j < i - 1 implies s.drop_first()[j] != c by {
            assert(s.drop_first()[j] == s[j + 1]);
        }
        lemma_char_index_at(s.drop_first(), c, i - 1);
    }
}

/// Trimming never lengthens a string.
pub proof fn lemma_trim_shortens(s: Seq<char>)
    ensures
        trim_start(s).len() <= s.len(),
        trim_end(s).len() <= s.len(),
    decreases s.len(),
{
    if s.len() > 0 {
        lemma_trim_shortens(s.drop_first());
        lemma_trim_shortens(s.drop_last());
    }
}

/// A non-empty string is its own trimming exactly when it neither starts nor
/// ends with white space.
pub proof fn lemma_trimmed_ends(s: Seq<char>)
    requires
        s.len() > 0,
    ensures
        trim(s) == s <==> (!is_white_space(s[0]) && !is_white_space(s.last())),
{
    lemma_trim_shortens(s);
    lemma_trim_shortens(s.drop_first());
    lemma_trim_shortens(trim_start(s));
    if !is_white_space(s[0]) {
        assert(trim_start(s) == s);
        lemma_trim_shortens(s.drop_last());
    }
}

} // verus!
