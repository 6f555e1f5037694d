//! Character-level string helpers with exact specifications.
use vstd::prelude::*;

verus! {

/// The characters of `s`, in order.
pub fn chars_of(s: &str) -> (r: Vec<char>)
    ensures
        r@ == s@,
{
    let mut r: Vec<char> = Vec::new();
    for c in it: s.chars()
        invariant
            it.seq() == s@,
            r@ == it.seq().take(it.index()),
    {
        r.push(c);
    }
    r
}

/// `String::from_iter` over a slice of characters: the string made of exactly these characters.
#[verifier::external_body]
pub(crate) fn string_from_chars(v: &[char]) -> (s: String)
    ensures
        s@ == v@,
{
    String::from_iter(v.iter())
}

/// A new string holding the characters of `s`.
pub fn owned(s: &str) -> (r: String)
    ensures
        r@ == s@,
{
    String::from_str(s)
}

/// `a` followed by `b`.
pub fn concat2(a: &str, b: &str) -> (r: String)
    ensures
        r@ == a@ + b@,
{
    let mut r = String::from_str(a);
    r.append(b);
    r
}

/// `a`, `b` and `c` one after the other.
pub fn concat3(a: &str, b: &str, c: &str) -> (r: String)
    ensures
        r@ == a@ + b@ + c@,
{
    let mut r = String::from_str(a);
    r.append(b);
    r.append(c);
    r
}

/// Whether two strings hold the same characters.
pub fn str_eq(a: &str, b: &str) -> (r: bool)
    ensures
        r == (a@ == b@),
{
    let va = chars_of(a);
    let vb = chars_of(b);
    if va.len() != vb.len() {
        return false;
    }
    let mut i: usize = 0;
    while i < va.len()
        invariant
            va@ == a@,
            vb@ == b@,
            va.len() == vb.len(),
            i <= va.len(),
            forall|j: int| 0 <= j < i ==> va@[j] == vb@[j],
        decreases va.len() - i,
    {
        if va[i] != vb[i] {
            return false;
        }
        i = i + 1;
    }
    assert(va@ =~= vb@);
    true
}

// ---------------------------------------------------------------- whitespace

/// Unicode `White_Space`, the property that `char::is_whitespace` tests.
pub open spec fn is_ws(c: char) -> bool {
    ||| '\u{09}' <= c <= '\u{0d}'
    ||| c == ' '
    ||| c == '\u{85}'
    ||| c == '\u{a0}'
    ||| c == '\u{1680}'
    ||| '\u{2000}' <= c <= '\u{200a}'
    ||| c == '\u{2028}'
    ||| c == '\u{2029}'
    ||| c == '\u{202f}'
    ||| c == '\u{205f}'
    ||| c == '\u{3000}'
}

/// Whether `c` is Unicode white space.
pub fn is_whitespace(c: char) -> (b: bool)
    ensures
        b == is_ws(c),
{
    ('\u{09}' <= c && c <= '\u{0d}') || c == ' ' || c == '\u{85}' || c == '\u{a0}' || c
        == '\u{1680}' || ('\u{2000}' <= c && c <= '\u{200a}') || c == '\u{2028}' || c
        == '\u{2029}' || c == '\u{202f}' || c == '\u{205f}' || c == '\u{3000}'
}

/// Drops the leading characters for which `p` holds.
pub open spec fn trim_front_by(s: Seq<char>, p: spec_fn(char) -> bool) -> Seq<char>
    decreases s.len(),
{
    if s.len() > 0 && p(s[0]) {
        trim_front_by(s.drop_first(), p)
    } else {
        s
    }
}

/// Drops the trailing characters for which `p` holds.
pub open spec fn trim_back_by(s: Seq<char>, p: spec_fn(char) -> bool) -> Seq<char>
    decreases s.len(),
{
    if s.len() > 0 && p(s.last()) {
        trim_back_by(s.drop_last(), p)
    } else {
        s
    }
}

/// Drops leading and trailing characters for which `p` holds.
pub open spec fn trim_by(s: Seq<char>, p: spec_fn(char) -> bool) -> Seq<char> {
    trim_back_by(trim_front_by(s, p), p)
}

/// `str::trim`: no leading or trailing white space.
pub open spec fn trim_ws(s: Seq<char>) -> Seq<char> {
    trim_by(s, ws_pred())
}

/// The white-space predicate as a value.
pub open spec fn ws_pred() -> spec_fn(char) -> bool {
    |c: char| is_ws(c)
}

/// The predicate "is `ch`" as a value.
pub open spec fn eq_pred(ch: char) -> spec_fn(char) -> bool {
    |c: char| c == ch
}

/// `str::trim_matches(ch)`.
pub open spec fn trim_char(s: Seq<char>, ch: char) -> Seq<char> {
    trim_by(s, eq_pred(ch))
}

/// `str::trim_end_matches(ch)`.
pub open spec fn trim_end_char(s: Seq<char>, ch: char) -> Seq<char> {
    trim_back_by(s, eq_pred(ch))
}

proof fn lemma_trim_front_skip(s: Seq<char>, p: spec_fn(char) -> bool, i: int)
    requires
        0 <= i < s.len(),
        p(s[i]),
    ensures
        trim_front_by(s.subrange(i, s.len() as int), p) == trim_front_by(
            s.subrange(i + 1, s.len() as int),
            p,
        ),
{
    assert(s.subrange(i, s.len() as int).drop_first() =~= s.subrange(i + 1, s.len() as int));
}

proof fn lemma_trim_back_skip(s: Seq<char>, p: spec_fn(char) -> bool, j: int)
    requires
        0 < j <= s.len(),
        p(s[j - 1]),
    ensures
        trim_back_by(s.subrange(0, j), p) == trim_back_by(s.subrange(0, j - 1), p),
{
    assert(s.subrange(0, j).drop_last() =~= s.subrange(0, j - 1));
}

fn trims(c: char, ws: bool, ch: char) -> (r: bool)
    ensures
        r == (if ws {
            is_ws(c)
        } else {
            c == ch
        }),
{
    if ws {
        is_whitespace(c)
    } else {
        c == ch
    }
}

/// Index range `[a, b)` of `v` that `trim_by` keeps, for the predicate that `ws`/`ch` select.
fn trim_range(v: &Vec<char>, ws: bool, ch: char) -> (r: (usize, usize))
    ensures
        r.0 <= r.1 <= v.len(),
        ws ==> v@.subrange(r.0 as int, r.1 as int) == trim_ws(v@),
        !ws ==> v@.subrange(r.0 as int, r.1 as int) == trim_char(v@, ch),
{
    let ghost p: spec_fn(char) -> bool = if ws {
        ws_pred()
    } else {
        eq_pred(ch)
    };
    let mut a: usize = 0;
    assert(v@.subrange(0, v@.len() as int) =~= v@);
    while a < v.len() && trims(v[a], ws, ch)
        invariant
            a <= v.len(),
            trim_front_by(v@, p) == trim_front_by(v@.subrange(a as int, v@.len() as int), p),
            p == (if ws {
                ws_pred()
            } else {
                eq_pred(ch)
            }),
        decreases v.len() - a,
    {
        proof {
            lemma_trim_front_skip(v@, p, a as int);
        }
        a = a + 1;
    }
    let ghost front = v@.subrange(a as int, v@.len() as int);
    assert(trim_front_by(front, p) == front);
    let mut b: usize = v.len();
    assert(front.subrange(0, front.len() as int) =~= front);
    while b > a && trims(v[b - 1], ws, ch)
        invariant
            a <= b <= v.len(),
            front == v@.subrange(a as int, v@.len() as int),
            trim_back_by(front, p) == trim_back_by(front.subrange(0, b - a), p),
            p == (if ws {
                ws_pred()
            } else {
                eq_pred(ch)
            }),
        decreases b,
    {
        proof {
            lemma_trim_back_skip(front, p, (b - a) as int);
        }
        b = b - 1;
    }
    let ghost kept = front.subrange(0, b - a);
    assert(kept =~= v@.subrange(a as int, b as int));
    assert(trim_back_by(kept, p) == kept);
    (a, b)
}

/// `str::trim`.
pub fn trim(s: &str) -> (r: String)
    ensures
        r@ == trim_ws(s@),
{
    let v = chars_of(s);
    let (a, b) = trim_range(&v, true, ' ');
    string_from_chars(vstd::slice::slice_subrange(v.as_slice(), a, b))
}

/// `str::trim_matches(ch)` for a single character.
pub fn trim_matches(s: &str, ch: char) -> (r: String)
    ensures
        r@ == trim_char(s@, ch),
{
    let v = chars_of(s);
    let (a, b) = trim_range(&v, false, ch);
    string_from_chars(vstd::slice::slice_subrange(v.as_slice(), a, b))
}

/// `str::trim_end_matches(ch)` for a single character.
pub fn trim_end_matches(s: &str, ch: char) -> (r: String)
    ensures
        r@ == trim_end_char(s@, ch),
{
    let v = chars_of(s);
    let ghost p: spec_fn(char) -> bool = eq_pred(ch);
    let mut b: usize = v.len();
    assert(v@.subrange(0, v@.len() as int) =~= v@);
    while b > 0 && v[b - 1] == ch
        invariant
            b <= v.len(),
            trim_back_by(v@, p) == trim_back_by(v@.subrange(0, b as int), p),
            p == eq_pred(ch),
        decreases b,
    {
        proof {
            lemma_trim_back_skip(v@, p, b as int);
        }
        b = b - 1;
    }
    string_from_chars(vstd::slice::slice_subrange(v.as_slice(), 0, b))
}

/// Whether `c` occurs in `s`.
pub fn contains_char(s: &str, c: char) -> (r: bool)
    ensures
        r == s@.contains(c),
{
    let v = chars_of(s);
    let mut i: usize = 0;
    while i < v.len()
        invariant
            v@ == s@,
            i <= v.len(),
            forall|j: int| 0 <= j < i ==> v@[j] != c,
        decreases v.len() - i,
    {
        if v[i] == c {
            assert(s@[i as int] == c);
            return true;
        }
        i = i + 1;
    }
    false
}

/// `s` with `prefix` removed, when `s` starts with it.
pub open spec fn strip_prefix_spec(s: Seq<char>, prefix: Seq<char>) -> Option<Seq<char>> {
    if prefix.len() <= s.len() && s.subrange(0, prefix.len() as int) == prefix {
        Some(s.subrange(prefix.len() as int, s.len() as int))
    } else {
        None
    }
}

/// `str::strip_prefix`.
pub fn strip_prefix(s: &str, prefix: &str) -> (r: Option<String>)
    ensures
        match r {
            Some(t) => strip_prefix_spec(s@, prefix@) == Some(t@),
            None => strip_prefix_spec(s@, prefix@) is None,
        },
{
    let v = chars_of(s);
    let p = chars_of(prefix);
    if p.len() > v.len() {
        return None;
    }
    let mut i: usize = 0;
    while i < p.len()
        invariant
            v@ == s@,
            p@ == prefix@,
            p.len() <= v.len(),
            i <= p.len(),
            forall|j: int| 0 <= j < i ==> v@[j] == p@[j],
        decreases p.len() - i,
    {
        if v[i] != p[i] {
            assert(s@.subrange(0, prefix@.len() as int)[i as int] != prefix@[i as int]);
            return None;
        }
        i = i + 1;
    }
    assert(s@.subrange(0, prefix@.len() as int) =~= prefix@);
    Some(string_from_chars(vstd::slice::slice_subrange(v.as_slice(), p.len(), v.len())))
}

/// ASCII lower-casing of one character (`char::to_ascii_lowercase`).
pub open spec fn ascii_lower(c: char) -> char {
    if 'A' <= c <= 'Z' {
        ((c as u32) + 32) as char
    } else {
        c
    }
}

/// `str::to_ascii_lowercase`.
pub open spec fn ascii_lower_seq(s: Seq<char>) -> Seq<char> {
    s.map_values(|c: char| ascii_lower(c))
}

/// `str::to_ascii_lowercase`.
pub fn to_ascii_lowercase(s: &str) -> (r: String)
    ensures
        r@ == ascii_lower_seq(s@),
{
    let v = chars_of(s);
    let mut out: Vec<char> = Vec::new();
    let mut i: usize = 0;
    while i < v.len()
        invariant
            v@ == s@,
            i <= v.len(),
            out@ == ascii_lower_seq(v@.take(i as int)),
        decreases v.len() - i,
    {
        let c = v[i];
        let l = char_to_ascii_lowercase(c);
        out.push(l);
        assert(v@.take(i + 1) =~= v@.take(i as int).push(c));
        assert(ascii_lower_seq(v@.take(i + 1)) =~= ascii_lower_seq(v@.take(i as int)).push(
            ascii_lower(c),
        ));
        i = i + 1;
    }
    assert(v@.take(v@.len() as int) =~= v@);
    string_from_chars(out.as_slice())
}

/// `char::to_ascii_lowercase`: `A`..=`Z` become `a`..=`z`; every other character is unchanged.
fn char_to_ascii_lowercase(c: char) -> (r: char)
    ensures
        r == ascii_lower(c),
{
    if 'A' <= c && c <= 'Z' {
        ((c as u8) + 32) as char
    } else {
        c
    }
}

/// The text that `{:?}` prints for a string (quoted, with escapes).
pub uninterp spec fn debug_text(s: Seq<char>) -> Seq<char>;

/// `format!("{s:?}")` for a string: its `Debug` text.
#[verifier::external_body]
pub(crate) fn debug_str(s: &str) -> (r: String)
    ensures
        r@ == debug_text(s@),
{
    format!("{s:?}")
}

/// What `str::to_lowercase` returns (full Unicode lower-casing).
pub uninterp spec fn unicode_lower(s: Seq<char>) -> Seq<char>;

/// `str::to_lowercase`.
#[verifier::external_body]
pub(crate) fn to_lowercase(s: &str) -> (r: String)
    ensures
        r@ == unicode_lower(s@),
{
    s.to_lowercase()
}

// ---------------------------------------------------------------- decimal text

/// The ASCII digit for `d < 10`.
pub open spec fn digit_char(d: nat) -> char {
    (48 + d) as char
}

/// Decimal representation of a natural number, no leading zeros.
pub open spec fn dec_text(n: nat) -> Seq<char>
    decreases n,
{
    if n < 10 {
        seq![digit_char(n)]
    } else {
        dec_text(n / 10).push(digit_char(n % 10))
    }
}

/// Decimal representation of an integer, `-` in front of negatives.
pub open spec fn int_text(i: int) -> Seq<char> {
    if i < 0 {
        seq!['-'] + dec_text((-i) as nat)
    } else {
        dec_text(i as nat)
    }
}

fn digit(d: u128) -> (c: char)
    requires
        d < 10,
    ensures
        c == digit_char(d as nat),
{
    if d == 0 { '0' }
    else if d == 1 { '1' }
    else if d == 2 { '2' }
    else if d == 3 { '3' }
    else if d == 4 { '4' }
    else if d == 5 { '5' }
    else if d == 6 { '6' }
    else if d == 7 { '7' }
    else if d == 8 { '8' }
    else { '9' }
}

/// Decimal text of `n` (`u128::to_string`).
pub fn u128_text(n: u128) -> (s: String)
    ensures
        s@ == dec_text(n as nat),
{
    let mut m: u128 = n;
    let mut suffix: Vec<char> = Vec::new();
    while m >= 10
        invariant
            dec_text(n as nat) == dec_text(m as nat) + suffix@,
        decreases m,
    {
        let d = digit(m % 10);
        let ghost old_suffix = suffix@;
        suffix.insert(0, d);
        assert(dec_text(m as nat) == dec_text((m / 10) as nat).push(digit_char((m % 10) as nat)));
        assert(dec_text((m / 10) as nat).push(d) + old_suffix =~= dec_text((m / 10) as nat)
            + suffix@);
        m = m / 10;
    }
    let d = digit(m);
    suffix.insert(0, d);
    string_from_chars(suffix.as_slice())
}

/// Decimal text of `n` (`u64::to_string`).
pub fn u64_text(n: u64) -> (s: String)
    ensures
        s@ == dec_text(n as nat),
{
    u128_text(n as u128)
}

/// Decimal text of `i` (`i64::to_string`).
pub fn i64_text(i: i64) -> (s: String)
    ensures
        s@ == int_text(i as int),
{
    if i < 0 {
        let mag: u128 = (0i128 - (i as i128)) as u128;
        let t = u128_text(mag);
        proof {
            reveal_strlit("-");
        }
        concat2("-", t.as_str())
    } else {
        u128_text(i as u128)
    }
}

// ---------------------------------------------------------------- order

/// Three-way comparison result.
#[derive(PartialEq, Eq, Structural, Clone, Copy, Debug)]
pub enum Order3 {
    Less,
    Equal,
    Greater,
}

/// Code-point lexicographic order on character sequences (the order of `String`'s `Ord`).
pub open spec fn lex_lt(a: Seq<char>, b: Seq<char>) -> bool
    decreases a.len(),
{
    if a.len() == 0 {
        b.len() > 0
    } else if b.len() == 0 {
        false
    } else if a[0] == b[0] {
        lex_lt(a.drop_first(), b.drop_first())
    } else {
        a[0] < b[0]
    }
}

/// The three-way comparison that `lex_lt` induces.
pub open spec fn lex_order(a: Seq<char>, b: Seq<char>) -> Order3 {
    if a == b {
        Order3::Equal
    } else if lex_lt(a, b) {
        Order3::Less
    } else {
        Order3::Greater
    }
}

pub proof fn lemma_lex_irreflexive(a: Seq<char>)
    ensures
        !lex_lt(a, a),
    decreases a.len(),
{
    if a.len() > 0 {
        lemma_lex_irreflexive(a.drop_first());
    }
}

pub proof fn lemma_lex_total(a: Seq<char>, b: Seq<char>)
    ensures
        a == b || lex_lt(a, b) || lex_lt(b, a),
    decreases a.len(),
{
    if a.len() > 0 && b.len() > 0 && a[0] == b[0] {
        lemma_lex_total(a.drop_first(), b.drop_first());
        if a.drop_first() == b.drop_first() {
            assert(a =~= seq![a[0]] + a.drop_first());
            assert(b =~= seq![b[0]] + b.drop_first());
        }
    }
}

pub proof fn lemma_lex_asymmetric(a: Seq<char>, b: Seq<char>)
    ensures
        !(lex_lt(a, b) && lex_lt(b, a)),
    decreases a.len(),
{
    if a.len() > 0 && b.len() > 0 && a[0] == b[0] {
        lemma_lex_asymmetric(a.drop_first(), b.drop_first());
    }
}

pub proof fn lemma_lex_transitive(a: Seq<char>, b: Seq<char>, c: Seq<char>)
    requires
        lex_lt(a, b),
        lex_lt(b, c),
    ensures
        lex_lt(a, c),
    decreases a.len(),
{
    if a.len() > 0 && b.len() > 0 && c.len() > 0 && a[0] == b[0] && b[0] == c[0] {
        lemma_lex_transitive(a.drop_first(), b.drop_first(), c.drop_first());
    }
}

/// Lexicographic comparison of character sequences.
pub fn lex_order_chars(a: &Vec<char>, b: &Vec<char>) -> (r: Order3)
    ensures
        r == lex_order(a@, b@),
{
    let mut i: usize = 0;
    assert(a@.skip(0) =~= a@);
    assert(b@.skip(0) =~= b@);
    while i < a.len() && i < b.len() && a[i] == b[i]
        invariant
            i <= a.len(),
            i <= b.len(),
            a@.take(i as int) == b@.take(i as int),
            lex_order(a@, b@) == lex_order(a@.skip(i as int), b@.skip(i as int)),
        decreases a.len() - i,
    {
        proof {
            lemma_lex_order_step(a@, b@, i as int);
        }
        i = i + 1;
    }
    let ghost sa = a@.skip(i as int);
    let ghost sb = b@.skip(i as int);
    if i == a.len() && i == b.len() {
        assert(sa =~= Seq::<char>::empty());
        assert(sb =~= Seq::<char>::empty());
        Order3::Equal
    } else if i == a.len() {
        assert(sa.len() == 0);
        Order3::Less
    } else if i == b.len() {
        assert(sb.len() == 0);
        assert(sa.len() > 0);
        assert(sa != sb);
        Order3::Greater
    } else {
        assert(sa[0] == a@[i as int]);
        assert(sb[0] == b@[i as int]);
        assert(sa != sb);
        if a[i] < b[i] {
            Order3::Less
        } else {
            Order3::Greater
        }
    }
}

proof fn lemma_lex_order_step(a: Seq<char>, b: Seq<char>, i: int)
    requires
        0 <= i < a.len(),
        i < b.len(),
        a[i] == b[i],
        a.take(i) == b.take(i),
    ensures
        a.take(i + 1) == b.take(i + 1),
        lex_order(a.skip(i), b.skip(i)) == lex_order(a.skip(i + 1), b.skip(i + 1)),
{
    assert(a.take(i + 1) =~= a.take(i).push(a[i]));
    assert(b.take(i + 1) =~= b.take(i).push(b[i]));
    let sa = a.skip(i);
    let sb = b.skip(i);
    assert(sa.drop_first() =~= a.skip(i + 1));
    assert(sb.drop_first() =~= b.skip(i + 1));
    assert(sa[0] == sb[0]);
    if sa == sb {
        assert(a.skip(i + 1) == b.skip(i + 1));
    }
    if a.skip(i + 1) == b.skip(i + 1) {
        assert(sa =~= seq![sa[0]] + sa.drop_first());
        assert(sb =~= seq![sb[0]] + sb.drop_first());
    }
}

/// Lexicographic comparison of two strings (`String`'s `Ord`).
pub fn lex_order_str(a: &str, b: &str) -> (r: Order3)
    ensures
        r == lex_order(a@, b@),
{
    let va = chars_of(a);
    let vb = chars_of(b);
    lex_order_chars(&va, &vb)
}

/// Number of UTF-8 bytes of a character sequence.
pub open spec fn utf8_len(s: Seq<char>) -> nat {
    vstd::utf8::encode_utf8(s).len()
}

/// Each character takes one to four UTF-8 bytes.
pub proof fn lemma_utf8_len_bounds(s: Seq<char>)
    ensures
        s.len() <= utf8_len(s) <= 4 * s.len(),
    decreases s.len(),
{
    if s.len() > 0 {
        lemma_utf8_len_bounds(s.drop_first());
        let e = vstd::utf8::encode_scalar(s[0] as u32);
        assert(1 <= e.len() <= 4);
    }
}

/// The characters of each string.
pub open spec fn texts(v: Seq<String>) -> Seq<Seq<char>> {
    v.map_values(|x: String| x@)
}

} // verus!
