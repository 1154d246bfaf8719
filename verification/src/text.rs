//! Character-level text helpers shared by the backends: digit handling,
//! decimal rendering, splitting, prefix tests and an ordering of strings
//! that agrees with `str`'s own (code-point lexicographic) order.
use vstd::prelude::*;

verus! {

// ---------------------------------------------------------------------------
// Specifications
// ---------------------------------------------------------------------------
pub open spec fn is_ascii_digit(c: char) -> bool {
    '0' <= c && c <= '9'
}

pub open spec fn all_digits(s: Seq<char>) -> bool {
    forall|i: int| 0 <= i < s.len() ==> is_ascii_digit(#[trigger] s[i])
}

pub open spec fn digit_value(c: char) -> nat {
    (c as int - '0' as int) as nat
}

/// The number that a run of decimal digits denotes (leading zeros allowed).
pub open spec fn digits_value(s: Seq<char>) -> nat
    decreases s.len(),
{
    if s.len() == 0 {
        0
    } else {
        digits_value(s.drop_last()) * 10 + digit_value(s.last())
    }
}

pub open spec fn digit_char(d: nat) -> char {
    ('0' as int + d) as char
}

/// Shortest decimal rendering of `n`, as `{}` formats an unsigned integer.
pub open spec fn decimal(n: nat) -> Seq<char>
    decreases n,
{
    if n < 10 {
        seq![digit_char(n)]
    } else {
        decimal(n / 10).push(digit_char(n % 10))
    }
}

/// What `str::parse::<u32>` gives: an optional `+`, then one or more ASCII
/// digits whose value fits in a `u32`.
pub open spec fn spec_parse_u32(s: Seq<char>) -> Option<u32> {
    let body = if s.len() > 0 && s[0] == '+' {
        s.skip(1)
    } else {
        s
    };
    if body.len() == 0 || !all_digits(body) || digits_value(body) > u32::MAX {
        None
    } else {
        Some(digits_value(body) as u32)
    }
}

/// `str::split(sep)`, read left to right: every separator closes a piece,
/// so there is always one more piece than separators.
pub open spec fn split_on(s: Seq<char>, sep: char) -> Seq<Seq<char>>
    decreases s.len(),
{
    if s.len() == 0 {
        seq![Seq::<char>::empty()]
    } else {
        let prev = split_on(s.drop_last(), sep);
        if s.last() == sep {
            prev.push(Seq::<char>::empty())
        } else {
            prev.update(prev.len() - 1, prev.last().push(s.last()))
        }
    }
}

/// The pieces joined back with the separator between them (`join`).
pub open spec fn join_with(parts: Seq<Seq<char>>, sep: char) -> Seq<char>
    decreases parts.len(),
{
    if parts.len() == 0 {
        Seq::empty()
    } else if parts.len() == 1 {
        parts[0]
    } else {
        join_with(parts.drop_last(), sep) + seq![sep] + parts.last()
    }
}

/// `s` with every occurrence of `c` removed (`str::replace(c, "")`).
pub open spec fn remove_char(s: Seq<char>, c: char) -> Seq<char>
    decreases s.len(),
{
    if s.len() == 0 {
        s
    } else if s.last() == c {
        remove_char(s.drop_last(), c)
    } else {
        remove_char(s.drop_last(), c).push(s.last())
    }
}

pub open spec fn has_prefix(s: Seq<char>, p: Seq<char>) -> bool {
    p.len() <= s.len() && s.take(p.len() as int) == p
}

pub open spec fn has_suffix(s: Seq<char>, p: Seq<char>) -> bool {
    p.len() <= s.len() && s.skip(s.len() - p.len()) == p
}

/// Index of the first occurrence of `c` in `s`, if any.
pub open spec fn find_char(s: Seq<char>, c: char) -> Option<int>
    decreases s.len(),
{
    if s.len() == 0 {
        None
    } else if s[0] == c {
        Some(0)
    } else {
        match find_char(s.drop_first(), c) {
            Some(i) => Some(i + 1),
            None => None,
        }
    }
}

/// Lexicographic order on code points, which is the order of `str` (UTF-8
/// preserves code-point order byte by byte).
pub open spec fn seq_lt(a: Seq<char>, b: Seq<char>) -> bool
    decreases a.len(),
{
    if a.len() == 0 {
        b.len() > 0
    } else if b.len() == 0 {
        false
    } else if a[0] != b[0] {
        a[0] < b[0]
    } else {
        seq_lt(a.drop_first(), b.drop_first())
    }
}

/// Strictly increasing in [`seq_lt`]: sorted and free of repeats.
pub open spec fn strictly_sorted(s: Seq<Seq<char>>) -> bool {
    forall|i: int, j: int| 0 <= i < j < s.len() ==> seq_lt(#[trigger] s[i], #[trigger] s[j])
}

pub open spec fn char_vec_views(v: Seq<Vec<char>>) -> Seq<Seq<char>> {
    v.map_values(|x: Vec<char>| x@)
}

pub open spec fn string_views(v: Seq<String>) -> Seq<Seq<char>> {
    v.map_values(|s: String| s@)
}

/// `char::is_whitespace`: the Unicode `White_Space` characters.
pub open spec fn is_whitespace(c: char) -> bool {
    ('\u{9}' <= c && c <= '\u{d}') || c == ' ' || c == '\u{85}' || c == '\u{a0}' || c
        == '\u{1680}' || ('\u{2000}' <= c && c <= '\u{200a}') || c == '\u{2028}' || c
        == '\u{2029}' || c == '\u{202f}' || c == '\u{205f}' || c == '\u{3000}'
}

/// `s` without leading whitespace (`str::trim_start`).
pub open spec fn trim_start(s: Seq<char>) -> Seq<char>
    decreases s.len(),
{
    if s.len() > 0 && is_whitespace(s[0]) {
        trim_start(s.drop_first())
    } else {
        s
    }
}

/// `s` without trailing whitespace (`str::trim_end`).
pub open spec fn trim_end(s: Seq<char>) -> Seq<char>
    decreases s.len(),
{
    if s.len() > 0 && is_whitespace(s.last()) {
        trim_end(s.drop_last())
    } else {
        s
    }
}

/// `str::trim`.
pub open spec fn trim(s: Seq<char>) -> Seq<char> {
    trim_end(trim_start(s))
}

/// `s` with every leading repetition of `p` removed (`str::trim_start_matches`).
pub open spec fn strip_all_prefix(s: Seq<char>, p: Seq<char>) -> Seq<char>
    decreases s.len(),
{
    if p.len() > 0 && has_prefix(s, p) {
        strip_all_prefix(s.skip(p.len() as int), p)
    } else {
        s
    }
}

/// `s` with every trailing repetition of `p` removed (`str::trim_end_matches`).
pub open spec fn strip_all_suffix(s: Seq<char>, p: Seq<char>) -> Seq<char>
    decreases s.len(),
{
    if p.len() > 0 && has_suffix(s, p) {
        strip_all_suffix(s.take(s.len() - p.len()), p)
    } else {
        s
    }
}

/// Index of the last occurrence of `c` in `s`, if any.
pub open spec fn rfind_char(s: Seq<char>, c: char) -> Option<int>
    decreases s.len(),
{
    if s.len() == 0 {
        None
    } else if s.last() == c {
        Some(s.len() - 1)
    } else {
        rfind_char(s.drop_last(), c)
    }
}

// ---------------------------------------------------------------------------
// Lemmas
// ---------------------------------------------------------------------------
pub proof fn lemma_seq_lt_irreflexive(a: Seq<char>)
    ensures
        !seq_lt(a, a),
    decreases a.len(),
{
    if a.len() > 0 {
        lemma_seq_lt_irreflexive(a.drop_first());
    }
}

pub proof fn lemma_seq_lt_total(a: Seq<char>, b: Seq<char>)
    ensures
        a == b || seq_lt(a, b) || seq_lt(b, a),
    decreases a.len(),
{
    if a.len() > 0 && b.len() > 0 && a[0] == b[0] {
        lemma_seq_lt_total(a.drop_first(), b.drop_first());
        if a.drop_first() == b.drop_first() {
            assert(a =~= seq![a[0]] + a.drop_first());
            assert(b =~= seq![b[0]] + b.drop_first());
        }
    } else if a.len() == 0 && b.len() == 0 {
        assert(a =~= b);
    }
}

pub proof fn lemma_seq_lt_transitive(a: Seq<char>, b: Seq<char>, c: Seq<char>)
    requires
        seq_lt(a, b),
        seq_lt(b, c),
    ensures
        seq_lt(a, c),
    decreases a.len(),
{
    if a.len() > 0 && b.len() > 0 && c.len() > 0 && a[0] == b[0] && b[0] == c[0] {
        lemma_seq_lt_transitive(a.drop_first(), b.drop_first(), c.drop_first());
    }
}

pub proof fn lemma_seq_lt_asymmetric(a: Seq<char>, b: Seq<char>)
    requires
        seq_lt(a, b),
    ensures
        !seq_lt(b, a),
{
    if seq_lt(b, a) {
        lemma_seq_lt_transitive(a, b, a);
        lemma_seq_lt_irreflexive(a);
    }
}

/// A strictly sorted list has no repeated element.
pub proof fn lemma_strictly_sorted_distinct(a: Seq<Seq<char>>)
    requires
        strictly_sorted(a),
    ensures
        forall|i: int, j: int| 0 <= i < j < a.len() ==> a[i] != a[j],
{
    assert forall|i: int, j: int| 0 <= i < j < a.len() implies a[i] != a[j] by {
        assert(seq_lt(a[i], a[j]));
        lemma_seq_lt_irreflexive(a[i]);
    }
}

/// A strictly sorted list is fixed by its elements: two strictly sorted
/// lists with the same elements are the same list. (So a function whose
/// result is strictly sorted with a given set of elements has one result.)
pub proof fn lemma_strictly_sorted_unique(a: Seq<Seq<char>>, b: Seq<Seq<char>>)
    requires
        strictly_sorted(a),
        strictly_sorted(b),
        a.to_set() == b.to_set(),
    ensures
        a == b,
    decreases a.len(),
{
    if a.len() == 0 {
        if b.len() > 0 {
            assert(b.to_set().contains(b[0]));
        }
        assert(a =~= b);
    } else {
        assert(a.to_set().contains(a[0]));
        assert(b.to_set().contains(a[0]));
        let j = choose|j: int| 0 <= j < b.len() && b[j] == a[0];
        assert(b.to_set().contains(b[0]));
        assert(a.to_set().contains(b[0]));
        let i = choose|i: int| 0 <= i < a.len() && a[i] == b[0];
        if j > 0 {
            assert(seq_lt(b[0], b[j]));
            if i > 0 {
                assert(seq_lt(a[0], a[i]));
                lemma_seq_lt_asymmetric(a[0], a[i]);
            } else {
                lemma_seq_lt_irreflexive(b[0]);
            }
        }
        assert(a[0] == b[0]);
        let a1 = a.drop_first();
        let b1 = b.drop_first();
        assert forall|x| a1.to_set().contains(x) implies b1.to_set().contains(x) by {
            let k = choose|k: int| 0 <= k < a1.len() && a1[k] == x;
            assert(a[k + 1] == x);
            assert(seq_lt(a[0], a[k + 1]));
            lemma_seq_lt_irreflexive(x);
            assert(a.to_set().contains(x));
            let m = choose|m: int| 0 <= m < b.len() && b[m] == x;
            assert(m != 0);
            assert(b1[m - 1] == x);
        }
        assert forall|x| b1.to_set().contains(x) implies a1.to_set().contains(x) by {
            let k = choose|k: int| 0 <= k < b1.len() && b1[k] == x;
            assert(b[k + 1] == x);
            assert(seq_lt(b[0], b[k + 1]));
            lemma_seq_lt_irreflexive(x);
            assert(b.to_set().contains(x));
            let m = choose|m: int| 0 <= m < a.len() && a[m] == x;
            assert(m != 0);
            assert(a1[m - 1] == x);
        }
        assert(a1.to_set() =~= b1.to_set());
        assert forall|p: int, q: int| 0 <= p < q < a1.len() implies seq_lt(
            #[trigger] a1[p],
            #[trigger] a1[q],
        ) by {
            assert(a1[p] == a[p + 1] && a1[q] == a[q + 1]);
        }
        assert forall|p: int, q: int| 0 <= p < q < b1.len() implies seq_lt(
            #[trigger] b1[p],
            #[trigger] b1[q],
        ) by {
            assert(b1[p] == b[p + 1] && b1[q] == b[q + 1]);
        }
        lemma_strictly_sorted_unique(a1, b1);
        assert(a =~= seq![a[0]] + a1);
        assert(b =~= seq![b[0]] + b1);
    }
}

/// No leading zero: a single digit, or a first digit other than `0`.
pub open spec fn no_leading_zero(s: Seq<char>) -> bool {
    s.len() == 1 || (s.len() > 1 && s[0] != '0')
}

proof fn lemma_digits_value_positive(s: Seq<char>)
    requires
        s.len() >= 1,
        all_digits(s),
        s[0] != '0',
    ensures
        digits_value(s) > 0,
    decreases s.len(),
{
    if s.len() > 1 {
        let p = s.drop_last();
        assert(p[0] == s[0]);
        assert forall|i: int| 0 <= i < p.len() implies is_ascii_digit(#[trigger] p[i]) by {
            assert(p[i] == s[i]);
        }
        lemma_digits_value_positive(p);
    }
}

/// Reading a run of digits without leading zero and writing the number back
/// gives the same digits.
pub proof fn lemma_decimal_of_digits(s: Seq<char>)
    requires
        all_digits(s),
        no_leading_zero(s),
    ensures
        decimal(digits_value(s)) == s,
    decreases s.len(),
{
    let d = s.last();
    assert(is_ascii_digit(s[s.len() - 1]));
    let dv = digit_value(d);
    assert(dv < 10);
    assert(digit_char(dv) == d);
    if s.len() == 1 {
        assert(s.drop_last() =~= Seq::<char>::empty());
        reveal_with_fuel(digits_value, 2);
        assert(digits_value(s) == dv);
        assert(decimal(dv) =~= s);
    } else {
        let p = s.drop_last();
        assert(p[0] == s[0]);
        assert forall|i: int| 0 <= i < p.len() implies is_ascii_digit(#[trigger] p[i]) by {
            assert(p[i] == s[i]);
        }
        assert(no_leading_zero(p));
        lemma_decimal_of_digits(p);
        lemma_digits_value_positive(p);
        let x = digits_value(p);
        let v = digits_value(s);
        assert(v == x * 10 + dv);
        assert(v / 10 == x && v % 10 == dv && v >= 10) by (nonlinear_arith)
            requires
                v == x * 10 + dv,
                0 <= dv < 10,
                x >= 1,
        ;
        assert(decimal(v) == decimal(x).push(digit_char(dv)));
        assert(s =~= p.push(d));
    }
}

/// The decimal rendering of a number is a run of digits, without leading
/// zero, that denotes the number.
pub proof fn lemma_decimal_digits(n: nat)
    ensures
        all_digits(decimal(n)),
        no_leading_zero(decimal(n)),
        n > 0 ==> decimal(n)[0] != '0',
        digits_value(decimal(n)) == n,
    decreases n,
{
    if n < 10 {
        let s = decimal(n);
        assert(s =~= seq![digit_char(n)]);
        assert(s.drop_last() =~= Seq::<char>::empty());
        reveal_with_fuel(digits_value, 2);
        assert(digit_value(digit_char(n)) == n);
    } else {
        lemma_decimal_digits(n / 10);
        let p = decimal(n / 10);
        let s = decimal(n);
        assert(s == p.push(digit_char(n % 10)));
        assert(s.drop_last() =~= p);
        assert(digit_value(digit_char(n % 10)) == n % 10);
        assert(n == (n / 10) * 10 + n % 10) by (nonlinear_arith);
        assert(s[0] == p[0]);
        assert forall|i: int| 0 <= i < s.len() implies is_ascii_digit(#[trigger] s[i]) by {
            if i < p.len() {
                assert(s[i] == p[i]);
            }
        }
    }
}

/// What [`rfind_char`] gives, stated positionally.
pub proof fn lemma_rfind_char_spec(s: Seq<char>, c: char)
    ensures
        rfind_char(s, c) matches Some(i) ==> 0 <= i < s.len() && s[i] == c && forall|k: int|
            i < k < s.len() ==> s[k] != c,
        rfind_char(s, c) is None ==> forall|k: int| 0 <= k < s.len() ==> s[k] != c,
    decreases s.len(),
{
    if s.len() > 0 {
        lemma_rfind_char_spec(s.drop_last(), c);
        assert forall|k: int| 0 <= k < s.len() - 1 implies s[k] == s.drop_last()[k] by {}
    }
}

/// After removing every leading `p`, the text no longer starts with `p`.
pub proof fn lemma_strip_all_prefix_done(s: Seq<char>, p: Seq<char>)
    requires
        p.len() > 0,
    ensures
        !has_prefix(strip_all_prefix(s, p), p),
    decreases s.len(),
{
    if has_prefix(s, p) {
        lemma_strip_all_prefix_done(s.skip(p.len() as int), p);
    }
}

/// Removing every trailing `p` leaves a prefix of the text that no longer
/// ends with `p`.
pub proof fn lemma_strip_all_suffix_done(s: Seq<char>, p: Seq<char>)
    requires
        p.len() > 0,
    ensures
        !has_suffix(strip_all_suffix(s, p), p),
        strip_all_suffix(s, p).len() <= s.len(),
        strip_all_suffix(s, p) == s.take(strip_all_suffix(s, p).len() as int),
    decreases s.len(),
{
    if has_suffix(s, p) {
        let t = s.take(s.len() - p.len());
        lemma_strip_all_suffix_done(t, p);
        let r = strip_all_suffix(t, p);
        assert(t.take(r.len() as int) =~= s.take(r.len() as int));
    } else {
        assert(s.take(s.len() as int) =~= s);
    }
}


proof fn lemma_join_push_last(p: Seq<Seq<char>>, sep: char, ch: char)
    requires
        p.len() >= 1,
    ensures
        join_with(p.update(p.len() - 1, p.last().push(ch)), sep) == join_with(p, sep).push(ch),
{
    let q = p.update(p.len() - 1, p.last().push(ch));
    if p.len() > 1 {
        assert(q.drop_last() =~= p.drop_last());
        assert(join_with(q, sep) =~= join_with(p, sep).push(ch));
    }
}

/// Splitting at a separator and joining the pieces back with it gives the
/// text again.
pub proof fn lemma_join_split(s: Seq<char>, sep: char)
    ensures
        split_on(s, sep).len() >= 1,
        join_with(split_on(s, sep), sep) == s,
    decreases s.len(),
{
    if s.len() > 0 {
        let prev = split_on(s.drop_last(), sep);
        lemma_join_split(s.drop_last(), sep);
        if s.last() == sep {
            let q = prev.push(Seq::<char>::empty());
            assert(q.drop_last() =~= prev);
            assert(join_with(q, sep) =~= s.drop_last() + seq![sep]);
            assert(s.drop_last() + seq![sep] =~= s);
        } else {
            lemma_join_push_last(prev, sep, s.last());
            assert(s.drop_last().push(s.last()) =~= s);
        }
    }
}

/// `p` written `n` times in a row.
pub open spec fn repeat(p: Seq<char>, n: nat) -> Seq<char>
    decreases n,
{
    if n == 0 {
        Seq::empty()
    } else {
        p + repeat(p, (n - 1) as nat)
    }
}

/// What removing every leading `p` drops is some number of copies of `p`.
pub proof fn lemma_strip_all_prefix_count(s: Seq<char>, p: Seq<char>) -> (n: nat)
    ensures
        s == repeat(p, n) + strip_all_prefix(s, p),
    decreases s.len(),
{
    if p.len() > 0 && has_prefix(s, p) {
        let rest = s.skip(p.len() as int);
        let m = lemma_strip_all_prefix_count(rest, p);
        assert(s =~= p + rest);
        assert(repeat(p, m + 1) == p + repeat(p, m));
        assert(p + (repeat(p, m) + strip_all_prefix(rest, p)) =~= (p + repeat(p, m))
            + strip_all_prefix(rest, p));
        m + 1
    } else {
        assert(s =~= Seq::<char>::empty() + s);
        0
    }
}

proof fn lemma_repeat_push(p: Seq<char>, n: nat)
    ensures
        repeat(p, n + 1) == repeat(p, n) + p,
    decreases n,
{
    if n > 0 {
        lemma_repeat_push(p, (n - 1) as nat);
        assert(repeat(p, n + 1) =~= p + (repeat(p, (n - 1) as nat) + p));
    } else {
        assert(repeat(p, 0) =~= Seq::<char>::empty());
        assert(repeat(p, 1) == p + repeat(p, 0));
        assert(p + Seq::<char>::empty() =~= p);
        assert(Seq::<char>::empty() + p =~= p);
    }
}

/// What removing every trailing `p` drops is some number of copies of `p`.
pub proof fn lemma_strip_all_suffix_count(s: Seq<char>, p: Seq<char>) -> (n: nat)
    ensures
        s == strip_all_suffix(s, p) + repeat(p, n),
    decreases s.len(),
{
    if p.len() > 0 && has_suffix(s, p) {
        let rest = s.take(s.len() - p.len());
        let m = lemma_strip_all_suffix_count(rest, p);
        assert(s =~= rest + p);
        lemma_repeat_push(p, m);
        assert((strip_all_suffix(rest, p) + repeat(p, m)) + p =~= strip_all_suffix(rest, p) + (
        repeat(p, m) + p));
        m + 1
    } else {
        assert(s =~= s + Seq::<char>::empty());
        0
    }
}

/// Removing a character that does not occur changes nothing.
pub proof fn lemma_remove_char_absent(s: Seq<char>, c: char)
    requires
        forall|i: int| 0 <= i < s.len() ==> s[i] != c,
    ensures
        remove_char(s, c) == s,
    decreases s.len(),
{
    if s.len() > 0 {
        lemma_remove_char_absent(s.drop_last(), c);
        assert(s.drop_last().push(s.last()) =~= s);
    }
}

/// Removing a character distributes over concatenation.
pub proof fn lemma_remove_char_concat(a: Seq<char>, b: Seq<char>, c: char)
    ensures
        remove_char(a + b, c) == remove_char(a, c) + remove_char(b, c),
    decreases b.len(),
{
    if b.len() == 0 {
        assert(a + b =~= a);
        assert(remove_char(a, c) + remove_char(b, c) =~= remove_char(a, c));
    } else {
        let ab = a + b;
        assert(ab.drop_last() =~= a + b.drop_last());
        assert(ab.last() == b.last());
        lemma_remove_char_concat(a, b.drop_last(), c);
        if b.last() != c {
            assert((remove_char(a, c) + remove_char(b.drop_last(), c)).push(b.last())
                =~= remove_char(a, c) + remove_char(b.drop_last(), c).push(b.last()));
        }
    }
}
proof fn lemma_digits_value_take_mono(s: Seq<char>, i: int, j: int)
    requires
        0 <= i <= j <= s.len(),
    ensures
        digits_value(s.take(i)) <= digits_value(s.take(j)),
    decreases j - i,
{
    if i < j {
        lemma_digits_value_take_mono(s, i, j - 1);
        assert(s.take(j).drop_last() =~= s.take(j - 1));
    }
}

// ---------------------------------------------------------------------------
// Executable helpers
// ---------------------------------------------------------------------------
/// The characters of a string slice, in order.
pub fn chars_of(s: &str) -> (v: Vec<char>)
    ensures
        v@ == s@,
{
    let mut v: Vec<char> = Vec::new();
    for c in it: s.chars()
        invariant
            v@ == it.seq().take(it.index() as int),
    {
        v.push(c);
    }
    v
}

/// `String::push`.
#[verifier::external_body]
pub fn push_char(s: &mut String, c: char)
    ensures
        final(s)@ == old(s)@.push(c),
{
    s.push(c);
}

/// Append the characters of `v` to `s`.
pub fn push_chars(s: &mut String, v: &[char])
    ensures
        final(s)@ == old(s)@ + v@,
{
    let ghost start = s@;
    let mut i: usize = 0;
    while i < v.len()
        invariant
            i <= v.len(),
            s@ == start + v@.take(i as int),
        decreases v.len() - i,
    {
        push_char(s, v[i]);
        i = i + 1;
        assert(v@.take(i as int) =~= v@.take(i - 1) + seq![v@[i - 1]]);
    }
    assert(v@.take(v.len() as int) =~= v@);
}

/// A `String` holding exactly the characters of `v`.
pub fn string_from_chars(v: &[char]) -> (s: String)
    ensures
        s@ == v@,
{
    let mut s = String::new();
    push_chars(&mut s, v);
    assert(s@ =~= v@);
    s
}

/// Whether two character sequences are equal.
pub fn chars_eq(a: &[char], b: &[char]) -> (r: bool)
    ensures
        r == (a@ == b@),
{
    if a.len() != b.len() {
        return false;
    }
    let mut i: usize = 0;
    while i < a.len()
        invariant
            a.len() == b.len(),
            i <= a.len(),
            forall|k: int| 0 <= k < i ==> a@[k] == b@[k],
        decreases a.len() - i,
    {
        if a[i] != b[i] {
            return false;
        }
        i = i + 1;
    }
    assert(a@ =~= b@);
    true
}

/// Whether the characters of `s` are exactly those of `lit`.
pub fn chars_eq_str(a: &[char], lit: &str) -> (r: bool)
    ensures
        r == (a@ == lit@),
{
    let b = chars_of(lit);
    chars_eq(a, b.as_slice())
}

/// Whether `s` starts with `p`.
pub fn starts_with(s: &[char], p: &[char]) -> (r: bool)
    ensures
        r == has_prefix(s@, p@),
{
    if p.len() > s.len() {
        return false;
    }
    let mut i: usize = 0;
    while i < p.len()
        invariant
            p.len() <= s.len(),
            i <= p.len(),
            forall|k: int| 0 <= k < i ==> s@[k] == p@[k],
        decreases p.len() - i,
    {
        if s[i] != p[i] {
            assert(s@.take(p.len() as int)[i as int] != p@[i as int]);
            return false;
        }
        i = i + 1;
    }
    assert(s@.take(p.len() as int) =~= p@);
    true
}

/// Whether `s` ends with `p`.
pub fn ends_with(s: &[char], p: &[char]) -> (r: bool)
    ensures
        r == has_suffix(s@, p@),
{
    if p.len() > s.len() {
        return false;
    }
    let off = s.len() - p.len();
    let mut i: usize = 0;
    while i < p.len()
        invariant
            p.len() <= s.len(),
            off == s.len() - p.len(),
            i <= p.len(),
            forall|k: int| 0 <= k < i ==> s@[off + k] == p@[k],
        decreases p.len() - i,
    {
        if s[off + i] != p[i] {
            assert(s@.skip(off as int)[i as int] != p@[i as int]);
            return false;
        }
        i = i + 1;
    }
    assert(s@.skip(off as int) =~= p@);
    true
}

/// The characters `v[from..to]`.
pub fn slice_chars(v: &[char], from: usize, to: usize) -> (r: Vec<char>)
    requires
        from <= to <= v.len(),
    ensures
        r@ == v@.subrange(from as int, to as int),
{
    let mut r: Vec<char> = Vec::new();
    let mut i: usize = from;
    while i < to
        invariant
            from <= i <= to <= v.len(),
            r@ == v@.subrange(from as int, i as int),
        decreases to - i,
    {
        r.push(v[i]);
        i = i + 1;
        assert(r@ =~= v@.subrange(from as int, i as int));
    }
    r
}

/// Index of the first `c` in `v`.
pub fn find(v: &[char], c: char) -> (r: Option<usize>)
    ensures
        r matches Some(i) ==> find_char(v@, c) == Some(i as int),
        r is None ==> find_char(v@, c) is None,
{
    let mut i: usize = 0;
    while i < v.len()
        invariant
            i <= v.len(),
            forall|k: int| 0 <= k < i ==> v@[k] != c,
        decreases v.len() - i,
    {
        if v[i] == c {
            proof {
                lemma_find_char_at(v@, c, i as int);
            }
            return Some(i);
        }
        i = i + 1;
    }
    proof {
        lemma_find_char_none(v@, c);
    }
    None
}

pub proof fn lemma_find_char_at(s: Seq<char>, c: char, i: int)
    requires
        0 <= i < s.len(),
        s[i] == c,
        forall|k: int| 0 <= k < i ==> s[k] != c,
    ensures
        find_char(s, c) == Some(i),
    decreases i,
{
    if i > 0 {
        lemma_find_char_at(s.drop_first(), c, i - 1);
    }
}

pub proof fn lemma_find_char_none(s: Seq<char>, c: char)
    requires
        forall|k: int| 0 <= k < s.len() ==> s[k] != c,
    ensures
        find_char(s, c) is None,
    decreases s.len(),
{
    if s.len() > 0 {
        lemma_find_char_none(s.drop_first(), c);
    }
}

/// What [`find_char`] gives, stated positionally.
pub proof fn lemma_find_char_spec(s: Seq<char>, c: char)
    ensures
        find_char(s, c) matches Some(i) ==> 0 <= i < s.len() && s[i] == c && forall|k: int|
            0 <= k < i ==> s[k] != c,
        find_char(s, c) is None ==> forall|k: int| 0 <= k < s.len() ==> s[k] != c,
    decreases s.len(),
{
    if s.len() > 0 {
        lemma_find_char_spec(s.drop_first(), c);
        assert forall|k: int| 1 <= k < s.len() implies s[k] == s.drop_first()[k - 1] by {}
    }
}

/// `v` with every `c` removed.
pub fn without_char(v: &[char], c: char) -> (r: Vec<char>)
    ensures
        r@ == remove_char(v@, c),
{
    let mut r: Vec<char> = Vec::new();
    let mut i: usize = 0;
    while i < v.len()
        invariant
            i <= v.len(),
            r@ == remove_char(v@.take(i as int), c),
        decreases v.len() - i,
    {
        assert(v@.take(i + 1).drop_last() =~= v@.take(i as int));
        if v[i] != c {
            r.push(v[i]);
        }
        i = i + 1;
    }
    assert(v@.take(v.len() as int) =~= v@);
    r
}

/// `s.split(sep)`, each piece as its characters.
pub fn split_chars(s: &[char], sep: char) -> (parts: Vec<Vec<char>>)
    ensures
        parts@.len() >= 1,
        char_vec_views(parts@) == split_on(s@, sep),
{
    let mut parts: Vec<Vec<char>> = Vec::new();
    let mut cur: Vec<char> = Vec::new();
    let mut i: usize = 0;
    while i < s.len()
        invariant
            i <= s.len(),
            char_vec_views(parts@).push(cur@) == split_on(s@.take(i as int), sep),
        decreases s.len() - i,
    {
        let ghost before = char_vec_views(parts@).push(cur@);
        assert(s@.take(i + 1).drop_last() =~= s@.take(i as int));
        if s[i] == sep {
            let done = cur;
            parts.push(done);
            cur = Vec::new();
            assert(char_vec_views(parts@).push(cur@) =~= before.push(Seq::<char>::empty()));
        } else {
            cur.push(s[i]);
            assert(char_vec_views(parts@).push(cur@) =~= before.update(
                before.len() - 1,
                before.last().push(s@[i as int]),
            ));
        }
        i = i + 1;
    }
    assert(s@.take(s.len() as int) =~= s@);
    parts.push(cur);
    parts
}

/// `str::parse::<u32>` on the characters of `s`.
pub fn parse_u32(s: &[char]) -> (r: Option<u32>)
    ensures
        r == spec_parse_u32(s@),
{
    let start: usize = if s.len() > 0 && s[0] == '+' {
        1
    } else {
        0
    };
    let ghost body = s@.skip(start as int);
    assert(body =~= if s@.len() > 0 && s@[0] == '+' {
        s@.skip(1)
    } else {
        s@
    });
    if start == s.len() {
        return None;
    }
    let mut acc: u64 = 0;
    let mut i: usize = start;
    while i < s.len()
        invariant
            start <= i <= s.len(),
            body == s@.skip(start as int),
            body == (if s@.len() > 0 && s@[0] == '+' {
                s@.skip(1)
            } else {
                s@
            }),
            start < s.len(),
            acc == digits_value(body.take(i - start)),
            acc <= u32::MAX,
            forall|k: int| 0 <= k < i - start ==> is_ascii_digit(#[trigger] body[k]),
        decreases s.len() - i,
    {
        let c = s[i];
        assert(body[i - start] == s@[i as int]);
        if !(c >= '0' && c <= '9') {
            assert(!is_ascii_digit(body[i - start]));
            return None;
        }
        let d = (c as u32 - '0' as u32) as u64;
        assert(body.take(i + 1 - start).drop_last() =~= body.take(i - start));
        acc = acc * 10 + d;
        i = i + 1;
        if acc > u32::MAX as u64 {
            proof {
                lemma_digits_value_take_mono(body, i - start, body.len() as int);
                assert(body.take(body.len() as int) =~= body);
            }
            return None;
        }
    }
    assert(body.take(body.len() as int) =~= body);
    Some(acc as u32)
}

/// Decimal rendering of `n` (`n.to_string()`).
pub fn decimal_chars(n: u64) -> (v: Vec<char>)
    ensures
        v@ == decimal(n as nat),
    decreases n,
{
    let d = ((n % 10) as u8 + 48u8) as char;
    assert(d == digit_char((n % 10) as nat));
    if n < 10 {
        let mut v: Vec<char> = Vec::new();
        v.push(d);
        assert(v@ =~= seq![digit_char(n as nat)]);
        v
    } else {
        let mut v = decimal_chars(n / 10);
        v.push(d);
        v
    }
}

/// Whether `a` orders before `b` (the order of `str`).
pub fn chars_lt(a: &[char], b: &[char]) -> (r: bool)
    ensures
        r == seq_lt(a@, b@),
{
    let mut i: usize = 0;
    assert(a@.skip(0) =~= a@);
    assert(b@.skip(0) =~= b@);
    while i < a.len() && i < b.len()
        invariant
            i <= a.len(),
            i <= b.len(),
            seq_lt(a@, b@) == seq_lt(a@.skip(i as int), b@.skip(i as int)),
        decreases a.len() - i,
    {
        if a[i] != b[i] {
            assert(a@.skip(i as int)[0] == a@[i as int]);
            assert(b@.skip(i as int)[0] == b@[i as int]);
            return a[i] < b[i];
        }
        assert(a@.skip(i as int).drop_first() =~= a@.skip(i + 1));
        assert(b@.skip(i as int).drop_first() =~= b@.skip(i + 1));
        i = i + 1;
    }
    i == a.len() && i < b.len()
}

/// The distinct strings of `items` in increasing order: what collecting
/// them into a `BTreeSet` and reading it back gives.
pub fn sorted_unique(items: &Vec<String>) -> (r: Vec<String>)
    ensures
        strictly_sorted(string_views(r@)),
        string_views(r@).to_set() == string_views(items@).to_set(),
{
    let mut r: Vec<String> = Vec::new();
    let mut n: usize = 0;
    while n < items.len()
        invariant
            n <= items.len(),
            strictly_sorted(string_views(r@)),
            string_views(r@).to_set() == string_views(items@.take(n as int)).to_set(),
        decreases items.len() - n,
    {
        let x = items[n].clone();
        let xc = chars_of(x.as_str());
        let ghost old_r = string_views(r@);
        // first position whose entry does not order before x
        let mut j: usize = 0;
        while j < r.len()
            invariant
                j <= r.len(),
                old_r == string_views(r@),
                xc@ == x@,
                forall|k: int| 0 <= k < j ==> seq_lt(#[trigger] old_r[k], x@),
        ensures
            j <= r.len(),
            old_r == string_views(r@),
            forall|k: int| 0 <= k < j ==> seq_lt(#[trigger] old_r[k], x@),
            j < r.len() ==> !seq_lt(old_r[j as int], x@),
            decreases r.len() - j,
        {
            let rc = chars_of(r[j].as_str());
            if !chars_lt(rc.as_slice(), xc.as_slice()) {
                break;
            }
            j = j + 1;
        }
        let mut present = false;
        if j < r.len() {
            let rc = chars_of(r[j].as_str());
            present = chars_eq(rc.as_slice(), xc.as_slice());
        }
        proof {
            assert(string_views(items@.take(n + 1)) =~= string_views(items@.take(n as int)).push(
                x@,
            ));
        }
        if !present {
            r.insert(j, x);
            proof {
                let nr = string_views(r@);
                assert(nr =~= old_r.insert(j as int, x@));
                if j < old_r.len() {
                    lemma_seq_lt_total(old_r[j as int], x@);
                }
                assert forall|a: int, b: int| 0 <= a < b < nr.len() implies seq_lt(
                    #[trigger] nr[a],
                    #[trigger] nr[b],
                ) by {
                    if b < j {
                        assert(nr[a] == old_r[a] && nr[b] == old_r[b]);
                    } else if b == j {
                        assert(nr[a] == old_r[a]);
                    } else if a == j {
                        assert(nr[b] == old_r[b - 1]);
                        if b - 1 > j {
                            lemma_seq_lt_transitive(x@, old_r[j as int], old_r[b - 1]);
                        }
                    } else if a < j {
                        assert(nr[a] == old_r[a] && nr[b] == old_r[b - 1]);
                    } else {
                        assert(nr[a] == old_r[a - 1] && nr[b] == old_r[b - 1]);
                    }
                }
                assert(nr.to_set() =~= old_r.to_set().insert(x@)) by {
                    assert forall|e| nr.to_set().contains(e) implies old_r.to_set().insert(
                        x@,
                    ).contains(e) by {
                        let k = choose|k: int| 0 <= k < nr.len() && nr[k] == e;
                        if k < j {
                            assert(old_r[k] == e);
                        } else if k > j {
                            assert(old_r[k - 1] == e);
                        }
                    }
                    assert forall|e| old_r.to_set().insert(x@).contains(e) implies nr.to_set().contains(
                        e,
                    ) by {
                        if e == x@ {
                            assert(nr[j as int] == e);
                        } else {
                            let k = choose|k: int| 0 <= k < old_r.len() && old_r[k] == e;
                            if k < j {
                                assert(nr[k] == e);
                            } else {
                                assert(nr[k + 1] == e);
                            }
                        }
                    }
                }
            }
        } else {
            proof {
                assert(old_r.to_set().insert(x@) =~= old_r.to_set()) by {
                    assert(old_r.to_set().contains(old_r[j as int]));
                }
            }
        }
        proof {
            let t = string_views(items@.take(n as int));
            assert(t.push(x@).to_set() =~= t.to_set().insert(x@)) by {
                assert forall|e| t.push(x@).to_set().contains(e) implies t.to_set().insert(
                    x@,
                ).contains(e) by {
                    let k = choose|k: int| 0 <= k < t.push(x@).len() && t.push(x@)[k] == e;
                    if k < t.len() {
                        assert(t[k] == e);
                    }
                }
                assert forall|e| t.to_set().insert(x@).contains(e) implies t.push(
                    x@,
                ).to_set().contains(e) by {
                    if e == x@ {
                        assert(t.push(x@)[t.len() as int] == e);
                    } else {
                        let k = choose|k: int| 0 <= k < t.len() && t[k] == e;
                        assert(t.push(x@)[k] == e);
                    }
                }
            }
        }
        n = n + 1;
    }
    assert(items@.take(items.len() as int) =~= items@);
    r
}

fn char_is_whitespace(c: char) -> (r: bool)
    ensures
        r == is_whitespace(c),
{
    ('\u{9}' <= c && c <= '\u{d}') || c == ' ' || c == '\u{85}' || c == '\u{a0}' || c
        == '\u{1680}' || ('\u{2000}' <= c && c <= '\u{200a}') || c == '\u{2028}' || c
        == '\u{2029}' || c == '\u{202f}' || c == '\u{205f}' || c == '\u{3000}'
}

/// `str::trim` on characters.
pub fn trim_chars(s: &[char]) -> (r: Vec<char>)
    ensures
        r@ == trim(s@),
{
    let mut a: usize = 0;
    assert(s@.skip(0) =~= s@);
    while a < s.len() && char_is_whitespace(s[a])
        invariant
            a <= s.len(),
            trim_start(s@) == trim_start(s@.skip(a as int)),
        decreases s.len() - a,
    {
        assert(s@.skip(a as int).drop_first() =~= s@.skip(a + 1));
        a = a + 1;
    }
    let mut b: usize = s.len();
    assert(s@.skip(a as int) =~= s@.subrange(a as int, b as int));
    while b > a && char_is_whitespace(s[b - 1])
        invariant
            a <= b <= s.len(),
            trim(s@) == trim_end(s@.subrange(a as int, b as int)),
        decreases b,
    {
        assert(s@.subrange(a as int, b as int).drop_last() =~= s@.subrange(a as int, b - 1));
        b = b - 1;
    }
    slice_chars(s, a, b)
}

/// `str::trim_start_matches(p)`.
pub fn trim_start_matches(s: &[char], p: &[char]) -> (r: Vec<char>)
    ensures
        r@ == strip_all_prefix(s@, p@),
{
    let mut a: usize = 0;
    assert(s@.skip(0) =~= s@);
    if p.len() == 0 {
        return slice_chars(s, 0, s.len());
    }
    loop
        invariant
            a <= s.len(),
            p.len() > 0,
            strip_all_prefix(s@, p@) == strip_all_prefix(s@.skip(a as int), p@),
        decreases s.len() - a,
    {
        let rest = slice_chars(s, a, s.len());
        assert(rest@ =~= s@.skip(a as int));
        if !starts_with(rest.as_slice(), p) {
            assert(s@.skip(a as int) =~= s@.subrange(a as int, s.len() as int));
            return rest;
        }
        assert(s@.skip(a as int).skip(p.len() as int) =~= s@.skip(a + p.len()));
        a = a + p.len();
    }
}

/// `str::trim_end_matches(p)`.
pub fn trim_end_matches(s: &[char], p: &[char]) -> (r: Vec<char>)
    ensures
        r@ == strip_all_suffix(s@, p@),
{
    let mut b: usize = s.len();
    assert(s@.take(b as int) =~= s@);
    if p.len() == 0 {
        return slice_chars(s, 0, s.len());
    }
    loop
        invariant
            b <= s.len(),
            p.len() > 0,
            strip_all_suffix(s@, p@) == strip_all_suffix(s@.take(b as int), p@),
        decreases b,
    {
        let rest = slice_chars(s, 0, b);
        assert(rest@ =~= s@.take(b as int));
        if !ends_with(rest.as_slice(), p) {
            return rest;
        }
        assert(s@.take(b as int).take(b - p.len()) =~= s@.take(b - p.len()));
        b = b - p.len();
    }
}

/// Index of the last `c` in `v`.
pub fn rfind(v: &[char], c: char) -> (r: Option<usize>)
    ensures
        r matches Some(i) ==> rfind_char(v@, c) == Some(i as int) && i < v.len(),
        r is None ==> rfind_char(v@, c) is None,
{
    let mut i: usize = v.len();
    assert(v@.take(i as int) =~= v@);
    while i > 0
        invariant
            i <= v.len(),
            rfind_char(v@, c) == rfind_char(v@.take(i as int), c),
        decreases i,
    {
        if v[i - 1] == c {
            return Some(i - 1);
        }
        assert(v@.take(i as int).drop_last() =~= v@.take(i - 1));
        i = i - 1;
    }
    None
}

} // verus!
