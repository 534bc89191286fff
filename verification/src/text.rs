//! Character-sequence utilities shared by the parsers and renderers.
//!
//! Every operation works on `Seq<char>` in specifications and on `Vec<char>`
//! (or `String`) in code; the spec functions state what the usual string
//! operations (trimming, splitting into lines, replacing, ...) compute.
use vstd::prelude::*;

verus! {

// ------------------------------------------------------------------------
// Specifications
// ------------------------------------------------------------------------
/// Unicode `White_Space` characters, as `char::is_whitespace` recognizes them.
pub open spec fn is_ws(c: char) -> bool {
    ||| c == ' '
    ||| c == '\t'
    ||| c == '\n'
    ||| c == '\x0B'
    ||| c == '\x0C'
    ||| c == '\r'
    ||| c == '\u{85}'
    ||| c == '\u{A0}'
    ||| c == '\u{1680}'
    ||| ('\u{2000}' <= c && c <= '\u{200A}')
    ||| c == '\u{2028}'
    ||| c == '\u{2029}'
    ||| c == '\u{202F}'
    ||| c == '\u{205F}'
    ||| c == '\u{3000}'
}

/// `s` with its leading whitespace removed.
pub open spec fn trim_start(s: Seq<char>) -> Seq<char>
    decreases s.len(),
{
    if s.len() > 0 && is_ws(s[0]) {
        trim_start(s.drop_first())
    } else {
        s
    }
}

/// `s` with its trailing whitespace removed.
pub open spec fn trim_end(s: Seq<char>) -> Seq<char>
    decreases s.len(),
{
    if s.len() > 0 && is_ws(s.last()) {
        trim_end(s.drop_last())
    } else {
        s
    }
}

/// `s` with leading and trailing whitespace removed.
pub open spec fn trim(s: Seq<char>) -> Seq<char> {
    trim_end(trim_start(s))
}

/// Whether `s` begins with `p`.
pub open spec fn starts_with(s: Seq<char>, p: Seq<char>) -> bool {
    p.len() <= s.len() && s.take(p.len() as int) =~= p
}

/// Whether `s` ends with `p`.
pub open spec fn ends_with(s: Seq<char>, p: Seq<char>) -> bool {
    p.len() <= s.len() && s.skip(s.len() - p.len()) =~= p
}

/// `s` with every leading repetition of `p` removed (`str::trim_start_matches`).
pub open spec fn trim_start_matches(s: Seq<char>, p: Seq<char>) -> Seq<char>
    decreases s.len(),
{
    if p.len() > 0 && starts_with(s, p) {
        trim_start_matches(s.skip(p.len() as int), p)
    } else {
        s
    }
}

/// `s` with every trailing repetition of `p` removed (`str::trim_end_matches`).
pub open spec fn trim_end_matches(s: Seq<char>, p: Seq<char>) -> Seq<char>
    decreases s.len(),
{
    if p.len() > 0 && ends_with(s, p) {
        trim_end_matches(s.take(s.len() - p.len()), p)
    } else {
        s
    }
}

/// `s` with every leading and trailing occurrence of `c` removed.
pub open spec fn trim_matches_char(s: Seq<char>, c: char) -> Seq<char> {
    trim_end_matches(trim_start_matches(s, seq![c]), seq![c])
}

/// Every non-overlapping occurrence of `p` in `s`, scanning from the left,
/// replaced by `r` (`str::replace`).  An empty `p` matches before every
/// character and at the end.
pub open spec fn replace(s: Seq<char>, p: Seq<char>, r: Seq<char>) -> Seq<char>
    decreases s.len(),
{
    if p.len() == 0 {
        if s.len() == 0 {
            r
        } else {
            r + seq![s[0]] + replace(s.drop_first(), p, r)
        }
    } else if s.len() == 0 {
        s
    } else if starts_with(s, p) {
        r + replace(s.skip(p.len() as int), p, r)
    } else {
        seq![s[0]] + replace(s.drop_first(), p, r)
    }
}

/// Every occurrence of either `a` or `b` replaced by `r`.
pub open spec fn replace_chars2(s: Seq<char>, a: char, b: char, r: char) -> Seq<char> {
    s.map_values(|c: char| if c == a || c == b { r } else { c })
}

/// The index of the first occurrence of `p` in `s` at or after `from`.
pub open spec fn find_from(s: Seq<char>, p: Seq<char>, from: int) -> Option<int>
    decreases s.len() - from,
{
    if from < 0 || from + p.len() > s.len() {
        None
    } else if starts_with(s.skip(from), p) {
        Some(from)
    } else {
        find_from(s, p, from + 1)
    }
}

/// The index of the first occurrence of `p` in `s` (`str::find`).
pub open spec fn find(s: Seq<char>, p: Seq<char>) -> Option<int> {
    find_from(s, p, 0)
}

/// Whether `p` occurs in `s`.
pub open spec fn contains(s: Seq<char>, p: Seq<char>) -> bool {
    find(s, p) is Some
}

/// The pieces of `s` between occurrences of the non-empty pattern `p` (`str::split`).
pub open spec fn split(s: Seq<char>, p: Seq<char>) -> Seq<Seq<char>>
    recommends
        p.len() > 0,
    decreases s.len(),
{
    if p.len() == 0 {
        seq![s]
    } else {
        match find(s, p) {
            None => seq![s],
            Some(i) => {
                proof {
                    lemma_find_from_bounds(s, p, 0);
                }
                seq![s.take(i)] + split(s.skip(i + p.len()), p)
            },
        }
    }
}

/// The text before the first occurrence of `p` (`s.split(p).next()`).
pub open spec fn before(s: Seq<char>, p: Seq<char>) -> Seq<char> {
    match find(s, p) {
        None => s,
        Some(i) => s.take(i),
    }
}

/// The second piece of `s.split(p)`, if there is one (`s.split(p).nth(1)`).
pub open spec fn second_piece(s: Seq<char>, p: Seq<char>) -> Option<Seq<char>> {
    match find(s, p) {
        None => None,
        Some(i) => Some(before(s.skip(i + p.len()), p)),
    }
}

/// One line ending: `l` without its final `\r`, if it has one.
pub open spec fn strip_cr(l: Seq<char>) -> Seq<char> {
    if l.len() > 0 && l.last() == '\r' {
        l.drop_last()
    } else {
        l
    }
}

/// The lines of `s` as `str::lines` yields them: split after each `\n`,
/// with the `\n` and a `\r` just before it removed; no final empty line.
pub open spec fn lines(s: Seq<char>) -> Seq<Seq<char>>
    decreases s.len(),
{
    if s.len() == 0 {
        seq![]
    } else {
        match find(s, seq!['\n']) {
            None => seq![s],
            Some(i) => {
                proof {
                    lemma_find_from_bounds(s, seq!['\n'], 0);
                }
                seq![strip_cr(s.take(i))] + lines(s.skip(i + 1))
            },
        }
    }
}

/// The whitespace-separated words of `s` (`str::split_whitespace`).
pub open spec fn words(s: Seq<char>) -> Seq<Seq<char>>
    decreases s.len(),
{
    let t = trim_start(s);
    if t.len() == 0 {
        seq![]
    } else {
        let w = word_len(t, 0);
        proof {
            lemma_trim_start_props(s);
            lemma_word_len(t, 0);
        }
        seq![t.take(w)] + words(t.skip(w))
    }
}

/// The length of the run of non-whitespace characters of `s` starting at `i`, plus `i`.
pub open spec fn word_len(s: Seq<char>, i: int) -> int
    decreases s.len() - i,
{
    if i < 0 || i >= s.len() || is_ws(s[i]) {
        i
    } else {
        word_len(s, i + 1)
    }
}

/// The pieces of `parts` joined with `sep` between neighbours.
pub open spec fn join(parts: Seq<Seq<char>>, sep: Seq<char>) -> Seq<char>
    decreases parts.len(),
{
    if parts.len() == 0 {
        seq![]
    } else if parts.len() == 1 {
        parts[0]
    } else {
        join(parts.drop_last(), sep) + sep + parts.last()
    }
}

/// The pieces of `parts`, each followed by `suffix`.
pub open spec fn concat_with_suffix(parts: Seq<Seq<char>>, suffix: Seq<char>) -> Seq<char>
    decreases parts.len(),
{
    if parts.len() == 0 {
        seq![]
    } else {
        concat_with_suffix(parts.drop_last(), suffix) + parts.last() + suffix
    }
}

/// The decimal digit for `d < 10`.
pub open spec fn digit_char(d: nat) -> char {
    if d == 0 { '0' }
    else if d == 1 { '1' }
    else if d == 2 { '2' }
    else if d == 3 { '3' }
    else if d == 4 { '4' }
    else if d == 5 { '5' }
    else if d == 6 { '6' }
    else if d == 7 { '7' }
    else if d == 8 { '8' }
    else { '9' }
}

/// The decimal representation of `n`, as `Display` writes an unsigned integer.
pub open spec fn decimal(n: nat) -> Seq<char>
    decreases n,
{
    if n < 10 {
        seq![digit_char(n)]
    } else {
        decimal(n / 10) + seq![digit_char(n % 10)]
    }
}

/// Lexicographic order on characters, as `Ord` orders `str`.
pub open spec fn seq_lt(a: Seq<char>, b: Seq<char>) -> bool
    decreases a.len(),
{
    if b.len() == 0 {
        false
    } else if a.len() == 0 {
        true
    } else if a[0] != b[0] {
        a[0] < b[0]
    } else {
        seq_lt(a.drop_first(), b.drop_first())
    }
}

/// `a` sorts at or before `b`.
pub open spec fn seq_le(a: Seq<char>, b: Seq<char>) -> bool {
    !seq_lt(b, a)
}

// ------------------------------------------------------------------------
// Lemmas
// ------------------------------------------------------------------------
pub proof fn lemma_skip_skip<A>(s: Seq<A>, i: int, j: int)
    requires
        0 <= i,
        0 <= j,
        i + j <= s.len(),
    ensures
        s.skip(i).skip(j) =~= s.skip(i + j),
{
}

pub proof fn lemma_find_from_bounds(s: Seq<char>, p: Seq<char>, from: int)
    ensures
        find_from(s, p, from) matches Some(i) ==> from <= i && i + p.len() <= s.len()
            && starts_with(s.skip(i), p),
    decreases s.len() - from,
{
    if from < 0 || from + p.len() > s.len() {
    } else if starts_with(s.skip(from), p) {
    } else {
        lemma_find_from_bounds(s, p, from + 1);
    }
}

/// No occurrence of `p` starts in `from..k` when the first one at or after `from` is at `k`.
pub proof fn lemma_find_from_first(s: Seq<char>, p: Seq<char>, from: int, j: int)
    requires
        0 <= from <= j,
        j + p.len() <= s.len(),
        find_from(s, p, from) matches Some(k) ==> j < k,
    ensures
        !starts_with(s.skip(j), p),
    decreases j - from,
{
    if from < j {
        if starts_with(s.skip(from), p) {
        } else {
            lemma_find_from_first(s, p, from + 1, j);
        }
    }
}

pub proof fn lemma_trim_start_props(s: Seq<char>)
    ensures
        trim_start(s).len() <= s.len(),
        trim_start(s) =~= s.skip(s.len() - trim_start(s).len()),
        trim_start(s).len() > 0 ==> !is_ws(trim_start(s)[0]),
        forall|j: int| 0 <= j < s.len() - trim_start(s).len() ==> is_ws(#[trigger] s[j]),
    decreases s.len(),
{
    if s.len() > 0 && is_ws(s[0]) {
        lemma_trim_start_props(s.drop_first());
        let t = trim_start(s.drop_first());
        assert(s.drop_first().skip(s.drop_first().len() - t.len()) =~= s.skip(s.len() - t.len()));
        assert forall|j: int| 0 <= j < s.len() - trim_start(s).len() implies is_ws(#[trigger] s[j]) by {
            if j > 0 {
                assert(s[j] == s.drop_first()[j - 1]);
            }
        }
    }
}

pub proof fn lemma_word_len(s: Seq<char>, i: int)
    requires
        0 <= i,
    ensures
        i <= word_len(s, i),
        word_len(s, i) <= s.len() || word_len(s, i) == i,
        (i < s.len() && !is_ws(s[i])) ==> word_len(s, i) > i,
    decreases s.len() - i,
{
    if i < s.len() && !is_ws(s[i]) {
        lemma_word_len(s, i + 1);
    }
}

pub proof fn lemma_find_from_shift(s: Seq<char>, p: Seq<char>, from: int)
    requires
        0 <= from <= s.len(),
    ensures
        find_from(s, p, from) == (match find(s.skip(from), p) {
            None => None,
            Some(k) => Some(k + from),
        }),
    decreases s.len() - from,
{
    lemma_find_from_general(s, p, from, 0);
}

proof fn lemma_find_from_general(s: Seq<char>, p: Seq<char>, from: int, k: int)
    requires
        0 <= from,
        0 <= k,
        from + k <= s.len(),
    ensures
        find_from(s, p, from + k) == (match find_from(s.skip(from), p, k) {
            None => None,
            Some(j) => Some(j + from),
        }),
    decreases s.len() - from - k,
{
    let t = s.skip(from);
    assert(t.skip(k) =~= s.skip(from + k));
    if from + k + p.len() > s.len() {
    } else if starts_with(s.skip(from + k), p) {
    } else {
        lemma_find_from_general(s, p, from, k + 1);
    }
}

/// `s` with every `a` turned into `b`, character by character.
pub open spec fn swap_char(s: Seq<char>, a: char, b: char) -> Seq<char> {
    s.map_values(|c: char| if c == a { b } else { c })
}

/// Replacing a one-character pattern changes each character on its own.
pub proof fn lemma_replace_char(s: Seq<char>, a: char, b: char)
    ensures
        replace(s, seq![a], seq![b]) =~= swap_char(s, a, b),
    decreases s.len(),
{
    if s.len() > 0 {
        lemma_replace_char(s.drop_first(), a, b);
        if s[0] == a {
            assert(s.take(1) =~= seq![a]);
            assert(s.skip(1) =~= s.drop_first());
        } else {
            assert(!starts_with(s, seq![a])) by {
                if starts_with(s, seq![a]) {
                    assert(s.take(1)[0] == a);
                }
            }
        }
        assert(swap_char(s, a, b) =~= seq![swap_char(s, a, b)[0]] + swap_char(s.drop_first(), a, b));
    }
}

/// When `p` occurs in `q + p` only at its own place, replacing `p` by `r`
/// gives `q + r`.
pub proof fn lemma_replace_trailing(q: Seq<char>, p: Seq<char>, r: Seq<char>)
    requires
        p.len() > 0,
        forall|i: int| 0 <= i < q.len() ==> !starts_with(#[trigger] (q + p).skip(i), p),
    ensures
        replace(q + p, p, r) =~= q + r,
    decreases q.len(),
{
    let s = q + p;
    if q.len() == 0 {
        assert(s =~= p);
        assert(s.take(p.len() as int) =~= p);
        assert(s.skip(p.len() as int) =~= Seq::<char>::empty());
        assert(replace(Seq::<char>::empty(), p, r) =~= Seq::<char>::empty());
        assert(replace(s, p, r) =~= r + replace(s.skip(p.len() as int), p, r));
        assert(q + r =~= r);
    } else {
        assert(s.skip(0) =~= s);
        assert(!starts_with(s.skip(0), p));
        let q1 = q.drop_first();
        assert(s.drop_first() =~= q1 + p);
        assert forall|i: int| 0 <= i < q1.len() implies !starts_with(
            #[trigger] (q1 + p).skip(i),
            p,
        ) by {
            assert((q1 + p).skip(i) =~= s.skip(i + 1));
            assert(!starts_with(s.skip(i + 1), p));
        }
        lemma_replace_trailing(q1, p, r);
        assert(replace(s, p, r) =~= seq![s[0]] + replace(s.drop_first(), p, r));
        assert(q + r =~= seq![q[0]] + (q1 + r));
    }
}

/// A prefix that lacks the pattern's first character passes through a
/// replacement unchanged.
pub proof fn lemma_replace_prefix(w: Seq<char>, x: Seq<char>, p: Seq<char>, r: Seq<char>)
    requires
        p.len() > 0,
        !w.contains(p[0]),
    ensures
        replace(w + x, p, r) =~= w + replace(x, p, r),
    decreases w.len(),
{
    if w.len() == 0 {
        assert(w + x =~= x);
        assert(w + replace(x, p, r) =~= replace(x, p, r));
    } else {
        let s = w + x;
        if w[0] == p[0] {
            assert(w.contains(p[0]));
        }
        assert(!starts_with(s, p)) by {
            if starts_with(s, p) {
                assert(s.take(p.len() as int)[0] == p[0]);
            }
        }
        let w1 = w.drop_first();
        assert(!w1.contains(p[0])) by {
            if w1.contains(p[0]) {
                let i = choose|i: int| 0 <= i < w1.len() && w1[i] == p[0];
                assert(w[i + 1] == p[0]);
            }
        }
        assert(s.drop_first() =~= w1 + x);
        lemma_replace_prefix(w1, x, p, r);
        assert(replace(s, p, r) =~= seq![s[0]] + replace(s.drop_first(), p, r));
        assert(w + replace(x, p, r) =~= seq![w[0]] + (w1 + replace(x, p, r)));
    }
}

/// Two sequences that differ at an index both have are not prefixes of each other.
pub proof fn lemma_differ_at(b: Seq<char>, p: Seq<char>, i: int)
    requires
        0 <= i < b.len(),
        i < p.len(),
        b[i] != p[i],
    ensures
        !starts_with(b, p),
        !starts_with(p, b),
{
    if starts_with(b, p) {
        assert(b.take(p.len() as int)[i] == p[i]);
    }
    if starts_with(p, b) {
        assert(p.take(b.len() as int)[i] == b[i]);
    }
}

/// The lexicographic order is transitive.
pub proof fn lemma_seq_lt_trans(x: Seq<char>, y: Seq<char>, z: Seq<char>)
    requires
        seq_lt(x, y),
        seq_lt(y, z),
    ensures
        seq_lt(x, z),
    decreases x.len(),
{
    if x.len() > 0 && x[0] == y[0] && y[0] == z[0] {
        lemma_seq_lt_trans(x.drop_first(), y.drop_first(), z.drop_first());
    }
}

/// The lexicographic order is asymmetric.
pub proof fn lemma_seq_lt_asym(x: Seq<char>, y: Seq<char>)
    ensures
        !(seq_lt(x, y) && seq_lt(y, x)),
    decreases x.len(),
{
    if x.len() > 0 && y.len() > 0 && x[0] == y[0] {
        lemma_seq_lt_asym(x.drop_first(), y.drop_first());
    }
}

/// Two sequences neither of which sorts before the other are equal.
pub proof fn lemma_seq_lt_total(x: Seq<char>, y: Seq<char>)
    requires
        !seq_lt(x, y),
        !seq_lt(y, x),
    ensures
        x =~= y,
    decreases x.len(),
{
    if x.len() > 0 && y.len() > 0 {
        lemma_seq_lt_total(x.drop_first(), y.drop_first());
        assert(x =~= seq![x[0]] + x.drop_first());
        assert(y =~= seq![y[0]] + y.drop_first());
    }
}

/// `seq_le` is transitive.
pub proof fn lemma_seq_le_trans(x: Seq<char>, y: Seq<char>, z: Seq<char>)
    requires
        seq_le(x, y),
        seq_le(y, z),
    ensures
        seq_le(x, z),
{
    if seq_lt(z, x) {
        if seq_lt(x, y) {
            lemma_seq_lt_trans(z, x, y);
        } else {
            lemma_seq_lt_total(x, y);
        }
    }
}

/// Joining with a separator, taken from the front.
pub proof fn lemma_join_front(a: Seq<char>, rest: Seq<Seq<char>>, sep: Seq<char>)
    requires
        rest.len() > 0,
    ensures
        join(seq![a] + rest, sep) == a + sep + join(rest, sep),
    decreases rest.len(),
{
    let all = seq![a] + rest;
    if rest.len() == 1 {
        assert(all.drop_last() =~= seq![a]);
        assert(all.last() == rest[0]);
        assert(join(seq![a], sep) == a);
        assert(join(all, sep) == join(all.drop_last(), sep) + sep + all.last());
    } else {
        lemma_join_front(a, rest.drop_last(), sep);
        assert(all.drop_last() =~= seq![a] + rest.drop_last());
        assert(all.last() == rest.last());
        assert(join(all, sep) == join(all.drop_last(), sep) + sep + all.last());
        assert(join(rest, sep) == join(rest.drop_last(), sep) + sep + rest.last());
        assert(a + sep + join(rest, sep) =~= (a + sep + join(rest.drop_last(), sep)) + sep + rest.last());
    }
}

/// A text without `\r` that does not end with `\n` is its lines joined
/// with `\n`.
pub proof fn lemma_join_lines(s: Seq<char>)
    requires
        !s.contains('\r'),
        s.len() == 0 || s.last() != '\n',
    ensures
        join(lines(s), seq!['\n']) == s,
    decreases s.len(),
{
    if s.len() > 0 {
        match find(s, seq!['\n']) {
            None => {},
            Some(i) => {
                lemma_find_from_bounds(s, seq!['\n'], 0);
                assert(s.skip(i).take(1)[0] == s[i]);
                let rest = s.skip(i + 1);
                assert(i < s.len() - 1);
                assert(!rest.contains('\r')) by {
                    if rest.contains('\r') {
                        let w = choose|w: int| 0 <= w < rest.len() && rest[w] == '\r';
                        assert(s[w + i + 1] == '\r');
                    }
                }
                assert(rest.last() == s.last());
                lemma_join_lines(rest);
                let head = s.take(i);
                assert(strip_cr(head) == head) by {
                    if head.len() > 0 && head.last() == '\r' {
                        assert(s[i - 1] == '\r');
                    }
                }
                assert(lines(s) == seq![head] + lines(rest));
                assert(lines(rest).len() > 0);
                lemma_join_front(head, lines(rest), seq!['\n']);
                assert(s =~= head + seq!['\n'] + rest);
            },
        }
    }
}

// ------------------------------------------------------------------------
// Conversions
// ------------------------------------------------------------------------
/// Appends one character to a `String` (`String::push`).
#[verifier::external_body]
pub(crate) fn push_char(s: &mut String, c: char)
    ensures
        final(s)@ == old(s)@.push(c),
{
    s.push(c);
}

/// The characters of a string slice, in order.
pub fn chars_of(s: &str) -> (v: Vec<char>)
    ensures
        v@ == s@,
{
    let mut v: Vec<char> = Vec::new();
    for c in it: s.chars()
        invariant
            v@ == it.seq().take(it.index()),
            it.seq() == s@,
    {
        v.push(c);
    }
    v
}

/// A string holding exactly the given characters.
pub fn string_of(v: &Vec<char>) -> (s: String)
    ensures
        s@ == v@,
{
    let mut s = String::new();
    let mut i: usize = 0;
    while i < v.len()
        invariant
            i <= v.len(),
            s@ == v@.take(i as int),
        decreases v.len() - i,
    {
        push_char(&mut s, v[i]);
        assert(v@.take(i + 1) == v@.take(i as int).push(v@[i as int]));
        i += 1;
    }
    assert(v@.take(v.len() as int) == v@);
    s
}

/// Appends the characters of `b` to `a`.
pub fn append_chars(a: &mut Vec<char>, b: &Vec<char>)
    ensures
        final(a)@ == old(a)@ + b@,
{
    let mut i: usize = 0;
    while i < b.len()
        invariant
            i <= b.len(),
            a@ == old(a)@ + b@.take(i as int),
        decreases b.len() - i,
    {
        a.push(b[i]);
        assert(b@.take(i + 1) == b@.take(i as int).push(b@[i as int]));
        i += 1;
    }
    assert(b@.take(b.len() as int) == b@);
}

/// Appends the characters of `b` to `a`.
pub fn append_str(a: &mut Vec<char>, b: &str)
    ensures
        final(a)@ == old(a)@ + b@,
{
    let bv = chars_of(b);
    append_chars(a, &bv);
}

/// Characters `from..to` of `s`.
pub fn slice(s: &Vec<char>, from: usize, to: usize) -> (r: Vec<char>)
    requires
        from <= to <= s.len(),
    ensures
        r@ == s@.subrange(from as int, to as int),
{
    let mut r: Vec<char> = Vec::new();
    let mut i = from;
    while i < to
        invariant
            from <= i <= to <= s.len(),
            r@ == s@.subrange(from as int, i as int),
        decreases to - i,
    {
        r.push(s[i]);
        assert(s@.subrange(from as int, i + 1) == s@.subrange(from as int, i as int).push(s@[i as int]));
        i += 1;
    }
    r
}

/// Whether two character sequences are equal.
pub fn chars_eq(a: &Vec<char>, b: &Vec<char>) -> (r: bool)
    ensures
        r == (a@ == b@),
{
    if a.len() != b.len() {
        return false;
    }
    let mut i: usize = 0;
    while i < a.len()
        invariant
            a.len() == b.len(),
            i <= a.len(),
            forall|j: int| 0 <= j < i ==> a@[j] == b@[j],
        decreases a.len() - i,
    {
        if a[i] != b[i] {
            return false;
        }
        i += 1;
    }
    assert(a@ =~= b@);
    true
}

/// Whether `s` equals the literal `lit`.
pub fn eq_str(s: &Vec<char>, lit: &str) -> (r: bool)
    ensures
        r == (s@ == lit@),
{
    let l = chars_of(lit);
    chars_eq(s, &l)
}

/// Whether two strings are equal.
pub fn strings_eq(a: &String, b: &String) -> (r: bool)
    ensures
        r == (a@ == b@),
{
    a.eq(b)
}

// ------------------------------------------------------------------------
// Searching
// ------------------------------------------------------------------------
/// Whether `p` occurs in `s` at position `i`.
pub fn matches_at(s: &Vec<char>, i: usize, p: &Vec<char>) -> (r: bool)
    requires
        i <= s.len(),
    ensures
        r == starts_with(s@.skip(i as int), p@),
{
    if p.len() > s.len() - i {
        return false;
    }
    let mut j: usize = 0;
    while j < p.len()
        invariant
            i + p.len() <= s.len(),
            j <= p.len(),
            forall|k: int| 0 <= k < j ==> s@[i + k] == p@[k],
        decreases p.len() - j,
    {
        if s[i + j] != p[j] {
            assert(s@.skip(i as int).take(p.len() as int)[j as int] != p@[j as int]);
            return false;
        }
        j += 1;
    }
    assert(s@.skip(i as int).take(p.len() as int) =~= p@);
    true
}

/// Whether `s` begins with `p`.
pub fn has_prefix(s: &Vec<char>, p: &Vec<char>) -> (r: bool)
    ensures
        r == starts_with(s@, p@),
{
    assert(s@.skip(0) =~= s@);
    matches_at(s, 0, p)
}

/// Whether `s` begins with the literal `p`.
pub fn has_prefix_str(s: &Vec<char>, p: &str) -> (r: bool)
    ensures
        r == starts_with(s@, p@),
{
    let pv = chars_of(p);
    has_prefix(s, &pv)
}

/// Whether `s` ends with `p`.
pub fn has_suffix(s: &Vec<char>, p: &Vec<char>) -> (r: bool)
    ensures
        r == ends_with(s@, p@),
{
    if p.len() > s.len() {
        return false;
    }
    let r = matches_at(s, s.len() - p.len(), p);
    proof {
        let t = s@.skip(s@.len() - p@.len());
        assert(t.take(p@.len() as int) =~= t);
    }
    r
}

/// The index of the first occurrence of `p` in `s` at or after `from`.
pub fn find_from_exec(s: &Vec<char>, p: &Vec<char>, from: usize) -> (r: Option<usize>)
    requires
        from <= s.len(),
    ensures
        r matches Some(i) ==> find_from(s@, p@, from as int) == Some(i as int),
        r is None ==> find_from(s@, p@, from as int) is None,
{
    let mut i = from;
    while i <= s.len()
        invariant
            from <= i <= s.len() + 1,
            find_from(s@, p@, from as int) == find_from(s@, p@, i as int),
        decreases s.len() + 1 - i,
    {
        if p.len() > s.len() - i {
            return None;
        }
        if matches_at(s, i, p) {
            return Some(i);
        }
        i += 1;
    }
    None
}

/// The index of the first occurrence of `p` in `s`.
pub fn find_exec(s: &Vec<char>, p: &Vec<char>) -> (r: Option<usize>)
    ensures
        r matches Some(i) ==> find(s@, p@) == Some(i as int),
        r is None ==> find(s@, p@) is None,
{
    find_from_exec(s, p, 0)
}

/// Whether `p` occurs in `s`.
pub fn contains_exec(s: &Vec<char>, p: &Vec<char>) -> (r: bool)
    ensures
        r == contains(s@, p@),
{
    find_exec(s, p).is_some()
}

/// Whether the literal `p` occurs in `s`.
pub fn contains_str(s: &Vec<char>, p: &str) -> (r: bool)
    ensures
        r == contains(s@, p@),
{
    let pv = chars_of(p);
    contains_exec(s, &pv)
}


// ------------------------------------------------------------------------
// Transformations
// ------------------------------------------------------------------------
/// Whether `c` is whitespace (`char::is_whitespace`).
pub fn is_ws_exec(c: char) -> (r: bool)
    ensures
        r == is_ws(c),
{
    c == ' ' || c == '\t' || c == '\n' || c == '\x0B' || c == '\x0C' || c == '\r' || c == '\u{85}'
        || c == '\u{A0}' || c == '\u{1680}' || ('\u{2000}' <= c && c <= '\u{200A}') || c
        == '\u{2028}' || c == '\u{2029}' || c == '\u{202F}' || c == '\u{205F}' || c == '\u{3000}'
}

/// `s` without leading whitespace.
pub fn trim_start_exec(s: &Vec<char>) -> (r: Vec<char>)
    ensures
        r@ == trim_start(s@),
{
    let mut i: usize = 0;
    assert(s@.skip(0) =~= s@);
    while i < s.len() && is_ws_exec(s[i])
        invariant
            i <= s.len(),
            trim_start(s@) == trim_start(s@.skip(i as int)),
        decreases s.len() - i,
    {
        assert(s@.skip(i as int).drop_first() =~= s@.skip(i + 1));
        i += 1;
    }
    slice(s, i, s.len())
}

/// `s` without trailing whitespace.
pub fn trim_end_exec(s: &Vec<char>) -> (r: Vec<char>)
    ensures
        r@ == trim_end(s@),
{
    let mut n: usize = s.len();
    assert(s@.take(s.len() as int) =~= s@);
    while n > 0 && is_ws_exec(s[n - 1])
        invariant
            n <= s.len(),
            trim_end(s@) == trim_end(s@.take(n as int)),
        decreases n,
    {
        assert(s@.take(n as int).drop_last() =~= s@.take(n - 1));
        n -= 1;
    }
    slice(s, 0, n)
}

/// `s` without leading and trailing whitespace.
pub fn trim_exec(s: &Vec<char>) -> (r: Vec<char>)
    ensures
        r@ == trim(s@),
{
    let a = trim_start_exec(s);
    trim_end_exec(&a)
}

/// `s` with all leading repetitions of `p` removed.
pub fn trim_start_matches_exec(s: &Vec<char>, p: &Vec<char>) -> (r: Vec<char>)
    ensures
        r@ == trim_start_matches(s@, p@),
{
    if p.len() == 0 {
        return slice(s, 0, s.len());
    }
    let mut i: usize = 0;
    assert(s@.skip(0) =~= s@);
    while matches_at(s, i, p)
        invariant
            i <= s.len(),
            p.len() > 0,
            trim_start_matches(s@, p@) == trim_start_matches(s@.skip(i as int), p@),
        decreases s.len() - i,
    {
        proof {
            lemma_skip_skip(s@, i as int, p.len() as int);
        }
        i += p.len();
    }
    slice(s, i, s.len())
}

/// `s` with all trailing repetitions of `p` removed.
pub fn trim_end_matches_exec(s: &Vec<char>, p: &Vec<char>) -> (r: Vec<char>)
    ensures
        r@ == trim_end_matches(s@, p@),
{
    if p.len() == 0 {
        return slice(s, 0, s.len());
    }
    let mut n: usize = s.len();
    assert(s@.take(s.len() as int) =~= s@);
    loop
        invariant
            n <= s.len(),
            p.len() > 0,
            trim_end_matches(s@, p@) == trim_end_matches(s@.take(n as int), p@),
        decreases n,
    {
        let cur = slice(s, 0, n);
        if !has_suffix(&cur, p) {
            assert(cur@ =~= s@.take(n as int));
            assert(trim_end_matches(s@.take(n as int), p@) == s@.take(n as int));
            return cur;
        }
        assert(s@.take(n as int).take(n - p.len()) =~= s@.take(n - p.len()));
        n -= p.len();
    }
}

/// `s` with all leading and trailing occurrences of `c` removed.
pub fn trim_matches_char_exec(s: &Vec<char>, c: char) -> (r: Vec<char>)
    ensures
        r@ == trim_matches_char(s@, c),
{
    let mut cv: Vec<char> = Vec::new();
    cv.push(c);
    assert(cv@ =~= seq![c]);
    let a = trim_start_matches_exec(s, &cv);
    trim_end_matches_exec(&a, &cv)
}

/// Every occurrence of `p` in `s` replaced by `r`.
pub fn replace_exec(s: &Vec<char>, p: &Vec<char>, r: &Vec<char>) -> (out: Vec<char>)
    ensures
        out@ == replace(s@, p@, r@),
{
    let mut out: Vec<char> = Vec::new();
    let mut i: usize = 0;
    assert(s@.skip(0) =~= s@);
    while i < s.len()
        invariant
            i <= s.len(),
            replace(s@, p@, r@) == out@ + replace(s@.skip(i as int), p@, r@),
        decreases s.len() - i,
    {
        let ghost rest = s@.skip(i as int);
        if p.len() == 0 {
            append_chars(&mut out, r);
            out.push(s[i]);
            assert(rest.drop_first() =~= s@.skip(i + 1));
            assert(replace(rest, p@, r@) == r@ + seq![rest[0]] + replace(rest.drop_first(), p@, r@));
            assert(out@ + replace(s@.skip(i + 1), p@, r@) =~= old_out_helper(out@, r@, rest[0]) + replace(s@.skip(i + 1), p@, r@)) by {
            }
            i += 1;
        } else if matches_at(s, i, p) {
            append_chars(&mut out, r);
            proof {
                lemma_skip_skip(s@, i as int, p.len() as int);
            }
            i += p.len();
        } else {
            out.push(s[i]);
            assert(rest.drop_first() =~= s@.skip(i + 1));
            i += 1;
        }
    }
    if p.len() == 0 {
        append_chars(&mut out, r);
    }
    out
}

spec fn old_out_helper(o: Seq<char>, r: Seq<char>, c: char) -> Seq<char> {
    o
}

/// Every occurrence of the literal `p` in `s` replaced by the literal `r`.
pub fn replace_str(s: &Vec<char>, p: &str, r: &str) -> (out: Vec<char>)
    ensures
        out@ == replace(s@, p@, r@),
{
    let pv = chars_of(p);
    let rv = chars_of(r);
    replace_exec(s, &pv, &rv)
}

/// Every `a` or `b` in `s` replaced by `r`.
pub fn replace_chars2_exec(s: &Vec<char>, a: char, b: char, r: char) -> (out: Vec<char>)
    ensures
        out@ == replace_chars2(s@, a, b, r),
{
    let mut out: Vec<char> = Vec::new();
    let mut i: usize = 0;
    while i < s.len()
        invariant
            i <= s.len(),
            out@ =~= replace_chars2(s@.take(i as int), a, b, r),
        decreases s.len() - i,
    {
        let c = s[i];
        if c == a || c == b {
            out.push(r);
        } else {
            out.push(c);
        }
        assert(s@.take(i + 1) =~= s@.take(i as int).push(c));
        i += 1;
    }
    assert(s@.take(s.len() as int) =~= s@);
    out
}

/// The lines of `s`, as `str::lines` yields them.
pub fn lines_exec(s: &Vec<char>) -> (out: Vec<Vec<char>>)
    ensures
        out@.len() == lines(s@).len(),
        forall|i: int| 0 <= i < out@.len() ==> #[trigger] out@[i]@ == lines(s@)[i],
{
    let mut out: Vec<Vec<char>> = Vec::new();
    let mut nl: Vec<char> = Vec::new();
    nl.push('\n');
    assert(nl@ =~= seq!['\n']);
    let mut i: usize = 0;
    let ghost done: Seq<Seq<char>> = seq![];
    assert(s@.skip(0) =~= s@);
    while i < s.len()
        invariant
            i <= s.len(),
            nl@ == seq!['\n'],
            out@.len() == done.len(),
            forall|k: int| 0 <= k < out@.len() ==> #[trigger] out@[k]@ == done[k],
            lines(s@) == done + lines(s@.skip(i as int)),
        decreases s.len() - i,
    {
        let ghost rest = s@.skip(i as int);
        match find_from_exec(s, &nl, i) {
            None => {
                proof {
                    lemma_find_from_shift(s@, nl@, i as int);
                }
                let piece = slice(s, i, s.len());
                assert(piece@ =~= rest);
                out.push(piece);
                proof {
                    done = done.push(rest);
                }
                assert(lines(s@.skip(s.len() as int)) =~= seq![]) by {
                    assert(s@.skip(s.len() as int) =~= Seq::<char>::empty());
                }
                assert(lines(s@) =~= done + lines(s@.skip(s.len() as int)));
                i = s.len();
            },
            Some(j) => {
                proof {
                    lemma_find_from_shift(s@, nl@, i as int);
                    lemma_find_from_bounds(s@, nl@, i as int);
                }
                let raw = slice(s, i, j);
                let piece = if raw.len() > 0 && raw[raw.len() - 1] == '\r' {
                    slice(&raw, 0, raw.len() - 1)
                } else {
                    raw
                };
                assert(raw@ =~= rest.take(j - i));
                assert(piece@ =~= strip_cr(rest.take(j - i)));
                assert(rest.skip(j - i + 1) =~= s@.skip(j + 1));
                out.push(piece);
                proof {
                    done = done.push(strip_cr(rest.take(j - i)));
                }
                assert(lines(s@) =~= done + lines(s@.skip(j + 1)));
                i = j + 1;
            },
        }
    }
    assert(s@.skip(i as int) =~= Seq::<char>::empty());
    assert(done =~= lines(s@));
    out
}

/// The pieces of `s` between occurrences of the non-empty `p`.
pub fn split_exec(s: &Vec<char>, p: &Vec<char>) -> (out: Vec<Vec<char>>)
    requires
        p.len() > 0,
    ensures
        out@.len() == split(s@, p@).len(),
        forall|i: int| 0 <= i < out@.len() ==> #[trigger] out@[i]@ == split(s@, p@)[i],
{
    let mut out: Vec<Vec<char>> = Vec::new();
    let mut i: usize = 0;
    let ghost done: Seq<Seq<char>> = seq![];
    assert(s@.skip(0) =~= s@);
    loop
        invariant
            i <= s.len(),
            p.len() > 0,
            out@.len() == done.len(),
            forall|k: int| 0 <= k < out@.len() ==> #[trigger] out@[k]@ == done[k],
            split(s@, p@) == done + split(s@.skip(i as int), p@),
        decreases s.len() - i,
    {
        let ghost rest = s@.skip(i as int);
        match find_from_exec(s, p, i) {
            None => {
                proof {
                    lemma_find_from_shift(s@, p@, i as int);
                }
                let piece = slice(s, i, s.len());
                assert(piece@ =~= rest);
                out.push(piece);
                proof {
                    done = done.push(rest);
                }
                assert(split(s@, p@) =~= done);
                return out;
            },
            Some(j) => {
                proof {
                    lemma_find_from_shift(s@, p@, i as int);
                    lemma_find_from_bounds(s@, p@, i as int);
                }
                let piece = slice(s, i, j);
                assert(piece@ =~= rest.take(j - i));
                assert(rest.skip(j - i + p.len()) =~= s@.skip(j + p.len()));
                out.push(piece);
                proof {
                    done = done.push(rest.take(j - i));
                }
                assert(split(s@, p@) =~= done + split(s@.skip(j + p.len()), p@));
                i = j + p.len();
            },
        }
    }
}

/// The text before the first occurrence of the literal `p` in `s`.
pub fn before_str(s: &Vec<char>, p: &str) -> (out: Vec<char>)
    ensures
        out@ == before(s@, p@),
{
    let pv = chars_of(p);
    match find_exec(s, &pv) {
        None => slice(s, 0, s.len()),
        Some(i) => {
            proof {
                lemma_find_from_bounds(s@, p@, 0);
            }
            slice(s, 0, i)
        },
    }
}

/// The text between the first and second occurrences of the literal `p` in `s`.
pub fn second_piece_str(s: &Vec<char>, p: &str) -> (out: Option<Vec<char>>)
    ensures
        out matches Some(v) ==> second_piece(s@, p@) == Some(v@),
        out is None ==> second_piece(s@, p@) is None,
{
    let pv = chars_of(p);
    match find_exec(s, &pv) {
        None => None,
        Some(i) => {
            proof {
                lemma_find_from_bounds(s@, p@, 0);
            }
            assert(find(s@, p@) == Some(i as int));
            assert(i + p@.len() <= s@.len());
            assert(pv@.len() == p@.len());
            let plen = pv.len();
            assert(plen == p@.len());
            assert(i + plen <= s.len());
            let start: usize = i + plen;
            let rest = slice(s, start, s.len());
            assert(rest@ =~= s@.skip(i + p@.len()));
            Some(before_str(&rest, p))
        },
    }
}

/// The whitespace-separated words of `s`.
pub fn words_exec(s: &Vec<char>) -> (out: Vec<Vec<char>>)
    ensures
        out@.len() == words(s@).len(),
        forall|i: int| 0 <= i < out@.len() ==> #[trigger] out@[i]@ == words(s@)[i],
{
    let mut out: Vec<Vec<char>> = Vec::new();
    let mut cur = slice(s, 0, s.len());
    let ghost done: Seq<Seq<char>> = seq![];
    assert(s@.subrange(0, s@.len() as int) =~= s@);
    assert(words(s@) =~= done + words(cur@));
    loop
        invariant
            out@.len() == done.len(),
            forall|k: int| 0 <= k < out@.len() ==> #[trigger] out@[k]@ == done[k],
            words(s@) == done + words(cur@),
        decreases cur@.len(),
    {
        let t = trim_start_exec(&cur);
        proof {
            lemma_trim_start_props(cur@);
        }
        if t.len() == 0 {
            assert(words(cur@) =~= seq![]);
            assert(words(s@) =~= done);
            return out;
        }
        let mut w: usize = 0;
        while w < t.len() && !is_ws_exec(t[w])
            invariant
                w <= t.len(),
                word_len(t@, 0) == word_len(t@, w as int),
            decreases t.len() - w,
        {
            w += 1;
        }
        proof {
            lemma_word_len(t@, 0);
        }
        let word = slice(&t, 0, w);
        let next = slice(&t, w, t.len());
        out.push(word);
        proof {
            done = done.push(t@.take(w as int));
        }
        assert(words(s@) =~= done + words(next@));
        cur = next;
    }
}

/// The pieces joined with `sep`.
pub fn join_exec(parts: &Vec<Vec<char>>, sep: &Vec<char>) -> (out: Vec<char>)
    ensures
        out@ == join(parts@.map_values(|v: Vec<char>| v@), sep@),
{
    let ghost ps = parts@.map_values(|v: Vec<char>| v@);
    let mut out: Vec<char> = Vec::new();
    let mut i: usize = 0;
    while i < parts.len()
        invariant
            i <= parts.len(),
            ps == parts@.map_values(|v: Vec<char>| v@),
            out@ == join(ps.take(i as int), sep@),
        decreases parts.len() - i,
    {
        if i > 0 {
            append_chars(&mut out, sep);
        }
        append_chars(&mut out, &parts[i]);
        assert(ps.take(i + 1).drop_last() =~= ps.take(i as int));
        i += 1;
    }
    assert(ps.take(parts.len() as int) =~= ps);
    out
}

/// The decimal representation of `n`.
pub fn decimal_exec(n: usize) -> (out: Vec<char>)
    ensures
        out@ == decimal(n as nat),
    decreases n,
{
    let d = n % 10;
    let c = if d == 0 { '0' } else if d == 1 { '1' } else if d == 2 { '2' } else if d == 3 {
        '3'
    } else if d == 4 { '4' } else if d == 5 { '5' } else if d == 6 { '6' } else if d == 7 {
        '7'
    } else if d == 8 { '8' } else { '9' };
    if n < 10 {
        let mut v: Vec<char> = Vec::new();
        v.push(c);
        assert(v@ =~= seq![digit_char(n as nat)]);
        v
    } else {
        let mut v = decimal_exec(n / 10);
        v.push(c);
        v
    }
}

/// Whether `a` sorts strictly before `b` (lexicographic by character).
pub fn chars_lt(a: &Vec<char>, b: &Vec<char>) -> (r: bool)
    ensures
        r == seq_lt(a@, b@),
{
    let mut i: usize = 0;
    assert(a@.skip(0) =~= a@);
    assert(b@.skip(0) =~= b@);
    while i < a.len() && i < b.len() && a[i] == b[i]
        invariant
            i <= a.len(),
            i <= b.len(),
            seq_lt(a@, b@) == seq_lt(a@.skip(i as int), b@.skip(i as int)),
        decreases a.len() - i,
    {
        assert(a@.skip(i as int).drop_first() =~= a@.skip(i + 1));
        assert(b@.skip(i as int).drop_first() =~= b@.skip(i + 1));
        i += 1;
    }
    if i == b.len() {
        false
    } else if i == a.len() {
        true
    } else {
        a[i] < b[i]
    }
}

} // verus!
