//! Character-level scanning used by the wire-format codecs: blank runs,
//! tokens, segment splitting on `;`, and trimming.

use vstd::prelude::*;

verus! {

/// The characters the codecs treat as blank space between fields.
pub open spec fn is_ws(c: char) -> bool {
    c == ' ' || c == '\t'
}

/// Length of the leading run of blank characters of `s`.
pub open spec fn ws_len(s: Seq<char>) -> int
    decreases s.len(),
{
    if s.len() == 0 || !is_ws(s[0]) {
        0
    } else {
        1 + ws_len(s.skip(1))
    }
}

/// Length of the leading run of non-blank characters of `s` (the first token).
pub open spec fn token_len(s: Seq<char>) -> int
    decreases s.len(),
{
    if s.len() == 0 || is_ws(s[0]) {
        0
    } else {
        1 + token_len(s.skip(1))
    }
}

/// Length of the prefix of `s` that stops at the first `;` (or the whole of
/// `s` when it has none).
pub open spec fn upto_semi(s: Seq<char>) -> int
    decreases s.len(),
{
    if s.len() == 0 || s[0] == ';' {
        0
    } else {
        1 + upto_semi(s.skip(1))
    }
}

pub proof fn lemma_ws_len(s: Seq<char>)
    ensures
        0 <= ws_len(s) <= s.len(),
        forall|i: int| 0 <= i < ws_len(s) ==> is_ws(#[trigger] s[i]),
        ws_len(s) < s.len() ==> !is_ws(s[ws_len(s)]),
    decreases s.len(),
{
    if s.len() == 0 || !is_ws(s[0]) {
    } else {
        lemma_ws_len(s.skip(1));
        assert forall|i: int| 0 <= i < ws_len(s) implies is_ws(#[trigger] s[i]) by {
            if i > 0 {
                assert(s.skip(1)[i - 1] == s[i]);
            }
        }
        if ws_len(s) < s.len() {
            assert(s.skip(1)[ws_len(s) - 1] == s[ws_len(s)]);
        }
    }
}

pub proof fn lemma_token_len(s: Seq<char>)
    ensures
        0 <= token_len(s) <= s.len(),
        forall|i: int| 0 <= i < token_len(s) ==> !is_ws(#[trigger] s[i]),
        token_len(s) < s.len() ==> is_ws(s[token_len(s)]),
    decreases s.len(),
{
    if s.len() == 0 || is_ws(s[0]) {
    } else {
        lemma_token_len(s.skip(1));
        assert forall|i: int| 0 <= i < token_len(s) implies !is_ws(#[trigger] s[i]) by {
            if i > 0 {
                assert(s.skip(1)[i - 1] == s[i]);
            }
        }
        if token_len(s) < s.len() {
            assert(s.skip(1)[token_len(s) - 1] == s[token_len(s)]);
        }
    }
}

pub proof fn lemma_upto_semi(s: Seq<char>)
    ensures
        0 <= upto_semi(s) <= s.len(),
        forall|i: int| 0 <= i < upto_semi(s) ==> #[trigger] s[i] != ';',
        upto_semi(s) < s.len() ==> s[upto_semi(s)] == ';',
    decreases s.len(),
{
    if s.len() == 0 || s[0] == ';' {
    } else {
        lemma_upto_semi(s.skip(1));
        assert forall|i: int| 0 <= i < upto_semi(s) implies #[trigger] s[i] != ';' by {
            if i > 0 {
                assert(s.skip(1)[i - 1] == s[i]);
            }
        }
        if upto_semi(s) < s.len() {
            assert(s.skip(1)[upto_semi(s) - 1] == s[upto_semi(s)]);
        }
    }
}

/// A token starts with its whole non-blank prefix: scanning `a + b` where `a`
/// is non-blank throughout and `b` does not begin with a token character
/// yields exactly `a`.
pub proof fn lemma_token_len_concat(a: Seq<char>, b: Seq<char>)
    requires
        forall|i: int| 0 <= i < a.len() ==> !is_ws(#[trigger] a[i]),
        b.len() == 0 || is_ws(b[0]),
    ensures
        token_len(a + b) == a.len(),
    decreases a.len(),
{
    if a.len() == 0 {
        assert(a + b =~= b);
    } else {
        assert((a + b)[0] == a[0]);
        assert((a + b).skip(1) =~= a.skip(1) + b);
        assert forall|i: int| 0 <= i < a.skip(1).len() implies !is_ws(#[trigger] a.skip(1)[i]) by {
            assert(a.skip(1)[i] == a[i + 1]);
        }
        lemma_token_len_concat(a.skip(1), b);
    }
}

/// Scanning for `;` over `a + b` where `a` holds none stops where it stops
/// in `b`.
pub proof fn lemma_upto_semi_concat(a: Seq<char>, b: Seq<char>)
    requires
        forall|i: int| 0 <= i < a.len() ==> #[trigger] a[i] != ';',
    ensures
        upto_semi(a + b) == a.len() + upto_semi(b),
    decreases a.len(),
{
    if a.len() == 0 {
        assert(a + b =~= b);
    } else {
        assert((a + b)[0] == a[0]);
        assert((a + b).skip(1) =~= a.skip(1) + b);
        assert forall|i: int| 0 <= i < a.skip(1).len() implies #[trigger] a.skip(1)[i] != ';' by {
            assert(a.skip(1)[i] == a[i + 1]);
        }
        lemma_upto_semi_concat(a.skip(1), b);
    }
}

/// Blank-run scanning is not fooled by what comes after a non-blank start.
pub proof fn lemma_ws_len_concat(a: Seq<char>, b: Seq<char>)
    requires
        forall|i: int| 0 <= i < a.len() ==> is_ws(#[trigger] a[i]),
        b.len() == 0 || !is_ws(b[0]),
    ensures
        ws_len(a + b) == a.len(),
    decreases a.len(),
{
    if a.len() == 0 {
        assert(a + b =~= b);
    } else {
        assert((a + b)[0] == a[0]);
        assert((a + b).skip(1) =~= a.skip(1) + b);
        assert forall|i: int| 0 <= i < a.skip(1).len() implies is_ws(#[trigger] a.skip(1)[i]) by {
            assert(a.skip(1)[i] == a[i + 1]);
        }
        lemma_ws_len_concat(a.skip(1), b);
    }
}

/// Length of the trailing run of blank characters of `s`.
pub open spec fn tail_ws_len(s: Seq<char>) -> int
    decreases s.len(),
{
    if s.len() == 0 || !is_ws(s[s.len() - 1]) {
        0
    } else {
        1 + tail_ws_len(s.take(s.len() - 1))
    }
}

/// `s` with its leading and trailing blank runs removed.
pub open spec fn trim(s: Seq<char>) -> Seq<char> {
    if ws_len(s) == s.len() {
        Seq::empty()
    } else {
        s.subrange(ws_len(s), s.len() - tail_ws_len(s))
    }
}

pub proof fn lemma_tail_ws_len(s: Seq<char>)
    ensures
        0 <= tail_ws_len(s) <= s.len(),
        forall|i: int| s.len() - tail_ws_len(s) <= i < s.len() ==> is_ws(#[trigger] s[i]),
        tail_ws_len(s) < s.len() ==> !is_ws(s[s.len() - tail_ws_len(s) - 1]),
    decreases s.len(),
{
    if s.len() == 0 || !is_ws(s[s.len() - 1]) {
    } else {
        lemma_tail_ws_len(s.take(s.len() - 1));
        assert forall|i: int| s.len() - tail_ws_len(s) <= i < s.len() implies is_ws(
            #[trigger] s[i],
        ) by {
            if i < s.len() - 1 {
                assert(s.take(s.len() - 1)[i] == s[i]);
            }
        }
        if tail_ws_len(s) < s.len() {
            assert(s.take(s.len() - 1)[s.len() - tail_ws_len(s) - 1] == s[s.len() - tail_ws_len(
                s,
            ) - 1]);
        }
    }
}

/// The blank-run scans pin each other down: a prefix of blanks stopped by a
/// non-blank (or the end) is exactly the leading run.
pub proof fn lemma_ws_len_is(t: Seq<char>, m: int)
    requires
        0 <= m <= t.len(),
        forall|k: int| 0 <= k < m ==> is_ws(#[trigger] t[k]),
        m == t.len() || !is_ws(t[m]),
    ensures
        ws_len(t) == m,
    decreases m,
{
    if m == 0 {
    } else {
        assert(is_ws(t[0]));
        assert forall|k: int| 0 <= k < m - 1 implies is_ws(#[trigger] t.skip(1)[k]) by {
            assert(t.skip(1)[k] == t[k + 1]);
        }
        if m < t.len() {
            assert(t.skip(1)[m - 1] == t[m]);
        }
        lemma_ws_len_is(t.skip(1), m - 1);
    }
}

pub proof fn lemma_token_len_is(t: Seq<char>, m: int)
    requires
        0 <= m <= t.len(),
        forall|k: int| 0 <= k < m ==> !is_ws(#[trigger] t[k]),
        m == t.len() || is_ws(t[m]),
    ensures
        token_len(t) == m,
    decreases m,
{
    if m == 0 {
    } else {
        assert(!is_ws(t[0]));
        assert forall|k: int| 0 <= k < m - 1 implies !is_ws(#[trigger] t.skip(1)[k]) by {
            assert(t.skip(1)[k] == t[k + 1]);
        }
        if m < t.len() {
            assert(t.skip(1)[m - 1] == t[m]);
        }
        lemma_token_len_is(t.skip(1), m - 1);
    }
}

pub proof fn lemma_upto_semi_is(t: Seq<char>, m: int)
    requires
        0 <= m <= t.len(),
        forall|k: int| 0 <= k < m ==> #[trigger] t[k] != ';',
        m == t.len() || t[m] == ';',
    ensures
        upto_semi(t) == m,
    decreases m,
{
    if m == 0 {
    } else {
        assert(t[0] != ';');
        assert forall|k: int| 0 <= k < m - 1 implies #[trigger] t.skip(1)[k] != ';' by {
            assert(t.skip(1)[k] == t[k + 1]);
        }
        if m < t.len() {
            assert(t.skip(1)[m - 1] == t[m]);
        }
        lemma_upto_semi_is(t.skip(1), m - 1);
    }
}

pub proof fn lemma_tail_ws_len_is(t: Seq<char>, m: int)
    requires
        0 <= m <= t.len(),
        forall|k: int| t.len() - m <= k < t.len() ==> is_ws(#[trigger] t[k]),
        m == t.len() || !is_ws(t[t.len() - m - 1]),
    ensures
        tail_ws_len(t) == m,
    decreases m,
{
    if m == 0 {
    } else {
        assert(is_ws(t[t.len() - 1]));
        let u = t.take(t.len() - 1);
        assert forall|k: int| u.len() - (m - 1) <= k < u.len() implies is_ws(#[trigger] u[k]) by {
            assert(u[k] == t[k]);
        }
        if m < t.len() {
            assert(u[u.len() - (m - 1) - 1] == t[t.len() - m - 1]);
        }
        lemma_tail_ws_len_is(u, m - 1);
    }
}

/// A segment that neither starts nor ends with a blank character is left
/// unchanged by trimming.
pub proof fn lemma_trim_stable(s: Seq<char>)
    requires
        s.len() == 0 || (!is_ws(s[0]) && !is_ws(s[s.len() - 1])),
    ensures
        trim(s) == s,
{
    if s.len() == 0 {
        assert(trim(s) =~= s);
    } else {
        assert(ws_len(s) == 0);
        assert(tail_ws_len(s) == 0);
        assert(trim(s) =~= s);
    }
}

/// Prepending one blank character does not change what trimming yields.
pub proof fn lemma_trim_prepend_ws(c: char, s: Seq<char>)
    requires
        is_ws(c),
    ensures
        trim(seq![c] + s) == trim(s),
{
    let w = seq![c] + s;
    assert(w[0] == c);
    assert(w.skip(1) =~= s);
    assert(ws_len(w) == 1 + ws_len(s));
    lemma_ws_len(s);
    if ws_len(s) == s.len() {
        assert(trim(s) =~= Seq::<char>::empty());
        assert(ws_len(w) == w.len());
        assert(trim(w) =~= Seq::<char>::empty());
    } else {
        lemma_tail_ws_concat(seq![c], s);
        lemma_tail_ws_len(s);
        assert(trim(w) =~= trim(s)) by {
            assert(trim(w) == w.subrange(1 + ws_len(s), w.len() - tail_ws_len(s)));
            assert forall|i: int| 0 <= i < trim(s).len() implies trim(w)[i] == trim(s)[i] by {
                assert(w[1 + ws_len(s) + i] == s[ws_len(s) + i]);
            }
        }
    }
}

/// The trailing blank run of `a + s` is that of `s` whenever `s` holds at
/// least one non-blank character.
pub proof fn lemma_tail_ws_concat(a: Seq<char>, s: Seq<char>)
    requires
        exists|i: int| 0 <= i < s.len() && !is_ws(#[trigger] s[i]),
    ensures
        tail_ws_len(a + s) == tail_ws_len(s),
    decreases s.len(),
{
    let w = a + s;
    let i0 = choose|i: int| 0 <= i < s.len() && !is_ws(#[trigger] s[i]);
    assert(w[a.len() + (s.len() - 1)] == s[s.len() - 1]);
    if !is_ws(s[s.len() - 1]) {
    } else {
        assert(0 <= i0 < s.len() - 1);
        assert(s.take(s.len() - 1)[i0] == s[i0]);
        assert(w.take(w.len() - 1) =~= a + s.take(s.len() - 1));
        lemma_tail_ws_concat(a, s.take(s.len() - 1));
    }
}

/// The first token of `s`, after skipping leading blanks.
pub open spec fn tok_of(s: Seq<char>) -> Seq<char> {
    let t = s.skip(ws_len(s));
    t.take(token_len(t))
}

/// What remains of `s` after its first token (the separator that follows the
/// token is kept).
pub open spec fn rest_of(s: Seq<char>) -> Seq<char> {
    let t = s.skip(ws_len(s));
    t.skip(token_len(t))
}

/// ASCII lowercase of one character; anything outside `A`..`Z` is kept.
pub open spec fn lower_char(c: char) -> char {
    match c {
        'A' => 'a',
        'B' => 'b',
        'C' => 'c',
        'D' => 'd',
        'E' => 'e',
        'F' => 'f',
        'G' => 'g',
        'H' => 'h',
        'I' => 'i',
        'J' => 'j',
        'K' => 'k',
        'L' => 'l',
        'M' => 'm',
        'N' => 'n',
        'O' => 'o',
        'P' => 'p',
        'Q' => 'q',
        'R' => 'r',
        'S' => 's',
        'T' => 't',
        'U' => 'u',
        'V' => 'v',
        'W' => 'w',
        'X' => 'x',
        'Y' => 'y',
        'Z' => 'z',
        _ => c,
    }
}

/// ASCII lowercase of a run of characters.
pub open spec fn lower(s: Seq<char>) -> Seq<char> {
    s.map_values(|c: char| lower_char(c))
}

fn lower_char_of(c: char) -> (r: char)
    ensures
        r == lower_char(c),
{
    match c {
        'A' => 'a',
        'B' => 'b',
        'C' => 'c',
        'D' => 'd',
        'E' => 'e',
        'F' => 'f',
        'G' => 'g',
        'H' => 'h',
        'I' => 'i',
        'J' => 'j',
        'K' => 'k',
        'L' => 'l',
        'M' => 'm',
        'N' => 'n',
        'O' => 'o',
        'P' => 'p',
        'Q' => 'q',
        'R' => 'r',
        'S' => 's',
        'T' => 't',
        'U' => 'u',
        'V' => 'v',
        'W' => 'w',
        'X' => 'x',
        'Y' => 'y',
        'Z' => 'z',
        _ => c,
    }
}

/// The ASCII lowercase of a segment.
pub fn lower_chars(v: &Vec<char>) -> (r: Vec<char>)
    ensures
        r@ == lower(v@),
{
    let n = v.len();
    let mut r: Vec<char> = Vec::new();
    let mut i: usize = 0;
    while i < n
        invariant
            i <= n,
            n == v.len(),
            r@ == lower(v@).take(i as int),
        decreases n - i,
    {
        let c = lower_char_of(v[i]);
        r.push(c);
        assert(r@ =~= lower(v@).take(i + 1));
        i = i + 1;
    }
    assert(r@ =~= lower(v@));
    r
}

/// The characters of `s`, one by one.
pub fn str_to_chars(s: &str) -> (v: Vec<char>)
    ensures
        v@ == s@,
{
    let n = s.unicode_len();
    let mut v: Vec<char> = Vec::new();
    let mut i: usize = 0;
    while i < n
        invariant
            i <= n,
            n == s@.len(),
            v@ == s@.take(i as int),
        decreases n - i,
    {
        let c = s.get_char(i);
        v.push(c);
        assert(v@ =~= s@.take(i + 1));
        i = i + 1;
    }
    assert(v@ =~= s@);
    v
}

/// Relies on `String: FromIterator<char>`: collecting characters yields the
/// string made of exactly those characters, in order.
#[verifier::external_body]
pub fn chars_to_string(v: &Vec<char>) -> (r: String)
    ensures
        r@ == v@,
{
    v.iter().collect()
}

/// Appends the characters of `s` to `out`.
pub fn append_str(out: &mut Vec<char>, s: &str)
    ensures
        final(out)@ == old(out)@ + s@,
{
    let n = s.unicode_len();
    let mut i: usize = 0;
    while i < n
        invariant
            i <= n,
            n == s@.len(),
            out@ == old(out)@ + s@.take(i as int),
        decreases n - i,
    {
        let c = s.get_char(i);
        out.push(c);
        assert(out@ =~= old(out)@ + s@.take(i + 1));
        i = i + 1;
    }
    assert(out@ =~= old(out)@ + s@);
}

/// Character-wise equality of a segment against a string.
pub fn eq_chars_str(a: &Vec<char>, s: &str) -> (r: bool)
    ensures
        r == (a@ == s@),
{
    let n = s.unicode_len();
    if a.len() != n {
        return false;
    }
    let mut i: usize = 0;
    while i < n
        invariant
            i <= n,
            n == a.len() == s@.len(),
            forall|k: int| 0 <= k < i ==> a@[k] == s@[k],
        decreases n - i,
    {
        if a[i] != s.get_char(i) {
            return false;
        }
        i = i + 1;
    }
    assert(a@ =~= s@);
    true
}

/// The characters of `v` between `a` (inclusive) and `b` (exclusive).
pub fn subvec(v: &Vec<char>, a: usize, b: usize) -> (r: Vec<char>)
    requires
        a <= b <= v.len(),
    ensures
        r@ == v@.subrange(a as int, b as int),
{
    let mut r: Vec<char> = Vec::new();
    let mut i = a;
    while i < b
        invariant
            a <= i <= b <= v.len(),
            r@ == v@.subrange(a as int, i as int),
        decreases b - i,
    {
        r.push(v[i]);
        assert(r@ =~= v@.subrange(a as int, i + 1));
        i = i + 1;
    }
    r
}

/// Reads the next blank-separated token of `v` starting at position `i`:
/// returns the token and the position just past it.
pub fn read_token(v: &Vec<char>, i: usize) -> (r: (Vec<char>, usize))
    requires
        i <= v.len(),
    ensures
        i <= r.1 <= v.len(),
        r.0@ == tok_of(v@.skip(i as int)),
        v@.skip(r.1 as int) == rest_of(v@.skip(i as int)),
{
    let ghost s = v@.skip(i as int);
    let n = v.len();
    let mut j = i;
    while j < n && (v[j] == ' ' || v[j] == '\t')
        invariant
            i <= j <= n,
            n == v.len(),
            forall|k: int| i <= k < j ==> is_ws(#[trigger] v@[k]),
        decreases n - j,
    {
        j = j + 1;
    }
    proof {
        assert forall|k: int| 0 <= k < j - i implies is_ws(#[trigger] s[k]) by {
            assert(s[k] == v@[i + k]);
        }
        if j < n {
            assert(s[j - i] == v@[j as int]);
        }
        lemma_ws_len_is(s, j - i);
    }
    let start = j;
    while j < n && !(v[j] == ' ' || v[j] == '\t')
        invariant
            start <= j <= n,
            n == v.len(),
            forall|k: int| start <= k < j ==> !is_ws(#[trigger] v@[k]),
        decreases n - j,
    {
        j = j + 1;
    }
    let ghost t = s.skip(ws_len(s));
    proof {
        assert(t =~= v@.skip(start as int));
        assert forall|k: int| 0 <= k < j - start implies !is_ws(#[trigger] t[k]) by {
            assert(t[k] == v@[start + k]);
        }
        if j < n {
            assert(t[j - start] == v@[j as int]);
        }
        lemma_token_len_is(t, j - start);
        assert(t.take(token_len(t)) =~= v@.subrange(start as int, j as int));
        assert(t.skip(token_len(t)) =~= v@.skip(j as int));
    }
    let tok = subvec(v, start, j);
    (tok, j)
}

/// Reading a token off `t + b`, where `t` is non-blank throughout and `b`
/// starts blank (or is empty), yields `t` and leaves `b`.
pub proof fn lemma_next_tok(t: Seq<char>, b: Seq<char>)
    requires
        t.len() > 0,
        forall|i: int| 0 <= i < t.len() ==> !is_ws(#[trigger] t[i]),
        b.len() == 0 || is_ws(b[0]),
    ensures
        tok_of(t + b) == t,
        rest_of(t + b) == b,
{
    let s = t + b;
    assert(s[0] == t[0]);
    assert(ws_len(s) == 0);
    assert(s.skip(0) =~= s);
    lemma_token_len_concat(t, b);
    assert(s.take(t.len() as int) =~= t);
    assert(s.skip(t.len() as int) =~= b);
}

/// Leading blanks do not change which token comes next nor what follows it.
pub proof fn lemma_tok_skip_ws(c: char, u: Seq<char>)
    requires
        is_ws(c),
    ensures
        tok_of(seq![c] + u) == tok_of(u),
        rest_of(seq![c] + u) == rest_of(u),
{
    let s = seq![c] + u;
    assert(s[0] == c);
    assert(s.skip(1) =~= u);
    assert(ws_len(s) == 1 + ws_len(u));
    lemma_ws_len(u);
    assert(s.skip(1 + ws_len(u)) =~= u.skip(ws_len(u)));
}

/// The bounds of `trim(v@.subrange(a, b))` inside `v`.
pub fn trim_range(v: &Vec<char>, a: usize, b: usize) -> (r: (usize, usize))
    requires
        a <= b <= v.len(),
    ensures
        a <= r.0 <= r.1 <= b,
        v@.subrange(r.0 as int, r.1 as int) == trim(v@.subrange(a as int, b as int)),
{
    let ghost s = v@.subrange(a as int, b as int);
    let mut lo = a;
    while lo < b && (v[lo] == ' ' || v[lo] == '\t')
        invariant
            a <= lo <= b <= v.len(),
            forall|k: int| a <= k < lo ==> is_ws(#[trigger] v@[k]),
        decreases b - lo,
    {
        lo = lo + 1;
    }
    proof {
        assert forall|k: int| 0 <= k < lo - a implies is_ws(#[trigger] s[k]) by {
            assert(s[k] == v@[a + k]);
        }
        if lo < b {
            assert(s[lo - a] == v@[lo as int]);
        }
        lemma_ws_len_is(s, lo - a);
    }
    if lo == b {
        proof {
            assert(trim(s) =~= v@.subrange(b as int, b as int));
        }
        return (b, b);
    }
    let mut hi = b;
    while lo < hi && (v[hi - 1] == ' ' || v[hi - 1] == '\t')
        invariant
            lo <= hi <= b,
            lo < b <= v.len(),
            forall|k: int| hi <= k < b ==> is_ws(#[trigger] v@[k]),
        decreases hi,
    {
        hi = hi - 1;
    }
    proof {
        assert forall|k: int| s.len() - (b - hi) <= k < s.len() implies is_ws(
            #[trigger] s[k],
        ) by {
            assert(s[k] == v@[a + k]);
        }
        // the scan stopped either at `lo` (a non-blank position) or at a
        // non-blank character just before `hi`
        assert(!is_ws(v@[lo as int]));
        if hi == lo {
            assert(s[s.len() - (b - hi) - 1] == v@[lo as int]);
        } else {
            assert(s[s.len() - (b - hi) - 1] == v@[hi - 1]);
        }
        lemma_tail_ws_len_is(s, b - hi);
        assert(ws_len(s) < s.len());
        assert(v@.subrange(lo as int, hi as int) =~= trim(s));
    }
    (lo, hi)
}

} // verus!
