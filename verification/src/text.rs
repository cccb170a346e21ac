//! Character-sequence utilities shared by the library: conversions between
//! strings and character vectors, line-ending normalisation, substring
//! counting and replacement, trimming and decimal rendering.

use vstd::prelude::*;

verus! {

broadcast use vstd::string::group_string_axioms;

// ───────────────────────── conversions ─────────────────────────

/// The characters of `s`, in order.
pub fn to_chars(s: &str) -> (res: Vec<char>)
    ensures
        res@ == s@,
{
    let mut out: Vec<char> = Vec::new();
    for c in it: s.chars()
        invariant
            out@ == it.seq().take(it.index() as int),
            it.seq() == s@,
    {
        out.push(c);
    }
    proof {
        assert(s@.take(s@.len() as int) =~= s@);
    }
    out
}

/// Appends the characters of `s` to `out`.
pub fn push_str_chars(out: &mut Vec<char>, s: &str)
    ensures
        final(out)@ == old(out)@ + s@,
{
    let ghost start = out@;
    for c in it: s.chars()
        invariant
            out@ == start + it.seq().take(it.index() as int),
            it.seq() == s@,
    {
        out.push(c);
        proof {
            assert(it.seq().take(it.index() + 1) =~= it.seq().take(it.index() as int).push(c));
        }
    }
    proof {
        assert(s@.take(s@.len() as int) =~= s@);
    }
}

/// Appends the characters of `src` to `out`.
pub fn push_vec_chars(out: &mut Vec<char>, src: &Vec<char>)
    ensures
        final(out)@ == old(out)@ + src@,
{
    let ghost start = out@;
    let mut i: usize = 0;
    while i < src.len()
        invariant
            i <= src.len(),
            out@ == start + src@.take(i as int),
        decreases src.len() - i,
    {
        out.push(src[i]);
        proof {
            assert(src@.take(i + 1) =~= src@.take(i as int).push(src@[i as int]));
        }
        i = i + 1;
    }
    proof {
        assert(src@.take(src@.len() as int) =~= src@);
    }
}

/// Appends `src[from..]` to `out`.
pub fn push_suffix(out: &mut Vec<char>, src: &Vec<char>, from: usize)
    requires
        from <= src@.len(),
    ensures
        final(out)@ == old(out)@ + src@.skip(from as int),
{
    let ghost start = out@;
    let mut i: usize = from;
    while i < src.len()
        invariant
            from <= i <= src.len(),
            out@ == start + src@.subrange(from as int, i as int),
        decreases src.len() - i,
    {
        out.push(src[i]);
        proof {
            assert(src@.subrange(from as int, i + 1) =~= src@.subrange(from as int, i as int).push(src@[i as int]));
        }
        i = i + 1;
    }
    proof {
        assert(src@.subrange(from as int, src@.len() as int) =~= src@.skip(from as int));
    }
}

/// Builds a `String` from its characters: std's `String::from_iter` over
/// `&char`, which pushes each character in order.
#[verifier::external_body]
pub(crate) fn string_from_chars(v: &Vec<char>) -> (res: String)
    ensures
        res@ == v@,
{
    String::from_iter(v)
}

/// A fresh `String` holding the characters of `s`.
pub fn owned(s: &str) -> (res: String)
    ensures
        res@ == s@,
{
    s.to_string()
}

/// Whether two strings hold the same characters.
pub fn str_eq(a: &str, b: &str) -> (res: bool)
    ensures
        res == (a@ == b@),
{
    let x = to_chars(a);
    let y = to_chars(b);
    vec_eq(&x, &y)
}

/// Whether two character vectors are equal.
pub fn vec_eq(x: &Vec<char>, y: &Vec<char>) -> (res: bool)
    ensures
        res == (x@ == y@),
{
    if x.len() != y.len() {
        return false;
    }
    let mut i: usize = 0;
    while i < x.len()
        invariant
            x.len() == y.len(),
            i <= x.len(),
            forall|k: int| 0 <= k < i ==> x@[k] == y@[k],
        decreases x.len() - i,
    {
        if x[i] != y[i] {
            return false;
        }
        i = i + 1;
    }
    proof {
        assert(x@ =~= y@);
    }
    true
}

// ───────────────────────── matching ─────────────────────────

/// `p` occurs in `s` starting at position `i`.
pub open spec fn occurs_at(s: Seq<char>, i: int, p: Seq<char>) -> bool {
    0 <= i && i + p.len() <= s.len() && s.subrange(i, i + p.len()) == p
}

/// `p` occurs somewhere in `s` (the empty sequence occurs in every sequence).
pub open spec fn contains_seq(s: Seq<char>, p: Seq<char>) -> bool {
    exists|i: int| occurs_at(s, i, p)
}

/// Whether `p` occurs in `s` at position `i`.
pub fn matches_at(s: &Vec<char>, i: usize, p: &Vec<char>) -> (res: bool)
    ensures
        res == occurs_at(s@, i as int, p@),
{
    if i > s.len() || p.len() > s.len() - i {
        return false;
    }
    let mut k: usize = 0;
    while k < p.len()
        invariant
            i + p.len() <= s.len(),
            k <= p.len(),
            forall|j: int| 0 <= j < k ==> s@[i + j] == p@[j],
        decreases p.len() - k,
    {
        if s[i + k] != p[k] {
            assert(s@.subrange(i as int, i + p.len())[k as int] != p@[k as int]);
            return false;
        }
        k = k + 1;
    }
    proof {
        assert(s@.subrange(i as int, i + p.len()) =~= p@);
    }
    true
}

/// Whether `p` occurs anywhere in `s`.
pub fn contains_chars(s: &Vec<char>, p: &Vec<char>) -> (res: bool)
    ensures
        res == contains_seq(s@, p@),
{
    let mut i: usize = 0;
    while i < s.len()
        invariant
            i <= s.len(),
            forall|j: int| 0 <= j < i ==> !occurs_at(s@, j, p@),
        decreases s.len() - i,
    {
        if matches_at(s, i, p) {
            return true;
        }
        i = i + 1;
    }
    if matches_at(s, s.len(), p) {
        return true;
    }
    proof {
        assert forall|j: int| !occurs_at(s@, j, p@) by {
            if occurs_at(s@, j, p@) {
                assert(j < i || j == s@.len());
            }
        }
    }
    false
}

/// Number of non-overlapping occurrences of `p` in `s`, scanning from the
/// left; the empty pattern occurs at every character boundary.
pub open spec fn count_matches(s: Seq<char>, p: Seq<char>) -> nat
    decreases s.len(),
{
    if p.len() == 0 {
        s.len() + 1
    } else if s.len() < p.len() {
        0
    } else if s.take(p.len() as int) == p {
        1 + count_matches(s.skip(p.len() as int), p)
    } else {
        count_matches(s.skip(1), p)
    }
}

/// `r` before every character of `s` and once more at the end.
pub open spec fn interleave(s: Seq<char>, r: Seq<char>) -> Seq<char>
    decreases s.len(),
{
    if s.len() == 0 {
        r
    } else {
        r + seq![s[0]] + interleave(s.skip(1), r)
    }
}

/// Every non-overlapping occurrence of `p` in `s`, scanning from the left,
/// replaced by `r`.
pub open spec fn replace_all(s: Seq<char>, p: Seq<char>, r: Seq<char>) -> Seq<char>
    decreases s.len(),
{
    if p.len() == 0 {
        interleave(s, r)
    } else if s.len() < p.len() {
        s
    } else if s.take(p.len() as int) == p {
        r + replace_all(s.skip(p.len() as int), p, r)
    } else {
        seq![s[0]] + replace_all(s.skip(1), p, r)
    }
}

/// The leftmost occurrence of `p` in `s` replaced by `r`.
pub open spec fn replace_first(s: Seq<char>, p: Seq<char>, r: Seq<char>) -> Seq<char>
    decreases s.len(),
{
    if p.len() == 0 {
        r + s
    } else if s.len() < p.len() {
        s
    } else if s.take(p.len() as int) == p {
        r + s.skip(p.len() as int)
    } else {
        seq![s[0]] + replace_first(s.skip(1), p, r)
    }
}

proof fn lemma_skip_facts(s: Seq<char>, i: int, n: int)
    requires
        0 <= i,
        0 <= n,
        i + n <= s.len(),
    ensures
        s.skip(i).take(n) == s.subrange(i, i + n),
        s.skip(i).skip(n) == s.skip(i + n),
        s.skip(i).len() == s.len() - i,
{
    assert(s.skip(i).take(n) =~= s.subrange(i, i + n));
    assert(s.skip(i).skip(n) =~= s.skip(i + n));
}

/// Counts the non-overlapping occurrences of `p` in `s`.
pub fn count_occurrences(s: &Vec<char>, p: &Vec<char>) -> (n: usize)
    requires
        s@.len() < usize::MAX,
    ensures
        n == count_matches(s@, p@),
{
    if p.len() == 0 {
        return s.len() + 1;
    }
    let mut i: usize = 0;
    let mut n: usize = 0;
    proof {
        assert(s@.skip(0) =~= s@);
    }
    while i <= s.len() && p.len() <= s.len() - i
        invariant
            p@.len() > 0,
            i <= s.len(),
            n <= i,
            count_matches(s@, p@) == n + count_matches(s@.skip(i as int), p@),
        decreases s.len() - i,
    {
        proof {
            lemma_skip_facts(s@, i as int, p@.len() as int);
            lemma_skip_facts(s@, i as int, 1);
        }
        if matches_at(s, i, p) {
            n = n + 1;
            i = i + p.len();
        } else {
            i = i + 1;
        }
    }
    n
}

/// Replaces every occurrence of `p` in `s` by `r`.
pub fn replace_all_chars(s: &Vec<char>, p: &Vec<char>, r: &Vec<char>) -> (res: Vec<char>)
    ensures
        res@ == replace_all(s@, p@, r@),
{
    let mut out: Vec<char> = Vec::new();
    let mut i: usize = 0;
    proof {
        assert(s@.skip(0) =~= s@);
        assert(replace_all(s@, p@, r@) =~= out@ + replace_all(s@, p@, r@));
        assert(interleave(s@, r@) =~= out@ + interleave(s@, r@));
    }
    if p.len() == 0 {
        while i < s.len()
            invariant
                p@.len() == 0,
                i <= s.len(),
                replace_all(s@, p@, r@) == out@ + interleave(s@.skip(i as int), r@),
            decreases s.len() - i,
        {
            proof {
                lemma_skip_facts(s@, i as int, 1);
            }
            push_vec_chars(&mut out, r);
            out.push(s[i]);
            proof {
                assert(s@.skip(i as int)[0] == s@[i as int]);
            }
            i = i + 1;
        }
        push_vec_chars(&mut out, r);
        proof {
            assert(s@.skip(i as int).len() == 0);
        }
        return out;
    }
    while i <= s.len() && p.len() <= s.len() - i
        invariant
            p@.len() > 0,
            i <= s.len(),
            replace_all(s@, p@, r@) == out@ + replace_all(s@.skip(i as int), p@, r@),
        decreases s.len() - i,
    {
        proof {
            lemma_skip_facts(s@, i as int, p@.len() as int);
            lemma_skip_facts(s@, i as int, 1);
        }
        if matches_at(s, i, p) {
            push_vec_chars(&mut out, r);
            i = i + p.len();
        } else {
            out.push(s[i]);
            proof {
                assert(s@.skip(i as int)[0] == s@[i as int]);
            }
            i = i + 1;
        }
    }
    push_suffix(&mut out, s, i);
    out
}

/// Replaces the leftmost occurrence of `p` in `s` by `r`.
pub fn replace_first_chars(s: &Vec<char>, p: &Vec<char>, r: &Vec<char>) -> (res: Vec<char>)
    ensures
        res@ == replace_first(s@, p@, r@),
{
    let mut out: Vec<char> = Vec::new();
    if p.len() == 0 {
        push_vec_chars(&mut out, r);
        push_vec_chars(&mut out, s);
        return out;
    }
    let mut i: usize = 0;
    proof {
        assert(s@.skip(0) =~= s@);
        assert(replace_first(s@, p@, r@) =~= out@ + replace_first(s@, p@, r@));
    }
    while i <= s.len() && p.len() <= s.len() - i
        invariant
            p@.len() > 0,
            i <= s.len(),
            replace_first(s@, p@, r@) == out@ + replace_first(s@.skip(i as int), p@, r@),
        decreases s.len() - i,
    {
        proof {
            lemma_skip_facts(s@, i as int, p@.len() as int);
            lemma_skip_facts(s@, i as int, 1);
        }
        if matches_at(s, i, p) {
            push_vec_chars(&mut out, r);
            push_suffix(&mut out, s, i + p.len());
            proof {
                assert(out@ =~= replace_first(s@, p@, r@));
            }
            return out;
        } else {
            out.push(s[i]);
            proof {
                assert(s@.skip(i as int)[0] == s@[i as int]);
            }
            i = i + 1;
        }
    }
    push_suffix(&mut out, s, i);
    out
}

// ───────────────────────── line endings ─────────────────────────

/// Every line ending (`\r\n`, a lone `\r`, or `\n`) written as `\n`.
pub open spec fn normalized_eol(s: Seq<char>) -> Seq<char>
    decreases s.len(),
{
    if s.len() == 0 {
        s
    } else if s[0] == '\r' && s.len() >= 2 && s[1] == '\n' {
        seq!['\n'] + normalized_eol(s.skip(2))
    } else if s[0] == '\r' {
        seq!['\n'] + normalized_eol(s.skip(1))
    } else {
        seq![s[0]] + normalized_eol(s.skip(1))
    }
}

/// No carriage return occurs in `s`.
pub open spec fn cr_free(s: Seq<char>) -> bool {
    forall|i: int| 0 <= i < s.len() ==> s[i] != '\r'
}

/// A `\r\n` pair starts at position `i` of `s`.
pub open spec fn crlf_at(s: Seq<char>, i: int) -> bool {
    0 <= i && i + 1 < s.len() && s[i] == '\r' && s[i + 1] == '\n'
}

/// `s` holds a `\r\n` pair.
pub open spec fn has_crlf(s: Seq<char>) -> bool {
    exists|i: int| #[trigger] crlf_at(s, i)
}

/// Every `\n` of `s` written as `\r\n`.
pub open spec fn lf_to_crlf(s: Seq<char>) -> Seq<char>
    decreases s.len(),
{
    if s.len() == 0 {
        s
    } else if s[0] == '\n' {
        seq!['\r', '\n'] + lf_to_crlf(s.skip(1))
    } else {
        seq![s[0]] + lf_to_crlf(s.skip(1))
    }
}

/// Normalises every line ending of `s` to `\n`.
pub fn normalize_eol_chars(s: &Vec<char>) -> (res: Vec<char>)
    ensures
        res@ == normalized_eol(s@),
{
    let mut out: Vec<char> = Vec::new();
    let mut i: usize = 0;
    proof {
        assert(s@.skip(0) =~= s@);
        assert(normalized_eol(s@) =~= out@ + normalized_eol(s@));
    }
    while i < s.len()
        invariant
            i <= s.len(),
            normalized_eol(s@) == out@ + normalized_eol(s@.skip(i as int)),
        decreases s.len() - i,
    {
        proof {
            lemma_skip_facts(s@, i as int, 1);
        }
        let c = s[i];
        if c == '\r' && i + 1 < s.len() && s[i + 1] == '\n' {
            proof {
                lemma_skip_facts(s@, i as int, 2);
            }
            out.push('\n');
            i = i + 2;
        } else if c == '\r' {
            out.push('\n');
            i = i + 1;
        } else {
            out.push(c);
            i = i + 1;
        }
    }
    proof {
        assert(s@.skip(i as int) =~= Seq::<char>::empty());
        assert(out@ + Seq::<char>::empty() =~= out@);
    }
    out
}

/// Writes every `\n` of `s` as `\r\n`.
pub fn lf_to_crlf_chars(s: &Vec<char>) -> (res: Vec<char>)
    ensures
        res@ == lf_to_crlf(s@),
{
    let mut out: Vec<char> = Vec::new();
    let mut i: usize = 0;
    proof {
        assert(s@.skip(0) =~= s@);
        assert(lf_to_crlf(s@) =~= out@ + lf_to_crlf(s@));
    }
    while i < s.len()
        invariant
            i <= s.len(),
            lf_to_crlf(s@) == out@ + lf_to_crlf(s@.skip(i as int)),
        decreases s.len() - i,
    {
        proof {
            lemma_skip_facts(s@, i as int, 1);
        }
        let c = s[i];
        if c == '\n' {
            out.push('\r');
            out.push('\n');
        } else {
            out.push(c);
        }
        i = i + 1;
    }
    proof {
        assert(s@.skip(i as int) =~= Seq::<char>::empty());
        assert(out@ + Seq::<char>::empty() =~= out@);
    }
    out
}

/// Every `\n` of `s` written as `\r`.
pub open spec fn lf_to_cr(s: Seq<char>) -> Seq<char>
    decreases s.len(),
{
    if s.len() == 0 {
        s
    } else if s[0] == '\n' {
        seq!['\r'] + lf_to_cr(s.skip(1))
    } else {
        seq![s[0]] + lf_to_cr(s.skip(1))
    }
}

/// Writes every `\n` of `s` as `\r`.
pub fn lf_to_cr_chars(s: &Vec<char>) -> (res: Vec<char>)
    ensures
        res@ == lf_to_cr(s@),
{
    let mut out: Vec<char> = Vec::new();
    let mut i: usize = 0;
    proof {
        assert(s@.skip(0) =~= s@);
        assert(lf_to_cr(s@) =~= out@ + lf_to_cr(s@));
    }
    while i < s.len()
        invariant
            i <= s.len(),
            lf_to_cr(s@) == out@ + lf_to_cr(s@.skip(i as int)),
        decreases s.len() - i,
    {
        proof {
            lemma_skip_facts(s@, i as int, 1);
        }
        let c = s[i];
        if c == '\n' {
            out.push('\r');
        } else {
            out.push(c);
        }
        i = i + 1;
    }
    proof {
        assert(s@.skip(i as int) =~= Seq::<char>::empty());
        assert(out@ + Seq::<char>::empty() =~= out@);
    }
    out
}

/// Whether `s` holds a carriage return.
pub fn contains_cr(s: &Vec<char>) -> (res: bool)
    ensures
        res == !cr_free(s@),
{
    let mut i: usize = 0;
    while i < s.len()
        invariant
            i <= s.len(),
            forall|j: int| 0 <= j < i ==> s@[j] != '\r',
        decreases s.len() - i,
    {
        if s[i] == '\r' {
            return true;
        }
        i = i + 1;
    }
    false
}

/// Whether `s` holds a `\r\n` pair.
pub fn contains_crlf(s: &Vec<char>) -> (res: bool)
    ensures
        res == has_crlf(s@),
{
    let mut i: usize = 0;
    while i < s.len() && i + 1 < s.len()
        invariant
            forall|j: int| 0 <= j < i ==> !#[trigger] crlf_at(s@, j),
        decreases s.len() - i,
    {
        if s[i] == '\r' && s[i + 1] == '\n' {
            assert(crlf_at(s@, i as int));
            return true;
        }
        i = i + 1;
    }
    false
}

// ───────────────────────── laws on line endings ─────────────────────────

/// Normalised text holds no carriage return.
pub proof fn lemma_normalized_cr_free(s: Seq<char>)
    ensures
        cr_free(normalized_eol(s)),
        normalized_eol(s).len() <= s.len(),
    decreases s.len(),
{
    if s.len() == 0 {
    } else if s[0] == '\r' && s.len() >= 2 && s[1] == '\n' {
        lemma_normalized_cr_free(s.skip(2));
    } else {
        lemma_normalized_cr_free(s.skip(1));
    }
}

/// Text without carriage returns is left unchanged by normalisation.
pub proof fn lemma_normalize_cr_free_identity(s: Seq<char>)
    requires
        cr_free(s),
    ensures
        normalized_eol(s) == s,
    decreases s.len(),
{
    if s.len() > 0 {
        assert(cr_free(s.skip(1)));
        lemma_normalize_cr_free_identity(s.skip(1));
        assert(s =~= seq![s[0]] + s.skip(1));
    }
}

/// Normalising twice is normalising once.
pub proof fn lemma_normalize_idempotent(s: Seq<char>)
    ensures
        normalized_eol(normalized_eol(s)) == normalized_eol(s),
{
    lemma_normalized_cr_free(s);
    lemma_normalize_cr_free_identity(normalized_eol(s));
}

/// Writing `\n` as `\r\n` and normalising again restores `\r`-free text.
pub proof fn lemma_crlf_round_trip(s: Seq<char>)
    requires
        cr_free(s),
    ensures
        normalized_eol(lf_to_crlf(s)) == s,
    decreases s.len(),
{
    if s.len() > 0 {
        assert(cr_free(s.skip(1)));
        lemma_crlf_round_trip(s.skip(1));
        let rest = lf_to_crlf(s.skip(1));
        if s[0] == '\n' {
            let t = seq!['\r', '\n'] + rest;
            assert(t.skip(2) =~= rest);
        } else {
            let t = seq![s[0]] + rest;
            assert(t.skip(1) =~= rest);
        }
        assert(s =~= seq![s[0]] + s.skip(1));
    }
}

/// How many times `c` occurs in `s`.
pub open spec fn count_char(s: Seq<char>, c: char) -> nat
    decreases s.len(),
{
    if s.len() == 0 {
        0
    } else {
        (if s[0] == c {
            1nat
        } else {
            0nat
        }) + count_char(s.skip(1), c)
    }
}

/// How many `\r\n` pairs occur in `s`.
pub open spec fn count_crlf(s: Seq<char>) -> nat
    decreases s.len(),
{
    if s.len() < 2 {
        0
    } else {
        (if s[0] == '\r' && s[1] == '\n' {
            1nat
        } else {
            0nat
        }) + count_crlf(s.skip(1))
    }
}

/// Normalising keeps one `\n` per line ending: the result holds as many
/// `\n` as `s` holds `\n` and `\r` together, less its `\r\n` pairs.
pub proof fn law_normalized_line_feeds(s: Seq<char>)
    ensures
        count_char(normalized_eol(s), '\n') + count_crlf(s) == count_char(s, '\n') + count_char(s, '\r'),
    decreases s.len(),
{
    if s.len() == 0 {
    } else if s[0] == '\r' && s.len() >= 2 && s[1] == '\n' {
        let t = s.skip(2);
        let u = s.skip(1);
        law_normalized_line_feeds(t);
        let n = seq!['\n'] + normalized_eol(t);
        assert(n.skip(1) =~= normalized_eol(t));
        assert(u.skip(1) =~= t);
        assert(u[0] == '\n');
        assert(count_char(n, '\n') == 1 + count_char(normalized_eol(t), '\n'));
        assert(count_char(u, '\n') == 1 + count_char(t, '\n'));
        assert(count_char(s, '\n') == count_char(u, '\n'));
        assert(count_char(u, '\r') == count_char(t, '\r'));
        assert(count_char(s, '\r') == 1 + count_char(u, '\r'));
        assert(count_crlf(s) == 1 + count_crlf(u));
        if u.len() >= 2 {
            assert(count_crlf(u) == count_crlf(t));
        } else {
            assert(count_crlf(u) == 0);
            assert(count_crlf(t) == 0);
        }
    } else if s[0] == '\r' {
        let t = s.skip(1);
        law_normalized_line_feeds(t);
        let n = seq!['\n'] + normalized_eol(t);
        assert(n.skip(1) =~= normalized_eol(t));
        assert(count_char(n, '\n') == 1 + count_char(normalized_eol(t), '\n'));
        if s.len() >= 2 {
            assert(count_crlf(s) == count_crlf(t));
        } else {
            assert(count_crlf(s) == 0);
            assert(count_crlf(t) == 0);
        }
    } else {
        let t = s.skip(1);
        law_normalized_line_feeds(t);
        let n = seq![s[0]] + normalized_eol(t);
        assert(n.skip(1) =~= normalized_eol(t));
        assert(n[0] == s[0]);
        assert(count_char(n, '\n') == (if s[0] == '\n' { 1nat } else { 0nat }) + count_char(normalized_eol(t), '\n'));
        if s.len() >= 2 {
            assert(count_crlf(s) == count_crlf(t));
        } else {
            assert(count_crlf(s) == 0);
            assert(count_crlf(t) == 0);
        }
    }
}

/// Writing `\n` as a lone `\r` and normalising again restores `\r`-free text.
pub proof fn lemma_cr_round_trip(s: Seq<char>)
    requires
        cr_free(s),
    ensures
        normalized_eol(lf_to_cr(s)) == s,
        !has_crlf(lf_to_cr(s)),
    decreases s.len(),
{
    lemma_lf_to_cr_no_lf(s);
    if s.len() > 0 {
        assert(cr_free(s.skip(1)));
        lemma_cr_round_trip(s.skip(1));
        let rest = lf_to_cr(s.skip(1));
        let t = lf_to_cr(s);
        assert(t.skip(1) =~= rest);
        if s[0] == '\n' {
            assert(t[0] == '\r');
            if t.len() >= 2 {
                assert(t[1] == rest[0]);
                assert(rest[0] != '\n');
            }
        }
        assert(s =~= seq![s[0]] + s.skip(1));
    }
}

/// Writing `\n` as `\r` leaves no `\n`.
pub proof fn lemma_lf_to_cr_no_lf(s: Seq<char>)
    ensures
        lf_to_cr(s).len() == s.len(),
        forall|i: int| 0 <= i < s.len() ==> #[trigger] lf_to_cr(s)[i] != '\n',
        !has_crlf(lf_to_cr(s)),
    decreases s.len(),
{
    if s.len() > 0 {
        lemma_lf_to_cr_no_lf(s.skip(1));
        let t = lf_to_cr(s);
        assert forall|i: int| 0 <= i < s.len() implies #[trigger] t[i] != '\n' by {
            if i > 0 {
                assert(t[i] == lf_to_cr(s.skip(1))[i - 1]);
            }
        }
    }
    let t = lf_to_cr(s);
    assert forall|i: int| !#[trigger] crlf_at(t, i) by {
        if crlf_at(t, i) {
            assert(t[i + 1] != '\n');
        }
    }
}

proof fn lemma_cr_free_concat(a: Seq<char>, b: Seq<char>)
    requires
        cr_free(a),
        cr_free(b),
    ensures
        cr_free(a + b),
{
    assert forall|i: int| 0 <= i < (a + b).len() implies (a + b)[i] != '\r' by {
        if i < a.len() {
            assert((a + b)[i] == a[i]);
        } else {
            assert((a + b)[i] == b[i - a.len()]);
        }
    }
}

proof fn lemma_interleave_cr_free(s: Seq<char>, r: Seq<char>)
    requires
        cr_free(s),
        cr_free(r),
    ensures
        cr_free(interleave(s, r)),
    decreases s.len(),
{
    if s.len() > 0 {
        assert(cr_free(s.skip(1)));
        lemma_interleave_cr_free(s.skip(1), r);
        lemma_cr_free_concat(r, seq![s[0]]);
        lemma_cr_free_concat(r + seq![s[0]], interleave(s.skip(1), r));
    }
}

/// Replacing inside `\r`-free text by `\r`-free text keeps it `\r`-free.
pub proof fn lemma_replace_cr_free(s: Seq<char>, p: Seq<char>, r: Seq<char>)
    requires
        cr_free(s),
        cr_free(r),
    ensures
        cr_free(replace_all(s, p, r)),
        cr_free(replace_first(s, p, r)),
    decreases s.len(),
{
    if p.len() == 0 {
        lemma_interleave_cr_free(s, r);
        lemma_cr_free_concat(r, s);
    } else if s.len() < p.len() {
    } else {
        assert(cr_free(s.skip(1)));
        assert(cr_free(s.skip(p.len() as int)));
        lemma_replace_cr_free(s.skip(1), p, r);
        lemma_replace_cr_free(s.skip(p.len() as int), p, r);
        lemma_cr_free_concat(r, replace_all(s.skip(p.len() as int), p, r));
        lemma_cr_free_concat(r, s.skip(p.len() as int));
        lemma_cr_free_concat(seq![s[0]], replace_all(s.skip(1), p, r));
        lemma_cr_free_concat(seq![s[0]], replace_first(s.skip(1), p, r));
    }
}

/// Where `p` occurs exactly once, replacing every occurrence and replacing
/// the first one give the same text.
pub proof fn lemma_single_occurrence_replace(s: Seq<char>, p: Seq<char>, r: Seq<char>)
    requires
        count_matches(s, p) == 1,
    ensures
        replace_all(s, p, r) == replace_first(s, p, r),
    decreases s.len(),
{
    if p.len() == 0 {
        assert(s.len() == 0);
        assert(interleave(s, r) == r);
        assert(r + s =~= r);
    } else if s.len() < p.len() {
    } else if s.take(p.len() as int) == p {
        lemma_no_occurrence_replace(s.skip(p.len() as int), p, r);
    } else {
        lemma_single_occurrence_replace(s.skip(1), p, r);
    }
}

proof fn lemma_interleave_len(s: Seq<char>, r: Seq<char>)
    ensures
        interleave(s, r).len() == s.len() + (s.len() + 1) * r.len(),
    decreases s.len(),
{
    if s.len() > 0 {
        lemma_interleave_len(s.skip(1), r);
        let n = s.len() as int;
        let k = r.len() as int;
        let t = interleave(s.skip(1), r);
        assert(s.skip(1).len() == n - 1);
        assert(t.len() == (n - 1) + n * k);
        assert(interleave(s, r) == r + seq![s[0]] + t);
        assert(interleave(s, r).len() == k + 1 + t.len());
        assert(n * k + k == (n + 1) * k) by (nonlinear_arith);
    } else {
        let k = r.len() as int;
        assert((0 + 1) * k == k) by (nonlinear_arith);
    }
}

/// Replacing every occurrence makes one substitution per occurrence that
/// [`count_matches`] counts: the result is longer than `s` by that count
/// times the difference in length between `r` and `p`.
pub proof fn law_replace_all_substitutes_every_match(s: Seq<char>, p: Seq<char>, r: Seq<char>)
    ensures
        replace_all(s, p, r).len() == s.len() + count_matches(s, p) * (r.len() - p.len()),
    decreases s.len(),
{
    let d = r.len() - p.len();
    if p.len() == 0 {
        lemma_interleave_len(s, r);
        let n = s.len() as int;
        let k = r.len() as int;
        assert(count_matches(s, p) == n + 1);
        assert(replace_all(s, p, r).len() == n + (n + 1) * k);
        assert(d == k);
    } else if s.len() < p.len() {
        assert(count_matches(s, p) == 0);
        assert(0 * d == 0) by (nonlinear_arith);
    } else if s.take(p.len() as int) == p {
        law_replace_all_substitutes_every_match(s.skip(p.len() as int), p, r);
        let c = count_matches(s.skip(p.len() as int), p) as int;
        assert((1 + c) * d == c * d + d) by (nonlinear_arith);
    } else {
        law_replace_all_substitutes_every_match(s.skip(1), p, r);
    }
}

/// Replacing the first occurrence makes exactly one substitution when `p`
/// occurs and none otherwise.
pub proof fn law_replace_first_substitutes_once(s: Seq<char>, p: Seq<char>, r: Seq<char>)
    ensures
        replace_first(s, p, r).len() == s.len() + if count_matches(s, p) > 0 {
            r.len() - p.len()
        } else {
            0
        },
    decreases s.len(),
{
    if p.len() == 0 {
    } else if s.len() < p.len() {
    } else if s.take(p.len() as int) == p {
    } else {
        law_replace_first_substitutes_once(s.skip(1), p, r);
    }
}

/// Where `p` does not occur, replacing it changes nothing.
pub proof fn lemma_no_occurrence_replace(s: Seq<char>, p: Seq<char>, r: Seq<char>)
    requires
        count_matches(s, p) == 0,
    ensures
        replace_all(s, p, r) == s,
        replace_first(s, p, r) == s,
    decreases s.len(),
{
    if s.len() >= p.len() && p.len() > 0 {
        lemma_no_occurrence_replace(s.skip(1), p, r);
        assert(s =~= seq![s[0]] + s.skip(1));
    }
}

// ───────────────────────── decimal rendering ─────────────────────────

/// The decimal digit character for `d < 10`.
pub open spec fn digit_char(d: nat) -> char {
    ((d + 48) as u8) as char
}

/// Decimal representation of `n`, without leading zeros.
pub open spec fn decimal(n: nat) -> Seq<char>
    decreases n,
{
    if n < 10 {
        seq![digit_char(n)]
    } else {
        decimal(n / 10).push(digit_char(n % 10))
    }
}

/// Appends the decimal representation of `n` to `out`.
pub fn push_decimal(out: &mut Vec<char>, n: u64)
    ensures
        final(out)@ == old(out)@ + decimal(n as nat),
    decreases n,
{
    if n >= 10 {
        push_decimal(out, n / 10);
    }
    let d: u8 = (n % 10) as u8;
    let c: char = (d + 48u8) as char;
    out.push(c);
    proof {
        assert(c == digit_char((n % 10) as nat));
        if n >= 10 {
            assert(decimal(n as nat) == decimal((n / 10) as nat).push(digit_char((n % 10) as nat)));
        }
    }
}

/// The decimal representation of `n`.
pub fn decimal_string(n: u64) -> (res: String)
    ensures
        res@ == decimal(n as nat),
{
    let mut v: Vec<char> = Vec::new();
    push_decimal(&mut v, n);
    proof {
        assert(Seq::<char>::empty() + decimal(n as nat) =~= decimal(n as nat));
    }
    string_from_chars(&v)
}

// ───────────────────────── printable ASCII and whitespace ─────────────────────────

/// `c` lies in the printable ASCII range `' '..='~'`.
pub open spec fn is_printable_ascii(c: char) -> bool {
    ' ' <= c && c <= '~'
}

/// `s` with every character outside `' '..='~'` replaced by `'_'`.
pub open spec fn printable_or_underscore(s: Seq<char>) -> Seq<char> {
    s.map_values(|c: char| if is_printable_ascii(c) { c } else { '_' })
}

/// Replaces every character outside `' '..='~'` by `'_'`.
pub fn sanitize_printable(s: &str) -> (res: String)
    ensures
        res@ == printable_or_underscore(s@),
{
    let cs = to_chars(s);
    let mut out: Vec<char> = Vec::new();
    let mut i: usize = 0;
    while i < cs.len()
        invariant
            i <= cs.len(),
            cs@ == s@,
            out@ == printable_or_underscore(cs@.take(i as int)),
        decreases cs.len() - i,
    {
        let c = cs[i];
        if ' ' <= c && c <= '~' {
            out.push(c);
        } else {
            out.push('_');
        }
        proof {
            assert(cs@.take(i + 1) =~= cs@.take(i as int).push(c));
            assert(printable_or_underscore(cs@.take(i + 1)) =~= printable_or_underscore(cs@.take(i as int)).push(
                if is_printable_ascii(c) { c } else { '_' },
            ));
        }
        i = i + 1;
    }
    proof {
        assert(cs@.take(cs@.len() as int) =~= cs@);
    }
    string_from_chars(&out)
}

/// `c` has the Unicode `White_Space` property (the set that `char::is_whitespace` tests).
pub open spec fn is_whitespace(c: char) -> bool {
    ||| ('\u{9}' <= c && c <= '\u{d}')
    ||| c == ' '
    ||| c == '\u{85}'
    ||| c == '\u{a0}'
    ||| c == '\u{1680}'
    ||| ('\u{2000}' <= c && c <= '\u{200a}')
    ||| c == '\u{2028}'
    ||| c == '\u{2029}'
    ||| c == '\u{202f}'
    ||| c == '\u{205f}'
    ||| c == '\u{3000}'
}

/// Whether `c` has the Unicode `White_Space` property.
pub fn char_is_whitespace(c: char) -> (res: bool)
    ensures
        res == is_whitespace(c),
{
    ('\u{9}' <= c && c <= '\u{d}') || c == ' ' || c == '\u{85}' || c == '\u{a0}' || c == '\u{1680}'
        || ('\u{2000}' <= c && c <= '\u{200a}') || c == '\u{2028}' || c == '\u{2029}' || c
        == '\u{202f}' || c == '\u{205f}' || c == '\u{3000}'
}

/// Every character of `s` is whitespace (so `s.trim()` is empty).
pub open spec fn is_blank(s: Seq<char>) -> bool {
    forall|i: int| 0 <= i < s.len() ==> is_whitespace(s[i])
}

/// `s` without its leading whitespace.
pub open spec fn trim_start(s: Seq<char>) -> Seq<char>
    decreases s.len(),
{
    if s.len() > 0 && is_whitespace(s[0]) {
        trim_start(s.skip(1))
    } else {
        s
    }
}

/// `s` without its trailing whitespace.
pub open spec fn trim_end(s: Seq<char>) -> Seq<char>
    decreases s.len(),
{
    if s.len() > 0 && is_whitespace(s.last()) {
        trim_end(s.drop_last())
    } else {
        s
    }
}

/// `s` without leading and trailing whitespace (what `str::trim` returns).
pub open spec fn trimmed(s: Seq<char>) -> Seq<char> {
    trim_end(trim_start(s))
}

/// Whether every character of `s` is whitespace.
pub fn str_is_blank(s: &str) -> (res: bool)
    ensures
        res == is_blank(s@),
{
    let cs = to_chars(s);
    let mut i: usize = 0;
    while i < cs.len()
        invariant
            cs@ == s@,
            i <= cs.len(),
            forall|k: int| 0 <= k < i ==> is_whitespace(cs@[k]),
        decreases cs.len() - i,
    {
        if !char_is_whitespace(cs[i]) {
            return false;
        }
        i = i + 1;
    }
    true
}

/// `s` with leading and trailing whitespace removed.
pub fn trim_str(s: &str) -> (res: String)
    ensures
        res@ == trimmed(s@),
{
    let cs = to_chars(s);
    let mut lo: usize = 0;
    proof {
        assert(cs@.skip(0) =~= cs@);
    }
    while lo < cs.len() && char_is_whitespace(cs[lo])
        invariant
            cs@ == s@,
            lo <= cs.len(),
            trim_start(cs@) == trim_start(cs@.skip(lo as int)),
        decreases cs.len() - lo,
    {
        proof {
            assert(cs@.skip(lo as int).skip(1) =~= cs@.skip(lo + 1));
        }
        lo = lo + 1;
    }
    let ghost front = cs@.skip(lo as int);
    assert(trim_start(cs@) == front);
    let mut hi: usize = cs.len();
    proof {
        assert(cs@.subrange(lo as int, hi as int) =~= front);
    }
    while hi > lo && char_is_whitespace(cs[hi - 1])
        invariant
            cs@ == s@,
            lo <= hi <= cs.len(),
            trim_end(front) == trim_end(cs@.subrange(lo as int, hi as int)),
        decreases hi,
    {
        proof {
            let t = cs@.subrange(lo as int, hi as int);
            assert(t.last() == cs@[hi - 1]);
            assert(t.drop_last() =~= cs@.subrange(lo as int, hi - 1));
        }
        hi = hi - 1;
    }
    let mut out: Vec<char> = Vec::new();
    let mut k: usize = lo;
    while k < hi
        invariant
            lo <= k <= hi <= cs.len(),
            out@ == cs@.subrange(lo as int, k as int),
        decreases hi - k,
    {
        out.push(cs[k]);
        proof {
            assert(cs@.subrange(lo as int, k + 1) =~= cs@.subrange(lo as int, k as int).push(cs@[k as int]));
        }
        k = k + 1;
    }
    string_from_chars(&out)
}

} // verus!
