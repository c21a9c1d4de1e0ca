//! Character-sequence primitives and their mathematical models.

use vstd::prelude::*;

verus! {

/// Appends one character with `String::push`; the contract states that the
/// string gains that character at its end.
#[verifier::external_body]
fn push_char(s: &mut String, c: char)
    ensures
        final(s)@ == old(s)@.push(c),
{
    s.push(c);
}

/// The characters of a string slice, in order.
pub fn chars_of(s: &str) -> (r: Vec<char>)
    ensures
        r@ == s@,
{
    let mut r: Vec<char> = Vec::new();
    for c in it: s.chars()
        invariant
            r@ == it.seq().take(it.index() as int),
    {
        r.push(c);
    }
    r
}

/// A string made of the given characters.
pub fn string_of(cs: &[char]) -> (r: String)
    ensures
        r@ == cs@,
{
    let mut r = String::new();
    let mut i: usize = 0;
    while i < cs.len()
        invariant
            i <= cs@.len(),
            r@ == cs@.take(i as int),
        decreases cs@.len() - i,
    {
        push_char(&mut r, cs[i]);
        assert(cs@.take(i + 1) =~= cs@.take(i as int).push(cs@[i as int]));
        i = i + 1;
    }
    assert(cs@.take(cs@.len() as int) =~= cs@);
    r
}


/// Unicode `White_Space`, as `char::is_whitespace` decides it.
pub open spec fn is_ws(c: char) -> bool {
    ||| c == ' ' || c == '\t' || c == '\n' || c == '\x0B' || c == '\x0C' || c == '\r'
    ||| c == '\u{85}' || c == '\u{A0}' || c == '\u{1680}'
    ||| ('\u{2000}' <= c && c <= '\u{200A}')
    ||| c == '\u{2028}' || c == '\u{2029}' || c == '\u{202F}' || c == '\u{205F}'
    ||| c == '\u{3000}'
}

/// Decides `is_ws`.
pub fn is_ws_char(c: char) -> (b: bool)
    ensures
        b == is_ws(c),
{
    c == ' ' || c == '\t' || c == '\n' || c == '\x0B' || c == '\x0C' || c == '\r' || c == '\u{85}'
        || c == '\u{A0}' || c == '\u{1680}' || ('\u{2000}' <= c && c <= '\u{200A}') || c
        == '\u{2028}' || c == '\u{2029}' || c == '\u{202F}' || c == '\u{205F}' || c == '\u{3000}'
}

/// ASCII lower-casing of one character.
pub open spec fn lower_char(c: char) -> char {
    if 'A' <= c && c <= 'Z' {
        ((c as u32) + 32) as char
    } else {
        c
    }
}

/// ASCII lower-casing of a character sequence.
pub open spec fn lower(s: Seq<char>) -> Seq<char> {
    s.map_values(|c: char| lower_char(c))
}

/// Decides `lower_char`.
pub fn lower_char_exec(c: char) -> (r: char)
    ensures
        r == lower_char(c),
{
    if 'A' <= c && c <= 'Z' {
        ((c as u8) + 32) as char
    } else {
        c
    }
}

/// ASCII lower-casing of a character sequence.
pub fn lower_chars(s: &[char]) -> (r: Vec<char>)
    ensures
        r@ == lower(s@),
{
    let mut r: Vec<char> = Vec::new();
    let mut i: usize = 0;
    while i < s.len()
        invariant
            i <= s@.len(),
            r@ == lower(s@.take(i as int)),
        decreases s@.len() - i,
    {
        let c = lower_char_exec(s[i]);
        r.push(c);
        assert(lower(s@.take(i + 1)) =~= lower(s@.take(i as int)).push(c));
        i = i + 1;
    }
    assert(s@.take(s@.len() as int) =~= s@);
    r
}

/// `p` occurs in `s` at position `i`.
pub open spec fn matches_at(s: Seq<char>, p: Seq<char>, i: int) -> bool {
    0 <= i && i + p.len() <= s.len() && s.subrange(i, i + p.len()) == p
}

/// `p` occurs somewhere in `s`.
pub open spec fn contains(s: Seq<char>, p: Seq<char>) -> bool {
    exists|i: int| matches_at(s, p, i)
}

/// `s` begins with `p`.
pub open spec fn starts_with(s: Seq<char>, p: Seq<char>) -> bool {
    matches_at(s, p, 0)
}

/// `s` ends with `p`.
pub open spec fn ends_with(s: Seq<char>, p: Seq<char>) -> bool {
    matches_at(s, p, s.len() - p.len())
}

/// Decides whether `p` occurs in `s` at position `i`.
pub fn matches_at_exec(s: &[char], p: &[char], i: usize) -> (b: bool)
    ensures
        b == matches_at(s@, p@, i as int),
{
    if i > s.len() || p.len() > s.len() - i {
        return false;
    }
    let mut k: usize = 0;
    let n = s.len();
    while k < p.len()
        invariant
            n == s@.len(),
            i + p@.len() <= s@.len(),
            k <= p@.len(),
            forall|j: int| 0 <= j < k ==> s@[i + j] == p@[j],
        decreases p@.len() - k,
    {
        if s[i + k] != p[k] {
            assert(s@.subrange(i as int, i + p@.len())[k as int] != p@[k as int]);
            return false;
        }
        k = k + 1;
    }
    assert(s@.subrange(i as int, i + p@.len()) =~= p@);
    true
}

/// The first position at which `p` occurs in `s`, if any.
pub fn find(s: &[char], p: &[char]) -> (r: Option<usize>)
    ensures
        match r {
            Some(i) => matches_at(s@, p@, i as int) && forall|j: int|
                0 <= j < i ==> !matches_at(s@, p@, j),
            None => !contains(s@, p@),
        },
{
    if p.len() > s.len() {
        return None;
    }
    if p.len() == 0 {
        assert(s@.subrange(0, 0) =~= p@);
        return Some(0);
    }
    let last = s.len() - p.len();
    let mut i: usize = 0;
    let n = s.len();
    while i <= last
        invariant
            n == s@.len(),
            p@.len() > 0,
            last + p@.len() == s@.len(),
            i <= last + 1,
            forall|j: int| 0 <= j < i ==> !matches_at(s@, p@, j),
        decreases last + 1 - i,
    {
        if matches_at_exec(s, p, i) {
            return Some(i);
        }
        i = i + 1;
    }
    None
}

/// The last position at which `p` occurs in `s`, if any.
pub fn rfind(s: &[char], p: &[char]) -> (r: Option<usize>)
    ensures
        match r {
            Some(i) => matches_at(s@, p@, i as int) && forall|j: int|
                i < j ==> !matches_at(s@, p@, j),
            None => !contains(s@, p@),
        },
{
    if p.len() > s.len() {
        return None;
    }
    if p.len() == 0 {
        assert(s@.subrange(s@.len() as int, s@.len() as int) =~= p@);
        assert(matches_at(s@, p@, s@.len() as int));
        return Some(s.len());
    }
    let mut i: usize = s.len() - p.len() + 1;
    while i > 0
        invariant
            i + p@.len() <= s@.len() + 1,
            forall|j: int| i <= j ==> !matches_at(s@, p@, j),
        decreases i,
    {
        if matches_at_exec(s, p, i - 1) {
            return Some(i - 1);
        }
        i = i - 1;
    }
    None
}

/// Decides `contains`.
pub fn contains_exec(s: &[char], p: &[char]) -> (b: bool)
    ensures
        b == contains(s@, p@),
{
    find(s, p).is_some()
}

/// Decides `starts_with`.
pub fn starts_with_exec(s: &[char], p: &[char]) -> (b: bool)
    ensures
        b == starts_with(s@, p@),
{
    matches_at_exec(s, p, 0)
}

/// Decides `ends_with`.
pub fn ends_with_exec(s: &[char], p: &[char]) -> (b: bool)
    ensures
        b == ends_with(s@, p@),
{
    if p.len() > s.len() {
        false
    } else {
        matches_at_exec(s, p, s.len() - p.len())
    }
}

/// `s` without its leading whitespace.
pub open spec fn trim_start(s: Seq<char>) -> Seq<char>
    decreases s.len(),
{
    if s.len() > 0 && is_ws(s[0]) {
        trim_start(s.skip(1))
    } else {
        s
    }
}

/// `s` without its trailing whitespace.
pub open spec fn trim_end(s: Seq<char>) -> Seq<char>
    decreases s.len(),
{
    if s.len() > 0 && is_ws(s.last()) {
        trim_end(s.drop_last())
    } else {
        s
    }
}

/// `s` without leading and trailing whitespace.
pub open spec fn trim(s: Seq<char>) -> Seq<char> {
    trim_end(trim_start(s))
}

/// The number of leading whitespace characters.
pub fn leading_ws(s: &[char]) -> (n: usize)
    ensures
        n <= s@.len(),
        trim_start(s@) == s@.skip(n as int),
{
    let mut i: usize = 0;
    assert(s@.skip(0) =~= s@);
    while i < s.len() && is_ws_char(s[i])
        invariant
            i <= s@.len(),
            trim_start(s@) == trim_start(s@.skip(i as int)),
        decreases s@.len() - i,
    {
        assert(s@.skip(i as int).skip(1) =~= s@.skip(i + 1));
        i = i + 1;
    }
    i
}

/// The length of `s` once trailing whitespace is removed.
pub fn trimmed_end_len(s: &[char]) -> (n: usize)
    ensures
        n <= s@.len(),
        trim_end(s@) == s@.take(n as int),
{
    let mut i: usize = s.len();
    assert(s@.take(i as int) =~= s@);
    while i > 0 && is_ws_char(s[i - 1])
        invariant
            i <= s@.len(),
            trim_end(s@) == trim_end(s@.take(i as int)),
        decreases i,
    {
        assert(s@.take(i as int).drop_last() =~= s@.take(i - 1));
        i = i - 1;
    }
    i
}

/// A copy of `s[from..to]`.
pub fn slice_vec(s: &[char], from: usize, to: usize) -> (r: Vec<char>)
    requires
        from <= to <= s@.len(),
    ensures
        r@ == s@.subrange(from as int, to as int),
{
    let mut r: Vec<char> = Vec::new();
    let mut i: usize = from;
    while i < to
        invariant
            from <= i <= to <= s@.len(),
            r@ == s@.subrange(from as int, i as int),
        decreases to - i,
    {
        r.push(s[i]);
        assert(s@.subrange(from as int, i + 1) =~= s@.subrange(from as int, i as int).push(
            s@[i as int],
        ));
        i = i + 1;
    }
    r
}

/// `s` without leading and trailing whitespace.
pub fn trim_seq(s: &[char]) -> (r: Vec<char>)
    ensures
        r@ == trim(s@),
{
    let a = leading_ws(s);
    let rest = slice_vec(s, a, s.len());
    assert(rest@ =~= s@.skip(a as int));
    let b = trimmed_end_len(&rest);
    slice_vec(&rest, 0, b)
}

/// `s` without trailing whitespace.
pub fn trim_end_chars(s: &[char]) -> (r: Vec<char>)
    ensures
        r@ == trim_end(s@),
{
    let b = trimmed_end_len(s);
    slice_vec(s, 0, b)
}

/// Appends all of `b` to `a`.
pub fn extend(a: &mut Vec<char>, b: &[char])
    ensures
        final(a)@ == old(a)@ + b@,
{
    let mut i: usize = 0;
    while i < b.len()
        invariant
            i <= b@.len(),
            a@ == old(a)@ + b@.take(i as int),
        decreases b@.len() - i,
    {
        a.push(b[i]);
        assert(b@.take(i + 1) =~= b@.take(i as int).push(b@[i as int]));
        i = i + 1;
    }
    assert(b@.take(b@.len() as int) =~= b@);
}


/// The whitespace-separated words of `cur ++ s`, where `cur` is a word already
/// begun.
pub open spec fn words_from(cur: Seq<char>, s: Seq<char>) -> Seq<Seq<char>>
    decreases s.len(),
{
    if s.len() == 0 {
        if cur.len() > 0 {
            seq![cur]
        } else {
            seq![]
        }
    } else if is_ws(s[0]) {
        (if cur.len() > 0 {
            seq![cur]
        } else {
            seq![]
        }) + words_from(seq![], s.skip(1))
    } else {
        words_from(cur.push(s[0]), s.skip(1))
    }
}

/// The maximal runs of non-whitespace characters of `s`, in order
/// (`str::split_whitespace`).
pub open spec fn words(s: Seq<char>) -> Seq<Seq<char>> {
    words_from(seq![], s)
}

/// The elements of `ws` separated by `sep` (`[T]::join`).
pub open spec fn join(ws: Seq<Seq<char>>, sep: Seq<char>) -> Seq<char>
    decreases ws.len(),
{
    if ws.len() == 0 {
        seq![]
    } else if ws.len() == 1 {
        ws[0]
    } else {
        join(ws.drop_last(), sep) + sep + ws.last()
    }
}

/// The words of `s` separated by single spaces.
pub open spec fn squash_ws(s: Seq<char>) -> Seq<char> {
    join(words(s), seq![' '])
}

/// Computes `words`.
pub fn words_exec(s: &[char]) -> (r: Vec<Vec<char>>)
    ensures
        r.deep_view() == words(s@),
{
    let mut out: Vec<Vec<char>> = Vec::new();
    let mut cur: Vec<char> = Vec::new();
    let mut i: usize = 0;
    assert(s@.skip(0) =~= s@);
    assert(out.deep_view() =~= Seq::<Seq<char>>::empty());
    while i < s.len()
        invariant
            i <= s@.len(),
            words(s@) == out.deep_view() + words_from(cur@, s@.skip(i as int)),
        decreases s@.len() - i,
    {
        let c = s[i];
        let ghost rest = s@.skip(i as int);
        assert(rest.skip(1) =~= s@.skip(i + 1));
        assert(rest[0] == c);
        if is_ws_char(c) {
            if cur.len() > 0 {
                let ghost old_out = out.deep_view();
                let ghost cw = cur@;
            assert(cur.deep_view() =~= cw);
                let w = cur;
                out.push(w);
                cur = Vec::new();
                assert(out.deep_view() =~= old_out.push(cw));
                assert(old_out + (seq![cw] + words_from(seq![], s@.skip(i + 1))) =~= old_out.push(cw)
                    + words_from(cur@, s@.skip(i + 1)));
            } else {
                assert(cur@ =~= Seq::<char>::empty());
                assert(seq![] + words_from(seq![], s@.skip(i + 1)) =~= words_from(
                    seq![],
                    s@.skip(i + 1),
                ));
            }
        } else {
            cur.push(c);
        }
        i = i + 1;
    }
    assert(s@.skip(i as int) =~= Seq::<char>::empty());
    if cur.len() > 0 {
        let ghost old_out = out.deep_view();
        let ghost cw = cur@;
            assert(cur.deep_view() =~= cw);
        out.push(cur);
        assert(out.deep_view() =~= old_out.push(cw));
    } else {
        assert(out.deep_view() + seq![] =~= out.deep_view());
    }
    out
}

/// Computes `join`.
pub fn join_exec(ws: &Vec<Vec<char>>, sep: &[char]) -> (r: Vec<char>)
    ensures
        r@ == join(ws.deep_view(), sep@),
{
    let mut out: Vec<char> = Vec::new();
    let mut i: usize = 0;
    let ghost dv = ws.deep_view();
    while i < ws.len()
        invariant
            dv == ws.deep_view(),
            dv.len() == ws@.len(),
            i <= ws@.len(),
            out@ == join(dv.take(i as int), sep@),
        decreases ws@.len() - i,
    {
        assert(dv.take(i + 1).drop_last() =~= dv.take(i as int));
        assert(dv.take(i + 1).last() == ws@[i as int]@);
        if i > 0 {
            extend(&mut out, sep);
        }
        extend(&mut out, &ws[i]);
        i = i + 1;
    }
    assert(dv.take(ws@.len() as int) =~= dv);
    out
}

/// Computes `squash_ws`.
pub fn squash_ws_exec(s: &[char]) -> (r: Vec<char>)
    ensures
        r@ == squash_ws(s@),
{
    let ws = words_exec(s);
    let sep = vec![' '];
    assert(sep@ =~= seq![' ']);
    join_exec(&ws, &sep)
}

/// `s` with every non-overlapping occurrence of `from`, scanned left to right,
/// replaced by `to` (`str::replace` with a non-empty pattern).
pub open spec fn replace_all(s: Seq<char>, from: Seq<char>, to: Seq<char>) -> Seq<char>
    decreases s.len(),
{
    if s.len() == 0 {
        seq![]
    } else if from.len() > 0 && starts_with(s, from) {
        to + replace_all(s.skip(from.len() as int), from, to)
    } else {
        seq![s[0]] + replace_all(s.skip(1), from, to)
    }
}

/// Computes `replace_all`.
pub fn replace_all_exec(s: &[char], from: &[char], to: &[char]) -> (r: Vec<char>)
    requires
        from@.len() > 0,
    ensures
        r@ == replace_all(s@, from@, to@),
{
    let mut out: Vec<char> = Vec::new();
    let mut i: usize = 0;
    assert(s@.skip(0) =~= s@);
    while i < s.len()
        invariant
            from@.len() > 0,
            i <= s@.len(),
            replace_all(s@, from@, to@) == out@ + replace_all(s@.skip(i as int), from@, to@),
        decreases s@.len() - i,
    {
        let ghost rest = s@.skip(i as int);
        let ghost old_out = out@;
        if matches_at_exec(s, from, i) {
            assert(rest.subrange(0, from@.len() as int) =~= s@.subrange(i as int, i + from@.len()));
            assert(rest.skip(from@.len() as int) =~= s@.skip(i + from@.len()));
            extend(&mut out, to);
            assert(old_out + (to@ + replace_all(s@.skip(i + from@.len()), from@, to@)) =~= out@
                + replace_all(s@.skip(i + from@.len()), from@, to@));
            i = i + from.len();
        } else {
            proof {
                if from@.len() <= rest.len() {
                    assert(rest.subrange(0, from@.len() as int) =~= s@.subrange(
                        i as int,
                        i + from@.len(),
                    ));
                }
            }
            assert(rest.skip(1) =~= s@.skip(i + 1));
            out.push(s[i]);
            assert(old_out + (seq![s@[i as int]] + replace_all(s@.skip(i + 1), from@, to@)) =~= out@
                + replace_all(s@.skip(i + 1), from@, to@));
            i = i + 1;
        }
    }
    assert(s@.skip(i as int) =~= Seq::<char>::empty());
    assert(out@ + Seq::<char>::empty() =~= out@);
    out
}

/// The pieces of `cur ++ s` separated by `c`, where `cur` is a piece already
/// begun.
pub open spec fn split_from(cur: Seq<char>, s: Seq<char>, c: char) -> Seq<Seq<char>>
    decreases s.len(),
{
    if s.len() == 0 {
        seq![cur]
    } else if s[0] == c {
        seq![cur] + split_from(seq![], s.skip(1), c)
    } else {
        split_from(cur.push(s[0]), s.skip(1), c)
    }
}

/// The pieces of `s` separated by `c`, empty pieces included (`str::split`).
pub open spec fn split(s: Seq<char>, c: char) -> Seq<Seq<char>> {
    split_from(seq![], s, c)
}

/// `split` always yields at least one piece.
pub proof fn lemma_split_from_nonempty(cur: Seq<char>, s: Seq<char>, c: char)
    ensures
        split_from(cur, s, c).len() >= 1,
    decreases s.len(),
{
    if s.len() > 0 {
        if s[0] == c {
            lemma_split_from_nonempty(seq![], s.skip(1), c);
        } else {
            lemma_split_from_nonempty(cur.push(s[0]), s.skip(1), c);
        }
    }
}

/// Computes `split`.
pub fn split_exec(s: &[char], c: char) -> (r: Vec<Vec<char>>)
    ensures
        r.deep_view() == split(s@, c),
        r@.len() >= 1,
{
    let mut out: Vec<Vec<char>> = Vec::new();
    let mut cur: Vec<char> = Vec::new();
    let mut i: usize = 0;
    assert(s@.skip(0) =~= s@);
    assert(out.deep_view() =~= Seq::<Seq<char>>::empty());
    while i < s.len()
        invariant
            i <= s@.len(),
            split(s@, c) == out.deep_view() + split_from(cur@, s@.skip(i as int), c),
        decreases s@.len() - i,
    {
        let x = s[i];
        let ghost rest = s@.skip(i as int);
        assert(rest.skip(1) =~= s@.skip(i + 1));
        assert(rest[0] == x);
        if x == c {
            let ghost old_out = out.deep_view();
            let ghost cw = cur@;
            assert(cur.deep_view() =~= cw);
            out.push(cur);
            cur = Vec::new();
            assert(out.deep_view() =~= old_out.push(cw));
            assert(old_out + (seq![cw] + split_from(seq![], s@.skip(i + 1), c)) =~= out.deep_view()
                + split_from(cur@, s@.skip(i + 1), c));
        } else {
            cur.push(x);
        }
        i = i + 1;
    }
    assert(s@.skip(i as int) =~= Seq::<char>::empty());
    let ghost old_out = out.deep_view();
    let ghost cw = cur@;
            assert(cur.deep_view() =~= cw);
    out.push(cur);
    assert(out.deep_view() =~= old_out.push(cw));
    out
}


/// Decides whether two character sequences are equal.
pub fn eq_chars(a: &[char], b: &[char]) -> (r: bool)
    ensures
        r == (a@ == b@),
{
    if a.len() != b.len() {
        return false;
    }
    let r = matches_at_exec(a, b, 0);
    proof {
        if r {
            assert(a@.subrange(0, b@.len() as int) =~= a@);
        } else {
            assert(a@.subrange(0, b@.len() as int) =~= a@);
        }
    }
    r
}

/// An ASCII decimal digit.
pub open spec fn is_digit(c: char) -> bool {
    '0' <= c && c <= '9'
}

/// Every character of `s` is a decimal digit.
pub open spec fn all_digits(s: Seq<char>) -> bool {
    forall|i: int| 0 <= i < s.len() ==> is_digit(#[trigger] s[i])
}

/// The value of a digit character.
pub open spec fn digit_val(c: char) -> nat {
    (c as int - '0' as int) as nat
}

/// The number that a string of decimal digits denotes.
pub open spec fn digits_value(s: Seq<char>) -> nat
    decreases s.len(),
{
    if s.len() == 0 {
        0
    } else {
        digits_value(s.drop_last()) * 10 + digit_val(s.last())
    }
}

/// What `str::parse` reads for an unsigned integer type before it checks the
/// type's range: an optional `+` and then at least one decimal digit.
pub open spec fn unsigned_value(s: Seq<char>) -> Option<nat> {
    let d = if s.len() > 0 && s[0] == '+' {
        s.skip(1)
    } else {
        s
    };
    if d.len() > 0 && all_digits(d) {
        Some(digits_value(d))
    } else {
        None
    }
}

/// `str::parse` for an unsigned integer type whose largest value is `max`.
pub open spec fn parse_unsigned(s: Seq<char>, max: nat) -> Option<nat> {
    match unsigned_value(s) {
        Some(n) => if n <= max {
            Some(n)
        } else {
            None
        },
        None => None,
    }
}

/// A prefix of a digit string denotes no more than the whole string.
pub proof fn lemma_digits_prefix_le(d: Seq<char>, k: int)
    requires
        0 <= k <= d.len(),
    ensures
        digits_value(d.take(k)) <= digits_value(d),
    decreases d.len() - k,
{
    if k < d.len() {
        assert(d.take(k + 1).drop_last() =~= d.take(k));
        lemma_digits_prefix_le(d, k + 1);
    } else {
        assert(d.take(k) =~= d);
    }
}

/// `str::parse::<u64>`.
pub fn parse_u64(s: &[char]) -> (r: Option<u64>)
    ensures
        match r {
            Some(v) => parse_unsigned(s@, u64::MAX as nat) == Some(v as nat),
            None => parse_unsigned(s@, u64::MAX as nat) is None,
        },
{
    let st: usize = if s.len() > 0 && s[0] == '+' {
        1
    } else {
        0
    };
    let ghost d = if s@.len() > 0 && s@[0] == '+' {
        s@.skip(1)
    } else {
        s@
    };
    assert(d =~= s@.skip(st as int));
    if st >= s.len() {
        return None;
    }
    let mut acc: u64 = 0;
    let mut i: usize = st;
    assert(d.take(0) =~= Seq::<char>::empty());
    while i < s.len()
        invariant
            st <= i <= s@.len(),
            d =~= s@.skip(st as int),
            d == (if s@.len() > 0 && s@[0] == '+' {
                s@.skip(1)
            } else {
                s@
            }),
            acc as nat == digits_value(d.take(i - st)),
            all_digits(d.take(i - st)),
        decreases s@.len() - i,
    {
        let c = s[i];
        assert(d[i - st] == c);
        if !('0' <= c && c <= '9') {
            assert(!all_digits(d));
            return None;
        }
        let dig = ((c as u32) - ('0' as u32)) as u64;
        assert(d.take(i + 1 - st).drop_last() =~= d.take(i - st));
        assert(d.take(i + 1 - st).last() == c);
        let m = acc.checked_mul(10);
        match m {
            None => {
                proof {
                    lemma_digits_prefix_le(d, i + 1 - st);
                    if all_digits(d) {
                    }
                }
                return None;
            },
            Some(m) => {
                let a = m.checked_add(dig);
                match a {
                    None => {
                        proof {
                            lemma_digits_prefix_le(d, i + 1 - st);
                        }
                        return None;
                    },
                    Some(a) => {
                        acc = a;
                    },
                }
            },
        }
        assert forall|j: int| 0 <= j < d.take(i + 1 - st).len() implies is_digit(
            #[trigger] d.take(i + 1 - st)[j],
        ) by {
            if j < i - st {
                assert(d.take(i + 1 - st)[j] == d.take(i - st)[j]);
            }
        }
        i = i + 1;
    }
    assert(d.take(i - st) =~= d);
    Some(acc)
}


/// The first position at which one of `ws` occurs in `s`, if any.
pub fn find_any(s: &[char], ws: &Vec<Vec<char>>) -> (r: Option<usize>)
    ensures
        match r {
            Some(i) => i < ws@.len() && contains(s@, ws.deep_view()[i as int]) && forall|j: int|
                0 <= j < i ==> !contains(s@, #[trigger] ws.deep_view()[j]),
            None => forall|j: int|
                0 <= j < ws@.len() ==> !contains(s@, #[trigger] ws.deep_view()[j]),
        },
{
    let mut i: usize = 0;
    while i < ws.len()
        invariant
            i <= ws@.len(),
            forall|j: int| 0 <= j < i ==> !contains(s@, #[trigger] ws.deep_view()[j]),
        decreases ws@.len() - i,
    {
        assert(ws.deep_view()[i as int] == ws@[i as int]@);
        if contains_exec(s, &ws[i]) {
            return Some(i);
        }
        i = i + 1;
    }
    None
}

/// Some element of `ws` occurs in `s`.
pub open spec fn contains_any(s: Seq<char>, ws: Seq<Seq<char>>) -> bool {
    exists|j: int| 0 <= j < ws.len() && contains(s, #[trigger] ws[j])
}

/// Decides `contains_any`.
pub fn contains_any_exec(s: &[char], ws: &Vec<Vec<char>>) -> (b: bool)
    ensures
        b == contains_any(s@, ws.deep_view()),
{
    match find_any(s, ws) {
        Some(i) => {
            assert(contains(s@, ws.deep_view()[i as int]));
            true
        },
        None => false,
    }
}

/// `s` equals some element of `ws`.
pub open spec fn is_one_of(s: Seq<char>, ws: Seq<Seq<char>>) -> bool {
    exists|j: int| 0 <= j < ws.len() && #[trigger] ws[j] == s
}

/// Decides `is_one_of`.
pub fn is_one_of_exec(s: &[char], ws: &Vec<Vec<char>>) -> (b: bool)
    ensures
        b == is_one_of(s@, ws.deep_view()),
{
    let mut i: usize = 0;
    while i < ws.len()
        invariant
            i <= ws@.len(),
            forall|j: int| 0 <= j < i ==> #[trigger] ws.deep_view()[j] != s@,
        decreases ws@.len() - i,
    {
        assert(ws.deep_view()[i as int] == ws@[i as int]@);
        if eq_chars(&ws[i], s) {
            return true;
        }
        i = i + 1;
    }
    false
}

/// The decimal digit character for `d < 10`.
pub open spec fn digit_char(d: nat) -> char {
    ((d + 48) as u8) as char
}

/// The decimal numeral of `n`, without leading zeros.
pub open spec fn decimal(n: nat) -> Seq<char>
    decreases n,
{
    if n < 10 {
        seq![digit_char(n)]
    } else {
        decimal(n / 10).push(digit_char(n % 10))
    }
}

/// The decimal numeral of `n` (`u64::to_string`).
pub fn decimal_exec(n: u64) -> (r: Vec<char>)
    ensures
        r@ == decimal(n as nat),
    decreases n,
{
    let d = ((n % 10) as u8 + 48) as char;
    if n < 10 {
        vec![d]
    } else {
        let mut v = decimal_exec(n / 10);
        v.push(d);
        v
    }
}

/// The characters of `s` followed by those of a literal.
pub fn append_str(a: &mut Vec<char>, s: &str)
    ensures
        final(a)@ == old(a)@ + s@,
{
    let cs = chars_of(s);
    extend(a, &cs);
}

/// The first `n` characters of `s`, or all of them.
pub open spec fn take_chars(s: Seq<char>, n: nat) -> Seq<char> {
    if s.len() <= n {
        s
    } else {
        s.take(n as int)
    }
}

/// The last `n` characters of `s`, or all of them.
pub open spec fn tail_chars(s: Seq<char>, n: nat) -> Seq<char> {
    if s.len() <= n {
        s
    } else {
        s.skip(s.len() - n)
    }
}

/// Computes `take_chars`.
pub fn take_chars_exec(s: &[char], n: usize) -> (r: Vec<char>)
    ensures
        r@ == take_chars(s@, n as nat),
{
    if s.len() <= n {
        slice_vec(s, 0, s.len())
    } else {
        slice_vec(s, 0, n)
    }
}

/// Computes `tail_chars`.
pub fn tail_chars_exec(s: &[char], n: usize) -> (r: Vec<char>)
    ensures
        r@ == tail_chars(s@, n as nat),
{
    if s.len() <= n {
        slice_vec(s, 0, s.len())
    } else {
        slice_vec(s, s.len() - n, s.len())
    }
}

/// `s` with each character that occurs in `from` replaced by `to`.
pub open spec fn map_char(s: Seq<char>, from: Seq<char>, to: char) -> Seq<char> {
    s.map_values(|c: char| if from.contains(c) { to } else { c })
}

/// Replaces each character of `s` that occurs in `from` by `to`.
pub fn map_char_exec(s: &[char], from: &[char], to: char) -> (r: Vec<char>)
    ensures
        r@ == map_char(s@, from@, to),
{
    let mut r: Vec<char> = Vec::new();
    let mut i: usize = 0;
    while i < s.len()
        invariant
            i <= s@.len(),
            r@ == map_char(s@.take(i as int), from@, to),
        decreases s@.len() - i,
    {
        let c = s[i];
        let mut hit = false;
        let mut k: usize = 0;
        while k < from.len()
            invariant
                k <= from@.len(),
                hit == (exists|j: int| 0 <= j < k && from@[j] == c),
            decreases from@.len() - k,
        {
            if from[k] == c {
                hit = true;
            }
            k = k + 1;
        }
        assert(hit == from@.contains(c));
        let d = if hit {
            to
        } else {
            c
        };
        r.push(d);
        assert(map_char(s@.take(i + 1), from@, to) =~= map_char(s@.take(i as int), from@, to).push(
            d,
        ));
        i = i + 1;
    }
    assert(s@.take(s@.len() as int) =~= s@);
    r
}


/// The first position at which `p` occurs in `s` (meaningful when it occurs).
pub open spec fn first_index(s: Seq<char>, p: Seq<char>) -> int {
    choose|i: int| matches_at(s, p, i) && forall|j: int| 0 <= j < i ==> !matches_at(s, p, j)
}

/// A position that is the first occurrence is `first_index`.
pub proof fn lemma_first_index(s: Seq<char>, p: Seq<char>, i: int)
    requires
        matches_at(s, p, i),
        forall|j: int| 0 <= j < i ==> !matches_at(s, p, j),
    ensures
        first_index(s, p) == i,
        contains(s, p),
{
    let k = first_index(s, p);
    assert(matches_at(s, p, k) && forall|j: int| 0 <= j < k ==> !matches_at(s, p, j));
    if k < i {
        assert(!matches_at(s, p, k));
    }
    if i < k {
        assert(!matches_at(s, p, i));
    }
}

/// The first position at which `p` occurs in `s`, tied to `first_index`.
pub fn find_first(s: &[char], p: &[char]) -> (r: Option<usize>)
    ensures
        match r {
            Some(i) => contains(s@, p@) && i as int == first_index(s@, p@) && i + p@.len()
                <= s@.len(),
            None => !contains(s@, p@),
        },
{
    match find(s, p) {
        Some(i) => {
            proof {
                lemma_first_index(s@, p@, i as int);
            }
            Some(i)
        },
        None => None,
    }
}

/// `s` without the leading characters that occur in `set`.
pub open spec fn strip_front(s: Seq<char>, set: Seq<char>) -> Seq<char>
    decreases s.len(),
{
    if s.len() > 0 && set.contains(s[0]) {
        strip_front(s.skip(1), set)
    } else {
        s
    }
}

/// `s` without the trailing characters that occur in `set`.
pub open spec fn strip_back(s: Seq<char>, set: Seq<char>) -> Seq<char>
    decreases s.len(),
{
    if s.len() > 0 && set.contains(s.last()) {
        strip_back(s.drop_last(), set)
    } else {
        s
    }
}

/// `s` without the characters of `set` at either end (`str::trim_matches`).
pub open spec fn strip_set(s: Seq<char>, set: Seq<char>) -> Seq<char> {
    strip_back(strip_front(s, set), set)
}

/// Decides whether `c` occurs in `set`.
pub fn char_in(set: &[char], c: char) -> (b: bool)
    ensures
        b == set@.contains(c),
{
    let mut k: usize = 0;
    while k < set.len()
        invariant
            k <= set@.len(),
            forall|j: int| 0 <= j < k ==> set@[j] != c,
        decreases set@.len() - k,
    {
        if set[k] == c {
            assert(set@[k as int] == c);
            return true;
        }
        k = k + 1;
    }
    false
}

/// Computes `strip_set`.
pub fn strip_set_exec(s: &[char], set: &[char]) -> (r: Vec<char>)
    ensures
        r@ == strip_set(s@, set@),
{
    let mut a: usize = 0;
    assert(s@.skip(0) =~= s@);
    while a < s.len() && char_in(set, s[a])
        invariant
            a <= s@.len(),
            strip_front(s@, set@) == strip_front(s@.skip(a as int), set@),
        decreases s@.len() - a,
    {
        assert(s@.skip(a as int).skip(1) =~= s@.skip(a + 1));
        a = a + 1;
    }
    let rest = slice_vec(s, a, s.len());
    assert(rest@ =~= s@.skip(a as int));
    let mut b: usize = rest.len();
    assert(rest@.take(b as int) =~= rest@);
    while b > 0 && char_in(set, rest[b - 1])
        invariant
            b <= rest@.len(),
            strip_back(rest@, set@) == strip_back(rest@.take(b as int), set@),
        decreases b,
    {
        assert(rest@.take(b as int).drop_last() =~= rest@.take(b - 1));
        b = b - 1;
    }
    slice_vec(&rest, 0, b)
}

/// Removes the characters `from..to` of `s`.
pub fn remove_range(s: &[char], from: usize, to: usize) -> (r: Vec<char>)
    requires
        from <= to <= s@.len(),
    ensures
        r@ == s@.take(from as int) + s@.skip(to as int),
{
    let mut a = slice_vec(s, 0, from);
    let b = slice_vec(s, to, s.len());
    extend(&mut a, &b);
    assert(s@.subrange(0, from as int) =~= s@.take(from as int));
    assert(s@.subrange(to as int, s@.len() as int) =~= s@.skip(to as int));
    a
}


/// The first element of `ws` that occurs in `s` (meaningful when one does).
pub open spec fn first_contained(s: Seq<char>, ws: Seq<Seq<char>>) -> int {
    choose|i: int|
        0 <= i < ws.len() && contains(s, ws[i]) && forall|j: int|
            0 <= j < i ==> !contains(s, #[trigger] ws[j])
}

/// The first element that occurs is `first_contained`.
pub proof fn lemma_first_contained(s: Seq<char>, ws: Seq<Seq<char>>, k: int)
    requires
        0 <= k < ws.len(),
        contains(s, ws[k]),
        forall|j: int| 0 <= j < k ==> !contains(s, #[trigger] ws[j]),
    ensures
        first_contained(s, ws) == k,
        contains_any(s, ws),
{
    let c = first_contained(s, ws);
    assert(0 <= c < ws.len() && contains(s, ws[c]) && forall|j: int|
        0 <= j < c ==> !contains(s, #[trigger] ws[j]));
    if c < k {
        assert(!contains(s, ws[c]));
    }
    if k < c {
        assert(!contains(s, ws[k]));
    }
}


/// The last position at which `p` occurs in `s` (meaningful when it occurs).
pub open spec fn last_index(s: Seq<char>, p: Seq<char>) -> int {
    choose|i: int| matches_at(s, p, i) && forall|j: int| i < j ==> !matches_at(s, p, j)
}

/// The last position at which `p` occurs in `s`, tied to `last_index`.
pub fn find_last(s: &[char], p: &[char]) -> (r: Option<usize>)
    ensures
        match r {
            Some(i) => contains(s@, p@) && i as int == last_index(s@, p@) && i + p@.len()
                <= s@.len(),
            None => !contains(s@, p@),
        },
{
    match rfind(s, p) {
        Some(i) => {
            proof {
                let k = last_index(s@, p@);
                assert(matches_at(s@, p@, i as int));
                assert(matches_at(s@, p@, k) && forall|j: int| k < j ==> !matches_at(s@, p@, j));
                if k < i {
                    assert(!matches_at(s@, p@, i as int));
                }
                if i < k {
                    assert(!matches_at(s@, p@, k));
                }
            }
            Some(i)
        },
        None => None,
    }
}

/// No character of `s` is `c`.
pub open spec fn lacks(s: Seq<char>, c: char) -> bool {
    forall|i: int| 0 <= i < s.len() ==> s[i] != c
}

/// Replacing with text that lacks `c` leaves no `c` behind, when `c` is what
/// is replaced or was never there.
pub proof fn lemma_replace_all_lacks(s: Seq<char>, from: Seq<char>, to: Seq<char>, c: char)
    requires
        lacks(to, c),
        from == seq![c] || lacks(s, c),
    ensures
        lacks(replace_all(s, from, to), c),
    decreases s.len(),
{
    if s.len() == 0 {
    } else if from.len() > 0 && starts_with(s, from) {
        lemma_replace_all_lacks(s.skip(from.len() as int), from, to, c);
        let rest = replace_all(s.skip(from.len() as int), from, to);
        assert forall|i: int| 0 <= i < (to + rest).len() implies (to + rest)[i] != c by {
            if i >= to.len() {
                assert((to + rest)[i] == rest[i - to.len()]);
            }
        }
    } else {
        if from == seq![c] {
            if s[0] == c {
                assert(s.subrange(0, 1) =~= seq![c]);
                assert(false);
            }
        }
        lemma_replace_all_lacks(s.skip(1), from, to, c);
        let rest = replace_all(s.skip(1), from, to);
        assert forall|i: int| 0 <= i < (seq![s[0]] + rest).len() implies (seq![s[0]] + rest)[i] != c by {
            if i >= 1 {
                assert((seq![s[0]] + rest)[i] == rest[i - 1]);
            }
        }
    }
}

/// Trimming keeps a string free of `c`.
pub proof fn lemma_trim_lacks(s: Seq<char>, c: char)
    requires
        lacks(s, c),
    ensures
        lacks(trim_start(s), c),
        lacks(trim_end(s), c),
        lacks(trim(s), c),
    decreases s.len(),
{
    if s.len() > 0 {
        if is_ws(s[0]) {
            lemma_trim_lacks(s.skip(1), c);
        }
        if is_ws(s.last()) {
            lemma_trim_lacks(s.drop_last(), c);
        }
    }
    if trim_start(s).len() > 0 {
        lemma_trim_start_lacks_end(trim_start(s), c);
    }
}

/// Trimming the end keeps a string free of `c`.
proof fn lemma_trim_start_lacks_end(s: Seq<char>, c: char)
    requires
        lacks(s, c),
    ensures
        lacks(trim_end(s), c),
    decreases s.len(),
{
    if s.len() > 0 && is_ws(s.last()) {
        lemma_trim_start_lacks_end(s.drop_last(), c);
    }
}

/// The pieces of a split of text free of `c` are free of `c`.
pub proof fn lemma_split_lacks(cur: Seq<char>, s: Seq<char>, sep: char, c: char)
    requires
        lacks(cur, c),
        lacks(s, c),
    ensures
        forall|k: int| 0 <= k < split_from(cur, s, sep).len() ==> lacks(#[trigger] split_from(cur, s, sep)[k], c),
    decreases s.len(),
{
    let all = split_from(cur, s, sep);
    if s.len() == 0 {
        assert(all =~= seq![cur]);
        assert forall|k: int| 0 <= k < all.len() implies lacks(#[trigger] all[k], c) by {
            assert(all[k] == cur);
        }
    } else if s[0] == sep {
        assert(lacks(s.skip(1), c));
        lemma_split_lacks(seq![], s.skip(1), sep, c);
        let rest = split_from(seq![], s.skip(1), sep);
        assert(all == seq![cur] + rest);
        assert forall|k: int| 0 <= k < all.len() implies lacks(#[trigger] all[k], c) by {
            if k >= 1 {
                assert(all[k] == rest[k - 1]);
            } else {
                assert(all[k] == cur);
            }
        }
    } else {
        assert(s[0] != c);
        assert(lacks(cur.push(s[0]), c));
        assert(lacks(s.skip(1), c));
        lemma_split_lacks(cur.push(s[0]), s.skip(1), sep, c);
        assert(all == split_from(cur.push(s[0]), s.skip(1), sep));
    }
}

/// Joining pieces free of `c` with a separator free of `c` gives text free of
/// `c`.
pub proof fn lemma_join_lacks(ws: Seq<Seq<char>>, sep: Seq<char>, c: char)
    requires
        forall|k: int| 0 <= k < ws.len() ==> lacks(#[trigger] ws[k], c),
        lacks(sep, c),
    ensures
        lacks(join(ws, sep), c),
    decreases ws.len(),
{
    if ws.len() > 1 {
        lemma_join_lacks(ws.drop_last(), sep, c);
        let a = join(ws.drop_last(), sep);
        let l = ws.last();
        assert(lacks(l, c));
        assert forall|i: int| 0 <= i < (a + sep + l).len() implies (a + sep + l)[i] != c by {
            if i < a.len() {
                assert((a + sep + l)[i] == a[i]);
            } else if i < a.len() + sep.len() {
                assert((a + sep + l)[i] == sep[i - a.len()]);
            } else {
                assert((a + sep + l)[i] == l[i - a.len() - sep.len()]);
            }
        }
    } else if ws.len() == 1 {
        assert(lacks(ws[0], c));
    }
}

/// The words of text are free of any whitespace character `c`.
pub proof fn lemma_words_lack(cur: Seq<char>, s: Seq<char>, c: char)
    requires
        is_ws(c),
        lacks(cur, c),
    ensures
        forall|k: int| 0 <= k < words_from(cur, s).len() ==> lacks(#[trigger] words_from(cur, s)[k], c),
    decreases s.len(),
{
    let all = words_from(cur, s);
    let first: Seq<Seq<char>> = if cur.len() > 0 {
        seq![cur]
    } else {
        seq![]
    };
    if s.len() == 0 {
        assert(all == first);
        assert forall|k: int| 0 <= k < all.len() implies lacks(#[trigger] all[k], c) by {
            assert(all[k] == cur);
        }
    } else if is_ws(s[0]) {
        lemma_words_lack(seq![], s.skip(1), c);
        let rest = words_from(seq![], s.skip(1));
        assert(all == first + rest);
        assert forall|k: int| 0 <= k < all.len() implies lacks(#[trigger] all[k], c) by {
            if k >= first.len() {
                assert(all[k] == rest[k - first.len()]);
            } else {
                assert(all[k] == cur);
            }
        }
    } else {
        assert(s[0] != c);
        assert(lacks(cur.push(s[0]), c));
        lemma_words_lack(cur.push(s[0]), s.skip(1), c);
        assert(all == words_from(cur.push(s[0]), s.skip(1)));
    }
}

/// Text whose whitespace is squashed holds no whitespace but spaces.
pub proof fn lemma_squash_ws_lacks(s: Seq<char>, c: char)
    requires
        is_ws(c),
        c != ' ',
    ensures
        lacks(squash_ws(s), c),
{
    lemma_words_lack(seq![], s, c);
    lemma_join_lacks(words(s), seq![' '], c);
}

/// The first characters of text free of `c` are free of `c`.
pub proof fn lemma_take_chars_lacks(s: Seq<char>, n: nat, c: char)
    requires
        lacks(s, c),
    ensures
        lacks(take_chars(s, n), c),
        take_chars(s, n).len() <= n,
{
    if s.len() > n {
        assert forall|i: int| 0 <= i < s.take(n as int).len() implies s.take(n as int)[i] != c by {
            assert(s.take(n as int)[i] == s[i]);
        }
    }
}

/// Trimming never lengthens text.
pub proof fn lemma_trim_len(s: Seq<char>)
    ensures
        trim_start(s).len() <= s.len(),
        trim_end(s).len() <= s.len(),
        trim(s).len() <= s.len(),
    decreases s.len(),
{
    if s.len() > 0 {
        if is_ws(s[0]) {
            lemma_trim_len(s.skip(1));
        }
        if is_ws(s.last()) {
            lemma_trim_len(s.drop_last());
        }
    }
    lemma_trim_end_len(trim_start(s));
}

/// Trimming the end never lengthens text.
proof fn lemma_trim_end_len(s: Seq<char>)
    ensures
        trim_end(s).len() <= s.len(),
    decreases s.len(),
{
    if s.len() > 0 && is_ws(s.last()) {
        lemma_trim_end_len(s.drop_last());
    }
}

/// Ten to the power `k`.
pub open spec fn pow10(k: nat) -> nat
    decreases k,
{
    if k == 0 {
        1
    } else {
        10 * pow10((k - 1) as nat)
    }
}

/// A number below `10^k` has at most `k` digits.
pub proof fn lemma_decimal_len(n: nat, k: nat)
    requires
        1 <= k,
        n < pow10(k),
    ensures
        1 <= decimal(n).len() <= k,
    decreases k,
{
    if n >= 10 {
        if k == 1 {
            assert(pow10(1) == 10) by {
                reveal_with_fuel(pow10, 2);
            }
        } else {
            let p = pow10((k - 1) as nat);
            assert(n < 10 * p);
            assert(n / 10 < p) by (nonlinear_arith)
                requires
                    n < 10 * p,
            ;
            lemma_decimal_len(n / 10, (k - 1) as nat);
        }
    }
}

/// Stripping characters from the ends keeps text free of `c`.
pub proof fn lemma_strip_set_lacks(s: Seq<char>, set: Seq<char>, c: char)
    requires
        lacks(s, c),
    ensures
        lacks(strip_front(s, set), c),
        lacks(strip_back(s, set), c),
        lacks(strip_set(s, set), c),
    decreases s.len(),
{
    if s.len() > 0 {
        if set.contains(s[0]) {
            lemma_strip_set_lacks(s.skip(1), set, c);
        }
        if set.contains(s.last()) {
            lemma_strip_set_lacks(s.drop_last(), set, c);
        }
    }
    lemma_strip_back_lacks(strip_front(s, set), set, c);
}

/// Stripping characters from the end keeps text free of `c`.
proof fn lemma_strip_back_lacks(s: Seq<char>, set: Seq<char>, c: char)
    requires
        lacks(s, c),
    ensures
        lacks(strip_back(s, set), c),
    decreases s.len(),
{
    if s.len() > 0 && set.contains(s.last()) {
        lemma_strip_back_lacks(s.drop_last(), set, c);
    }
}

/// Text free of the separator splits into one piece.
pub proof fn lemma_split_single(cur: Seq<char>, s: Seq<char>, c: char)
    requires
        lacks(s, c),
    ensures
        split_from(cur, s, c).len() == 1,
    decreases s.len(),
{
    if s.len() > 0 {
        assert(s[0] != c);
        lemma_split_single(cur.push(s[0]), s.skip(1), c);
    }
}

/// Text free of `c` does not contain it.
pub proof fn lemma_lacks_not_contains(s: Seq<char>, c: char)
    requires
        lacks(s, c),
    ensures
        !contains(s, seq![c]),
{
    if contains(s, seq![c]) {
        let i = choose|i: int| matches_at(s, seq![c], i);
        assert(s.subrange(i, i + 1)[0] == s[i]);
    }
}

/// A pattern whose first two characters never stand side by side in `s` does
/// not occur in `s`.
pub proof fn lemma_no_first_pair(s: Seq<char>, p: Seq<char>)
    requires
        p.len() >= 2,
        forall|i: int| 0 <= i < s.len() - 1 ==> !(#[trigger] s[i] == p[0] && s[i + 1] == p[1]),
    ensures
        !contains(s, p),
{
    if contains(s, p) {
        let i = choose|i: int| matches_at(s, p, i);
        assert(s.subrange(i, i + p.len())[0] == s[i]);
        assert(s.subrange(i, i + p.len())[1] == s[i + 1]);
    }
}

/// Lower-casing twice is lower-casing once.
pub proof fn lemma_lower_idempotent(s: Seq<char>)
    ensures
        lower(lower(s)) == lower(s),
{
    assert forall|i: int| 0 <= i < s.len() implies lower_char(lower_char(s[i])) == lower_char(
        s[i],
    ) by {
        let c = s[i];
        if 'A' <= c && c <= 'Z' {
            assert(65 <= (c as u32) <= 90);
        }
    }
    assert(lower(lower(s)) =~= lower(s));
}

/// What follows the first separator does not change the first piece.
pub proof fn lemma_split_first_piece_extend(cur: Seq<char>, a: Seq<char>, b: Seq<char>, c: char)
    ensures
        split_from(cur, a + seq![c] + b, c)[0] == split_from(cur, a, c)[0],
    decreases a.len(),
{
    let s = a + seq![c] + b;
    if a.len() == 0 {
        assert(s[0] == c);
        assert(s =~= seq![c] + b);
    } else if a[0] == c {
        assert(s[0] == c);
    } else {
        assert(s[0] == a[0]);
        assert(s.skip(1) =~= a.skip(1) + seq![c] + b);
        lemma_split_first_piece_extend(cur.push(a[0]), a.skip(1), b, c);
    }
}

/// Text free of the separator is its own first piece.
pub proof fn lemma_split_first_piece_whole(cur: Seq<char>, s: Seq<char>, c: char)
    requires
        lacks(s, c),
    ensures
        split_from(cur, s, c)[0] == cur + s,
    decreases s.len(),
{
    if s.len() == 0 {
        assert(cur + s =~= cur);
    } else {
        assert(s[0] != c);
        assert(cur.push(s[0]) + s.skip(1) =~= cur + s);
        lemma_split_first_piece_whole(cur.push(s[0]), s.skip(1), c);
    }
}

/// Where `p` occurs, it has a first occurrence.
pub proof fn lemma_first_occurrence_exists(s: Seq<char>, p: Seq<char>, k: int)
    requires
        matches_at(s, p, k),
    ensures
        exists|i: int| matches_at(s, p, i) && forall|j: int| 0 <= j < i ==> !matches_at(s, p, j),
    decreases k,
{
    if exists|j: int| 0 <= j < k && matches_at(s, p, j) {
        let j = choose|j: int| 0 <= j < k && matches_at(s, p, j);
        lemma_first_occurrence_exists(s, p, j);
    } else {
        assert(matches_at(s, p, k) && forall|j: int| 0 <= j < k ==> !matches_at(s, p, j));
    }
}

/// Dropping or keeping a prefix of `s` commutes with adding text after it.
pub proof fn lemma_skip_take_add(s: Seq<char>, t: Seq<char>, k: int)
    requires
        0 <= k <= s.len(),
    ensures
        (s + t).skip(k) == s.skip(k) + t,
        (s + t).take(k) == s.take(k),
{
    assert((s + t).skip(k) =~= s.skip(k) + t);
    assert((s + t).take(k) =~= s.take(k));
}

/// `first_index` is an occurrence with none before it, where `p` occurs.
pub proof fn lemma_first_index_props(s: Seq<char>, p: Seq<char>)
    requires
        contains(s, p),
    ensures
        matches_at(s, p, first_index(s, p)),
        forall|j: int| 0 <= j < first_index(s, p) ==> !#[trigger] matches_at(s, p, j),
{
    let k = choose|k: int| matches_at(s, p, k);
    lemma_first_occurrence_exists(s, p, k);
}

/// Text added after a pattern's first occurrence does not move it.
pub proof fn lemma_first_index_extend(s: Seq<char>, t: Seq<char>, p: Seq<char>)
    requires
        contains(s, p),
    ensures
        matches_at(s, p, first_index(s, p)),
        contains(s + t, p),
        first_index(s + t, p) == first_index(s, p),
{
    let k = choose|k: int| matches_at(s, p, k);
    lemma_first_occurrence_exists(s, p, k);
    let i = first_index(s, p);
    assert(matches_at(s, p, i) && forall|j: int| 0 <= j < i ==> !matches_at(s, p, j));
    let u = s + t;
    assert(u.subrange(i, i + p.len()) =~= s.subrange(i, i + p.len()));
    assert forall|j: int| 0 <= j < i implies !matches_at(u, p, j) by {
        assert(!matches_at(s, p, j));
        if matches_at(u, p, j) {
            assert(u.subrange(j, j + p.len()) =~= s.subrange(j, j + p.len()));
            assert(matches_at(s, p, j));
        }
    }
    lemma_first_index(u, p, i);
}

} // verus!
