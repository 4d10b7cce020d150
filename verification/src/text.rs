//! Character-sequence toolkit: the string operations that the service logic
//! performs on command output, file contents and addresses, each stated over
//! `Seq<char>` and implemented on `Vec<char>`.
use vstd::prelude::*;

verus! {

// ------------------------------------------------------------------ conversions

/// Copies the characters of a string slice into a vector.
pub fn chars_of(s: &str) -> (v: Vec<char>)
    ensures
        v@ == s@,
{
    let mut v: Vec<char> = Vec::new();
    for c in it: s.chars()
        invariant
            v@ == it.seq().take(it.index() as int),
    {
        v.push(c);
    }
    v
}

/// Builds a `String` from a vector of characters (`Iterator::collect` into a
/// `String`); the contract claims the string holds exactly those characters,
/// in order.
#[verifier::external_body]
pub(crate) fn string_of(v: &Vec<char>) -> (s: String)
    ensures
        s@ == v@,
{
    v.iter().collect()
}

/// Appends every character of `b` to `a`.
pub fn push_all(a: &mut Vec<char>, b: &Vec<char>)
    ensures
        final(a)@ == old(a)@ + b@,
{
    let mut i: usize = 0;
    while i < b.len()
        invariant
            i <= b.len(),
            a@ == old(a)@ + b@.take(i as int),
        decreases b.len() - i,
    {
        a.push(b[i]);
        i = i + 1;
        assert(b@.take(i as int) == b@.take(i - 1).push(b@[i - 1]));
    }
    assert(b@.take(b.len() as int) == b@);
}

/// Appends every character of a string slice to `a`.
pub fn push_str(a: &mut Vec<char>, s: &str)
    ensures
        final(a)@ == old(a)@ + s@,
{
    let v = chars_of(s);
    push_all(a, &v);
}

// ------------------------------------------------------------------ whitespace

/// Unicode `White_Space`, the set that `char::is_whitespace` tests.
pub open spec fn is_ws(c: char) -> bool {
    let u = c as u32;
    ||| 0x09 <= u <= 0x0D
    ||| u == 0x20
    ||| u == 0x85
    ||| u == 0xA0
    ||| u == 0x1680
    ||| 0x2000 <= u <= 0x200A
    ||| u == 0x2028
    ||| u == 0x2029
    ||| u == 0x202F
    ||| u == 0x205F
    ||| u == 0x3000
}

/// Executable test of [`is_ws`].
pub fn is_whitespace(c: char) -> (b: bool)
    ensures
        b == is_ws(c),
{
    let u = c as u32;
    (0x09 <= u && u <= 0x0D) || u == 0x20 || u == 0x85 || u == 0xA0 || u == 0x1680 || (0x2000
        <= u && u <= 0x200A) || u == 0x2028 || u == 0x2029 || u == 0x202F || u == 0x205F || u
        == 0x3000
}

/// The characters that a strip removes: whitespace when `ws`, otherwise `q`.
pub open spec fn stripped(ws: bool, q: char, c: char) -> bool {
    if ws {
        is_ws(c)
    } else {
        c == q
    }
}

fn is_stripped(ws: bool, q: char, c: char) -> (b: bool)
    ensures
        b == stripped(ws, q, c),
{
    if ws {
        is_whitespace(c)
    } else {
        c == q
    }
}

/// `s` with its leading characters that `stripped(ws, q, _)` selects removed.
pub open spec fn strip_start(s: Seq<char>, ws: bool, q: char) -> Seq<char>
    decreases s.len(),
{
    if s.len() > 0 && stripped(ws, q, s[0]) {
        strip_start(s.drop_first(), ws, q)
    } else {
        s
    }
}

/// `s` with its trailing characters that `stripped(ws, q, _)` selects removed.
pub open spec fn strip_end(s: Seq<char>, ws: bool, q: char) -> Seq<char>
    decreases s.len(),
{
    if s.len() > 0 && stripped(ws, q, s.last()) {
        strip_end(s.drop_last(), ws, q)
    } else {
        s
    }
}

/// `str::trim`: leading and trailing whitespace removed.
pub open spec fn trim(s: Seq<char>) -> Seq<char> {
    strip_end(strip_start(s, true, ' '), true, ' ')
}

/// `str::trim_matches(q)` for a single character `q`.
pub open spec fn trim_char(s: Seq<char>, q: char) -> Seq<char> {
    strip_end(strip_start(s, false, q), false, q)
}

proof fn lemma_strip_start_skip(s: Seq<char>, ws: bool, q: char, i: int)
    requires
        0 <= i <= s.len(),
        forall|k: int| 0 <= k < i ==> stripped(ws, q, #[trigger] s[k]),
    ensures
        strip_start(s, ws, q) == strip_start(s.skip(i), ws, q),
    decreases i,
{
    if i > 0 {
        assert(s.drop_first().skip(i - 1) == s.skip(i));
        lemma_strip_start_skip(s.drop_first(), ws, q, i - 1);
    } else {
        assert(s.skip(0) == s);
    }
}

proof fn lemma_strip_end_take(s: Seq<char>, ws: bool, q: char, j: int)
    requires
        0 <= j <= s.len(),
        forall|k: int| j <= k < s.len() ==> stripped(ws, q, #[trigger] s[k]),
    ensures
        strip_end(s, ws, q) == strip_end(s.take(j), ws, q),
    decreases s.len() - j,
{
    if j < s.len() {
        assert(s.drop_last().take(j) == s.take(j));
        lemma_strip_end_take(s.drop_last(), ws, q, j);
    } else {
        assert(s.take(j) == s);
    }
}

/// Index of the first character of `v` that a strip keeps (`v.len()` if none).
fn scan_start(v: &Vec<char>, ws: bool, q: char) -> (i: usize)
    ensures
        i <= v.len(),
        strip_start(v@, ws, q) == v@.skip(i as int),
{
    let mut i: usize = 0;
    while i < v.len() && is_stripped(ws, q, v[i])
        invariant
            i <= v.len(),
            forall|k: int| 0 <= k < i ==> stripped(ws, q, #[trigger] v@[k]),
        decreases v.len() - i,
    {
        i = i + 1;
    }
    proof {
        lemma_strip_start_skip(v@, ws, q, i as int);
        let t = v@.skip(i as int);
        if t.len() > 0 {
            assert(t[0] == v@[i as int]);
        }
    }
    i
}

/// Index just past the last character of `v` that a strip keeps (0 if none).
fn scan_end(v: &Vec<char>, ws: bool, q: char) -> (j: usize)
    ensures
        j <= v.len(),
        strip_end(v@, ws, q) == v@.take(j as int),
{
    let mut j: usize = v.len();
    while j > 0 && is_stripped(ws, q, v[j - 1])
        invariant
            j <= v.len(),
            forall|k: int| j <= k < v.len() ==> stripped(ws, q, #[trigger] v@[k]),
        decreases j,
    {
        j = j - 1;
    }
    proof {
        lemma_strip_end_take(v@, ws, q, j as int);
        let t = v@.take(j as int);
        if t.len() > 0 {
            assert(t.last() == v@[j - 1]);
        }
    }
    j
}

/// Copy of `v[lo..hi]`.
pub fn slice(v: &Vec<char>, lo: usize, hi: usize) -> (r: Vec<char>)
    requires
        lo <= hi <= v.len(),
    ensures
        r@ == v@.subrange(lo as int, hi as int),
{
    let mut r: Vec<char> = Vec::new();
    let mut i: usize = lo;
    while i < hi
        invariant
            lo <= i <= hi <= v.len(),
            r@ == v@.subrange(lo as int, i as int),
        decreases hi - i,
    {
        r.push(v[i]);
        i = i + 1;
    }
    r
}

/// Strip of both ends (`trim` when `ws`, `trim_matches(q)` otherwise).
fn strip_both(v: &Vec<char>, ws: bool, q: char) -> (r: Vec<char>)
    ensures
        r@ == strip_end(strip_start(v@, ws, q), ws, q),
{
    let i = scan_start(v, ws, q);
    let rest = slice(v, i, v.len());
    assert(rest@ == v@.skip(i as int));
    let j = scan_end(&rest, ws, q);
    slice(&rest, 0, j)
}

/// `str::trim` on a character vector.
pub fn trim_ws(v: &Vec<char>) -> (r: Vec<char>)
    ensures
        r@ == trim(v@),
{
    strip_both(v, true, ' ')
}

/// `str::trim_matches(q)` on a character vector.
pub fn trim_matches(v: &Vec<char>, q: char) -> (r: Vec<char>)
    ensures
        r@ == trim_char(v@, q),
{
    strip_both(v, false, q)
}

// ------------------------------------------------------------------ comparison

/// Whether two character vectors hold the same characters.
pub fn same(a: &Vec<char>, b: &Vec<char>) -> (r: bool)
    ensures
        r == (a@ == b@),
{
    if a.len() != b.len() {
        return false;
    }
    let mut i: usize = 0;
    while i < a.len()
        invariant
            a.len() == b.len(),
            i <= a.len(),
            forall|k: int| 0 <= k < i ==> a@[k] == b@[k],
        decreases a.len() - i,
    {
        if a[i] != b[i] {
            return false;
        }
        i = i + 1;
    }
    assert(a@ == b@);
    true
}

/// Whether a character vector holds exactly the characters of `s`.
pub fn same_str(a: &Vec<char>, s: &str) -> (r: bool)
    ensures
        r == (a@ == s@),
{
    let b = chars_of(s);
    same(a, &b)
}

/// `pat` occurs in `s` starting at index `i`.
pub open spec fn match_at(s: Seq<char>, pat: Seq<char>, i: int) -> bool {
    0 <= i && i + pat.len() <= s.len() && s.subrange(i, i + pat.len()) == pat
}

/// `pat` occurs somewhere in `s` (`str::contains`).
pub open spec fn contains(s: Seq<char>, pat: Seq<char>) -> bool {
    exists|i: int| match_at(s, pat, i)
}

/// `str::starts_with`.
pub open spec fn starts_with(s: Seq<char>, pat: Seq<char>) -> bool {
    match_at(s, pat, 0)
}

/// `str::ends_with`.
pub open spec fn ends_with(s: Seq<char>, pat: Seq<char>) -> bool {
    match_at(s, pat, s.len() - pat.len())
}

/// First index at or after `i` where `pat` occurs in `s`.
pub open spec fn find_from(s: Seq<char>, pat: Seq<char>, i: int) -> Option<int>
    decreases s.len() + 1 - i,
{
    if i < 0 || i + pat.len() > s.len() {
        None
    } else if match_at(s, pat, i) {
        Some(i)
    } else {
        find_from(s, pat, i + 1)
    }
}

/// `str::find` with a string pattern: the first index where `pat` occurs.
pub open spec fn find(s: Seq<char>, pat: Seq<char>) -> Option<int> {
    find_from(s, pat, 0)
}

/// What `find_from` returns: the least matching index at or after `i`, if any.
pub proof fn lemma_find_from(s: Seq<char>, pat: Seq<char>, i: int)
    requires
        0 <= i,
    ensures
        find_from(s, pat, i) matches Some(k) ==> i <= k && match_at(s, pat, k) && k + pat.len()
            <= s.len() && forall|j: int| i <= j < k ==> !match_at(s, pat, j),
        find_from(s, pat, i) is None ==> forall|j: int| i <= j ==> !match_at(s, pat, j),
    decreases s.len() + 1 - i,
{
    if i + pat.len() > s.len() {
    } else if match_at(s, pat, i) {
    } else {
        lemma_find_from(s, pat, i + 1);
    }
}

/// `find` is the least index where `pat` occurs.
pub proof fn lemma_find(s: Seq<char>, pat: Seq<char>)
    ensures
        find(s, pat) matches Some(k) ==> 0 <= k && k + pat.len() <= s.len() && match_at(s, pat, k)
            && forall|j: int| 0 <= j < k ==> !match_at(s, pat, j),
        find(s, pat) is None <==> !contains(s, pat),
{
    lemma_find_from(s, pat, 0);
}

fn match_at_exec(v: &Vec<char>, pat: &Vec<char>, i: usize) -> (r: bool)
    requires
        i + pat.len() <= v.len(),
    ensures
        r == match_at(v@, pat@, i as int),
{
    let mut k: usize = 0;
    while k < pat.len()
        invariant
            i + pat.len() <= v.len(),
            k <= pat.len(),
            forall|j: int| 0 <= j < k ==> v@[i + j] == pat@[j],
        decreases pat.len() - k,
    {
        if v[i + k] != pat[k] {
            assert(v@.subrange(i as int, i + pat.len())[k as int] != pat@[k as int]);
            return false;
        }
        k = k + 1;
    }
    assert(v@.subrange(i as int, i + pat.len()) == pat@);
    true
}

/// `str::find` on a character vector.
pub fn find_exec(v: &Vec<char>, pat: &Vec<char>) -> (r: Option<usize>)
    ensures
        r matches Some(k) ==> find(v@, pat@) == Some(k as int),
        r is None ==> find(v@, pat@) is None,
{
    if pat.len() > v.len() {
        return None;
    }
    let last = v.len() - pat.len();
    let mut i: usize = 0;
    while i < last
        invariant
            last + pat.len() == v.len(),
            i <= last,
            find(v@, pat@) == find_from(v@, pat@, i as int),
        decreases last - i,
    {
        if match_at_exec(v, pat, i) {
            return Some(i);
        }
        i = i + 1;
    }
    if match_at_exec(v, pat, last) {
        Some(last)
    } else {
        assert(find_from(v@, pat@, last + 1) is None);
        None
    }
}

/// `str::find` with a string-slice pattern.
pub fn find_str(v: &Vec<char>, pat: &str) -> (r: Option<usize>)
    ensures
        r matches Some(k) ==> find(v@, pat@) == Some(k as int),
        r is None ==> find(v@, pat@) is None,
{
    let p = chars_of(pat);
    find_exec(v, &p)
}

/// `str::contains` with a string-slice pattern.
pub fn contains_str(v: &Vec<char>, pat: &str) -> (r: bool)
    ensures
        r == contains(v@, pat@),
{
    proof {
        lemma_find(v@, pat@);
    }
    find_str(v, pat).is_some()
}

/// `str::starts_with` with a string-slice pattern.
pub fn starts_with_str(v: &Vec<char>, pat: &str) -> (r: bool)
    ensures
        r == starts_with(v@, pat@),
{
    let p = chars_of(pat);
    if p.len() > v.len() {
        false
    } else {
        match_at_exec(v, &p, 0)
    }
}

/// `str::ends_with` with a string-slice pattern.
pub fn ends_with_str(v: &Vec<char>, pat: &str) -> (r: bool)
    ensures
        r == ends_with(v@, pat@),
{
    let p = chars_of(pat);
    if p.len() > v.len() {
        false
    } else {
        match_at_exec(v, &p, v.len() - p.len())
    }
}

/// `str::rfind` with a character pattern: the last index holding `c`.
pub open spec fn rfind(s: Seq<char>, c: char) -> Option<int>
    decreases s.len(),
{
    if s.len() == 0 {
        None
    } else if s.last() == c {
        Some(s.len() - 1)
    } else {
        rfind(s.drop_last(), c)
    }
}

/// What `rfind` returns: the greatest index holding `c`, if any.
pub proof fn lemma_rfind(s: Seq<char>, c: char)
    ensures
        rfind(s, c) matches Some(k) ==> 0 <= k < s.len() && s[k] == c && forall|j: int|
            k < j < s.len() ==> s[j] != c,
        rfind(s, c) is None ==> forall|j: int| 0 <= j < s.len() ==> s[j] != c,
    decreases s.len(),
{
    if s.len() > 0 && s.last() != c {
        let t = s.drop_last();
        lemma_rfind(t, c);
        assert(forall|j: int| 0 <= j < t.len() ==> t[j] == s[j]);
    }
}

/// `str::rfind` with a character pattern, on `v[..hi]`.
pub fn rfind_exec(v: &Vec<char>, hi: usize, c: char) -> (r: Option<usize>)
    requires
        hi <= v.len(),
    ensures
        r matches Some(k) ==> rfind(v@.take(hi as int), c) == Some(k as int),
        r is None ==> rfind(v@.take(hi as int), c) is None,
{
    let mut j: usize = hi;
    while j > 0
        invariant
            j <= hi <= v.len(),
            rfind(v@.take(hi as int), c) == rfind(v@.take(j as int), c),
        decreases j,
    {
        assert(v@.take(j as int).drop_last() == v@.take(j - 1));
        if v[j - 1] == c {
            return Some(j - 1);
        }
        j = j - 1;
    }
    None
}

// ------------------------------------------------------------------ replace

/// `str::replace(pat, rep)`: every non-overlapping occurrence of `pat`, scanned
/// from the left, replaced by `rep`.
pub open spec fn replace_all(s: Seq<char>, pat: Seq<char>, rep: Seq<char>) -> Seq<char>
    decreases s.len(),
{
    if s.len() == 0 {
        seq![]
    } else if pat.len() > 0 && starts_with(s, pat) {
        rep + replace_all(s.skip(pat.len() as int), pat, rep)
    } else {
        seq![s[0]] + replace_all(s.drop_first(), pat, rep)
    }
}

/// `str::replace` on a character vector, for a non-empty pattern.
pub fn replace_exec(v: &Vec<char>, pat: &Vec<char>, rep: &Vec<char>) -> (r: Vec<char>)
    requires
        pat.len() > 0,
    ensures
        r@ == replace_all(v@, pat@, rep@),
{
    let mut out: Vec<char> = Vec::new();
    let mut i: usize = 0;
    assert(v@.skip(0) == v@);
    while i < v.len()
        invariant
            pat.len() > 0,
            i <= v.len(),
            out@ + replace_all(v@.skip(i as int), pat@, rep@) == replace_all(v@, pat@, rep@),
        decreases v.len() - i,
    {
        let ghost t = v@.skip(i as int);
        if pat.len() <= v.len() - i && match_at_exec(v, pat, i) {
            assert(t.subrange(0, pat.len() as int) == v@.subrange(i as int, i + pat.len()));
            assert(t.skip(pat.len() as int) == v@.skip(i + pat.len()));
            push_all(&mut out, rep);
            i = i + pat.len();
            assert(out@ + replace_all(v@.skip(i as int), pat@, rep@) == replace_all(v@, pat@, rep@));
        } else {
            assert(!starts_with(t, pat@)) by {
                if pat.len() <= t.len() {
                    assert(t.subrange(0, pat.len() as int) == v@.subrange(i as int, i + pat.len()));
                }
            }
            assert(t.drop_first() == v@.skip(i + 1));
            assert(t[0] == v@[i as int]);
            out.push(v[i]);
            i = i + 1;
            assert(out@ + replace_all(v@.skip(i as int), pat@, rep@) == replace_all(v@, pat@, rep@));
        }
    }
    assert(v@.skip(i as int).len() == 0);
    assert(out@ + seq![] == out@);
    out
}

// ------------------------------------------------------------------ lines and words

/// Index of the first character of `s` that `stripped(ws, q, _)` selects;
/// `s.len()` when there is none.
pub open spec fn pos_of(s: Seq<char>, ws: bool, q: char) -> nat
    decreases s.len(),
{
    if s.len() == 0 {
        0
    } else if stripped(ws, q, s[0]) {
        0
    } else {
        1 + pos_of(s.drop_first(), ws, q)
    }
}

/// A line with one trailing carriage return removed.
pub open spec fn strip_cr(s: Seq<char>) -> Seq<char> {
    if s.len() > 0 && s.last() == '\r' {
        s.drop_last()
    } else {
        s
    }
}

/// `str::lines`: split at each `\n`, drop one `\r` before it, and no empty
/// line after a final line ending.
pub open spec fn lines(s: Seq<char>) -> Seq<Seq<char>>
    decreases s.len(),
{
    if s.len() == 0 {
        seq![]
    } else {
        let i = pos_of(s, false, '\n');
        if i < s.len() {
            seq![strip_cr(s.take(i as int))] + lines(s.skip(i + 1 as int))
        } else {
            seq![s]
        }
    }
}

/// `str::split_whitespace`: the maximal runs of non-whitespace characters.
pub open spec fn words(s: Seq<char>) -> Seq<Seq<char>>
    decreases s.len(),
{
    if s.len() == 0 {
        seq![]
    } else if is_ws(s[0]) {
        words(s.drop_first())
    } else {
        let k = pos_of(s, true, ' ');
        if 0 < k <= s.len() {
            seq![s.take(k as int)] + words(s.skip(k as int))
        } else {
            seq![s]
        }
    }
}

/// When `cur` holds no selected character, the position in `cur + rest` is
/// found past `cur`.
proof fn lemma_pos_of_concat(cur: Seq<char>, rest: Seq<char>, ws: bool, q: char)
    requires
        forall|k: int| 0 <= k < cur.len() ==> !stripped(ws, q, #[trigger] cur[k]),
    ensures
        pos_of(cur + rest, ws, q) == cur.len() + pos_of(rest, ws, q),
    decreases cur.len(),
{
    if cur.len() > 0 {
        let t = cur.drop_first();
        assert((cur + rest).drop_first() == t + rest);
        assert((cur + rest)[0] == cur[0]);
        lemma_pos_of_concat(t, rest, ws, q);
    } else {
        assert(cur + rest == rest);
    }
}

proof fn lemma_pos_of_bounds(s: Seq<char>, ws: bool, q: char)
    ensures
        pos_of(s, ws, q) <= s.len(),
        pos_of(s, ws, q) < s.len() ==> stripped(ws, q, s[pos_of(s, ws, q) as int]),
        forall|k: int| 0 <= k < pos_of(s, ws, q) ==> !stripped(ws, q, #[trigger] s[k]),
    decreases s.len(),
{
    if s.len() > 0 && !stripped(ws, q, s[0]) {
        let t = s.drop_first();
        lemma_pos_of_bounds(t, ws, q);
        assert forall|k: int| 0 <= k < pos_of(s, ws, q) implies !stripped(ws, q, #[trigger] s[k]) by {
            if k > 0 {
                assert(s[k] == t[k - 1]);
            }
        }
    }
}

/// A line `t` written at the end of a text, followed by a line feed, ends the
/// last line of the text, whatever came before it.
pub proof fn lemma_last_line_ends_with(x: Seq<char>, t: Seq<char>)
    requires
        t.len() > 0,
        t.last() != '\r',
        forall|k: int| 0 <= k < t.len() ==> #[trigger] t[k] != '\n',
    ensures
        lines(x + t + seq!['\n']).len() > 0,
        ends_with(lines(x + t + seq!['\n']).last(), t),
    decreases x.len(),
{
    let s = x + t + seq!['\n'];
    let nl = seq!['\n'];
    lemma_pos_of_bounds(x, false, '\n');
    let j = pos_of(x, false, '\n');
    if j == x.len() {
        lemma_pos_of_concat(x, t + nl, false, '\n');
        lemma_pos_of_concat(t, nl, false, '\n');
        assert(pos_of(nl, false, '\n') == 0);
        assert(s == x + (t + nl));
        let i: int = x.len() as int + t.len() as int;
        assert(pos_of(s, false, '\n') == i);
        assert(s.take(i) == x + t);
        assert(s.skip(i + 1).len() == 0);
        assert((x + t).last() == t.last());
        assert(strip_cr(s.take(i)) == x + t);
        assert(s.len() > 0 && i < s.len());
        assert(lines(s.skip(i + 1)) == Seq::<Seq<char>>::empty());
        assert(lines(s) == seq![strip_cr(s.take(i))] + lines(s.skip(i + 1)));
        assert(seq![x + t] + Seq::<Seq<char>>::empty() == seq![x + t]);
        assert(lines(s) == seq![x + t]);
        assert((x + t).subrange((x + t).len() - t.len(), (x + t).len() as int) == t);
    } else {
        let a = x.take(j as int);
        let b = x.skip(j as int);
        assert(x == a + b);
        assert forall|k: int| 0 <= k < a.len() implies !stripped(false, '\n', #[trigger] a[k]) by {
            assert(a[k] == x[k]);
        }
        assert(s == a + (b + t + nl));
        lemma_pos_of_concat(a, b + t + nl, false, '\n');
        assert((b + t + nl)[0] == '\n');
        assert(pos_of(b + t + nl, false, '\n') == 0);
        assert(pos_of(s, false, '\n') == j);
        let rest = x.skip(j + 1 as int);
        assert(s.skip(j + 1 as int) == rest + t + nl);
        lemma_last_line_ends_with(rest, t);
        let tail = lines(rest + t + nl);
        assert(lines(s) == seq![strip_cr(s.take(j as int))] + tail);
        assert(lines(s).last() == tail.last());
    }
}

/// Text that ends with a line feed ends its last line: the lines of what
/// follows it come after its own.
pub proof fn lemma_lines_concat(a: Seq<char>, b: Seq<char>)
    requires
        a.len() > 0,
        a.last() == '\n',
    ensures
        lines(a + b) == lines(a) + lines(b),
    decreases a.len(),
{
    let s = a + b;
    lemma_pos_of_bounds(a, false, '\n');
    let i = pos_of(a, false, '\n');
    assert(i < a.len()) by {
        if i == a.len() {
            assert(!stripped(false, '\n', a[a.len() - 1]));
        }
    }
    let h = a.take(i as int);
    let t = a.skip(i as int);
    assert forall|k: int| 0 <= k < h.len() implies !stripped(false, '\n', #[trigger] h[k]) by {
        assert(h[k] == a[k]);
    }
    assert(s == h + (t + b));
    lemma_pos_of_concat(h, t + b, false, '\n');
    assert((t + b)[0] == '\n');
    assert(pos_of(t + b, false, '\n') == 0);
    assert(pos_of(s, false, '\n') == i);
    assert(s.take(i as int) == h);
    let rest = a.skip(i + 1 as int);
    assert(s.skip(i + 1 as int) == rest + b);
    assert(lines(s) == seq![strip_cr(h)] + lines(rest + b));
    assert(lines(a) == seq![strip_cr(h)] + lines(rest));
    if rest.len() == 0 {
        assert(rest + b == b);
        assert(lines(rest) == Seq::<Seq<char>>::empty());
        assert(seq![strip_cr(h)] + lines(b) == seq![strip_cr(h)] + Seq::<Seq<char>>::empty() + lines(b));
    } else {
        assert(rest.last() == a.last());
        lemma_lines_concat(rest, b);
        assert(seq![strip_cr(h)] + (lines(rest) + lines(b)) == (seq![strip_cr(h)] + lines(rest))
            + lines(b));
    }
}

/// `str::lines` on a character vector.
pub fn lines_exec(v: &Vec<char>) -> (r: Vec<Vec<char>>)
    ensures
        r@.len() == lines(v@).len(),
        forall|k: int| 0 <= k < r@.len() ==> #[trigger] r@[k]@ == lines(v@)[k],
{
    let mut out: Vec<Vec<char>> = Vec::new();
    let ghost outv: Seq<Seq<char>> = seq![];
    let mut cur: Vec<char> = Vec::new();
    let mut i: usize = 0;
    assert(v@.skip(0) == v@);
    assert(cur@ + v@ == v@);
    while i < v.len()
        invariant
            i <= v.len(),
            out@.len() == outv.len(),
            forall|k: int| 0 <= k < out@.len() ==> #[trigger] out@[k]@ == outv[k],
            forall|k: int| 0 <= k < cur@.len() ==> #[trigger] cur@[k] != '\n',
            outv + lines(cur@ + v@.skip(i as int)) == lines(v@),
        decreases v.len() - i,
    {
        let c = v[i];
        let ghost rest = v@.skip(i as int);
        let ghost whole = cur@ + rest;
        assert(rest[0] == c);
        assert(rest.drop_first() == v@.skip(i + 1));
        if c == '\n' {
            proof {
                lemma_pos_of_concat(cur@, rest, false, '\n');
                assert(whole.take(cur@.len() as int) == cur@);
                assert(whole.skip(cur@.len() + 1 as int) == v@.skip(i + 1));
                assert(lines(whole) == seq![strip_cr(cur@)] + lines(v@.skip(i + 1)));
            }
            let mut line = cur;
            if line.len() > 0 && line[line.len() - 1] == '\r' {
                line.pop();
            }
            proof {
                outv = outv.push(strip_cr(cur@));
            }
            out.push(line);
            cur = Vec::new();
            assert(cur@ + v@.skip(i + 1) == v@.skip(i + 1));
            assert(outv + lines(cur@ + v@.skip(i + 1)) == lines(v@));
        } else {
            cur.push(c);
            assert(cur@ + v@.skip(i + 1) == whole);
        }
        i = i + 1;
    }
    proof {
        assert(v@.skip(i as int) == Seq::<char>::empty());
        assert(cur@ + v@.skip(i as int) == cur@);
        if cur@.len() > 0 {
            assert(cur@ + Seq::<char>::empty() == cur@);
            lemma_pos_of_concat(cur@, Seq::<char>::empty(), false, '\n');
        }
    }
    if cur.len() > 0 {
        proof {
            outv = outv.push(cur@);
        }
        out.push(cur);
    }
    out
}

/// `str::split_whitespace` on a character vector.
pub fn words_exec(v: &Vec<char>) -> (r: Vec<Vec<char>>)
    ensures
        r@.len() == words(v@).len(),
        forall|k: int| 0 <= k < r@.len() ==> #[trigger] r@[k]@ == words(v@)[k],
{
    let mut out: Vec<Vec<char>> = Vec::new();
    let ghost outv: Seq<Seq<char>> = seq![];
    let mut cur: Vec<char> = Vec::new();
    let mut i: usize = 0;
    assert(v@.skip(0) == v@);
    assert(cur@ + v@ == v@);
    while i < v.len()
        invariant
            i <= v.len(),
            out@.len() == outv.len(),
            forall|k: int| 0 <= k < out@.len() ==> #[trigger] out@[k]@ == outv[k],
            forall|k: int| 0 <= k < cur@.len() ==> !is_ws(#[trigger] cur@[k]),
            outv + words(cur@ + v@.skip(i as int)) == words(v@),
        decreases v.len() - i,
    {
        let c = v[i];
        let ghost rest = v@.skip(i as int);
        let ghost whole = cur@ + rest;
        assert(rest[0] == c);
        assert(rest.drop_first() == v@.skip(i + 1));
        if is_whitespace(c) {
            if cur.len() > 0 {
                proof {
                    lemma_pos_of_concat(cur@, rest, true, ' ');
                    assert(whole[0] == cur@[0]);
                    assert(whole.take(cur@.len() as int) == cur@);
                    assert(whole.skip(cur@.len() as int) == rest);
                    assert(words(whole) == seq![cur@] + words(rest));
                    outv = outv.push(cur@);
                }
                out.push(cur);
                cur = Vec::new();
            } else {
                assert(whole == rest);
            }
            assert(cur@ + v@.skip(i + 1) == v@.skip(i + 1));
            assert(outv + words(cur@ + v@.skip(i + 1)) == words(v@));
        } else {
            cur.push(c);
            assert(cur@ + v@.skip(i + 1) == whole);
        }
        i = i + 1;
    }
    proof {
        assert(v@.skip(i as int) == Seq::<char>::empty());
        assert(cur@ + v@.skip(i as int) == cur@);
        if cur@.len() > 0 {
            assert(cur@ + Seq::<char>::empty() == cur@);
            lemma_pos_of_concat(cur@, Seq::<char>::empty(), true, ' ');
            assert(cur@.take(cur@.len() as int) == cur@);
            assert(cur@.skip(cur@.len() as int) == Seq::<char>::empty());
            assert(words(Seq::<char>::empty()) == Seq::<Seq<char>>::empty());
            assert(words(cur@) == seq![cur@]);
        } else {
            assert(words(cur@) == Seq::<Seq<char>>::empty());
            assert(outv + Seq::<Seq<char>>::empty() == outv);
        }
    }
    if cur.len() > 0 {
        proof {
            outv = outv.push(cur@);
        }
        out.push(cur);
    }
    out
}

// ------------------------------------------------------------------ numbers

/// The ASCII digit for `d < 10`.
pub open spec fn digit_char(d: nat) -> char {
    (d + 48) as char
}

/// `c` is an ASCII decimal digit.
pub open spec fn is_digit(c: char) -> bool {
    48 <= (c as u32) <= 57
}

/// The decimal text of `n`, as `to_string` writes an unsigned integer.
pub open spec fn decimal(n: nat) -> Seq<char>
    decreases n,
{
    if n < 10 {
        seq![digit_char(n)]
    } else {
        decimal(n / 10).push(digit_char(n % 10))
    }
}

/// The value of a run of decimal digits.
pub open spec fn digits_value(s: Seq<char>) -> nat
    decreases s.len(),
{
    if s.len() == 0 {
        0
    } else {
        digits_value(s.drop_last()) * 10 + ((s.last() as u32) - 48) as nat
    }
}

/// The digits that `u32::from_str` reads: one leading `+` is allowed.
pub open spec fn unsigned_digits(s: Seq<char>) -> Seq<char> {
    if s.len() > 0 && s[0] == '+' {
        s.drop_first()
    } else {
        s
    }
}

/// `s.parse::<u32>()`: `Some` exactly when, after an optional `+`, `s` is a
/// non-empty run of ASCII digits whose value fits in a `u32`.
pub open spec fn parse_u32(s: Seq<char>) -> Option<u32> {
    let d = unsigned_digits(s);
    if d.len() > 0 && (forall|k: int| 0 <= k < d.len() ==> is_digit(#[trigger] d[k]))
        && digits_value(d) <= u32::MAX {
        Some(digits_value(d) as u32)
    } else {
        None
    }
}

fn digit_of(d: u64) -> (c: char)
    requires
        d < 10,
    ensures
        c == digit_char(d as nat),
        is_digit(c),
{
    let b: u8 = d as u8 + 48;
    b as char
}

/// Decimal text of an unsigned integer (`u64::to_string`).
pub fn decimal_exec(n: u64) -> (r: Vec<char>)
    ensures
        r@ == decimal(n as nat),
    decreases n,
{
    if n < 10 {
        let mut r: Vec<char> = Vec::new();
        r.push(digit_of(n));
        r
    } else {
        let mut r = decimal_exec(n / 10);
        r.push(digit_of(n % 10));
        r
    }
}

proof fn lemma_digits_value_prefix(s: Seq<char>, j: int)
    requires
        0 <= j <= s.len(),
        forall|k: int| 0 <= k < s.len() ==> is_digit(#[trigger] s[k]),
    ensures
        digits_value(s.take(j)) <= digits_value(s),
    decreases s.len() - j,
{
    if j < s.len() {
        let t = s.drop_last();
        assert(t.take(j) == s.take(j));
        assert forall|k: int| 0 <= k < t.len() implies is_digit(#[trigger] t[k]) by {
            assert(t[k] == s[k]);
        }
        lemma_digits_value_prefix(t, j);
    } else {
        assert(s.take(j) == s);
    }
}

/// `str::parse::<u32>` on a character vector.
pub fn parse_u32_exec(v: &Vec<char>) -> (r: Option<u32>)
    ensures
        r == parse_u32(v@),
{
    let start: usize = if v.len() > 0 && v[0] == '+' {
        1
    } else {
        0
    };
    let ghost d = unsigned_digits(v@);
    assert(d == v@.skip(start as int));
    if start >= v.len() {
        assert(d.len() == 0);
        return None;
    }
    let mut i: usize = start;
    while i < v.len()
        invariant
            start <= i <= v.len(),
            d == v@.skip(start as int),
            d == unsigned_digits(v@),
            forall|k: int| 0 <= k < i - start ==> is_digit(#[trigger] d[k]),
        decreases v.len() - i,
    {
        let u = v[i] as u32;
        assert(d[i - start] == v@[i as int]);
        if u < 48 || u > 57 {
            assert(!is_digit(d[i - start]));
            assert(!(forall|k: int| 0 <= k < d.len() ==> is_digit(#[trigger] d[k])));
            return None;
        }
        i = i + 1;
    }
    let mut acc: u64 = 0;
    let mut i: usize = start;
    assert(d.take(0) == Seq::<char>::empty());
    while i < v.len()
        invariant
            start <= i <= v.len(),
            d == v@.skip(start as int),
            d == unsigned_digits(v@),
            forall|k: int| 0 <= k < d.len() ==> is_digit(#[trigger] d[k]),
            acc == digits_value(d.take(i - start)),
            acc <= u32::MAX,
        decreases v.len() - i,
    {
        let u = v[i] as u32;
        assert(d[i - start] == v@[i as int]);
        assert(d.take(i - start + 1).drop_last() == d.take(i - start));
        assert(d.take(i - start + 1).last() == v@[i as int]);
        acc = acc * 10 + (u - 48) as u64;
        i = i + 1;
        assert(acc == digits_value(d.take(i - start)));
        if acc > 0xFFFF_FFFF {
            proof {
                lemma_digits_value_prefix(d, i - start);
                assert(digits_value(d) > u32::MAX);
            }
            return None;
        }
    }
    assert(d.take(d.len() as int) == d);
    Some(acc as u32)
}

/// Reading back the decimal text of a `u32` gives the number.
pub proof fn lemma_parse_decimal(n: u32)
    ensures
        parse_u32(decimal(n as nat)) == Some(n),
{
    lemma_decimal_digits(n as nat);
    assert(is_digit(decimal(n as nat)[0]));
    assert(unsigned_digits(decimal(n as nat)) == decimal(n as nat));
}

proof fn lemma_decimal_digits(n: nat)
    ensures
        decimal(n).len() > 0,
        forall|k: int| 0 <= k < decimal(n).len() ==> is_digit(#[trigger] decimal(n)[k]),
        digits_value(decimal(n)) == n,
    decreases n,
{
    if n >= 10 {
        lemma_decimal_digits(n / 10);
        let s = decimal(n);
        assert(s.drop_last() == decimal(n / 10));
        let d = n % 10;
        assert((digit_char(d) as u32) == d + 48);
        assert(s.last() == digit_char(d));
        assert(n == (n / 10) * 10 + d);
        assert(digits_value(s) == digits_value(s.drop_last()) * 10 + ((s.last() as u32) - 48) as nat);
        assert(digits_value(s) == (n / 10) * 10 + d);
        assert forall|k: int| 0 <= k < s.len() implies is_digit(#[trigger] s[k]) by {
            if k < s.len() - 1 {
                assert(s[k] == decimal(n / 10)[k]);
            }
        }
    } else {
        assert(decimal(n)[0] == digit_char(n));
        assert(decimal(n).drop_last() == Seq::<char>::empty());
        assert((digit_char(n) as u32) == n + 48);
        let s = decimal(n);
        assert(s.last() == digit_char(n));
        assert(digits_value(s.drop_last()) == 0);
        assert(digits_value(s) == digits_value(s.drop_last()) * 10 + ((s.last() as u32) - 48) as nat);
    }
}

// ------------------------------------------------------------------ std text services

/// What `str::to_lowercase` returns for the given characters (Unicode
/// lowercase mapping, which may change the length of the text).
pub uninterp spec fn lowercase(s: Seq<char>) -> Seq<char>;

/// All characters are ASCII.
pub open spec fn is_ascii_text(s: Seq<char>) -> bool {
    forall|i: int| 0 <= i < s.len() ==> (#[trigger] s[i] as u32) < 128
}

/// ASCII lowercase of one character: `A`–`Z` become `a`–`z`.
pub open spec fn ascii_lower_char(c: char) -> char {
    if 65 <= (c as u32) <= 90 {
        ((c as u32) + 32) as char
    } else {
        c
    }
}

/// ASCII lowercase of a text (`str::to_ascii_lowercase`).
pub open spec fn ascii_lower(s: Seq<char>) -> Seq<char> {
    Seq::new(s.len(), |i: int| ascii_lower_char(s[i]))
}

/// Calls `str::to_lowercase`; the contract claims that the result is a
/// function of the input's characters, named [`lowercase`], and that ASCII
/// text is mapped letter by letter to its ASCII lowercase. What it does with
/// other characters is left unsaid.
#[verifier::external_body]
pub(crate) fn to_lowercase(s: &str) -> (r: String)
    ensures
        r@ == lowercase(s@),
        is_ascii_text(s@) ==> r@ == ascii_lower(s@),
{
    s.to_lowercase()
}

/// Signed decimal text of an integer, as `to_string` writes an `i64`.
pub open spec fn signed_decimal(n: int) -> Seq<char> {
    if n < 0 {
        seq!['-'] + decimal((-n) as nat)
    } else {
        decimal(n as nat)
    }
}

/// Decimal text of an `i32` (`i32::to_string`).
pub fn signed_decimal_exec(n: i32) -> (r: Vec<char>)
    ensures
        r@ == signed_decimal(n as int),
{
    if n < 0 {
        let m: u64 = (0 - (n as i64)) as u64;
        let d = decimal_exec(m);
        let mut r: Vec<char> = Vec::new();
        r.push('-');
        push_all(&mut r, &d);
        r
    } else {
        decimal_exec(n as u64)
    }
}

} // verus!
