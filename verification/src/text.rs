//! Character-level helpers shared by the parsers and renderers.
//!
//! Text is handled as a sequence of `char`s: the specifications below speak
//! of `Seq<char>`, the view of `str` and `String`.

use vstd::prelude::*;
use vstd::string::*;

verus! {

/// Appends one character to a string (std's `String::push`).
///
/// Claims what the std documentation states: the character is added at the end.
#[verifier::external_body]
pub(crate) fn string_push(s: &mut String, c: char)
    ensures
        final(s)@ == old(s)@.push(c),
{
    s.push(c);
}

/// Collects the characters of `s` into a vector.
pub fn chars_of(s: &str) -> (out: Vec<char>)
    ensures
        out@ == s@,
{
    let mut out: Vec<char> = Vec::new();
    for c in it: s.chars()
        invariant
            out@ == it.seq().take(it.index() as int),
            it.seq() == s@,
    {
        out.push(c);
    }
    out
}

/// Appends `s[lo..hi]` to `out`.
pub fn push_range(out: &mut String, s: &Vec<char>, lo: usize, hi: usize)
    requires
        lo <= hi <= s@.len(),
    ensures
        final(out)@ == old(out)@ + s@.subrange(lo as int, hi as int),
{
    let mut i = lo;
    while i < hi
        invariant
            lo <= i <= hi <= s@.len(),
            out@ == old(out)@ + s@.subrange(lo as int, i as int),
        decreases hi - i,
    {
        string_push(out, s[i]);
        i = i + 1;
        assert(s@.subrange(lo as int, i as int) == s@.subrange(lo as int, i - 1).push(s@[i - 1]));
    }
}

/// Builds a string from `s[lo..hi]`.
pub fn string_from_range(s: &Vec<char>, lo: usize, hi: usize) -> (out: String)
    requires
        lo <= hi <= s@.len(),
    ensures
        out@ == s@.subrange(lo as int, hi as int),
{
    let mut out = String::new();
    push_range(&mut out, s, lo, hi);
    assert(out@ == Seq::<char>::empty() + s@.subrange(lo as int, hi as int));
    out
}

/// Copies `s[lo..hi]` into a new vector.
pub fn sub_vec(s: &Vec<char>, lo: usize, hi: usize) -> (r: Vec<char>)
    requires
        lo <= hi <= s@.len(),
    ensures
        r@ == s@.subrange(lo as int, hi as int),
{
    let mut r: Vec<char> = Vec::new();
    let mut i = lo;
    while i < hi
        invariant
            lo <= i <= hi <= s@.len(),
            r@ == s@.subrange(lo as int, i as int),
        decreases hi - i,
    {
        r.push(s[i]);
        i = i + 1;
        assert(r@ =~= s@.subrange(lo as int, i as int));
    }
    r
}

/// Builds an owned string from a string slice.
pub fn owned(s: &str) -> (out: String)
    ensures
        out@ == s@,
{
    s.to_owned()
}

/// Appends a string slice.
pub fn push_str(out: &mut String, s: &str)
    ensures
        final(out)@ == old(out)@ + s@,
{
    out.append(s);
}

/// Whether two character sequences are equal.
pub fn chars_eq(a: &Vec<char>, b: &Vec<char>) -> (r: bool)
    ensures
        r == (a@ == b@),
{
    if a.len() != b.len() {
        return false;
    }
    let mut i: usize = 0;
    while i < a.len()
        invariant
            a@.len() == b@.len(),
            i <= a@.len(),
            forall|k: int| 0 <= k < i ==> a@[k] == b@[k],
        decreases a@.len() - i,
    {
        if a[i] != b[i] {
            return false;
        }
        i = i + 1;
    }
    assert(a@ =~= b@);
    true
}

/// Whether two strings hold the same text.
pub fn str_eq(a: &str, b: &str) -> (r: bool)
    ensures
        r == (a@ == b@),
{
    chars_eq(&chars_of(a), &chars_of(b))
}

/// `char::is_whitespace`: the Unicode `White_Space` property.
pub open spec fn is_ws(c: char) -> bool {
    let u = c as u32;
    ||| 0x09 <= u <= 0x0d
    ||| u == 0x20
    ||| u == 0x85
    ||| u == 0xa0
    ||| u == 0x1680
    ||| 0x2000 <= u <= 0x200a
    ||| u == 0x2028
    ||| u == 0x2029
    ||| u == 0x202f
    ||| u == 0x205f
    ||| u == 0x3000
}

/// Whether `c` is Unicode whitespace.
pub fn is_whitespace(c: char) -> (r: bool)
    ensures
        r == is_ws(c),
{
    let u = c as u32;
    (0x09 <= u && u <= 0x0d) || u == 0x20 || u == 0x85 || u == 0xa0 || u == 0x1680 || (0x2000
        <= u && u <= 0x200a) || u == 0x2028 || u == 0x2029 || u == 0x202f || u == 0x205f || u
        == 0x3000
}

/// `s` without its leading whitespace.
pub open spec fn trim_start(s: Seq<char>) -> Seq<char>
    decreases s.len(),
{
    if s.len() > 0 && is_ws(s[0]) {
        trim_start(s.drop_first())
    } else {
        s
    }
}

/// `s` without its trailing whitespace.
pub open spec fn trim_end(s: Seq<char>) -> Seq<char>
    decreases s.len(),
{
    if s.len() > 0 && is_ws(s.last()) {
        trim_end(s.drop_last())
    } else {
        s
    }
}

/// `str::trim`: `s` without leading and trailing whitespace.
pub open spec fn trim(s: Seq<char>) -> Seq<char> {
    trim_end(trim_start(s))
}

/// The bounds of `trim(s[lo..hi])` inside `s`.
pub fn trim_range(s: &Vec<char>, lo: usize, hi: usize) -> (r: (usize, usize))
    requires
        lo <= hi <= s@.len(),
    ensures
        lo <= r.0 <= r.1 <= hi,
        s@.subrange(r.0 as int, r.1 as int) == trim(s@.subrange(lo as int, hi as int)),
{
    let mut i = lo;
    while i < hi && is_whitespace(s[i])
        invariant
            lo <= i <= hi <= s@.len(),
            trim_start(s@.subrange(lo as int, hi as int)) == trim_start(
                s@.subrange(i as int, hi as int),
            ),
        decreases hi - i,
    {
        assert(s@.subrange(i as int, hi as int).drop_first() == s@.subrange(i + 1, hi as int));
        i = i + 1;
    }
    assert(trim_start(s@.subrange(lo as int, hi as int)) == s@.subrange(i as int, hi as int));
    let mut j = hi;
    while j > i && is_whitespace(s[j - 1])
        invariant
            lo <= i <= j <= hi <= s@.len(),
            trim_end(s@.subrange(i as int, hi as int)) == trim_end(
                s@.subrange(i as int, j as int),
            ),
        decreases j - i,
    {
        assert(s@.subrange(i as int, j as int).drop_last() == s@.subrange(i as int, j - 1));
        j = j - 1;
    }
    (i, j)
}

/// Whether `s` is empty or only whitespace.
pub fn is_blank(s: &str) -> (r: bool)
    ensures
        r == (trim(s@).len() == 0),
{
    let cs = chars_of(s);
    let (a, b) = trim_range(&cs, 0, cs.len());
    assert(cs@.subrange(0, cs@.len() as int) == cs@);
    a == b
}

/// The trimmed text of `s`.
pub fn trimmed(s: &str) -> (r: String)
    ensures
        r@ == trim(s@),
{
    let cs = chars_of(s);
    let (a, b) = trim_range(&cs, 0, cs.len());
    assert(cs@.subrange(0, cs@.len() as int) == cs@);
    string_from_range(&cs, a, b)
}

/// `char::to_ascii_lowercase`.
pub open spec fn ascii_lower(c: char) -> char {
    if 'A' <= c <= 'Z' {
        ((c as u32) + 32) as char
    } else {
        c
    }
}

/// `str::to_ascii_lowercase`.
pub open spec fn lower(s: Seq<char>) -> Seq<char> {
    s.map_values(|c: char| ascii_lower(c))
}

/// Lowercases one ASCII letter, leaving other characters as they are.
pub fn to_ascii_lower(c: char) -> (r: char)
    ensures
        r == ascii_lower(c),
{
    if 'A' <= c && c <= 'Z' {
        let u = (c as u32) + 32;
        assert(0x61 <= u <= 0x7a);
        let b = u as u8;
        b as char
    } else {
        c
    }
}

/// The ASCII-lowercased characters of `s[lo..hi]`.
pub fn lower_range(s: &Vec<char>, lo: usize, hi: usize) -> (r: Vec<char>)
    requires
        lo <= hi <= s@.len(),
    ensures
        r@ == lower(s@.subrange(lo as int, hi as int)),
{
    let mut r: Vec<char> = Vec::new();
    let mut i = lo;
    while i < hi
        invariant
            lo <= i <= hi <= s@.len(),
            r@ == lower(s@.subrange(lo as int, i as int)),
        decreases hi - i,
    {
        r.push(to_ascii_lower(s[i]));
        i = i + 1;
        assert(r@ =~= lower(s@.subrange(lo as int, i as int)));
    }
    r
}

/// `str::eq_ignore_ascii_case`.
pub open spec fn eq_ignore_case(a: Seq<char>, b: Seq<char>) -> bool {
    lower(a) == lower(b)
}

/// Whether `pat` occurs in `s` at index `i`.
pub open spec fn occurs_at(s: Seq<char>, pat: Seq<char>, i: int) -> bool {
    &&& 0 <= i
    &&& i + pat.len() <= s.len()
    &&& s.subrange(i, i + pat.len()) == pat
}

/// The first index at or after `i` where `pat` occurs in `s` (`str::find`).
pub open spec fn find_from(s: Seq<char>, pat: Seq<char>, i: int) -> Option<int>
    decreases s.len() + 1 - i,
{
    if i < 0 || i + pat.len() > s.len() {
        None
    } else if occurs_at(s, pat, i) {
        Some(i)
    } else {
        find_from(s, pat, i + 1)
    }
}

/// Whether `pat` occurs in `s` at index `i`.
pub fn occurs_at_exec(s: &Vec<char>, pat: &Vec<char>, i: usize) -> (r: bool)
    ensures
        r == occurs_at(s@, pat@, i as int),
{
    if i > s.len() || pat.len() > s.len() - i {
        return false;
    }
    let mut k: usize = 0;
    while k < pat.len()
        invariant
            i + pat@.len() <= s.len(),
            k <= pat@.len(),
            forall|m: int| 0 <= m < k ==> s@[i + m] == pat@[m],
        decreases pat@.len() - k,
    {
        if s[i + k] != pat[k] {
            assert(s@.subrange(i as int, i + pat@.len())[k as int] != pat@[k as int]);
            return false;
        }
        k = k + 1;
    }
    assert(s@.subrange(i as int, i + pat@.len()) =~= pat@);
    true
}

/// The first index at or after `start` where `pat` occurs in `s`.
pub fn find_from_exec(s: &Vec<char>, pat: &Vec<char>, start: usize) -> (r: Option<usize>)
    requires
        start <= s@.len(),
    ensures
        r matches Some(i) ==> find_from(s@, pat@, start as int) == Some(i as int),
        r is None ==> find_from(s@, pat@, start as int) is None,
{
    let mut i = start;
    loop
        invariant
            start <= i <= s@.len(),
            find_from(s@, pat@, start as int) == find_from(s@, pat@, i as int),
        decreases s@.len() - i,
    {
        if pat.len() > s.len() - i {
            return None;
        }
        if occurs_at_exec(s, pat, i) {
            return Some(i);
        }
        if i == s.len() {
            assert(pat@.len() == 0);
            assert(s@.subrange(i as int, i as int) =~= pat@);
            return None;
        }
        i = i + 1;
    }
}

/// `str::split` on a non-empty pattern, starting at index `start`.
pub open spec fn split_from(s: Seq<char>, pat: Seq<char>, start: int) -> Seq<Seq<char>>
    decreases s.len() - start,
{
    if pat.len() == 0 || start < 0 || start > s.len() {
        seq![]
    } else {
        match find_from(s, pat, start) {
            None => seq![s.subrange(start, s.len() as int)],
            Some(i) => if start <= i && i + pat.len() <= s.len() {
                seq![s.subrange(start, i)] + split_from(s, pat, i + pat.len())
            } else {
                seq![]
            },
        }
    }
}

/// `str::split`: the pieces of `s` between occurrences of `pat`.
pub open spec fn split_on(s: Seq<char>, pat: Seq<char>) -> Seq<Seq<char>> {
    split_from(s, pat, 0)
}

/// The pieces of `s` between non-overlapping occurrences of `pat`,
/// as a list of `(start, end)` bounds.
pub open spec fn ranges_view(s: Seq<char>, rs: Seq<(usize, usize)>) -> Seq<Seq<char>> {
    rs.map_values(|r: (usize, usize)| s.subrange(r.0 as int, r.1 as int))
}

/// Lemma: `find_from` only reports indices at or after where it starts, with a match there.
pub proof fn lemma_find_from(s: Seq<char>, pat: Seq<char>, i: int)
    ensures
        find_from(s, pat, i) matches Some(j) ==> i <= j && occurs_at(s, pat, j),
        find_from(s, pat, i) matches Some(j) ==> forall|k: int|
            i <= k < j ==> !occurs_at(s, pat, k),
        find_from(s, pat, i) is None && 0 <= i ==> forall|k: int|
            i <= k ==> !occurs_at(s, pat, k),
    decreases s.len() + 1 - i,
{
    if i < 0 || i + pat.len() > s.len() {
    } else if occurs_at(s, pat, i) {
    } else {
        lemma_find_from(s, pat, i + 1);
    }
}

/// Splits `s` on the non-empty pattern `pat`, giving the bounds of the pieces.
pub fn split_ranges(s: &Vec<char>, pat: &Vec<char>) -> (r: Vec<(usize, usize)>)
    requires
        pat@.len() > 0,
    ensures
        ranges_view(s@, r@) == split_on(s@, pat@),
        forall|k: int| 0 <= k < r@.len() ==> #[trigger] r@[k].0 <= r@[k].1 <= s@.len(),
{
    let mut out: Vec<(usize, usize)> = Vec::new();
    let mut start: usize = 0;
    loop
        invariant
            pat@.len() > 0,
            start <= s@.len(),
            split_on(s@, pat@) == ranges_view(s@, out@) + split_from(s@, pat@, start as int),
            forall|k: int| 0 <= k < out@.len() ==> #[trigger] out@[k].0 <= out@[k].1 <= s@.len(),
        decreases s@.len() - start,
    {
        let m = find_from_exec(s, pat, start);
        proof {
            lemma_find_from(s@, pat@, start as int);
        }
        match m {
            None => {
                let ghost before = out@;
                out.push((start, s.len()));
                assert(ranges_view(s@, out@) == ranges_view(s@, before) + seq![
                    s@.subrange(start as int, s@.len() as int),
                ]);
                return out;
            },
            Some(i) => {
                assert(occurs_at(s@, pat@, i as int));
                assert(i + pat.len() <= s.len());
                let ghost before = out@;
                out.push((start, i));
                assert(out@[out@.len() - 1].0 <= out@[out@.len() - 1].1 <= s@.len());
                assert(ranges_view(s@, out@) == ranges_view(s@, before) + seq![
                    s@.subrange(start as int, i as int),
                ]);
                assert(split_on(s@, pat@) == ranges_view(s@, out@) + split_from(
                    s@,
                    pat@,
                    i + pat@.len(),
                ));
                start = i + pat.len();
            },
        }
    }
}

/// Whether `s` starts with `p`.
pub open spec fn starts_with(s: Seq<char>, p: Seq<char>) -> bool {
    p.len() <= s.len() && s.subrange(0, p.len() as int) == p
}

/// Whether `s` ends with `p`.
pub open spec fn ends_with(s: Seq<char>, p: Seq<char>) -> bool {
    p.len() <= s.len() && s.subrange(s.len() - p.len(), s.len() as int) == p
}

/// Whether `s` ends with `p`.
pub fn ends_with_exec(s: &Vec<char>, p: &Vec<char>) -> (r: bool)
    ensures
        r == ends_with(s@, p@),
{
    if p.len() > s.len() {
        return false;
    }
    occurs_at_exec(s, p, s.len() - p.len())
}

/// The decimal digit for `d` (below ten).
pub open spec fn digit(d: nat) -> char {
    ((d + 48) as u32) as char
}

/// The decimal rendering of `n`, without leading zeros.
pub open spec fn decimal(n: nat) -> Seq<char>
    decreases n,
{
    if n < 10 {
        seq![digit(n)]
    } else {
        decimal(n / 10).push(digit(n % 10))
    }
}

/// The decimal rendering of `i`, with a leading `-` when it is negative.
pub open spec fn signed_decimal(i: int) -> Seq<char> {
    if i < 0 {
        seq!['-'] + decimal((-i) as nat)
    } else {
        decimal(i as nat)
    }
}

/// Appends the decimal rendering of `n`.
pub fn push_decimal(out: &mut String, n: u64)
    ensures
        final(out)@ == old(out)@ + decimal(n as nat),
    decreases n,
{
    if n >= 10 {
        push_decimal(out, n / 10);
    }
    let d = (n % 10) as u8;
    let c = (d + 48) as char;
    assert(c == digit((n % 10) as nat));
    string_push(out, c);
    assert(out@ =~= old(out)@ + decimal(n as nat));
}

/// Appends the decimal rendering of `i`, with a sign when negative.
pub fn push_signed_decimal(out: &mut String, i: i64)
    requires
        i > i64::MIN,
    ensures
        final(out)@ == old(out)@ + signed_decimal(i as int),
{
    if i < 0 {
        string_push(out, '-');
        let m = (-i) as u64;
        push_decimal(out, m);
        assert(out@ =~= old(out)@ + signed_decimal(i as int));
    } else {
        push_decimal(out, i as u64);
    }
}

/// The decimal rendering of `n` (`u64::to_string`).
pub fn decimal_string(n: u64) -> (out: String)
    ensures
        out@ == decimal(n as nat),
{
    let mut out = String::new();
    push_decimal(&mut out, n);
    assert(out@ =~= decimal(n as nat));
    out
}

/// Lemma: `trim` keeps a contiguous part of `s`, which, when not empty,
/// neither starts nor ends with whitespace.
pub proof fn lemma_trim(s: Seq<char>)
    ensures
        exists|a: int, b: int| 0 <= a <= b <= s.len() && trim(s) == s.subrange(a, b),
        trim(s).len() > 0 ==> !is_ws(trim(s)[0]) && !is_ws(trim(s).last()),
{
    lemma_trim_start(s);
    let t = trim_start(s);
    let a = choose|a: int| 0 <= a <= s.len() && t == s.subrange(a, s.len() as int);
    lemma_trim_end(t);
    let b = choose|b: int| 0 <= b <= t.len() && trim_end(t) == t.subrange(0, b);
    assert(trim(s) == s.subrange(a, a + b));
    if trim(s).len() > 0 {
        assert(trim(s)[0] == t[0]);
    }
}

/// Lemma: every piece of a split is a contiguous part of the text.
pub proof fn lemma_split_piece_within(s: Seq<char>, pat: Seq<char>, start: int, k: int)
    requires
        0 <= k < split_from(s, pat, start).len(),
    ensures
        exists|a: int, b: int|
            0 <= a <= b <= s.len() && #[trigger] split_from(s, pat, start)[k] == s.subrange(a, b),
    decreases s.len() - start,
{
    let ps = split_from(s, pat, start);
    match find_from(s, pat, start) {
        None => {
            assert(ps[k] == s.subrange(start, s.len() as int));
        },
        Some(i) => {
            if k == 0 {
                assert(ps[0] == s.subrange(start, i));
            } else {
                let rest = split_from(s, pat, i + pat.len());
                assert(ps == seq![s.subrange(start, i)] + rest);
                assert(ps[k] == rest[k - 1]);
                lemma_split_piece_within(s, pat, i + pat.len(), k - 1);
            }
        },
    }
}

/// Lemma: text holding a character that is not whitespace is not blank.
pub proof fn lemma_trim_nonblank(s: Seq<char>, k: int)
    requires
        0 <= k < s.len(),
        !is_ws(s[k]),
    ensures
        trim(s).len() > 0,
{
    lemma_trim_start_keeps(s, k);
    lemma_trim_end_keeps(trim_start(s));
}

/// Lemma: `trim_start` of text holding a non-whitespace character starts
/// with one.
proof fn lemma_trim_start_keeps(s: Seq<char>, k: int)
    requires
        0 <= k < s.len(),
        !is_ws(s[k]),
    ensures
        trim_start(s).len() > 0,
        !is_ws(trim_start(s)[0]),
    decreases s.len(),
{
    if is_ws(s[0]) {
        lemma_trim_start_keeps(s.drop_first(), k - 1);
    }
}

/// Lemma: `trim_end` keeps text that starts with a non-whitespace character
/// non-empty.
proof fn lemma_trim_end_keeps(t: Seq<char>)
    requires
        t.len() > 0,
        !is_ws(t[0]),
    ensures
        trim_end(t).len() > 0,
    decreases t.len(),
{
    if is_ws(t.last()) {
        lemma_trim_end_keeps(t.drop_last());
    }
}

/// Lemma: `trim_start` drops a prefix of `s` and leaves no leading whitespace.
pub proof fn lemma_trim_start(s: Seq<char>)
    ensures
        exists|a: int| 0 <= a <= s.len() && trim_start(s) == s.subrange(a, s.len() as int),
        trim_start(s).len() > 0 ==> !is_ws(trim_start(s)[0]),
    decreases s.len(),
{
    if s.len() > 0 && is_ws(s[0]) {
        lemma_trim_start(s.drop_first());
        let a = choose|a: int|
            0 <= a <= s.drop_first().len() && trim_start(s.drop_first()) == s.drop_first().subrange(
                a,
                s.drop_first().len() as int,
            );
        assert(trim_start(s) == s.subrange(a + 1, s.len() as int));
    } else {
        assert(trim_start(s) == s.subrange(0, s.len() as int));
    }
}

/// Lemma: `trim_end` drops a suffix of `s` and leaves no trailing whitespace.
pub proof fn lemma_trim_end(s: Seq<char>)
    ensures
        exists|b: int| 0 <= b <= s.len() && trim_end(s) == s.subrange(0, b),
        trim_end(s).len() > 0 ==> !is_ws(trim_end(s).last()),
    decreases s.len(),
{
    if s.len() > 0 && is_ws(s.last()) {
        lemma_trim_end(s.drop_last());
        let b = choose|b: int|
            0 <= b <= s.drop_last().len() && trim_end(s.drop_last()) == s.drop_last().subrange(0, b);
        assert(trim_end(s) == s.subrange(0, b));
    } else {
        assert(trim_end(s) == s.subrange(0, s.len() as int));
    }
}

/// Lemma: no piece of a split on the one-character pattern `[c]` holds `c`.
pub proof fn lemma_split_pieces_lack(s: Seq<char>, c: char, start: int)
    requires
        0 <= start,
    ensures
        forall|k: int|
            0 <= k < split_from(s, seq![c], start).len() ==> !(#[trigger] split_from(
                s,
                seq![c],
                start,
            )[k]).contains(c),
    decreases s.len() - start,
{
    let pat = seq![c];
    if start > s.len() {
    } else {
        lemma_find_from(s, pat, start);
        match find_from(s, pat, start) {
            None => {
                let piece = s.subrange(start, s.len() as int);
                assert forall|m: int| 0 <= m < piece.len() implies piece[m] != c by {
                    if piece[m] == c {
                        assert(s.subrange(start + m, start + m + 1) =~= pat);
                        assert(occurs_at(s, pat, start + m));
                    }
                }
            },
            Some(i) => {
                let piece = s.subrange(start, i);
                assert forall|m: int| 0 <= m < piece.len() implies piece[m] != c by {
                    if piece[m] == c {
                        assert(s.subrange(start + m, start + m + 1) =~= pat);
                        assert(occurs_at(s, pat, start + m));
                    }
                }
                lemma_split_pieces_lack(s, c, i + 1);
                let rest = split_from(s, pat, i + 1);
                assert forall|k: int|
                    0 <= k < split_from(s, pat, start).len() implies !(#[trigger] split_from(
                    s,
                    pat,
                    start,
                )[k]).contains(c) by {
                    if k > 0 {
                        assert(split_from(s, pat, start)[k] == rest[k - 1]);
                    }
                }
            },
        }
    }
}

/// Lemma: `find_from` in `s` from `k + j` is `find_from` in `s[k..]` from
/// `j`, shifted by `k`.
pub proof fn lemma_find_from_shift(s: Seq<char>, pat: Seq<char>, k: int, j: int)
    requires
        0 <= k <= s.len(),
        0 <= j,
    ensures
        find_from(s, pat, k + j) == match find_from(s.subrange(k, s.len() as int), pat, j) {
            Some(i) => Some(i + k),
            None => None::<int>,
        },
    decreases s.len() - k - j + 1,
{
    let t = s.subrange(k, s.len() as int);
    if k + j + pat.len() > s.len() {
    } else {
        assert(s.subrange(k + j, k + j + pat.len()) =~= t.subrange(j, j + pat.len()));
        if occurs_at(s, pat, k + j) {
        } else {
            lemma_find_from_shift(s, pat, k, j + 1);
            assert(k + (j + 1) == (k + j) + 1);
        }
    }
}

/// Lemma: splitting `s` from `k + j` is splitting `s[k..]` from `j`.
pub proof fn lemma_split_from_shift(s: Seq<char>, pat: Seq<char>, k: int, j: int)
    requires
        0 <= k <= s.len(),
        0 <= j,
        pat.len() > 0,
    ensures
        split_from(s, pat, k + j) == split_from(s.subrange(k, s.len() as int), pat, j),
    decreases s.len() - k - j + 1,
{
    let t = s.subrange(k, s.len() as int);
    if k + j > s.len() {
    } else {
        lemma_find_from_shift(s, pat, k, j);
        lemma_find_from(t, pat, j);
        match find_from(t, pat, j) {
            None => {
                assert(s.subrange(k + j, s.len() as int) =~= t.subrange(j, t.len() as int));
            },
            Some(i) => {
                assert(s.subrange(k + j, i + k) =~= t.subrange(j, i));
                lemma_split_from_shift(s, pat, k, i + pat.len());
            },
        }
    }
}

/// Lemma: in text without `c`, a split on `[c]` from `i` finds nothing.
pub proof fn lemma_find_absent(s: Seq<char>, c: char, i: int)
    requires
        0 <= i,
        forall|m: int| i <= m < s.len() ==> s[m] != c,
    ensures
        find_from(s, seq![c], i) is None,
    decreases s.len() + 1 - i,
{
    if i + 1 > s.len() {
    } else {
        assert(s.subrange(i, i + 1)[0] == s[i]);
        lemma_find_absent(s, c, i + 1);
    }
}

/// Lemma: text without `c` splits on `[c]` into itself alone.
pub proof fn lemma_split_absent(s: Seq<char>, c: char)
    requires
        !s.contains(c),
    ensures
        split_on(s, seq![c]) == seq![s],
{
    lemma_find_absent(s, c, 0);
    assert(s.subrange(0, s.len() as int) =~= s);
}

/// Lemma: `a + [c] + b`, where `a` lacks `c`, splits on `[c]` into `a`
/// followed by the pieces of `b`.
pub proof fn lemma_split_first(a: Seq<char>, c: char, b: Seq<char>)
    requires
        !a.contains(c),
    ensures
        split_on(a + seq![c] + b, seq![c]) == seq![a] + split_on(b, seq![c]),
{
    let s = a + seq![c] + b;
    let pat = seq![c];
    assert forall|m: int| 0 <= m < a.len() implies !occurs_at(s, pat, m) by {
        assert(s.subrange(m, m + 1)[0] == a[m]);
    }
    let n = a.len() as int;
    assert(s.subrange(n, n + 1) =~= pat);
    lemma_find_first(s, pat, 0, n);
    assert(s.subrange(0, n) =~= a);
    lemma_split_from_shift(s, pat, n + 1, 0);
    assert(s.subrange(n + 1, s.len() as int) =~= b);
}

/// Lemma: the first occurrence at or after `i` is at `m` when `pat` occurs
/// at `m` and nowhere in between.
pub proof fn lemma_find_first(s: Seq<char>, pat: Seq<char>, i: int, m: int)
    requires
        0 <= i <= m,
        occurs_at(s, pat, m),
        forall|k: int| i <= k < m ==> !occurs_at(s, pat, k),
    ensures
        find_from(s, pat, i) == Some(m),
    decreases m - i,
{
    if i < m {
        lemma_find_first(s, pat, i + 1, m);
    }
}

} // verus!
