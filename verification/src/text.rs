//! A character-sequence model of the string operations the bot relies on
//! (`trim`, `lines`, `split`, `split_whitespace`, searching), with verified
//! executable counterparts that work on `Vec<char>`.

use vstd::prelude::*;

verus! {

// ---------------------------------------------------------------------------
// Specification
// ---------------------------------------------------------------------------

/// Unicode `White_Space`: the characters `char::is_whitespace` accepts and
/// `str::trim` / `str::split_whitespace` treat as blanks.
pub open spec fn is_ws(c: char) -> bool {
    let u = c as u32;
    ||| 0x09 <= u <= 0x0D
    ||| u == 0x20
    ||| u == 0x85
    ||| u == 0xA0
    ||| u == 0x1680
    ||| 0x2000 <= u <= 0x200A
    ||| u == 0x2028
    ||| u == 0x2029
    ||| u == 0x202F
    ||| u == 0x205F
    ||| u == 0x3000
}

/// `s` without its leading whitespace.
pub open spec fn trim_start(s: Seq<char>) -> Seq<char>
    decreases s.len(),
{
    if s.len() > 0 && is_ws(s[0]) {
        trim_start(s.drop_first())
    } else {
        s
    }
}

/// `s` without its trailing whitespace.
pub open spec fn trim_end(s: Seq<char>) -> Seq<char>
    decreases s.len(),
{
    if s.len() > 0 && is_ws(s.last()) {
        trim_end(s.drop_last())
    } else {
        s
    }
}

/// `str::trim`: `s` without leading and trailing whitespace.
pub open spec fn trim(s: Seq<char>) -> Seq<char> {
    trim_end(trim_start(s))
}

/// `s` begins with `p`.
pub open spec fn starts_with(s: Seq<char>, p: Seq<char>) -> bool {
    p.len() <= s.len() && s.subrange(0, p.len() as int) == p
}

/// `d` occurs in `s` at position `i`.
pub open spec fn occurs_at(s: Seq<char>, d: Seq<char>, i: int) -> bool {
    0 <= i && i + d.len() <= s.len() && s.subrange(i, i + d.len()) == d
}

/// The first position `>= i` where `d` occurs in `s`, or `-1`.
pub open spec fn find_from(s: Seq<char>, d: Seq<char>, i: int) -> int
    decreases s.len() + 1 - i,
{
    if i < 0 || i + d.len() > s.len() {
        -1
    } else if occurs_at(s, d, i) {
        i
    } else {
        find_from(s, d, i + 1)
    }
}

/// `str::find`: the first position where `d` occurs in `s`, or `-1`.
pub open spec fn find(s: Seq<char>, d: Seq<char>) -> int {
    find_from(s, d, 0)
}

/// The last position `<= i` where `d` occurs in `s`, or `-1`.
pub open spec fn rfind_from(s: Seq<char>, d: Seq<char>, i: int) -> int
    decreases i + 1,
{
    if i < 0 {
        -1
    } else if occurs_at(s, d, i) {
        i
    } else {
        rfind_from(s, d, i - 1)
    }
}

/// `str::rfind`: the last position where `d` occurs in `s`, or `-1`.
pub open spec fn rfind(s: Seq<char>, d: Seq<char>) -> int {
    rfind_from(s, d, s.len() - d.len())
}

/// `t` without one trailing carriage return.
pub open spec fn strip_cr(t: Seq<char>) -> Seq<char> {
    if t.len() > 0 && t.last() == '\r' {
        t.drop_last()
    } else {
        t
    }
}

/// The lines of `s` from a line that began at `start`, scanning at `i`.
pub open spec fn lines_from(s: Seq<char>, start: int, i: int) -> Seq<Seq<char>>
    decreases s.len() - i,
{
    if i >= s.len() {
        if start < s.len() {
            seq![s.subrange(start, s.len() as int)]
        } else {
            seq![]
        }
    } else if s[i] == '\n' {
        seq![strip_cr(s.subrange(start, i))] + lines_from(s, i + 1, i + 1)
    } else {
        lines_from(s, start, i + 1)
    }
}

/// `str::lines`: the pieces between `\n`s, each without a trailing `\r`;
/// a final empty piece (after a closing `\n`, or of the empty string) is
/// not a line.
pub open spec fn lines(s: Seq<char>) -> Seq<Seq<char>> {
    lines_from(s, 0, 0)
}

/// The pieces of `s` between the occurrences of `d`, from a piece that
/// began at `start`, scanning at `i`.
pub open spec fn split_from(s: Seq<char>, d: Seq<char>, start: int, i: int) -> Seq<Seq<char>>
    decreases s.len() - i,
{
    if d.len() == 0 || i + d.len() > s.len() {
        seq![s.subrange(start, s.len() as int)]
    } else if occurs_at(s, d, i) {
        seq![s.subrange(start, i)] + split_from(s, d, i + d.len(), i + d.len())
    } else {
        split_from(s, d, start, i + 1)
    }
}

/// `str::split` with a non-empty pattern `d`: the pieces between the
/// leftmost non-overlapping occurrences of `d`; there is always one more
/// piece than there are occurrences.
pub open spec fn split(s: Seq<char>, d: Seq<char>) -> Seq<Seq<char>> {
    split_from(s, d, 0, 0)
}

/// The words of `s` from a word that began at `start`, scanning at `i`.
pub open spec fn words_from(s: Seq<char>, start: int, i: int) -> Seq<Seq<char>>
    decreases s.len() - i,
{
    if i >= s.len() {
        if start < s.len() {
            seq![s.subrange(start, s.len() as int)]
        } else {
            seq![]
        }
    } else if is_ws(s[i]) {
        if start < i {
            seq![s.subrange(start, i)] + words_from(s, i + 1, i + 1)
        } else {
            words_from(s, i + 1, i + 1)
        }
    } else {
        words_from(s, start, i + 1)
    }
}

/// `str::split_whitespace`: the maximal runs of non-whitespace characters.
pub open spec fn words(s: Seq<char>) -> Seq<Seq<char>> {
    words_from(s, 0, 0)
}

/// The pieces of `s` that a list of index ranges picks out.
pub open spec fn pieces(s: Seq<char>, r: Seq<(usize, usize)>) -> Seq<Seq<char>> {
    r.map_values(|p: (usize, usize)| s.subrange(p.0 as int, p.1 as int))
}

/// Every range of `r` lies within `s`.
pub open spec fn ranges_within(s: Seq<char>, r: Seq<(usize, usize)>) -> bool {
    forall|k: int| 0 <= k < r.len() ==> #[trigger] r[k].0 <= r[k].1 <= s.len()
}

/// A position that `find_from` reports is an occurrence.
pub proof fn lemma_find_from_hit(s: Seq<char>, d: Seq<char>, i: int)
    requires
        find_from(s, d, i) != -1,
    ensures
        occurs_at(s, d, find_from(s, d, i)),
        i <= find_from(s, d, i),
    decreases s.len() + 1 - i,
{
    if i >= 0 && i + d.len() <= s.len() && !occurs_at(s, d, i) {
        lemma_find_from_hit(s, d, i + 1);
    }
}

/// A position that `rfind_from` reports is an occurrence.
pub proof fn lemma_rfind_from_hit(s: Seq<char>, d: Seq<char>, i: int)
    requires
        rfind_from(s, d, i) != -1,
    ensures
        occurs_at(s, d, rfind_from(s, d, i)),
        rfind_from(s, d, i) <= i,
    decreases i + 1,
{
    if i >= 0 && !occurs_at(s, d, i) {
        lemma_rfind_from_hit(s, d, i - 1);
    }
}

/// A position that `rfind` reports is an occurrence.
pub proof fn lemma_rfind_hit(s: Seq<char>, d: Seq<char>)
    requires
        rfind(s, d) != -1,
    ensures
        occurs_at(s, d, rfind(s, d)),
{
    lemma_rfind_from_hit(s, d, s.len() - d.len());
}

/// No occurrence of `d` lies after the one `rfind_from` reports, up to
/// `i` (nor anywhere up to `i`, when it reports none).
pub proof fn lemma_rfind_from_last(s: Seq<char>, d: Seq<char>, i: int, k: int)
    requires
        rfind_from(s, d, i) < k <= i,
    ensures
        !occurs_at(s, d, k),
    decreases i + 1,
{
    if i >= 0 && !occurs_at(s, d, i) && k < i {
        lemma_rfind_from_last(s, d, i - 1, k);
    }
}

/// No occurrence of `d` lies between `i` and the first one `find_from`
/// reports (or anywhere from `i` on, when it reports none).
pub proof fn lemma_find_from_first(s: Seq<char>, d: Seq<char>, i: int, k: int)
    requires
        0 <= i <= k,
        find_from(s, d, i) == -1 || k < find_from(s, d, i),
    ensures
        !occurs_at(s, d, k),
    decreases s.len() + 1 - i,
{
    if i + d.len() <= s.len() && !occurs_at(s, d, i) && i < k {
        lemma_find_from_first(s, d, i + 1, k);
    }
}

/// Scanning for `d` passes over positions where it does not occur.
pub proof fn lemma_split_skip(s: Seq<char>, d: Seq<char>, start: int, i: int, j: int)
    requires
        i <= j,
        forall|k: int| i <= k < j ==> !occurs_at(s, d, k),
    ensures
        split_from(s, d, start, i) == split_from(s, d, start, j),
    decreases j - i,
{
    if i < j && !(d.len() == 0 || i + d.len() > s.len()) {
        lemma_split_skip(s, d, start, i + 1, j);
    } else if i < j {
        lemma_split_tail(s, d, start, i, j);
    }
}

/// Past the last place `d` fits, the scan yields the rest as one piece.
proof fn lemma_split_tail(s: Seq<char>, d: Seq<char>, start: int, i: int, j: int)
    requires
        i <= j,
        d.len() == 0 || i + d.len() > s.len(),
    ensures
        split_from(s, d, start, i) == split_from(s, d, start, j),
{
}

/// Splitting `a + b` past `a` is splitting `b`.
pub proof fn lemma_split_shift(a: Seq<char>, b: Seq<char>, d: Seq<char>, x: int, y: int)
    requires
        0 <= x <= y,
        x <= b.len(),
    ensures
        split_from(a + b, d, a.len() + x, a.len() + y) == split_from(b, d, x, y),
    decreases b.len() - y,
{
    let s = a + b;
    if d.len() == 0 || y + d.len() > b.len() {
        assert(s.subrange(a.len() + x, s.len() as int) =~= b.subrange(x, b.len() as int));
    } else {
        assert(s.subrange(a.len() + y, a.len() + y + d.len()) =~= b.subrange(y, y + d.len()));
        if occurs_at(b, d, y) {
            assert(s.subrange(a.len() + x, a.len() + y) =~= b.subrange(x, y));
            lemma_split_shift(a, b, d, y + d.len(), y + d.len());
        } else {
            lemma_split_shift(a, b, d, x, y + 1);
        }
    }
}

/// A trimmed non-empty text begins with a non-blank character.
pub proof fn lemma_trim_starts_solid(s: Seq<char>)
    requires
        trim(s).len() > 0,
    ensures
        !is_ws(trim(s)[0]),
    decreases s.len(),
{
    if s.len() > 0 && is_ws(s[0]) {
        assert(trim_start(s) == trim_start(s.drop_first()));
        lemma_trim_starts_solid(s.drop_first());
    } else {
        lemma_trim_end_keeps_first(s);
    }
}

/// Trimming the end of a text that begins with a non-blank keeps its
/// first character.
pub proof fn lemma_trim_end_keeps_first(s: Seq<char>)
    requires
        s.len() > 0 ==> !is_ws(s[0]),
        trim_end(s).len() > 0,
    ensures
        !is_ws(trim_end(s)[0]),
        trim_end(s)[0] == s[0],
    decreases s.len(),
{
    if s.len() > 0 && is_ws(s.last()) {
        lemma_trim_end_keeps_first(s.drop_last());
    }
}

/// A text with its end trimmed ends with a non-blank character.
pub proof fn lemma_trim_end_solid(s: Seq<char>)
    requires
        trim_end(s).len() > 0,
    ensures
        !is_ws(trim_end(s).last()),
    decreases s.len(),
{
    if s.len() > 0 && is_ws(s.last()) {
        lemma_trim_end_solid(s.drop_last());
    }
}

/// Trimming a trimmed text changes nothing.
pub proof fn lemma_trim_idempotent(s: Seq<char>)
    ensures
        trim(trim(s)) == trim(s),
{
    let u = trim_start(s);
    let v = trim_end(u);
    if v.len() > 0 {
        lemma_trim_starts_solid(s);
        lemma_trim_end_solid(u);
        assert(trim_start(v) == v);
        assert(trim_end(v) == v);
    } else {
        assert(trim_start(v) == v);
        assert(trim_end(v) == v);
    }
}

// ---------------------------------------------------------------------------
// Executable counterparts
// ---------------------------------------------------------------------------

/// Appends one character to a `String` (std's `String::push`).
/// Trusted: std documents that `push` appends the given `char` to the end.
#[verifier::external_body]
pub(crate) fn push_char(s: &mut String, c: char)
    ensures
        final(s)@ == old(s)@.push(c),
{
    s.push(c);
}

/// `char::is_whitespace`.
pub fn is_whitespace(c: char) -> (b: bool)
    ensures
        b == is_ws(c),
{
    let u = c as u32;
    (0x09 <= u && u <= 0x0D) || u == 0x20 || u == 0x85 || u == 0xA0 || u == 0x1680 || (0x2000
        <= u && u <= 0x200A) || u == 0x2028 || u == 0x2029 || u == 0x202F || u == 0x205F || u
        == 0x3000
}

/// The characters of `s`, in order.
pub fn chars_of(s: &str) -> (v: Vec<char>)
    ensures
        v@ == s@,
{
    let mut v: Vec<char> = Vec::new();
    for c in it: s.chars()
        invariant
            v@ == it.seq().take(it.index() as int),
            it.seq() == s@,
    {
        v.push(c);
    }
    v
}

/// A `String` holding `v[lo..hi]`.
pub fn string_of(v: &Vec<char>, lo: usize, hi: usize) -> (r: String)
    requires
        lo <= hi <= v@.len(),
    ensures
        r@ == v@.subrange(lo as int, hi as int),
{
    let mut r = String::new();
    let mut i = lo;
    while i < hi
        invariant
            lo <= i <= hi <= v@.len(),
            r@ == v@.subrange(lo as int, i as int),
        decreases hi - i,
    {
        push_char(&mut r, v[i]);
        i = i + 1;
        assert(r@ =~= v@.subrange(lo as int, i as int));
    }
    r
}

/// A `String` holding all of `v`.
pub fn string_from(v: &Vec<char>) -> (r: String)
    ensures
        r@ == v@,
{
    let r = string_of(v, 0, v.len());
    assert(v@.subrange(0, v@.len() as int) =~= v@);
    r
}

/// A vector holding `v[lo..hi]`.
pub fn sub_vec(v: &Vec<char>, lo: usize, hi: usize) -> (r: Vec<char>)
    requires
        lo <= hi <= v@.len(),
    ensures
        r@ == v@.subrange(lo as int, hi as int),
{
    let mut r: Vec<char> = Vec::new();
    let mut i = lo;
    while i < hi
        invariant
            lo <= i <= hi <= v@.len(),
            r@ == v@.subrange(lo as int, i as int),
        decreases hi - i,
    {
        r.push(v[i]);
        i = i + 1;
        assert(r@ =~= v@.subrange(lo as int, i as int));
    }
    r
}

/// `v` equals `t`, character by character.
pub fn same_chars(v: &Vec<char>, t: &Vec<char>) -> (b: bool)
    ensures
        b == (v@ == t@),
{
    if v.len() != t.len() {
        return false;
    }
    let mut i: usize = 0;
    while i < v.len()
        invariant
            v@.len() == t@.len(),
            i <= v@.len(),
            forall|j: int| 0 <= j < i ==> v@[j] == t@[j],
        decreases v@.len() - i,
    {
        if v[i] != t[i] {
            return false;
        }
        i = i + 1;
    }
    assert(v@ =~= t@);
    true
}

/// Whether `d` occurs in `v` at position `i`.
pub fn occurs_at_exec(v: &Vec<char>, d: &Vec<char>, i: usize) -> (b: bool)
    ensures
        b == occurs_at(v@, d@, i as int),
{
    if i > v.len() || d.len() > v.len() - i {
        return false;
    }
    let mut j: usize = 0;
    while j < d.len()
        invariant
            i + d@.len() <= v@.len(),
            v@.len() == v.len(),
            j <= d@.len(),
            forall|k: int| 0 <= k < j ==> v@[i + k] == d@[k],
        decreases d@.len() - j,
    {
        assert(i + j < v@.len());
        if v[i + j] != d[j] {
            assert(v@.subrange(i as int, i + d@.len())[j as int] != d@[j as int]);
            return false;
        }
        j = j + 1;
    }
    assert(v@.subrange(i as int, i + d@.len()) =~= d@);
    true
}

/// Whether `v` begins with `p`.
pub fn starts_with_exec(v: &Vec<char>, p: &Vec<char>) -> (b: bool)
    ensures
        b == starts_with(v@, p@),
{
    occurs_at_exec(v, p, 0)
}

/// `v` with leading and trailing whitespace removed.
pub fn trim_vec(v: &Vec<char>) -> (r: Vec<char>)
    ensures
        r@ == trim(v@),
{
    let n = v.len();
    let mut a: usize = 0;
    assert(v@.subrange(0, n as int) =~= v@);
    while a < n && is_whitespace(v[a])
        invariant
            a <= n == v@.len(),
            trim_start(v@) == trim_start(v@.subrange(a as int, n as int)),
        decreases n - a,
    {
        assert(v@.subrange(a as int, n as int).drop_first() =~= v@.subrange(a + 1, n as int));
        a = a + 1;
    }
    let mut b: usize = n;
    assert(trim_start(v@.subrange(a as int, n as int)) == v@.subrange(a as int, n as int));
    while b > a && is_whitespace(v[b - 1])
        invariant
            a <= b <= n == v@.len(),
            trim(v@) == trim_end(v@.subrange(a as int, b as int)),
        decreases b - a,
    {
        assert(v@.subrange(a as int, b as int).drop_last() =~= v@.subrange(a as int, b - 1));
        b = b - 1;
    }
    sub_vec(v, a, b)
}

/// The first position `>= from` where `d` occurs in `v`.
pub fn find_exec(v: &Vec<char>, d: &Vec<char>, from: usize) -> (r: Option<usize>)
    requires
        d@.len() > 0,
    ensures
        match r {
            Some(p) => p as int == find_from(v@, d@, from as int),
            None => find_from(v@, d@, from as int) == -1,
        },
{
    let mut i = from;
    while i <= v.len() && d.len() <= v.len() - i
        invariant
            from <= i,
            d@.len() > 0,
            find_from(v@, d@, from as int) == find_from(v@, d@, i as int),
        decreases v@.len() + 1 - i,
    {
        if occurs_at_exec(v, d, i) {
            return Some(i);
        }
        i = i + 1;
    }
    None
}

/// The last position where `d` occurs in `v`.
pub fn rfind_exec(v: &Vec<char>, d: &Vec<char>) -> (r: Option<usize>)
    ensures
        match r {
            Some(p) => p as int == rfind(v@, d@),
            None => rfind(v@, d@) == -1,
        },
{
    if d.len() > v.len() {
        return None;
    }
    let mut i: usize = v.len() - d.len();
    loop
        invariant
            i + d@.len() <= v@.len(),
            rfind(v@, d@) == rfind_from(v@, d@, i as int),
        decreases i,
    {
        if occurs_at_exec(v, d, i) {
            return Some(i);
        }
        if i == 0 {
            assert(rfind_from(v@, d@, -1) == -1);
            return None;
        }
        i = i - 1;
    }
}

/// The index ranges of the lines of `v` (`str::lines`).
pub fn line_ranges(v: &Vec<char>) -> (r: Vec<(usize, usize)>)
    ensures
        ranges_within(v@, r@),
        pieces(v@, r@) == lines(v@),
{
    let mut r: Vec<(usize, usize)> = Vec::new();
    let mut start: usize = 0;
    let mut i: usize = 0;
    while i < v.len()
        invariant
            start <= i <= v@.len(),
            ranges_within(v@, r@),
            lines(v@) == pieces(v@, r@) + lines_from(v@, start as int, i as int),
        decreases v@.len() - i,
    {
        if v[i] == '\n' {
            let end = if i > start && v[i - 1] == '\r' {
                i - 1
            } else {
                i
            };
            assert(v@.subrange(start as int, end as int) == strip_cr(
                v@.subrange(start as int, i as int),
            )) by {
                if i > start && v@[i - 1] == '\r' {
                    assert(v@.subrange(start as int, i as int).drop_last() =~= v@.subrange(
                        start as int,
                        end as int,
                    ));
                }
            }
            let ghost old_r = r@;
            r.push((start, end));
            assert(pieces(v@, r@) =~= pieces(v@, old_r) + seq![
                v@.subrange(start as int, end as int),
            ]);
            start = i + 1;
        }
        i = i + 1;
    }
    if start < v.len() {
        let ghost old_r = r@;
        r.push((start, v.len()));
        assert(pieces(v@, r@) =~= pieces(v@, old_r) + seq![
            v@.subrange(start as int, v@.len() as int),
        ]);
    }
    assert(pieces(v@, r@) =~= lines(v@));
    r
}

/// The index ranges of the pieces of `v` between the occurrences of `d`
/// (`str::split`).
pub fn split_ranges(v: &Vec<char>, d: &Vec<char>) -> (r: Vec<(usize, usize)>)
    requires
        d@.len() > 0,
    ensures
        ranges_within(v@, r@),
        pieces(v@, r@) == split(v@, d@),
        r@.len() >= 1,
{
    let mut r: Vec<(usize, usize)> = Vec::new();
    let mut start: usize = 0;
    let mut i: usize = 0;
    while i <= v.len() && d.len() <= v.len() - i
        invariant
            start <= i,
            start <= v@.len(),
            d@.len() > 0,
            ranges_within(v@, r@),
            split(v@, d@) == pieces(v@, r@) + split_from(v@, d@, start as int, i as int),
        decreases v@.len() + 1 - i,
    {
        if occurs_at_exec(v, d, i) {
            let ghost old_r = r@;
            r.push((start, i));
            assert(pieces(v@, r@) =~= pieces(v@, old_r) + seq![
                v@.subrange(start as int, i as int),
            ]);
            i = i + d.len();
            start = i;
        } else {
            i = i + 1;
        }
    }
    let ghost old_r = r@;
    r.push((start, v.len()));
    assert(pieces(v@, r@) =~= pieces(v@, old_r) + seq![
        v@.subrange(start as int, v@.len() as int),
    ]);
    assert(pieces(v@, r@) =~= split(v@, d@));
    r
}

/// The index ranges of the words of `v` (`str::split_whitespace`).
pub fn word_ranges(v: &Vec<char>) -> (r: Vec<(usize, usize)>)
    ensures
        ranges_within(v@, r@),
        pieces(v@, r@) == words(v@),
{
    let mut r: Vec<(usize, usize)> = Vec::new();
    let mut start: usize = 0;
    let mut i: usize = 0;
    while i < v.len()
        invariant
            start <= i <= v@.len(),
            ranges_within(v@, r@),
            words(v@) == pieces(v@, r@) + words_from(v@, start as int, i as int),
        decreases v@.len() - i,
    {
        if is_whitespace(v[i]) {
            if start < i {
                let ghost old_r = r@;
                r.push((start, i));
                assert(pieces(v@, r@) =~= pieces(v@, old_r) + seq![
                    v@.subrange(start as int, i as int),
                ]);
            }
            start = i + 1;
        }
        i = i + 1;
    }
    if start < v.len() {
        let ghost old_r = r@;
        r.push((start, v.len()));
        assert(pieces(v@, r@) =~= pieces(v@, old_r) + seq![
            v@.subrange(start as int, v@.len() as int),
        ]);
    }
    assert(pieces(v@, r@) =~= words(v@));
    r
}

} // verus!
