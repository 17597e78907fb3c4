//! Character-level text operations: Unicode classification, case mapping,
//! trimming and splitting on a delimiter.

use vstd::prelude::*;

verus! {

/// Whether `c` has the Unicode `White_Space` property.
pub uninterp spec fn whitespace(c: char) -> bool;

/// Whether `c` is alphabetic or numeric in the Unicode sense.
pub uninterp spec fn alphanumeric(c: char) -> bool;

/// The Unicode uppercase mapping of a whole string.
pub uninterp spec fn uppercase(s: Seq<char>) -> Seq<char>;

/// The Unicode lowercase mapping of a whole string.
pub uninterp spec fn lowercase(s: Seq<char>) -> Seq<char>;

/// Calls `char::is_whitespace`. Trusted: the result is the `White_Space`
/// property of `c`, which is a function of `c` alone.
#[verifier::external_body]
pub(crate) fn is_whitespace(c: char) -> (r: bool)
    ensures
        r == whitespace(c),
{
    c.is_whitespace()
}

/// Calls `char::is_alphanumeric`. Trusted: the result is the Unicode
/// classification of `c`, which is a function of `c` alone.
#[verifier::external_body]
pub(crate) fn is_alphanumeric(c: char) -> (r: bool)
    ensures
        r == alphanumeric(c),
{
    c.is_alphanumeric()
}

/// Calls `str::to_uppercase`. Trusted: the result is the uppercase mapping of
/// the argument's characters.
#[verifier::external_body]
pub(crate) fn to_uppercase(s: &str) -> (r: String)
    ensures
        r@ == uppercase(s@),
{
    s.to_uppercase()
}

/// Calls `str::to_lowercase`. Trusted: the result is the lowercase mapping of
/// the argument's characters.
#[verifier::external_body]
pub(crate) fn to_lowercase(s: &str) -> (r: String)
    ensures
        r@ == lowercase(s@),
{
    s.to_lowercase()
}

/// Calls `String::push`. Trusted: the character is appended at the end and
/// nothing else changes.
#[verifier::external_body]
pub(crate) fn push_char(s: &mut String, c: char)
    ensures
        final(s)@ == old(s)@.push(c),
{
    s.push(c)
}

/// The characters of `s`, in order.
pub fn chars_of(s: &str) -> (v: Vec<char>)
    ensures
        v@ == s@,
{
    let mut v: Vec<char> = Vec::new();
    for c in it: s.chars()
        invariant
            it.seq() == s@,
            v@ == s@.take(it.index()),
    {
        v.push(c);
    }
    v
}

/// The string made of `v[lo..hi]`.
pub fn string_of(v: &Vec<char>, lo: usize, hi: usize) -> (s: String)
    requires
        lo <= hi <= v.len(),
    ensures
        s@ == v@.subrange(lo as int, hi as int),
{
    let mut s = String::new();
    let mut i: usize = lo;
    while i < hi
        invariant
            lo <= i <= hi <= v.len(),
            s@ == v@.subrange(lo as int, i as int),
        decreases hi - i,
    {
        push_char(&mut s, v[i]);
        i += 1;
    }
    s
}

/// `s` without its leading whitespace.
pub open spec fn trim_start(s: Seq<char>) -> Seq<char>
    decreases s.len(),
{
    if s.len() > 0 && whitespace(s[0]) {
        trim_start(s.drop_first())
    } else {
        s
    }
}

/// `s` without its trailing whitespace.
pub open spec fn trim_end(s: Seq<char>) -> Seq<char>
    decreases s.len(),
{
    if s.len() > 0 && whitespace(s.last()) {
        trim_end(s.drop_last())
    } else {
        s
    }
}

/// `s` without surrounding whitespace.
pub open spec fn trim(s: Seq<char>) -> Seq<char> {
    trim_end(trim_start(s))
}

/// The pieces of `s` between occurrences of `d`. Every occurrence of `d`
/// closes one piece and opens the next, so there is always at least one.
pub open spec fn split(s: Seq<char>, d: char) -> Seq<Seq<char>>
    decreases s.len(),
{
    if s.len() == 0 {
        seq![Seq::empty()]
    } else {
        let head = split(s.drop_last(), d);
        if s.last() == d {
            head.push(Seq::empty())
        } else {
            head.update(head.len() - 1, head.last().push(s.last()))
        }
    }
}

/// `s` without one trailing carriage return.
pub open spec fn strip_cr(s: Seq<char>) -> Seq<char> {
    if s.len() > 0 && s.last() == '\r' {
        s.drop_last()
    } else {
        s
    }
}

/// The lines of `s`. A line ends at `\n` or `\r\n`; the terminator is not
/// part of the line, and the last line needs none.
pub open spec fn lines(s: Seq<char>) -> Seq<Seq<char>> {
    let parts = split(s, '\n');
    let ended = Seq::new((parts.len() - 1) as nat, |i: int| strip_cr(parts[i]));
    if parts.last().len() == 0 {
        ended
    } else {
        ended.push(parts.last())
    }
}

/// Whether every range lies inside a text of `len` characters.
pub open spec fn ranges_within(ranges: Seq<(usize, usize)>, len: int) -> bool {
    forall|k: int| 0 <= k < ranges.len() ==> (#[trigger] ranges[k]).0 <= ranges[k].1 <= len
}

/// The sub-texts of `v` that `ranges` delimit.
pub open spec fn pieces(v: Seq<char>, ranges: Seq<(usize, usize)>) -> Seq<Seq<char>> {
    Seq::new(ranges.len(), |k: int| v.subrange(ranges[k].0 as int, ranges[k].1 as int))
}

/// The views of a sequence of strings.
pub open spec fn texts(v: Seq<String>) -> Seq<Seq<char>> {
    Seq::new(v.len(), |i: int| v[i]@)
}

/// Splitting yields at least one piece, and at most one more than `s` has
/// characters.
pub proof fn lemma_split_len(s: Seq<char>, d: char)
    ensures
        1 <= split(s, d).len() <= s.len() + 1,
    decreases s.len(),
{
    if s.len() > 0 {
        lemma_split_len(s.drop_last(), d);
    }
}

/// No piece holds the delimiter.
pub proof fn lemma_split_pieces_lack_delimiter(s: Seq<char>, d: char)
    ensures
        forall|i: int, j: int|
            0 <= i < split(s, d).len() && 0 <= j < split(s, d)[i].len() ==> split(s, d)[i][j]
                != d,
    decreases s.len(),
{
    if s.len() > 0 {
        lemma_split_pieces_lack_delimiter(s.drop_last(), d);
        lemma_split_len(s.drop_last(), d);
        let head = split(s.drop_last(), d);
        assert forall|i: int, j: int|
            0 <= i < split(s, d).len() && 0 <= j < split(s, d)[i].len() implies split(s, d)[i][j]
            != d by {
            if i < head.len() - 1 {
                assert(split(s, d)[i] == head[i]);
            } else if i == head.len() - 1 && j < head[i].len() {
                assert(split(s, d)[i][j] == head[i][j]);
            }
        }
    }
}

/// The pieces with `d` between each two neighbours.
pub open spec fn join(parts: Seq<Seq<char>>, d: char) -> Seq<char>
    decreases parts.len(),
{
    if parts.len() == 0 {
        Seq::empty()
    } else if parts.len() == 1 {
        parts[0]
    } else {
        join(parts.drop_last(), d).push(d) + parts.last()
    }
}

/// Splitting loses nothing: the pieces, joined by the delimiter, are the
/// text again.
pub proof fn lemma_split_join(s: Seq<char>, d: char)
    ensures
        join(split(s, d), d) == s,
    decreases s.len(),
{
    if s.len() == 0 {
        assert(join(split(s, d), d) =~= s);
    } else {
        lemma_split_join(s.drop_last(), d);
        lemma_split_len(s.drop_last(), d);
        let head = split(s.drop_last(), d);
        let whole = split(s, d);
        if s.last() == d {
            assert(whole.drop_last() =~= head);
            assert(join(whole, d) =~= s.drop_last().push(d) + Seq::<char>::empty());
            assert(join(whole, d) =~= s);
        } else if head.len() == 1 {
            assert(join(whole, d) =~= s.drop_last().push(s.last()));
            assert(join(whole, d) =~= s);
        } else {
            assert(whole.drop_last() =~= head.drop_last());
            assert(join(whole, d) =~= (join(head.drop_last(), d).push(d) + head.last()).push(
                s.last(),
            ));
            assert(join(whole, d) =~= s.drop_last().push(s.last()));
            assert(join(whole, d) =~= s);
        }
    }
}

/// No line holds a line feed.
pub proof fn lemma_lines_lack_newline(s: Seq<char>)
    ensures
        forall|i: int, j: int|
            0 <= i < lines(s).len() && 0 <= j < lines(s)[i].len() ==> lines(s)[i][j] != '\n',
{
    lemma_split_pieces_lack_delimiter(s, '\n');
    lemma_split_len(s, '\n');
    let parts = split(s, '\n');
    assert forall|i: int, j: int|
        0 <= i < lines(s).len() && 0 <= j < lines(s)[i].len() implies lines(s)[i][j] != '\n' by {
        assert(lines(s)[i][j] == parts[i][j]);
    }
}

/// What is left after trimming the end is the start of the text, and does
/// not end in whitespace.
pub proof fn lemma_trim_end(s: Seq<char>)
    ensures
        trim_end(s).len() <= s.len(),
        trim_end(s) == s.take(trim_end(s).len() as int),
        trim_end(s).len() > 0 ==> !whitespace(trim_end(s).last()),
    decreases s.len(),
{
    if s.len() > 0 && whitespace(s.last()) {
        lemma_trim_end(s.drop_last());
        assert(s.drop_last().take(trim_end(s).len() as int) =~= s.take(trim_end(s).len() as int));
    } else {
        assert(s.take(s.len() as int) =~= s);
    }
}

/// What is left after trimming the start is the end of the text, and does
/// not start with whitespace.
pub proof fn lemma_trim_start(s: Seq<char>)
    ensures
        trim_start(s).len() <= s.len(),
        trim_start(s) == s.skip(s.len() - trim_start(s).len()),
        trim_start(s).len() > 0 ==> !whitespace(trim_start(s)[0]),
    decreases s.len(),
{
    if s.len() > 0 && whitespace(s[0]) {
        lemma_trim_start(s.drop_first());
        assert(s.drop_first().skip(s.len() - 1 - trim_start(s).len()) =~= s.skip(
            s.len() - trim_start(s).len(),
        ));
    } else {
        assert(s.skip(0) =~= s);
    }
}

/// A trimmed text neither starts nor ends with whitespace.
pub proof fn lemma_trim_is_bare(s: Seq<char>)
    ensures
        trim(s).len() > 0 ==> !whitespace(trim(s)[0]) && !whitespace(trim(s).last()),
{
    lemma_trim_start(s);
    lemma_trim_end(trim_start(s));
}

/// The bounds of `v[lo..hi]` without its surrounding whitespace.
pub fn trim_bounds(v: &Vec<char>, lo: usize, hi: usize) -> (r: (usize, usize))
    requires
        lo <= hi <= v.len(),
    ensures
        lo <= r.0 <= r.1 <= hi,
        v@.subrange(r.0 as int, r.1 as int) == trim(v@.subrange(lo as int, hi as int)),
{
    let mut i: usize = lo;
    while i < hi && is_whitespace(v[i])
        invariant
            lo <= i <= hi <= v.len(),
            trim_start(v@.subrange(lo as int, hi as int)) == trim_start(
                v@.subrange(i as int, hi as int),
            ),
        decreases hi - i,
    {
        assert(v@.subrange(i as int, hi as int).drop_first() =~= v@.subrange(
            i as int + 1,
            hi as int,
        ));
        i += 1;
    }
    let mut j: usize = hi;
    while j > i && is_whitespace(v[j - 1])
        invariant
            i <= j <= hi <= v.len(),
            trim_end(v@.subrange(i as int, hi as int)) == trim_end(
                v@.subrange(i as int, j as int),
            ),
        decreases j - i,
    {
        assert(v@.subrange(i as int, j as int).drop_last() =~= v@.subrange(
            i as int,
            j as int - 1,
        ));
        j -= 1;
    }
    (i, j)
}

/// The bounds of the pieces of `v[lo..hi]` between occurrences of `d`.
pub fn split_bounds(v: &Vec<char>, lo: usize, hi: usize, d: char) -> (r: Vec<(usize, usize)>)
    requires
        lo <= hi <= v.len(),
    ensures
        ranges_within(r@, v.len() as int),
        forall|k: int| 0 <= k < r.len() ==> lo <= (#[trigger] r[k]).0 && r[k].1 <= hi,
        pieces(v@, r@) == split(v@.subrange(lo as int, hi as int), d),
{
    let mut r: Vec<(usize, usize)> = Vec::new();
    let mut start: usize = lo;
    let mut i: usize = lo;
    assert(v@.subrange(lo as int, lo as int) =~= Seq::<char>::empty());
    assert(pieces(v@, r@).push(Seq::<char>::empty()) =~= seq![Seq::<char>::empty()]);
    while i < hi
        invariant
            lo <= start <= i <= hi <= v.len(),
            ranges_within(r@, v.len() as int),
            forall|k: int| 0 <= k < r.len() ==> lo <= (#[trigger] r[k]).0 && r[k].1 <= hi,
            pieces(v@, r@).push(v@.subrange(start as int, i as int)) == split(
                v@.subrange(lo as int, i as int),
                d,
            ),
        decreases hi - i,
    {
        let ghost done = pieces(v@, r@);
        let ghost before = v@.subrange(lo as int, i as int);
        let ghost now = v@.subrange(lo as int, i as int + 1);
        assert(now.drop_last() =~= before);
        assert(now.last() == v@[i as int]);
        if v[i] == d {
            r.push((start, i));
            start = i + 1;
            assert(pieces(v@, r@) =~= done.push(v@.subrange(r@.last().0 as int, i as int)));
            assert(v@.subrange(start as int, i as int + 1) =~= Seq::<char>::empty());
        } else {
            assert(v@.subrange(start as int, i as int + 1) =~= v@.subrange(
                start as int,
                i as int,
            ).push(v@[i as int]));
            assert(done.push(v@.subrange(start as int, i as int + 1)) =~= done.push(
                v@.subrange(start as int, i as int),
            ).update(done.len() as int, v@.subrange(start as int, i as int).push(v@[i as int])));
        }
        i += 1;
    }
    r.push((start, hi));
    assert(pieces(v@, r@) =~= pieces(v@, r@.drop_last()).push(
        v@.subrange(start as int, hi as int),
    ));
    r
}

/// The bounds of the lines of `v`.
pub fn line_bounds(v: &Vec<char>) -> (r: Vec<(usize, usize)>)
    ensures
        ranges_within(r@, v.len() as int),
        pieces(v@, r@) == lines(v@),
{
    let parts = split_bounds(v, 0, v.len(), '\n');
    assert(v@.subrange(0, v.len() as int) =~= v@);
    proof {
        lemma_split_len(v@, '\n');
    }
    let n: usize = parts.len() - 1;
    let mut r: Vec<(usize, usize)> = Vec::new();
    let mut k: usize = 0;
    while k < n
        invariant
            k <= n,
            n == parts.len() - 1,
            ranges_within(parts@, v.len() as int),
            ranges_within(r@, v.len() as int),
            pieces(v@, parts@) == split(v@, '\n'),
            r.len() == k,
            forall|j: int| 0 <= j < k ==> (#[trigger] pieces(v@, r@)[j]) == strip_cr(split(v@, '\n')[j]),
        decreases n - k,
    {
        let (a, b) = parts[k];
        assert(pieces(v@, parts@)[k as int] == v@.subrange(a as int, b as int));
        let ghost old_r = r@;
        if b > a && v[b - 1] == '\r' {
            assert(v@.subrange(a as int, b as int).drop_last() =~= v@.subrange(
                a as int,
                b as int - 1,
            ));
            r.push((a, b - 1));
        } else {
            r.push((a, b));
        }
        assert forall|j: int| 0 <= j < k + 1 implies (#[trigger] pieces(v@, r@)[j]) == strip_cr(
            split(v@, '\n')[j],
        ) by {
            if j < k {
                assert(pieces(v@, old_r)[j] == strip_cr(split(v@, '\n')[j]));
                assert(r@[j] == old_r[j]);
            }
        }
        k += 1;
    }
    let (a, b) = parts[n];
    assert(pieces(v@, parts@)[n as int] == v@.subrange(a as int, b as int));
    let ghost ended = pieces(v@, r@);
    if b > a {
        r.push((a, b));
        assert(pieces(v@, r@) =~= ended.push(v@.subrange(a as int, b as int)));
    }
    assert(pieces(v@, r@) =~= lines(v@));
    r
}

} // verus!
