//! Character-level building blocks shared by the transformations: the
//! conversions between strings and character vectors, and the mathematical
//! meaning of trimming, splitting into lines or words, joining and replacing.

use vstd::prelude::*;

verus! {

/// The text of each part, in order.
pub open spec fn views(parts: Seq<Vec<char>>) -> Seq<Seq<char>> {
    parts.map_values(|p: Vec<char>| p@)
}

/// Unicode `White_Space`: the characters that `char::is_whitespace` accepts.
pub open spec fn is_space(c: char) -> bool {
    let n = c as u32;
    (0x9 <= n && n <= 0xD) || n == 0x20 || n == 0x85 || n == 0xA0 || n == 0x1680 || (0x2000 <= n
        && n <= 0x200A) || n == 0x2028 || n == 0x2029 || n == 0x202F || n == 0x205F || n == 0x3000
}

/// `s` without its leading white space.
pub open spec fn trimmed_start(s: Seq<char>) -> Seq<char>
    decreases s.len(),
{
    if s.len() > 0 && is_space(s[0]) {
        trimmed_start(s.skip(1))
    } else {
        s
    }
}

/// `s` without its trailing white space.
pub open spec fn trimmed_end(s: Seq<char>) -> Seq<char>
    decreases s.len(),
{
    if s.len() > 0 && is_space(s.last()) {
        trimmed_end(s.drop_last())
    } else {
        s
    }
}

/// `s` without white space at either end.
pub open spec fn trimmed(s: Seq<char>) -> Seq<char> {
    trimmed_end(trimmed_start(s))
}

/// A line without the carriage return that ended it, if any.
pub open spec fn strip_cr(l: Seq<char>) -> Seq<char> {
    if l.len() > 0 && l.last() == '\r' {
        l.drop_last()
    } else {
        l
    }
}

/// After reading `s`: the lines ended so far by a line feed, and the line
/// still open.
pub open spec fn line_scan(s: Seq<char>) -> (Seq<Seq<char>>, Seq<char>)
    decreases s.len(),
{
    if s.len() == 0 {
        (Seq::empty(), Seq::empty())
    } else {
        let p = line_scan(s.drop_last());
        if s.last() == '\n' {
            (p.0.push(strip_cr(p.1)), Seq::empty())
        } else {
            (p.0, p.1.push(s.last()))
        }
    }
}

/// The lines of `s` as `str::lines` yields them: split at each line feed,
/// a carriage return before it dropped, and no empty line after a final
/// line feed.
pub open spec fn lines_of(s: Seq<char>) -> Seq<Seq<char>> {
    let p = line_scan(s);
    if p.1.len() > 0 {
        p.0.push(p.1)
    } else {
        p.0
    }
}

/// After reading `s`: the words ended so far by white space, and the word
/// still open.
pub open spec fn word_scan(s: Seq<char>) -> (Seq<Seq<char>>, Seq<char>)
    decreases s.len(),
{
    if s.len() == 0 {
        (Seq::empty(), Seq::empty())
    } else {
        let p = word_scan(s.drop_last());
        if !is_space(s.last()) {
            (p.0, p.1.push(s.last()))
        } else if p.1.len() > 0 {
            (p.0.push(p.1), Seq::empty())
        } else {
            p
        }
    }
}

/// The maximal runs of non-white-space characters of `s`, in order, as
/// `str::split_whitespace` yields them.
pub open spec fn words_of(s: Seq<char>) -> Seq<Seq<char>> {
    let p = word_scan(s);
    if p.1.len() > 0 {
        p.0.push(p.1)
    } else {
        p.0
    }
}

/// The parts with `sep` between each two neighbours.
pub open spec fn joined(parts: Seq<Seq<char>>, sep: Seq<char>) -> Seq<char>
    decreases parts.len(),
{
    if parts.len() == 0 {
        Seq::empty()
    } else if parts.len() == 1 {
        parts[0]
    } else {
        joined(parts.drop_last(), sep) + sep + parts.last()
    }
}

/// `s` with each occurrence of `pat`, taken from the left without overlap,
/// replaced by `rep`; an empty `pat` occurs before every character and at
/// the end, as with `str::replace`.
pub open spec fn replaced(s: Seq<char>, pat: Seq<char>, rep: Seq<char>) -> Seq<char>
    decreases s.len(),
{
    if s.len() == 0 {
        if pat.len() == 0 {
            rep
        } else {
            Seq::empty()
        }
    } else if pat.len() == 0 {
        rep + seq![s[0]] + replaced(s.skip(1), pat, rep)
    } else if pat.is_prefix_of(s) {
        rep + replaced(s.skip(pat.len() as int), pat, rep)
    } else {
        seq![s[0]] + replaced(s.skip(1), pat, rep)
    }
}

/// The characters of `s`, in order.
pub fn chars_of(s: &str) -> (r: Vec<char>)
    ensures
        r@ == s@,
{
    let mut out: Vec<char> = Vec::new();
    for c in it: s.chars()
        invariant
            out@ == it.seq().take(it.index()),
    {
        out.push(c);
    }
    out
}

/// Relies on `String::push`: appends one character at the end.
#[verifier::external_body]
fn push_char(s: &mut String, c: char)
    ensures
        final(s)@ == old(s)@.push(c),
{
    s.push(c);
}

/// The string made of the characters of `v`, in order.
pub fn string_of(v: &Vec<char>) -> (r: String)
    ensures
        r@ == v@,
{
    let mut out = String::new();
    let mut i: usize = 0;
    while i < v.len()
        invariant
            i <= v.len(),
            out@ == v@.take(i as int),
        decreases v.len() - i,
    {
        push_char(&mut out, v[i]);
        assert(v@.take(i + 1) == v@.take(i as int).push(v@[i as int]));
        i = i + 1;
    }
    assert(v@.take(v.len() as int) == v@);
    out
}

/// Whether `c` is white space.
pub fn is_space_char(c: char) -> (r: bool)
    ensures
        r == is_space(c),
{
    let n = c as u32;
    (0x9 <= n && n <= 0xD) || n == 0x20 || n == 0x85 || n == 0xA0 || n == 0x1680 || (0x2000 <= n
        && n <= 0x200A) || n == 0x2028 || n == 0x2029 || n == 0x202F || n == 0x205F || n == 0x3000
}

/// The characters of `v` from index `lo` up to, not including, `hi`.
pub fn slice_chars(v: &Vec<char>, lo: usize, hi: usize) -> (r: Vec<char>)
    requires
        lo <= hi <= v.len(),
    ensures
        r@ == v@.subrange(lo as int, hi as int),
{
    let mut out: Vec<char> = Vec::new();
    let mut i: usize = lo;
    while i < hi
        invariant
            lo <= i <= hi <= v.len(),
            out@ == v@.subrange(lo as int, i as int),
        decreases hi - i,
    {
        out.push(v[i]);
        assert(v@.subrange(lo as int, i + 1) == v@.subrange(lo as int, i as int).push(v@[i as int]));
        i = i + 1;
    }
    out
}

/// A copy of `v`.
pub fn copy_chars(v: &Vec<char>) -> (r: Vec<char>)
    ensures
        r@ == v@,
{
    let r = slice_chars(v, 0, v.len());
    assert(v@.subrange(0, v.len() as int) == v@);
    r
}

/// Appends the characters of `x` to `out`.
pub fn push_all(out: &mut Vec<char>, x: &Vec<char>)
    ensures
        final(out)@ == old(out)@ + x@,
{
    let ghost start = out@;
    let mut i: usize = 0;
    while i < x.len()
        invariant
            i <= x.len(),
            out@ == start + x@.take(i as int),
        decreases x.len() - i,
    {
        out.push(x[i]);
        assert(x@.take(i + 1) == x@.take(i as int).push(x@[i as int]));
        i = i + 1;
    }
    assert(x@.take(x.len() as int) == x@);
}

/// Whether `a` and `b` hold the same characters.
pub fn same_chars(a: &Vec<char>, b: &Vec<char>) -> (r: bool)
    ensures
        r == (a@ == b@),
{
    if a.len() != b.len() {
        return false;
    }
    let mut i: usize = 0;
    while i < a.len()
        invariant
            a.len() == b.len(),
            i <= a.len(),
            a@.take(i as int) == b@.take(i as int),
        decreases a.len() - i,
    {
        if a[i] != b[i] {
            assert(a@[i as int] != b@[i as int]);
            return false;
        }
        assert(a@.take(i + 1) == a@.take(i as int).push(a@[i as int]));
        assert(b@.take(i + 1) == b@.take(i as int).push(b@[i as int]));
        i = i + 1;
    }
    assert(a@.take(a.len() as int) == a@);
    assert(b@.take(b.len() as int) == b@);
    true
}

/// `v` without its leading white space.
pub fn trim_start_chars(v: &Vec<char>) -> (r: Vec<char>)
    ensures
        r@ == trimmed_start(v@),
{
    let mut i: usize = 0;
    assert(v@.skip(0) == v@);
    while i < v.len() && is_space_char(v[i])
        invariant
            i <= v.len(),
            trimmed_start(v@) == trimmed_start(v@.skip(i as int)),
        decreases v.len() - i,
    {
        assert(v@.skip(i as int).skip(1) == v@.skip(i + 1));
        i = i + 1;
    }
    assert(v@.subrange(i as int, v.len() as int) == v@.skip(i as int));
    slice_chars(v, i, v.len())
}

/// `v` without its trailing white space.
pub fn trim_end_chars(v: &Vec<char>) -> (r: Vec<char>)
    ensures
        r@ == trimmed_end(v@),
{
    let mut j: usize = v.len();
    assert(v@.take(v.len() as int) == v@);
    while j > 0 && is_space_char(v[j - 1])
        invariant
            j <= v.len(),
            trimmed_end(v@) == trimmed_end(v@.take(j as int)),
        decreases j,
    {
        assert(v@.take(j as int).drop_last() == v@.take(j - 1));
        j = j - 1;
    }
    assert(v@.subrange(0, j as int) == v@.take(j as int));
    slice_chars(v, 0, j)
}

/// `v` without white space at either end.
pub fn trim_chars(v: &Vec<char>) -> (r: Vec<char>)
    ensures
        r@ == trimmed(v@),
{
    let s = trim_start_chars(v);
    trim_end_chars(&s)
}

/// The line `l` without the carriage return that ended it, if any.
fn strip_cr_chars(l: &Vec<char>) -> (r: Vec<char>)
    ensures
        r@ == strip_cr(l@),
{
    if l.len() > 0 && l[l.len() - 1] == '\r' {
        slice_chars(l, 0, l.len() - 1)
    } else {
        copy_chars(l)
    }
}

/// The lines of `v`, as `lines_of` states them.
pub fn split_lines(v: &Vec<char>) -> (r: Vec<Vec<char>>)
    ensures
        views(r@) == lines_of(v@),
{
    let mut done: Vec<Vec<char>> = Vec::new();
    let mut open: Vec<char> = Vec::new();
    let mut i: usize = 0;
    while i < v.len()
        invariant
            i <= v.len(),
            views(done@) == line_scan(v@.take(i as int)).0,
            open@ == line_scan(v@.take(i as int)).1,
        decreases v.len() - i,
    {
        assert(v@.take(i + 1).drop_last() == v@.take(i as int));
        if v[i] == '\n' {
            let l = strip_cr_chars(&open);
            proof {
                assert(views(done@.push(l)) == views(done@).push(l@));
            }
            done.push(l);
            open = Vec::new();
        } else {
            open.push(v[i]);
        }
        i = i + 1;
    }
    assert(v@.take(v.len() as int) == v@);
    if open.len() > 0 {
        proof {
            assert(views(done@.push(open)) == views(done@).push(open@));
        }
        done.push(open);
    }
    done
}

/// The words of `v`, as `words_of` states them.
pub fn split_words(v: &Vec<char>) -> (r: Vec<Vec<char>>)
    ensures
        views(r@) == words_of(v@),
{
    let mut done: Vec<Vec<char>> = Vec::new();
    let mut open: Vec<char> = Vec::new();
    let mut i: usize = 0;
    while i < v.len()
        invariant
            i <= v.len(),
            views(done@) == word_scan(v@.take(i as int)).0,
            open@ == word_scan(v@.take(i as int)).1,
        decreases v.len() - i,
    {
        assert(v@.take(i + 1).drop_last() == v@.take(i as int));
        if !is_space_char(v[i]) {
            open.push(v[i]);
        } else if open.len() > 0 {
            proof {
                assert(views(done@.push(open)) == views(done@).push(open@));
            }
            done.push(open);
            open = Vec::new();
        }
        i = i + 1;
    }
    assert(v@.take(v.len() as int) == v@);
    if open.len() > 0 {
        proof {
            assert(views(done@.push(open)) == views(done@).push(open@));
        }
        done.push(open);
    }
    done
}

/// The parts with `sep` between each two neighbours.
pub fn join_with(parts: &Vec<Vec<char>>, sep: &Vec<char>) -> (r: Vec<char>)
    ensures
        r@ == joined(views(parts@), sep@),
{
    let mut out: Vec<char> = Vec::new();
    let mut i: usize = 0;
    while i < parts.len()
        invariant
            i <= parts.len(),
            out@ == joined(views(parts@).take(i as int), sep@),
        decreases parts.len() - i,
    {
        assert(views(parts@).take(i + 1).drop_last() == views(parts@).take(i as int));
        assert(views(parts@).take(i + 1).last() == parts@[i as int]@);
        if i > 0 {
            push_all(&mut out, sep);
        }
        push_all(&mut out, &parts[i]);
        i = i + 1;
    }
    assert(views(parts@).take(parts.len() as int) == views(parts@));
    out
}

/// Whether `pat` occurs in `v` at index `at`.
pub fn occurs_at(v: &Vec<char>, at: usize, pat: &Vec<char>) -> (r: bool)
    requires
        at <= v.len(),
    ensures
        r == pat@.is_prefix_of(v@.skip(at as int)),
{
    if pat.len() > v.len() - at {
        return false;
    }
    let mut k: usize = 0;
    while k < pat.len()
        invariant
            k <= pat.len() <= v.len() - at,
            forall|j: int| 0 <= j < k ==> pat@[j] == v@[at + j],
        decreases pat.len() - k,
    {
        if pat[k] != v[at + k] {
            return false;
        }
        k = k + 1;
    }
    assert(pat@ == v@.skip(at as int).subrange(0, pat.len() as int));
    true
}

/// `v` with each occurrence of `pat` replaced by `rep`, as `replaced` states.
pub fn replace_chars(v: &Vec<char>, pat: &Vec<char>, rep: &Vec<char>) -> (r: Vec<char>)
    ensures
        r@ == replaced(v@, pat@, rep@),
{
    let mut out: Vec<char> = Vec::new();
    let mut i: usize = 0;
    assert(v@.skip(0) == v@);
    assert(out@ + replaced(v@, pat@, rep@) == replaced(v@, pat@, rep@));
    while i < v.len()
        invariant
            i <= v.len(),
            out@ + replaced(v@.skip(i as int), pat@, rep@) == replaced(v@, pat@, rep@),
        decreases v.len() - i,
    {
        let ghost rest = v@.skip(i as int);
        assert(rest.skip(1) == v@.skip(i + 1));
        assert(rest[0] == v@[i as int]);
        if pat.len() == 0 {
            push_all(&mut out, rep);
            out.push(v[i]);
            i = i + 1;
        } else if occurs_at(v, i, pat) {
            assert(rest.skip(pat.len() as int) == v@.skip(i + pat.len()));
            push_all(&mut out, rep);
            i = i + pat.len();
        } else {
            out.push(v[i]);
            i = i + 1;
        }
    }
    assert(v@.skip(i as int) == Seq::<char>::empty());
    if pat.len() == 0 {
        push_all(&mut out, rep);
    }
    out
}

/// Whether `s` holds no line feed.
pub open spec fn no_lf(s: Seq<char>) -> bool {
    forall|i: int| 0 <= i < s.len() ==> s[i] != '\n'
}

/// Reading a piece without line feeds extends the open line.
pub proof fn lemma_line_scan_extend(p: Seq<char>, x: Seq<char>)
    requires
        no_lf(x),
    ensures
        line_scan(p + x) == (line_scan(p).0, line_scan(p).1 + x),
    decreases x.len(),
{
    if x.len() == 0 {
        assert(p + x == p);
        assert(line_scan(p).1 + x == line_scan(p).1);
    } else {
        let y = x.drop_last();
        lemma_line_scan_extend(p, y);
        assert((p + x).drop_last() == p + y);
        assert((p + x).last() == x.last());
        assert(line_scan(p).1 + y.push(x.last()) == line_scan(p).1 + x);
        assert(y.push(x.last()) == x);
    }
}

/// Each line that the scan of `s` has ended or holds open is free of line
/// feeds.
pub proof fn lemma_line_scan_no_lf(s: Seq<char>)
    ensures
        forall|i: int| 0 <= i < line_scan(s).0.len() ==> no_lf(#[trigger] line_scan(s).0[i]),
        no_lf(line_scan(s).1),
    decreases s.len(),
{
    if s.len() > 0 {
        lemma_line_scan_no_lf(s.drop_last());
    }
}

/// The lines of any text are free of line feeds.
pub proof fn lemma_lines_no_lf(s: Seq<char>)
    ensures
        forall|i: int| 0 <= i < lines_of(s).len() ==> no_lf(#[trigger] lines_of(s)[i]),
{
    lemma_line_scan_no_lf(s);
}

/// Scanning lines joined by line feeds ends every line but the last (less
/// a final carriage return) and leaves the last one open.
pub proof fn lemma_line_scan_joined(d: Seq<Seq<char>>)
    requires
        d.len() > 0,
        forall|i: int| 0 <= i < d.len() ==> no_lf(#[trigger] d[i]),
    ensures
        line_scan(joined(d, "\n"@)) == (
            d.drop_last().map_values(|l: Seq<char>| strip_cr(l)),
            d.last(),
        ),
    decreases d.len(),
{
    reveal_strlit("\n");
    if d.len() == 1 {
        lemma_line_scan_extend(Seq::empty(), d[0]);
        assert(Seq::<char>::empty() + d[0] == d[0]);
        assert(d.drop_last().map_values(|l: Seq<char>| strip_cr(l)) == Seq::<Seq<char>>::empty());
        assert(Seq::<char>::empty() + d[0] == d[0]);
    } else {
        let e = d.drop_last();
        assert forall|i: int| 0 <= i < e.len() implies no_lf(#[trigger] e[i]) by {
            assert(e[i] == d[i]);
        }
        lemma_line_scan_joined(e);
        let je = joined(e, "\n"@);
        let jn = je + "\n"@;
        assert(jn.drop_last() == je);
        assert(jn.last() == '\n');
        lemma_line_scan_extend(jn, d.last());
        assert(Seq::<char>::empty() + d.last() == d.last());
        assert(e.drop_last().map_values(|l: Seq<char>| strip_cr(l)).push(strip_cr(e.last()))
            == e.map_values(|l: Seq<char>| strip_cr(l)));
        assert(jn + d.last() == joined(d, "\n"@));
    }
}

/// Whether lines survive being joined by line feeds and split again: no
/// line but the last ends with a carriage return, and the last line is not
/// empty unless it is the only one.
pub open spec fn lines_survive_join(d: Seq<Seq<char>>) -> bool {
    &&& forall|i: int|
        0 <= i < d.len() - 1 ==> !((#[trigger] d[i]).len() > 0 && d[i].last() == '\r')
    &&& d.len() > 1 ==> d.last().len() > 0
}

/// Lines free of line feeds that survive the join come back from it.
pub proof fn lemma_lines_of_joined(d: Seq<Seq<char>>)
    requires
        forall|i: int| 0 <= i < d.len() ==> no_lf(#[trigger] d[i]),
        lines_survive_join(d),
        !(d.len() == 1 && d[0].len() == 0),
    ensures
        lines_of(joined(d, "\n"@)) == d,
{
    if d.len() > 0 {
        lemma_line_scan_joined(d);
        let e = d.drop_last();
        assert(e.map_values(|l: Seq<char>| strip_cr(l)) == e);
        assert(e.push(d.last()) == d);
    }
}

/// Whether `a` and `b` hold the same characters.
pub fn same_str(a: &str, b: &str) -> (r: bool)
    ensures
        r == (a@ == b@),
{
    same_chars(&chars_of(a), &chars_of(b))
}

} // verus!
