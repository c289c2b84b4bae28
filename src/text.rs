use vstd::prelude::*;

verus! {

/// The characters that carry Unicode's `White_Space` property.
pub open spec fn is_white(c: char) -> bool {
    ||| '\u{9}' <= c <= '\u{d}'
    ||| c == ' '
    ||| c == '\u{85}'
    ||| c == '\u{a0}'
    ||| c == '\u{1680}'
    ||| '\u{2000}' <= c <= '\u{200a}'
    ||| c == '\u{2028}'
    ||| c == '\u{2029}'
    ||| c == '\u{202f}'
    ||| c == '\u{205f}'
    ||| c == '\u{3000}'
}

/// `s` without its leading white space.
pub open spec fn trim_start(s: Seq<char>) -> Seq<char>
    decreases s.len(),
{
    if s.len() > 0 && is_white(s[0]) {
        trim_start(s.drop_first())
    } else {
        s
    }
}

/// `s` without its trailing white space.
pub open spec fn trim_end(s: Seq<char>) -> Seq<char>
    decreases s.len(),
{
    if s.len() > 0 && is_white(s.last()) {
        trim_end(s.drop_last())
    } else {
        s
    }
}

/// `s` without white space at either end.
pub open spec fn trimmed(s: Seq<char>) -> Seq<char> {
    trim_end(trim_start(s))
}

/// The pieces of `s` between newline characters, in order: `k` newlines give
/// `k + 1` pieces, some of which may be empty.
pub open spec fn split_lines(s: Seq<char>) -> Seq<Seq<char>>
    decreases s.len(),
{
    if s.len() == 0 {
        seq![Seq::empty()]
    } else {
        let before = split_lines(s.drop_last());
        if s.last() == '\n' {
            before.push(Seq::empty())
        } else {
            before.update(before.len() - 1, before.last().push(s.last()))
        }
    }
}

/// The views of a sequence of strings.
pub open spec fn views(v: Seq<String>) -> Seq<Seq<char>> {
    v.map_values(|s: String| s@)
}

pub proof fn lemma_split_lines_nonempty(s: Seq<char>)
    ensures
        split_lines(s).len() >= 1,
    decreases s.len(),
{
    if s.len() > 0 {
        lemma_split_lines_nonempty(s.drop_last());
    }
}

/// How `split_lines` grows when one character is appended.
pub proof fn lemma_split_lines_step(s: Seq<char>, i: int)
    requires
        0 <= i < s.len(),
    ensures
        split_lines(s.subrange(0, i + 1)) == if s[i] == '\n' {
            split_lines(s.subrange(0, i)).push(Seq::empty())
        } else {
            split_lines(s.subrange(0, i)).update(
                split_lines(s.subrange(0, i)).len() - 1,
                split_lines(s.subrange(0, i)).last().push(s[i]),
            )
        },
{
    let p = s.subrange(0, i + 1);
    assert(p.drop_last() =~= s.subrange(0, i));
    assert(p.last() == s[i]);
}

pub fn is_white_char(c: char) -> (r: bool)
    ensures
        r == is_white(c),
{
    ('\u{9}' <= c && c <= '\u{d}') || c == ' ' || c == '\u{85}' || c == '\u{a0}' || c
        == '\u{1680}' || ('\u{2000}' <= c && c <= '\u{200a}') || c == '\u{2028}' || c
        == '\u{2029}' || c == '\u{202f}' || c == '\u{205f}' || c == '\u{3000}'
}

/// The characters `lo..hi` of `s` with white space at either end removed.
pub fn trimmed_piece(s: &str, lo: usize, hi: usize) -> (r: String)
    requires
        lo <= hi <= s@.len(),
    ensures
        r@ == trimmed(s@.subrange(lo as int, hi as int)),
{
    let n = s.unicode_len();
    let mut a: usize = lo;
    while a < hi && is_white_char(s.get_char(a))
        invariant
            lo <= a <= hi,
            hi <= s@.len(),
            n == s@.len(),
            trim_start(s@.subrange(lo as int, hi as int)) == trim_start(
                s@.subrange(a as int, hi as int),
            ),
        decreases hi - a,
    {
        assert(s@.subrange(a as int, hi as int).drop_first() =~= s@.subrange(
            a + 1,
            hi as int,
        ));
        a = a + 1;
    }
    assert(trim_start(s@.subrange(a as int, hi as int)) == s@.subrange(a as int, hi as int));
    let mut b: usize = hi;
    while b > a && is_white_char(s.get_char(b - 1))
        invariant
            a <= b <= hi,
            hi <= s@.len(),
            n == s@.len(),
            trim_end(s@.subrange(a as int, hi as int)) == trim_end(
                s@.subrange(a as int, b as int),
            ),
        decreases b - a,
    {
        assert(s@.subrange(a as int, b as int).drop_last() =~= s@.subrange(
            a as int,
            b - 1,
        ));
        b = b - 1;
    }
    let piece = s.substring_char(a, b);
    piece.to_owned()
}

/// `l` without one carriage return at its end.
pub open spec fn strip_cr(l: Seq<char>) -> Seq<char> {
    if l.len() > 0 && l.last() == '\r' {
        l.drop_last()
    } else {
        l
    }
}

/// `l` without the byte-order marks at its start.
pub open spec fn strip_boms(l: Seq<char>) -> Seq<char>
    decreases l.len(),
{
    if l.len() > 0 && l[0] == '\u{feff}' {
        strip_boms(l.drop_first())
    } else {
        l
    }
}

/// The lines of a text file: the pieces that a newline ends, each without a
/// carriage return before that newline, then the text after the last newline
/// where there is any; the first line without leading byte-order marks.
pub open spec fn file_lines(text: Seq<char>) -> Seq<Seq<char>> {
    let pieces = split_lines(text);
    let complete = pieces.drop_last().map_values(|l: Seq<char>| strip_cr(l));
    let all = if pieces.last().len() > 0 {
        complete.push(pieces.last())
    } else {
        complete
    };
    if all.len() > 0 {
        all.update(0, strip_boms(all[0]))
    } else {
        all
    }
}

/// The pieces of `s` between newline characters.
pub fn split_pieces(s: &str) -> (r: Vec<String>)
    ensures
        views(r@) == split_lines(s@),
{
    let n = s.unicode_len();
    let mut r: Vec<String> = Vec::new();
    let mut start: usize = 0;
    let mut i: usize = 0;
    proof {
        assert(s@.subrange(0, 0) =~= Seq::<char>::empty());
    }
    while i < n
        invariant
            n == s@.len(),
            start <= i <= n,
            split_lines(s@.subrange(0, i as int)).last() == s@.subrange(start as int, i as int),
            views(r@) == split_lines(s@.subrange(0, i as int)).drop_last(),
        decreases n - i,
    {
        let ghost before = split_lines(s@.subrange(0, i as int));
        proof {
            lemma_split_lines_step(s@, i as int);
            lemma_split_lines_nonempty(s@.subrange(0, i as int));
        }
        if s.get_char(i) == '\n' {
            let piece = s.substring_char(start, i).to_owned();
            let ghost prev = views(r@);
            r.push(piece);
            assert(views(r@) =~= prev.push(s@.subrange(start as int, i as int)));
            let ghost after = split_lines(s@.subrange(0, i + 1));
            assert(after.drop_last() =~= before);
            assert(before =~= before.drop_last().push(before.last()));
            start = i + 1;
            assert(after.last() =~= s@.subrange(start as int, i + 1));
        } else {
            let ghost after = split_lines(s@.subrange(0, i + 1));
            assert(after.drop_last() =~= before.drop_last());
            assert(after.last() =~= s@.subrange(start as int, i + 1));
        }
        i = i + 1;
    }
    proof {
        assert(s@.subrange(0, n as int) =~= s@);
        lemma_split_lines_nonempty(s@);
    }
    let ghost prev = views(r@);
    r.push(s.substring_char(start, n).to_owned());
    let ghost all = split_lines(s@);
    assert(views(r@) =~= prev.push(all.last()));
    assert(all =~= all.drop_last().push(all.last()));
    r
}

fn without_cr(p: &str) -> (r: String)
    ensures
        r@ == strip_cr(p@),
{
    let k = p.unicode_len();
    if k > 0 && p.get_char(k - 1) == '\r' {
        p.substring_char(0, k - 1).to_owned()
    } else {
        p.to_owned()
    }
}

fn without_boms(p: &str) -> (r: String)
    ensures
        r@ == strip_boms(p@),
{
    let k = p.unicode_len();
    let mut a: usize = 0;
    assert(p@.subrange(0, k as int) =~= p@);
    while a < k && p.get_char(a) == '\u{feff}'
        invariant
            a <= k,
            k == p@.len(),
            strip_boms(p@) == strip_boms(p@.subrange(a as int, k as int)),
        decreases k - a,
    {
        assert(p@.subrange(a as int, k as int).drop_first() =~= p@.subrange(a + 1, k as int));
        a = a + 1;
    }
    p.substring_char(a, k).to_owned()
}

/// The lines of a text file, as `file_lines` states them.
pub fn text_file_lines(text: &str) -> (r: Vec<String>)
    ensures
        views(r@) == file_lines(text@),
{
    let pieces = split_pieces(text);
    proof {
        lemma_split_lines_nonempty(text@);
    }
    let ghost ps = split_lines(text@);
    let ghost complete = ps.drop_last().map_values(|l: Seq<char>| strip_cr(l));
    let last = pieces.len() - 1;
    assert forall|t: int| 0 <= t < last implies #[trigger] complete[t] == strip_cr(ps[t]) by {
        assert(ps.drop_last()[t] == ps[t]);
    }
    let mut r: Vec<String> = Vec::new();
    let mut j: usize = 0;
    while j < last
        invariant
            views(pieces@) == ps,
            last == pieces@.len() - 1,
            j <= last,
            complete.len() == last,
            ps.len() == last + 1,
            forall|t: int| 0 <= t < last ==> #[trigger] complete[t] == strip_cr(ps[t]),
            views(r@) =~= complete.subrange(0, j as int),
        decreases last - j,
    {
        let line = without_cr(pieces[j].as_str());
        assert(pieces@[j as int]@ == ps[j as int]);
        let ghost prev = views(r@);
        r.push(line);
        assert(views(r@) =~= prev.push(complete[j as int]));
        assert(complete.subrange(0, j + 1) =~= complete.subrange(0, j as int).push(
            complete[j as int],
        ));
        j = j + 1;
    }
    assert(complete.subrange(0, last as int) =~= complete);
    let tail = pieces[last].as_str();
    assert(tail@ == ps.last());
    if tail.unicode_len() > 0 {
        let ghost prev = views(r@);
        r.push(tail.to_owned());
        assert(views(r@) =~= prev.push(tail@));
    }
    if r.len() > 0 {
        let stripped = without_boms(r[0].as_str());
        let ghost prev = views(r@);
        r.set(0, stripped);
        assert(views(r@) =~= prev.update(0, strip_boms(prev[0])));
    }
    r
}

} // verus!
