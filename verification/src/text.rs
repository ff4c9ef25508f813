//! Verified text primitives the pipeline is built from: whitespace
//! trimming, prefix testing, joining line ranges, and splitting a raw
//! document into lines.

use vstd::prelude::*;

verus! {

/// The whitespace characters recognized when trimming a field.
pub open spec fn is_space_char(c: char) -> bool {
    c == ' ' || c == '\t' || c == '\r' || c == '\n'
}

/// Whether `c` counts as trimmable whitespace.
pub fn is_space(c: char) -> (b: bool)
    ensures
        b == is_space_char(c),
{
    c == ' ' || c == '\t' || c == '\r' || c == '\n'
}

/// `s` without its leading whitespace.
pub open spec fn trim_front(s: Seq<char>) -> Seq<char>
    decreases s.len(),
{
    if s.len() > 0 && is_space_char(s[0]) {
        trim_front(s.drop_first())
    } else {
        s
    }
}

/// `s` without its trailing whitespace.
pub open spec fn trim_back(s: Seq<char>) -> Seq<char>
    decreases s.len(),
{
    if s.len() > 0 && is_space_char(s[s.len() - 1]) {
        trim_back(s.drop_last())
    } else {
        s
    }
}

/// `s` without leading and trailing whitespace.
pub open spec fn trimmed(s: Seq<char>) -> Seq<char> {
    trim_back(trim_front(s))
}

proof fn lemma_trim_front_step(s: Seq<char>, i: int)
    requires
        0 <= i < s.len(),
        is_space_char(s[i]),
    ensures
        trim_front(s.subrange(i, s.len() as int)) == trim_front(s.subrange(i + 1, s.len() as int)),
{
    let suf = s.subrange(i, s.len() as int);
    assert(suf.len() > 0 && is_space_char(suf[0]));
    assert(suf.drop_first() =~= s.subrange(i + 1, s.len() as int));
}

proof fn lemma_trim_back_step(s: Seq<char>, from: int, end: int)
    requires
        0 <= from < end <= s.len(),
        is_space_char(s[end - 1]),
    ensures
        trim_back(s.subrange(from, end)) == trim_back(s.subrange(from, end - 1)),
{
    let part = s.subrange(from, end);
    assert(part.len() > 0 && is_space_char(part[part.len() - 1]));
    assert(part.drop_last() =~= s.subrange(from, end - 1));
}

/// Copy of `s` with leading and trailing whitespace removed.
pub fn trim(s: &str) -> (r: String)
    ensures
        r@ == trimmed(s@),
{
    let len = s.unicode_len();
    let mut start: usize = 0;
    proof {
        assert(s@.subrange(0, s@.len() as int) =~= s@);
    }
    while start < len && is_space(s.get_char(start))
        invariant
            len == s@.len(),
            0 <= start <= len,
            trim_front(s@) == trim_front(s@.subrange(start as int, len as int)),
        decreases len - start,
    {
        proof {
            lemma_trim_front_step(s@, start as int);
        }
        start += 1;
    }
    proof {
        assert(trim_front(s@.subrange(start as int, len as int)) == s@.subrange(
            start as int,
            len as int,
        ));
    }
    let mut end: usize = len;
    while end > start && is_space(s.get_char(end - 1))
        invariant
            len == s@.len(),
            0 <= start <= end <= len,
            trim_front(s@) == s@.subrange(start as int, len as int),
            trim_back(s@.subrange(start as int, len as int)) == trim_back(
                s@.subrange(start as int, end as int),
            ),
        decreases end,
    {
        proof {
            lemma_trim_back_step(s@, start as int, end as int);
        }
        end -= 1;
    }
    proof {
        assert(trim_back(s@.subrange(start as int, end as int)) == s@.subrange(
            start as int,
            end as int,
        ));
    }
    let out = s.substring_char(start, end);
    out.to_owned()
}

/// Whether `p` is a prefix of `s`: the "starts with" boundary test the
/// locator and segmenter both use.
pub open spec fn is_prefix(p: Seq<char>, s: Seq<char>) -> bool {
    p.len() <= s.len() && p == s.subrange(0, p.len() as int)
}

/// Whether the line `s` starts with the label `p`.
pub fn has_prefix(s: &str, p: &str) -> (b: bool)
    ensures
        b == is_prefix(p@, s@),
{
    let plen = p.unicode_len();
    let slen = s.unicode_len();
    if plen > slen {
        return false;
    }
    let mut i: usize = 0;
    while i < plen
        invariant
            plen == p@.len(),
            slen == s@.len(),
            plen <= slen,
            0 <= i <= plen,
            forall|j: int| 0 <= j < i ==> p@[j] == s@[j],
        decreases plen - i,
    {
        if p.get_char(i) != s.get_char(i) {
            proof {
                assert(s@.subrange(0, p@.len() as int)[i as int] == s@[i as int]);
            }
            return false;
        }
        i += 1;
    }
    proof {
        assert(p@ =~= s@.subrange(0, p@.len() as int));
    }
    true
}

/// The index of the first occurrence of `c` in `s`, or `s.len()` when `c`
/// does not occur.
pub open spec fn first_occurrence(s: Seq<char>, c: char) -> int
    decreases s.len(),
{
    if s.len() == 0 {
        0
    } else if s[0] == c {
        0
    } else {
        1 + first_occurrence(s.drop_first(), c)
    }
}

/// `first_occurrence` is exactly the scan that stops at the first hit.
pub proof fn lemma_first_occurrence_at(s: Seq<char>, c: char, i: int)
    requires
        0 <= i <= s.len(),
        forall|k: int| 0 <= k < i ==> s[k] != c,
        i < s.len() ==> s[i] == c,
    ensures
        first_occurrence(s, c) == i,
    decreases i,
{
    if i == 0 {
    } else {
        assert(s[0] != c);
        let t = s.drop_first();
        assert(forall|k: int| 0 <= k < i - 1 ==> t[k] == s[k + 1] && t[k] != c);
        assert(i - 1 < t.len() ==> t[i - 1] == s[i]);
        lemma_first_occurrence_at(t, c, i - 1);
    }
}

/// A line ending stripped of one carriage return, as line splitting does.
pub open spec fn strip_cr(l: Seq<char>) -> Seq<char> {
    if l.len() > 0 && l[l.len() - 1] == '\r' {
        l.drop_last()
    } else {
        l
    }
}

/// The lines of `s`: split at every newline, a carriage return directly
/// before a newline dropped, and no empty final line for text that ends
/// with a newline.
pub open spec fn lines_of(s: Seq<char>) -> Seq<Seq<char>>
    decreases s.len(),
{
    if s.len() == 0 {
        Seq::empty()
    } else {
        let i = first_occurrence(s, '\n');
        if i < 0 || i >= s.len() {
            seq![s]
        } else {
            seq![strip_cr(s.subrange(0, i))] + lines_of(s.subrange(i + 1, s.len() as int))
        }
    }
}

/// Split a raw document into its lines.
pub fn split_lines(text: &str) -> (r: Vec<String>)
    ensures
        r.deep_view() == lines_of(text@),
{
    let len = text.unicode_len();
    let mut out: Vec<String> = Vec::new();
    let mut p: usize = 0;
    proof {
        assert(out.deep_view() =~= Seq::<Seq<char>>::empty());
        assert(text@.subrange(0, len as int) =~= text@);
        assert(lines_of(text@) =~~= out.deep_view() + lines_of(
            text@.subrange(p as int, len as int),
        ));
    }
    while p < len
        invariant
            len == text@.len(),
            0 <= p <= len,
            lines_of(text@) == out.deep_view() + lines_of(text@.subrange(p as int, len as int)),
        decreases len - p,
    {
        let ghost suffix = text@.subrange(p as int, len as int);
        let mut j: usize = p;
        while j < len && text.get_char(j) != '\n'
            invariant
                len == text@.len(),
                p <= j <= len,
                forall|k: int| p <= k < j ==> text@[k] != '\n',
            decreases len - j,
        {
            j += 1;
        }
        proof {
            assert(forall|k: int| 0 <= k < j - p ==> suffix[k] == text@[k + p] && suffix[k] != '\n');
            assert(j < len ==> suffix[j - p] == '\n');
            lemma_first_occurrence_at(suffix, '\n', j - p);
        }
        let ghost pre = out.deep_view();
        if j == len {
            let piece = text.substring_char(p, len);
            out.push(piece.to_owned());
            proof {
                assert(suffix.len() > 0);
                assert(lines_of(suffix) == seq![suffix]);
                assert(out.deep_view() =~~= pre.push(suffix));
                assert(pre + seq![suffix] =~~= pre.push(suffix));
                assert(text@.subrange(len as int, len as int) =~= Seq::<char>::empty());
                assert(lines_of(Seq::<char>::empty()) == Seq::<Seq<char>>::empty());
                assert(pre.push(suffix) + Seq::<Seq<char>>::empty() =~~= pre.push(suffix));
            }
            p = len;
        } else {
            let line_end = if j > p && text.get_char(j - 1) == '\r' {
                j - 1
            } else {
                j
            };
            let piece = text.substring_char(p, line_end);
            out.push(piece.to_owned());
            proof {
                let head = strip_cr(suffix.subrange(0, j - p));
                assert(suffix.subrange(0, j - p) =~= text@.subrange(p as int, j as int));
                assert(head =~= text@.subrange(p as int, line_end as int));
                assert(suffix.subrange(j - p + 1, suffix.len() as int) =~= text@.subrange(
                    j + 1,
                    len as int,
                ));
                assert(lines_of(suffix) == seq![head] + lines_of(text@.subrange(j + 1, len as int)));
                assert(out.deep_view() =~~= pre.push(head));
                assert(pre + (seq![head] + lines_of(text@.subrange(j + 1, len as int)))
                    =~~= pre.push(head) + lines_of(text@.subrange(j + 1, len as int)));
            }
            p = j + 1;
        }
    }
    proof {
        assert(text@.subrange(p as int, len as int) =~= Seq::<char>::empty());
        assert(lines_of(Seq::<char>::empty()) =~~= Seq::<Seq<char>>::empty());
        assert(out.deep_view() + Seq::<Seq<char>>::empty() =~~= out.deep_view());
    }
    out
}

/// Whether `a` and `b` hold the same characters.
pub fn str_eq(a: &str, b: &str) -> (r: bool)
    ensures
        r == (a@ == b@),
{
    let alen = a.unicode_len();
    let blen = b.unicode_len();
    if alen != blen {
        return false;
    }
    let mut i: usize = 0;
    while i < alen
        invariant
            alen == a@.len(),
            alen == b@.len(),
            0 <= i <= alen,
            forall|j: int| 0 <= j < i ==> a@[j] == b@[j],
        decreases alen - i,
    {
        if a.get_char(i) != b.get_char(i) {
            return false;
        }
        i += 1;
    }
    proof {
        assert(a@ =~= b@);
    }
    true
}

/// The parts joined with `sep` between consecutive parts.
pub open spec fn joined(parts: Seq<Seq<char>>, sep: Seq<char>) -> Seq<char>
    decreases parts.len(),
{
    if parts.len() == 0 {
        Seq::empty()
    } else if parts.len() == 1 {
        parts[0]
    } else {
        parts[0] + sep + joined(parts.drop_first(), sep)
    }
}

/// Joining one more part appends a separator and the part (or is the part
/// alone, when nothing was joined yet).
pub proof fn lemma_joined_push(parts: Seq<Seq<char>>, sep: Seq<char>, x: Seq<char>)
    ensures
        parts.len() == 0 ==> joined(parts.push(x), sep) == x,
        parts.len() > 0 ==> joined(parts.push(x), sep) == joined(parts, sep) + sep + x,
    decreases parts.len(),
{
    if parts.len() == 0 {
        assert(parts.push(x)[0] == x);
    } else if parts.len() == 1 {
        assert(parts.push(x).drop_first() =~= seq![x]);
        assert(seq![x].len() == 1 && seq![x][0] == x);
        assert(joined(seq![x], sep) == x);
        assert(parts.push(x)[0] == parts[0]);
        assert(joined(parts.push(x), sep) == parts[0] + sep + x);
    } else {
        assert(parts.push(x).drop_first() =~= parts.drop_first().push(x));
        lemma_joined_push(parts.drop_first(), sep, x);
        assert(parts.push(x)[0] == parts[0]);
        assert((parts[0] + sep + (joined(parts.drop_first(), sep) + sep + x)) =~= (parts[0] + sep
            + joined(parts.drop_first(), sep)) + sep + x);
    }
}

/// The lines `[from, to)` joined with `sep`.
pub fn join_range(lines: &Vec<String>, from: usize, to: usize, sep: &str) -> (r: String)
    requires
        from <= to <= lines@.len(),
    ensures
        r@ == joined(lines.deep_view().subrange(from as int, to as int), sep@),
{
    let mut r = String::new();
    let mut i: usize = from;
    proof {
        assert(lines.deep_view().subrange(from as int, from as int) =~= Seq::<Seq<char>>::empty());
    }
    while i < to
        invariant
            from <= i <= to <= lines@.len(),
            lines.deep_view().len() == lines@.len(),
            r@ == joined(lines.deep_view().subrange(from as int, i as int), sep@),
        decreases to - i,
    {
        if i > from {
            r.append(sep);
        }
        r.append(lines[i].as_str());
        proof {
            let dv = lines.deep_view();
            assert(dv[i as int] == lines@[i as int]@);
            assert(dv.subrange(from as int, i + 1) =~= dv.subrange(from as int, i as int).push(
                dv[i as int],
            ));
            lemma_joined_push(dv.subrange(from as int, i as int), sep@, dv[i as int]);
        }
        i += 1;
    }
    r
}

} // verus!
