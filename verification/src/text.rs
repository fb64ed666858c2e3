//! Verified text utilities over `Seq<char>` views: substring search, prefix
//! tests, trimming, line splitting and joining, and lexicographic order.
//!
//! Every file this tool reads or rewrites (the configuration document, hook
//! scripts, collaborator-instruction files) is manipulated through these
//! functions, so their contracts pin the text transformations down exactly.

use vstd::prelude::*;

verus! {

/// `needle` occurs in `s` starting at index `i`.
pub open spec fn occurs_at(s: Seq<char>, needle: Seq<char>, i: int) -> bool {
    0 <= i && i + needle.len() <= s.len() && s.subrange(i, i + needle.len() as int) == needle
}

/// `needle` occurs somewhere in `s`.
pub open spec fn has_substring(s: Seq<char>, needle: Seq<char>) -> bool {
    exists|i: int| occurs_at(s, needle, i)
}

/// `p` is a prefix of `s`.
pub open spec fn is_prefix(s: Seq<char>, p: Seq<char>) -> bool {
    p.len() <= s.len() && s.subrange(0, p.len() as int) == p
}

/// Exact equality of two string slices, decided character by character.
pub fn str_eq(a: &str, b: &str) -> (r: bool)
    ensures
        r == (a@ == b@),
{
    let alen = a.unicode_len();
    let blen = b.unicode_len();
    if alen != blen {
        assert(a@ != b@) by {
            assert(a@.len() != b@.len());
        }
        return false;
    }
    let mut i: usize = 0;
    while i < alen
        invariant
            alen == a@.len(),
            blen == b@.len(),
            alen == blen,
            0 <= i <= alen,
            forall|k: int| 0 <= k < i ==> a@[k] == b@[k],
        decreases alen - i,
    {
        if a.get_char(i) != b.get_char(i) {
            return false;
        }
        i = i + 1;
    }
    assert(a@ =~= b@);
    true
}

/// `s` starts with `p`.
pub fn text_starts_with(s: &str, p: &str) -> (r: bool)
    ensures
        r == is_prefix(s@, p@),
{
    let slen = s.unicode_len();
    let plen = p.unicode_len();
    if plen > slen {
        return false;
    }
    let mut i: usize = 0;
    while i < plen
        invariant
            slen == s@.len(),
            plen == p@.len(),
            plen <= slen,
            0 <= i <= plen,
            forall|k: int| 0 <= k < i ==> s@[k] == p@[k],
        decreases plen - i,
    {
        if s.get_char(i) != p.get_char(i) {
            assert(!is_prefix(s@, p@)) by {
                assert(s@.subrange(0, p@.len() as int)[i as int] == s@[i as int]);
            }
            return false;
        }
        i = i + 1;
    }
    assert(s@.subrange(0, p@.len() as int) =~= p@);
    true
}

/// `needle` occurs somewhere in `s`.
pub fn text_contains(s: &str, needle: &str) -> (r: bool)
    ensures
        r == has_substring(s@, needle@),
{
    let slen = s.unicode_len();
    let nlen = needle.unicode_len();
    if nlen > slen {
        assert(!has_substring(s@, needle@));
        return false;
    }
    let mut i: usize = 0;
    while i <= slen - nlen
        invariant
            slen == s@.len(),
            nlen == needle@.len(),
            nlen <= slen,
            0 <= i <= slen - nlen + 1,
            forall|k: int| 0 <= k < i ==> !occurs_at(s@, needle@, k),
        decreases slen - nlen - i + 1,
    {
        let mut j: usize = 0;
        let mut all_eq: bool = true;
        while j < nlen
            invariant
                slen == s@.len(),
                nlen == needle@.len(),
                nlen <= slen,
                0 <= i <= slen - nlen,
                0 <= j <= nlen,
                all_eq == (forall|m: int| 0 <= m < j ==> s@[i + m] == needle@[m]),
            decreases nlen - j,
        {
            let sc = s.get_char(i + j);
            let nc = needle.get_char(j);
            if sc != nc {
                all_eq = false;
                j = nlen;
            } else {
                j = j + 1;
            }
        }
        if all_eq {
            assert(occurs_at(s@, needle@, i as int)) by {
                assert(s@.subrange(i as int, i + needle@.len() as int) =~= needle@);
            }
            return true;
        }
        assert(!occurs_at(s@, needle@, i as int)) by {
            let m = choose|m: int| 0 <= m < nlen && s@[i + m] != needle@[m];
            assert(s@.subrange(i as int, i + needle@.len() as int)[m] == s@[i + m]);
        }
        i = i + 1;
    }
    assert(forall|k: int| !occurs_at(s@, needle@, k)) by {
        assert(forall|k: int| k > slen - nlen ==> !occurs_at(s@, needle@, k));
    }
    false
}

/// `c` occurs as a character of `s`.
pub fn text_has_char(s: &str, c: char) -> (r: bool)
    ensures
        r == s@.contains(c),
{
    let slen = s.unicode_len();
    let mut i: usize = 0;
    while i < slen
        invariant
            slen == s@.len(),
            0 <= i <= slen,
            forall|k: int| 0 <= k < i ==> s@[k] != c,
        decreases slen - i,
    {
        if s.get_char(i) == c {
            return true;
        }
        i = i + 1;
    }
    false
}

/// The whitespace characters this tool trims: blank, tab, carriage return.
pub open spec fn is_space(c: char) -> bool {
    c == ' ' || c == '\t' || c == '\r'
}

/// `s` with its leading whitespace removed.
pub open spec fn trimmed_start(s: Seq<char>) -> Seq<char>
    decreases s.len(),
{
    if s.len() == 0 {
        s
    } else if is_space(s[0]) {
        trimmed_start(s.subrange(1, s.len() as int))
    } else {
        s
    }
}

/// `s` with its trailing whitespace removed.
pub open spec fn trimmed_end(s: Seq<char>) -> Seq<char>
    decreases s.len(),
{
    if s.len() == 0 {
        s
    } else if is_space(s[s.len() - 1]) {
        trimmed_end(s.subrange(0, s.len() - 1))
    } else {
        s
    }
}

/// `s` with whitespace removed at both ends.
pub open spec fn trim_spec(s: Seq<char>) -> Seq<char> {
    trimmed_end(trimmed_start(s))
}

/// The slice of `s` with whitespace removed at both ends.
pub fn trim_slice(s: &str) -> (r: &str)
    ensures
        r@ == trim_spec(s@),
{
    let len = s.unicode_len();
    proof {
        assert(s@.subrange(0, len as int) =~= s@);
    }
    let mut i: usize = 0;
    while i < len
        invariant
            len == s@.len(),
            0 <= i <= len,
            trimmed_start(s@) == trimmed_start(s@.subrange(i as int, len as int)),
        ensures
            0 <= i <= len,
            trimmed_start(s@) == s@.subrange(i as int, len as int),
        decreases len - i,
    {
        let c = s.get_char(i);
        if !(c == ' ' || c == '\t' || c == '\r') {
            proof {
                let sub = s@.subrange(i as int, len as int);
                assert(!is_space(sub[0]));
            }
            break;
        }
        proof {
            let sub = s@.subrange(i as int, len as int);
            assert(sub.subrange(1, sub.len() as int) =~= s@.subrange(i + 1, len as int));
        }
        i = i + 1;
    }
    let mut j: usize = len;
    while j > i
        invariant
            len == s@.len(),
            0 <= i <= j <= len,
            trimmed_start(s@) == s@.subrange(i as int, len as int),
            trimmed_end(s@.subrange(i as int, len as int)) == trimmed_end(
                s@.subrange(i as int, j as int),
            ),
        ensures
            0 <= i <= j <= len,
            trimmed_start(s@) == s@.subrange(i as int, len as int),
            trim_spec(s@) == s@.subrange(i as int, j as int),
        decreases j,
    {
        let c = s.get_char(j - 1);
        if !(c == ' ' || c == '\t' || c == '\r') {
            proof {
                let sub = s@.subrange(i as int, j as int);
                assert(!is_space(sub[sub.len() - 1]));
            }
            break;
        }
        proof {
            let sub = s@.subrange(i as int, j as int);
            assert(is_space(sub[sub.len() - 1]));
            assert(sub.subrange(0, sub.len() - 1) =~= s@.subrange(i as int, j - 1));
        }
        j = j - 1;
    }
    s.substring_char(i, j)
}

/// The slice of `s` with whitespace removed at the end only.
pub fn trim_end_slice(s: &str) -> (r: &str)
    ensures
        r@ == trimmed_end(s@),
{
    let len = s.unicode_len();
    proof {
        assert(s@.subrange(0, len as int) =~= s@);
    }
    let mut j: usize = len;
    while j > 0
        invariant
            len == s@.len(),
            0 <= j <= len,
            trimmed_end(s@) == trimmed_end(s@.subrange(0, j as int)),
        ensures
            0 <= j <= len,
            trimmed_end(s@) == s@.subrange(0, j as int),
        decreases j,
    {
        let c = s.get_char(j - 1);
        if !(c == ' ' || c == '\t' || c == '\r') {
            proof {
                let sub = s@.subrange(0, j as int);
                assert(!is_space(sub[sub.len() - 1]));
            }
            break;
        }
        proof {
            let sub = s@.subrange(0, j as int);
            assert(is_space(sub[sub.len() - 1]));
            assert(sub.subrange(0, sub.len() - 1) =~= s@.subrange(0, j - 1));
        }
        j = j - 1;
    }
    s.substring_char(0, j)
}

/// Index of the first occurrence of `c` in `s`, or -1 when absent.
pub open spec fn find_char(s: Seq<char>, c: char) -> int
    decreases s.len(),
{
    if s.len() == 0 {
        -1
    } else if s[0] == c {
        0
    } else {
        let r = find_char(s.subrange(1, s.len() as int), c);
        if r < 0 {
            -1
        } else {
            r + 1
        }
    }
}

/// `find_char` returns the first occurrence: a position of `c` before which
/// `c` does not occur.
pub proof fn lemma_find_char(s: Seq<char>, c: char)
    ensures
        find_char(s, c) < 0 ==> forall|k: int| 0 <= k < s.len() ==> s[k] != c,
        find_char(s, c) >= 0 ==> 0 <= find_char(s, c) < s.len() && s[find_char(s, c)] == c
            && forall|k: int| 0 <= k < find_char(s, c) ==> s[k] != c,
    decreases s.len(),
{
    if s.len() > 0 && s[0] != c {
        let rest = s.subrange(1, s.len() as int);
        lemma_find_char(rest, c);
        let r = find_char(rest, c);
        if r < 0 {
            assert forall|k: int| 0 <= k < s.len() implies s[k] != c by {
                if k > 0 {
                    assert(rest[k - 1] == s[k]);
                }
            }
        } else {
            assert(s[r + 1] == rest[r]);
            assert forall|k: int| 0 <= k < r + 1 implies s[k] != c by {
                if k > 0 {
                    assert(rest[k - 1] == s[k]);
                }
            }
        }
    }
}

/// The segments of `s` between occurrences of `c`; always one segment more
/// than there are occurrences of `c`.
pub open spec fn split_full(s: Seq<char>, c: char) -> Seq<Seq<char>>
    decreases s.len(),
{
    let f = find_char(s, c);
    if !(0 <= f < s.len()) {
        seq![s]
    } else {
        seq![s.subrange(0, f)] + split_full(s.subrange(f + 1, s.len() as int), c)
    }
}

/// `split_full` never returns an empty sequence of segments.
pub proof fn lemma_split_full_nonempty(s: Seq<char>, c: char)
    ensures
        split_full(s, c).len() >= 1,
    decreases s.len(),
{
    let f = find_char(s, c);
    if 0 <= f < s.len() {
        lemma_split_full_nonempty(s.subrange(f + 1, s.len() as int), c);
    }
}

/// No segment of `split_full` has an occurrence of `c`.
pub proof fn lemma_split_full_no_sep(s: Seq<char>, c: char)
    ensures
        forall|i: int|
            0 <= i < split_full(s, c).len() ==> !#[trigger] split_full(s, c)[i].contains(c),
    decreases s.len(),
{
    let f = find_char(s, c);
    lemma_find_char(s, c);
    let parts = split_full(s, c);
    if !(0 <= f < s.len()) {
        assert(forall|k: int| 0 <= k < s.len() ==> s[k] != c);
        assert(!s.contains(c));
        assert forall|i: int| 0 <= i < parts.len() implies !#[trigger] parts[i].contains(c) by {
            assert(parts[i] == s);
        }
    } else {
        let head = s.subrange(0, f);
        let tail = s.subrange(f + 1, s.len() as int);
        assert(forall|k: int| 0 <= k < head.len() ==> head[k] != c);
        assert(!head.contains(c));
        lemma_split_full_no_sep(tail, c);
        assert forall|i: int| 0 <= i < parts.len() implies !#[trigger] parts[i].contains(c) by {
            if i == 0 {
                assert(parts[0] == head);
            } else {
                assert(parts[i] == split_full(tail, c)[i - 1]);
            }
        }
    }
}

/// `find_char` finds the position of the first occurrence.
pub proof fn lemma_find_char_at(s: Seq<char>, c: char, i: int)
    requires
        0 <= i < s.len(),
        s[i] == c,
        forall|k: int| 0 <= k < i ==> s[k] != c,
    ensures
        find_char(s, c) == i,
{
    lemma_find_char(s, c);
    let f = find_char(s, c);
    if f < 0 {
        assert(s[i] != c);
    } else if f < i {
        assert(s[f] != c);
    } else if f > i {
        assert(s[i] != c);
    }
}

/// Splits `s` at every occurrence of `c`; the segments between occurrences,
/// in order, including empty ones.
pub fn split_on(s: &str, c: char) -> (parts: Vec<String>)
    ensures
        parts.deep_view() == split_full(s@, c),
{
    let len = s.unicode_len();
    let mut parts: Vec<String> = Vec::new();
    let mut seg_start: usize = 0;
    let mut i: usize = 0;
    proof {
        assert(s@.subrange(0, len as int) =~= s@);
        assert(parts.deep_view() =~= Seq::<Seq<char>>::empty());
    }
    while i < len
        invariant
            len == s@.len(),
            0 <= seg_start <= i <= len,
            forall|k: int| seg_start <= k < i ==> s@[k] != c,
            split_full(s@, c) == parts.deep_view() + split_full(
                s@.subrange(seg_start as int, len as int),
                c,
            ),
        decreases len - i,
    {
        if s.get_char(i) == c {
            let seg = s.substring_char(seg_start, i).to_owned();
            proof {
                let rest = s@.subrange(seg_start as int, len as int);
                assert(rest[i - seg_start] == c);
                assert(forall|k: int|
                    0 <= k < i - seg_start ==> rest[k] == s@[seg_start + k] && rest[k] != c);
                lemma_find_char_at(rest, c, i - seg_start);
                assert(rest.subrange(0, i - seg_start) =~= s@.subrange(
                    seg_start as int,
                    i as int,
                ));
                assert(rest.subrange(i - seg_start + 1, rest.len() as int) =~= s@.subrange(
                    i + 1,
                    len as int,
                ));
            }
            let ghost dv_before = parts.deep_view();
            let ghost segview = seg@;
            parts.push(seg);
            proof {
                assert(parts.deep_view() =~= dv_before.push(segview));
                let tail = s@.subrange(i + 1, len as int);
                assert(dv_before.push(segview) + split_full(tail, c) =~= dv_before + (seq![
                    segview,
                ] + split_full(tail, c)));
            }
            seg_start = i + 1;
        }
        i = i + 1;
    }
    let seg = s.substring_char(seg_start, len).to_owned();
    proof {
        let rest = s@.subrange(seg_start as int, len as int);
        lemma_find_char(rest, c);
        if find_char(rest, c) >= 0 {
            assert(s@[seg_start + find_char(rest, c)] == c);
        }
        assert(split_full(rest, c) =~= seq![rest]);
    }
    let ghost dv_before = parts.deep_view();
    let ghost segview = seg@;
    parts.push(seg);
    proof {
        assert(parts.deep_view() =~= dv_before.push(segview));
        assert(dv_before.push(segview) =~= dv_before + seq![segview]);
    }
    parts
}

/// The lines of a text: segments split at `'\n'`, where a final newline ends
/// the last line rather than opening an empty one.
pub open spec fn lines_of(s: Seq<char>) -> Seq<Seq<char>> {
    if s.len() == 0 {
        Seq::empty()
    } else if s[s.len() - 1] == '\n' {
        split_full(s.subrange(0, s.len() - 1), '\n')
    } else {
        split_full(s, '\n')
    }
}

/// Splits a text into its lines.
pub fn split_lines(s: &str) -> (lines: Vec<String>)
    ensures
        lines.deep_view() == lines_of(s@),
{
    let len = s.unicode_len();
    if len == 0 {
        let parts: Vec<String> = Vec::new();
        proof {
            assert(parts.deep_view() =~= Seq::<Seq<char>>::empty());
        }
        return parts;
    }
    if s.get_char(len - 1) == '\n' {
        let body = s.substring_char(0, len - 1);
        split_on(body, '\n')
    } else {
        proof {
            assert(s@.subrange(0, len as int) =~= s@);
        }
        let body = s.substring_char(0, len);
        split_on(body, '\n')
    }
}

/// The segments joined with `'\n'` between each pair.
pub open spec fn join_nl(parts: Seq<Seq<char>>) -> Seq<char>
    decreases parts.len(),
{
    if parts.len() == 0 {
        Seq::empty()
    } else if parts.len() == 1 {
        parts[0]
    } else {
        parts[0] + seq!['\n'] + join_nl(parts.subrange(1, parts.len() as int))
    }
}

/// Joining after appending one more segment appends a newline and the segment.
pub proof fn lemma_join_nl_push(p: Seq<Seq<char>>, x: Seq<char>)
    ensures
        p.len() == 0 ==> join_nl(p.push(x)) == x,
        p.len() > 0 ==> join_nl(p.push(x)) == join_nl(p) + seq!['\n'] + x,
    decreases p.len(),
{
    let q = p.push(x);
    if p.len() == 0 {
        assert(q.len() == 1);
        assert(q[0] == x);
    } else {
        let ptail = p.subrange(1, p.len() as int);
        lemma_join_nl_push(ptail, x);
        assert(q.subrange(1, q.len() as int) =~= ptail.push(x));
        assert(q[0] == p[0]);
        if p.len() == 1 {
            assert(ptail.len() == 0);
            assert(join_nl(q) == q[0] + seq!['\n'] + join_nl(ptail.push(x)));
        } else {
            assert(join_nl(q) == q[0] + seq!['\n'] + join_nl(ptail.push(x)));
            assert(p[0] + seq!['\n'] + (join_nl(ptail) + seq!['\n'] + x) =~= (p[0] + seq!['\n']
                + join_nl(ptail)) + seq!['\n'] + x);
        }
    }
}

/// Joins lines with `'\n'` between each pair.
pub fn join_lines(parts: &Vec<String>) -> (r: String)
    ensures
        r@ == join_nl(parts.deep_view()),
{
    let n = parts.len();
    let mut r = String::new();
    if n == 0 {
        return r;
    }
    proof {
        reveal_strlit("\n");
        assert("\n"@ =~= seq!['\n']);
    }
    r.append(parts[0].as_str());
    proof {
        assert(parts.deep_view().subrange(0, 1) =~= seq![parts.deep_view()[0]]);
        assert(join_nl(parts.deep_view().subrange(0, 1)) == parts.deep_view()[0]);
    }
    let mut i: usize = 1;
    while i < n
        invariant
            n == parts.len(),
            1 <= i <= n,
            "\n"@ == seq!['\n'],
            r@ == join_nl(parts.deep_view().subrange(0, i as int)),
        decreases n - i,
    {
        r.append("\n");
        r.append(parts[i].as_str());
        proof {
            let dv = parts.deep_view();
            let pre = dv.subrange(0, i as int);
            lemma_join_nl_push(pre, dv[i as int]);
            assert(dv.subrange(0, i + 1) =~= pre.push(dv[i as int]));
        }
        i = i + 1;
    }
    proof {
        assert(parts.deep_view().subrange(0, n as int) =~= parts.deep_view());
    }
    r
}

/// A substring of a part of `s` is a substring of `s`.
pub proof fn lemma_has_substring_subrange(s: Seq<char>, a: int, b: int, m: Seq<char>)
    requires
        0 <= a <= b <= s.len(),
        has_substring(s.subrange(a, b), m),
    ensures
        has_substring(s, m),
{
    let sub = s.subrange(a, b);
    let i = choose|i: int| occurs_at(sub, m, i);
    assert(sub.subrange(i, i + m.len() as int) =~= s.subrange(a + i, a + i + m.len() as int));
    assert(occurs_at(s, m, a + i));
}

/// Splitting a joined text at `'\n'` gives the joined segments back, as long
/// as no segment holds a newline of its own.
pub proof fn lemma_split_join(parts: Seq<Seq<char>>)
    requires
        parts.len() >= 1,
        forall|i: int| 0 <= i < parts.len() ==> !#[trigger] parts[i].contains('\n'),
    ensures
        split_full(join_nl(parts), '\n') == parts,
    decreases parts.len(),
{
    let j = join_nl(parts);
    let p0 = parts[0];
    if parts.len() == 1 {
        lemma_find_char(j, '\n');
        if find_char(j, '\n') >= 0 {
            assert(j.contains('\n'));
        }
        assert(split_full(j, '\n') =~= seq![j]);
        assert(seq![j] =~= parts);
    } else {
        let rest = parts.subrange(1, parts.len() as int);
        let jr = join_nl(rest);
        assert(j == p0 + seq!['\n'] + jr);
        assert(j[p0.len() as int] == '\n');
        assert forall|k: int| 0 <= k < p0.len() implies j[k] != '\n' by {
            assert(j[k] == p0[k]);
            if j[k] == '\n' {
                assert(p0.contains('\n'));
            }
        }
        lemma_find_char_at(j, '\n', p0.len() as int);
        assert(j.subrange(0, p0.len() as int) =~= p0);
        assert(j.subrange(p0.len() as int + 1, j.len() as int) =~= jr);
        assert(forall|i: int| 0 <= i < rest.len() ==> rest[i] == parts[i + 1]);
        lemma_split_join(rest);
        assert(split_full(j, '\n') =~= seq![p0] + split_full(jr, '\n'));
        assert(seq![p0] + rest =~= parts);
    }
}

/// The lines of a newline-terminated join are the joined segments.
pub proof fn lemma_lines_of_terminated_join(parts: Seq<Seq<char>>)
    requires
        parts.len() >= 1,
        forall|i: int| 0 <= i < parts.len() ==> !#[trigger] parts[i].contains('\n'),
    ensures
        lines_of(join_nl(parts) + seq!['\n']) == parts,
{
    let j = join_nl(parts);
    let t = j + seq!['\n'];
    assert(t[t.len() - 1] == '\n');
    assert(t.subrange(0, t.len() - 1) =~= j);
    lemma_split_join(parts);
}

/// Removing leading whitespace leaves a suffix of `s`.
pub proof fn lemma_trimmed_start_subrange(s: Seq<char>)
    ensures
        exists|i: int|
            0 <= i <= s.len() && trimmed_start(s) == #[trigger] s.subrange(i, s.len() as int),
    decreases s.len(),
{
    if s.len() == 0 {
        assert(trimmed_start(s) == s.subrange(0, s.len() as int)) by {
            assert(s.subrange(0, s.len() as int) =~= s);
        }
    } else if is_space(s[0]) {
        let t = s.subrange(1, s.len() as int);
        lemma_trimmed_start_subrange(t);
        let i = choose|i: int|
            0 <= i <= t.len() && trimmed_start(t) == #[trigger] t.subrange(i, t.len() as int);
        assert(t.subrange(i, t.len() as int) =~= s.subrange(i + 1, s.len() as int));
    } else {
        assert(trimmed_start(s) == s.subrange(0, s.len() as int)) by {
            assert(s.subrange(0, s.len() as int) =~= s);
        }
    }
}

/// Removing trailing whitespace leaves a prefix of `s`.
pub proof fn lemma_trimmed_end_subrange(s: Seq<char>)
    ensures
        exists|j: int| 0 <= j <= s.len() && trimmed_end(s) == #[trigger] s.subrange(0, j),
    decreases s.len(),
{
    if s.len() == 0 {
        assert(trimmed_end(s) == s.subrange(0, 0)) by {
            assert(s.subrange(0, 0) =~= s);
        }
    } else if is_space(s[s.len() - 1]) {
        let t = s.subrange(0, s.len() - 1);
        lemma_trimmed_end_subrange(t);
        let j = choose|j: int| 0 <= j <= t.len() && trimmed_end(t) == #[trigger] t.subrange(0, j);
        assert(t.subrange(0, j) =~= s.subrange(0, j));
    } else {
        assert(trimmed_end(s) == s.subrange(0, s.len() as int)) by {
            assert(s.subrange(0, s.len() as int) =~= s);
        }
    }
}

/// A prefix of the trimmed line occurs in the line itself.
pub proof fn lemma_trim_prefix_occurs(l: Seq<char>, p: Seq<char>)
    requires
        is_prefix(trim_spec(l), p),
    ensures
        has_substring(l, p),
{
    lemma_trimmed_start_subrange(l);
    let i = choose|i: int|
        0 <= i <= l.len() && trimmed_start(l) == #[trigger] l.subrange(i, l.len() as int);
    let ts = trimmed_start(l);
    lemma_trimmed_end_subrange(ts);
    let j = choose|j: int| 0 <= j <= ts.len() && trimmed_end(ts) == #[trigger] ts.subrange(0, j);
    assert(trim_spec(l) == ts.subrange(0, j));
    assert(ts.subrange(0, j) =~= l.subrange(i, i + j));
    assert(trim_spec(l).subrange(0, p.len() as int) =~= l.subrange(i, i + p.len()));
    assert(occurs_at(l, p, i));
}

/// Whatever occurs in one of the joined segments occurs in the join.
pub proof fn lemma_join_part_substring(parts: Seq<Seq<char>>, i: int, m: Seq<char>)
    requires
        0 <= i < parts.len(),
        has_substring(parts[i], m),
    ensures
        has_substring(join_nl(parts), m),
    decreases parts.len(),
{
    let j = join_nl(parts);
    if parts.len() == 1 {
        assert(j == parts[0]);
    } else {
        let p0 = parts[0];
        let rest = parts.subrange(1, parts.len() as int);
        let jr = join_nl(rest);
        assert(j == p0 + seq!['\n'] + jr);
        if i == 0 {
            assert(j.subrange(0, p0.len() as int) =~= p0);
            lemma_has_substring_subrange(j, 0, p0.len() as int, m);
        } else {
            lemma_join_part_substring(rest, i - 1, m);
            assert(j.subrange(p0.len() as int + 1, j.len() as int) =~= jr);
            lemma_has_substring_subrange(j, p0.len() as int + 1, j.len() as int, m);
        }
    }
}

/// A nonempty text has at least one line.
pub proof fn lemma_lines_nonempty(s: Seq<char>)
    requires
        s.len() > 0,
    ensures
        lines_of(s).len() >= 1,
{
    if s[s.len() - 1] == '\n' {
        lemma_split_full_nonempty(s.subrange(0, s.len() - 1), '\n');
    } else {
        lemma_split_full_nonempty(s, '\n');
    }
}

/// No line of a text has a newline of its own.
pub proof fn lemma_lines_no_nl(s: Seq<char>)
    ensures
        forall|i: int| 0 <= i < lines_of(s).len() ==> !#[trigger] lines_of(s)[i].contains('\n'),
{
    if s.len() > 0 {
        if s[s.len() - 1] == '\n' {
            lemma_split_full_no_sep(s.subrange(0, s.len() - 1), '\n');
        } else {
            lemma_split_full_no_sep(s, '\n');
        }
    }
}

/// Lexicographic order on character sequences, by code point.
pub open spec fn lex_le(a: Seq<char>, b: Seq<char>) -> bool
    decreases a.len(),
{
    if a.len() == 0 {
        true
    } else if b.len() == 0 {
        false
    } else if a[0] == b[0] {
        lex_le(a.subrange(1, a.len() as int), b.subrange(1, b.len() as int))
    } else {
        (a[0] as u32) < (b[0] as u32)
    }
}

/// Any two character sequences are ordered one way or the other.
pub proof fn lemma_lex_le_total(a: Seq<char>, b: Seq<char>)
    ensures
        lex_le(a, b) || lex_le(b, a),
    decreases a.len(),
{
    if a.len() > 0 && b.len() > 0 {
        if a[0] == b[0] {
            lemma_lex_le_total(a.subrange(1, a.len() as int), b.subrange(1, b.len() as int));
        } else {
            vstd::utf8::char_u32_cast(a[0], a[0] as u32);
            vstd::utf8::char_u32_cast(b[0], b[0] as u32);
            assert((a[0] as u32) != (b[0] as u32));
        }
    }
}

/// Lexicographic order is transitive.
pub proof fn lemma_lex_le_trans(a: Seq<char>, b: Seq<char>, c: Seq<char>)
    requires
        lex_le(a, b),
        lex_le(b, c),
    ensures
        lex_le(a, c),
    decreases a.len(),
{
    if a.len() == 0 {
    } else {
        assert(b.len() > 0);
        assert(c.len() > 0);
        if a[0] == b[0] && b[0] == c[0] {
            lemma_lex_le_trans(
                a.subrange(1, a.len() as int),
                b.subrange(1, b.len() as int),
                c.subrange(1, c.len() as int),
            );
        }
    }
}

/// Mutually ordered character sequences are equal.
pub proof fn lemma_lex_le_antisym(a: Seq<char>, b: Seq<char>)
    requires
        lex_le(a, b),
        lex_le(b, a),
    ensures
        a == b,
    decreases a.len(),
{
    if a.len() == 0 {
        assert(b.len() == 0);
        assert(a =~= b);
    } else {
        assert(b.len() > 0);
        assert(a[0] == b[0]);
        let at = a.subrange(1, a.len() as int);
        let bt = b.subrange(1, b.len() as int);
        lemma_lex_le_antisym(at, bt);
        assert(a =~= b) by {
            assert(forall|k: int| 1 <= k < a.len() ==> a[k] == at[k - 1]);
            assert(forall|k: int| 1 <= k < b.len() ==> b[k] == bt[k - 1]);
        }
    }
}

/// Decides the lexicographic order of two string slices.
pub fn str_lex_le(a: &str, b: &str) -> (r: bool)
    ensures
        r == lex_le(a@, b@),
{
    let alen = a.unicode_len();
    let blen = b.unicode_len();
    proof {
        assert(a@.subrange(0, alen as int) =~= a@);
        assert(b@.subrange(0, blen as int) =~= b@);
    }
    let mut i: usize = 0;
    while i < alen && i < blen
        invariant
            alen == a@.len(),
            blen == b@.len(),
            0 <= i <= alen,
            0 <= i <= blen,
            lex_le(a@, b@) == lex_le(
                a@.subrange(i as int, alen as int),
                b@.subrange(i as int, blen as int),
            ),
        ensures
            0 <= i <= alen,
            0 <= i <= blen,
            i == alen || i == blen,
            lex_le(a@, b@) == lex_le(
                a@.subrange(i as int, alen as int),
                b@.subrange(i as int, blen as int),
            ),
        decreases alen - i,
    {
        let ca = a.get_char(i);
        let cb = b.get_char(i);
        proof {
            let sa = a@.subrange(i as int, alen as int);
            let sb = b@.subrange(i as int, blen as int);
            assert(sa[0] == ca && sb[0] == cb);
            assert(sa.subrange(1, sa.len() as int) =~= a@.subrange(i + 1, alen as int));
            assert(sb.subrange(1, sb.len() as int) =~= b@.subrange(i + 1, blen as int));
        }
        if ca != cb {
            return (ca as u32) < (cb as u32);
        }
        i = i + 1;
    }
    if i == alen {
        assert(a@.subrange(i as int, alen as int).len() == 0);
        true
    } else {
        assert(b@.subrange(i as int, blen as int).len() == 0);
        assert(a@.subrange(i as int, alen as int).len() > 0);
        false
    }
}

} // verus!
