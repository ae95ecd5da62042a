//! Verified character-level text utilities shared by the codec and the
//! metrics aggregator: substring search, trimming, line splitting and string
//! building over `Seq<char>` views.

use vstd::prelude::*;

verus! {

/// Relies on `String::push`: appends exactly the given character.
#[verifier::external_body]
pub fn push_char(s: &mut String, c: char)
    ensures
        final(s)@ == old(s)@.push(c),
{
    s.push(c);
}

/// Appends `src` to `out`.
pub fn push_str(out: &mut String, src: &str)
    ensures
        final(out)@ == old(out)@ + src@,
{
    out.append(src);
}

/// The whitespace characters that trimming removes: the White_Space set
/// that `char::is_whitespace` names.
pub open spec fn is_space(c: char) -> bool {
    c == ' ' || c == '\t' || c == '\n' || c == '\r' || c == '\u{0B}' || c == '\u{0C}' || c
        == '\u{85}' || c == '\u{A0}' || c == '\u{1680}' || ('\u{2000}' <= c && c <= '\u{200A}')
        || c == '\u{2028}' || c == '\u{2029}' || c == '\u{202F}' || c == '\u{205F}' || c
        == '\u{3000}'
}

/// Executable test for [`is_space`].
pub fn is_space_char(c: char) -> (r: bool)
    ensures
        r == is_space(c),
{
    c == ' ' || c == '\t' || c == '\n' || c == '\r' || c == '\u{0B}' || c == '\u{0C}' || c
        == '\u{85}' || c == '\u{A0}' || c == '\u{1680}' || ('\u{2000}' <= c && c <= '\u{200A}')
        || c == '\u{2028}' || c == '\u{2029}' || c == '\u{202F}' || c == '\u{205F}' || c
        == '\u{3000}'
}

/// The pattern `pat` occurs in `s` at position `i`.
pub open spec fn match_at(s: Seq<char>, i: int, pat: Seq<char>) -> bool {
    0 <= i && i + pat.len() <= s.len() && s.subrange(i, i + pat.len()) == pat
}

/// The least position `>= from` where `pat` occurs in `s`, if any.
pub open spec fn find_from(s: Seq<char>, from: int, pat: Seq<char>) -> Option<int>
    decreases s.len() - from when 0 <= from && 1 <= pat.len()
{
    if from + pat.len() > s.len() {
        None
    } else if match_at(s, from, pat) {
        Some(from)
    } else {
        find_from(s, from + 1, pat)
    }
}

/// What `find_from` returns is the first match at or after `from`.
pub proof fn lemma_find_from_is_first(s: Seq<char>, from: int, pat: Seq<char>, k: int)
    requires
        0 <= from <= k,
        1 <= pat.len(),
        match_at(s, k, pat),
        forall|j: int| from <= j < k ==> !match_at(s, j, pat),
    ensures
        find_from(s, from, pat) == Some(k),
    decreases k - from,
{
    if from < k {
        lemma_find_from_is_first(s, from + 1, pat, k);
    }
}

/// Where `find_from` says there is no match, there is none.
pub proof fn lemma_find_from_none(s: Seq<char>, from: int, pat: Seq<char>, j: int)
    requires
        0 <= from <= j,
        1 <= pat.len(),
        find_from(s, from, pat) is None,
    ensures
        !match_at(s, j, pat),
    decreases j - from,
{
    if from < j {
        lemma_find_from_none(s, from + 1, pat, j);
    }
}

/// Executable occurrence test for [`match_at`].
pub fn match_at_exec(s: &str, i: usize, pat: &str) -> (r: bool)
    requires
        i + pat@.len() <= s@.len(),
        s@.len() <= usize::MAX,
    ensures
        r == match_at(s@, i as int, pat@),
{
    let m = pat.unicode_len();
    let mut k: usize = 0;
    while k < m
        invariant
            0 <= k <= m,
            m == pat@.len(),
            i + m <= s@.len(),
            s@.len() <= usize::MAX,
            forall|j: int| 0 <= j < k ==> s@[i + j] == pat@[j],
        decreases m - k,
    {
        if s.get_char(i + k) != pat.get_char(k) {
            assert(s@.subrange(i as int, i + m) != pat@) by {
                assert(s@.subrange(i as int, i + m)[k as int] != pat@[k as int]);
            }
            return false;
        }
        k = k + 1;
    }
    assert(s@.subrange(i as int, i + m) =~= pat@);
    true
}

/// Finds the first occurrence of `pat` in `s` at or after `from`.
pub fn find_sub(s: &str, from: usize, pat: &str) -> (r: Option<usize>)
    requires
        from <= s@.len(),
        1 <= pat@.len(),
    ensures
        match r {
            Some(i) => find_from(s@, from as int, pat@) == Some(i as int),
            None => find_from(s@, from as int, pat@) is None,
        },
{
    let n = s.unicode_len();
    let m = pat.unicode_len();
    if m > n || from > n - m {
        return None;
    }
    let mut i: usize = from;
    while i <= n - m
        invariant
            from <= i <= n - m + 1,
            m <= n,
            n == s@.len(),
            m == pat@.len(),
            1 <= m,
            find_from(s@, from as int, pat@) == find_from(s@, i as int, pat@),
        decreases n - i,
    {
        if match_at_exec(s, i, pat) {
            return Some(i);
        }
        i = i + 1;
    }
    None
}

/// `s` with leading whitespace removed.
pub open spec fn trim_start_spec(s: Seq<char>) -> Seq<char>
    decreases s.len(),
{
    if s.len() > 0 && is_space(s[0]) {
        trim_start_spec(s.drop_first())
    } else {
        s
    }
}

/// `s` with trailing whitespace removed.
pub open spec fn trim_end_spec(s: Seq<char>) -> Seq<char>
    decreases s.len(),
{
    if s.len() > 0 && is_space(s.last()) {
        trim_end_spec(s.drop_last())
    } else {
        s
    }
}

/// `s` with leading and trailing whitespace removed.
pub open spec fn trim_spec(s: Seq<char>) -> Seq<char> {
    trim_end_spec(trim_start_spec(s))
}

/// The trimmed-start view is the suffix past the leading whitespace.
pub proof fn lemma_trim_start_idx(s: Seq<char>, k: int)
    requires
        0 <= k <= s.len(),
        forall|j: int| 0 <= j < k ==> is_space(s[j]),
        k == s.len() || !is_space(s[k]),
    ensures
        trim_start_spec(s) == s.subrange(k, s.len() as int),
    decreases k,
{
    if k == 0 {
        assert(trim_start_spec(s) =~= s.subrange(0, s.len() as int));
    } else {
        let t = s.drop_first();
        assert(forall|j: int| 0 <= j < k - 1 ==> is_space(#[trigger] t[j]));
        lemma_trim_start_idx(t, k - 1);
        assert(t.subrange(k - 1, t.len() as int) =~= s.subrange(k, s.len() as int));
    }
}

/// The trimmed-end view is the prefix before the trailing whitespace.
pub proof fn lemma_trim_end_idx(s: Seq<char>, k: int)
    requires
        0 <= k <= s.len(),
        forall|j: int| k <= j < s.len() ==> is_space(s[j]),
        k == 0 || !is_space(s[k - 1]),
    ensures
        trim_end_spec(s) == s.subrange(0, k),
    decreases s.len() - k,
{
    if k == s.len() {
        assert(trim_end_spec(s) =~= s.subrange(0, k));
    } else {
        let t = s.drop_last();
        lemma_trim_end_idx(t, k);
        assert(t.subrange(0, k) =~= s.subrange(0, k));
    }
}

/// Removes leading and trailing whitespace.
pub fn trim(s: &str) -> (r: String)
    ensures
        r@ == trim_spec(s@),
{
    let n = s.unicode_len();
    let mut start: usize = 0;
    while start < n && is_space_char(s.get_char(start))
        invariant
            0 <= start <= n,
            n == s@.len(),
            forall|j: int| 0 <= j < start ==> is_space(s@[j]),
        decreases n - start,
    {
        start = start + 1;
    }
    proof {
        lemma_trim_start_idx(s@, start as int);
    }
    let mut end: usize = n;
    while end > start && is_space_char(s.get_char(end - 1))
        invariant
            start <= end <= n,
            n == s@.len(),
            forall|j: int| end <= j < n ==> is_space(s@[j]),
        decreases end,
    {
        end = end - 1;
    }
    let ghost mid = s@.subrange(start as int, n as int);
    proof {
        assert(forall|j: int| end - start <= j < mid.len() ==> is_space(#[trigger] mid[j]));
        assert(end > start ==> mid[end - start - 1] == s@[end - 1]);
        lemma_trim_end_idx(mid, end - start);
        assert(mid.subrange(0, end - start) =~= s@.subrange(start as int, end as int));
    }
    let r = s.substring_char(start, end);
    r.to_owned()
}

/// Trimming leaves a string whose view is already trimmed unchanged.
pub proof fn lemma_trim_id(s: Seq<char>)
    requires
        s.len() == 0 || (!is_space(s[0]) && !is_space(s.last())),
    ensures
        trim_spec(s) == s,
{
    if s.len() == 0 {
        assert(trim_start_spec(s) == s);
        assert(trim_end_spec(s) == s);
    }
}

} // verus!

verus! {

/// Bounds and first-match facts for a successful `find_from`.
pub proof fn lemma_find_some(s: Seq<char>, from: int, pat: Seq<char>)
    requires
        0 <= from,
        1 <= pat.len(),
        find_from(s, from, pat) is Some,
    ensures
        ({
            let i = find_from(s, from, pat)->Some_0;
            &&& from <= i
            &&& i + pat.len() <= s.len()
            &&& match_at(s, i, pat)
            &&& forall|j: int| from <= j < i ==> !match_at(s, j, pat)
        }),
    decreases s.len() - from,
{
    if from + pat.len() > s.len() {
    } else if match_at(s, from, pat) {
    } else {
        lemma_find_some(s, from + 1, pat);
    }
}

proof fn lemma_match_shift(s: Seq<char>, pos: int, j: int, pat: Seq<char>)
    requires
        0 <= pos <= s.len(),
        pos <= j,
    ensures
        match_at(s, j, pat) == match_at(s.subrange(pos, s.len() as int), j - pos, pat),
{
    let t = s.subrange(pos, s.len() as int);
    if 0 <= j - pos && j - pos + pat.len() <= t.len() {
        assert(s.subrange(j, j + pat.len()) =~= t.subrange(j - pos, j - pos + pat.len()));
    }
}

/// Searching from `pos` in `s` is searching from the start of the suffix.
pub proof fn lemma_find_shift(s: Seq<char>, pos: int, pat: Seq<char>)
    requires
        0 <= pos <= s.len(),
        1 <= pat.len(),
    ensures
        ({
            let t = s.subrange(pos, s.len() as int);
            match find_from(s, pos, pat) {
                Option::Some(i) => pos <= i && find_from(t, 0, pat) == Some(i - pos),
                Option::None => find_from(t, 0, pat) is None,
            }
        }),
{
    let t = s.subrange(pos, s.len() as int);
    match find_from(s, pos, pat) {
        Option::Some(i) => {
            lemma_find_some(s, pos, pat);
            lemma_match_shift(s, pos, i, pat);
            assert forall|j: int| 0 <= j < i - pos implies !match_at(t, j, pat) by {
                lemma_match_shift(s, pos, j + pos, pat);
            }
            lemma_find_from_is_first(t, 0, pat, i - pos);
        },
        Option::None => {
            if find_from(t, 0, pat) is Some {
                let x = find_from(t, 0, pat)->Some_0;
                lemma_find_some(t, 0, pat);
                lemma_match_shift(s, pos, x + pos, pat);
                lemma_find_from_none(s, pos, pat, x + pos);
            }
        },
    }
}

/// `s` without one trailing carriage return, if it has one.
pub open spec fn strip_cr(s: Seq<char>) -> Seq<char> {
    if s.len() > 0 && s.last() == '\r' {
        s.drop_last()
    } else {
        s
    }
}

/// The lines of `s`: split on newline, one trailing carriage return removed
/// from each piece, and no empty piece after a terminating newline.
pub open spec fn lines_spec(s: Seq<char>) -> Seq<Seq<char>>
    decreases s.len() via lines_spec_dec
{
    if s.len() == 0 {
        Seq::empty()
    } else {
        match find_from(s, 0, seq!['\n']) {
            Option::None => seq![strip_cr(s)],
            Option::Some(i) => seq![strip_cr(s.subrange(0, i))] + lines_spec(
                s.subrange(i + 1, s.len() as int),
            ),
        }
    }
}

#[via_fn]
proof fn lines_spec_dec(s: Seq<char>) {
    if s.len() != 0 {
        if find_from(s, 0, seq!['\n']) is Some {
            lemma_find_some(s, 0, seq!['\n']);
        }
    }
}

/// The lines joined back with single newlines, no terminating newline.
pub open spec fn join_lines(ls: Seq<Seq<char>>) -> Seq<char>
    decreases ls.len(),
{
    if ls.len() == 0 {
        Seq::empty()
    } else if ls.len() == 1 {
        ls[0]
    } else {
        ls[0] + seq!['\n'] + join_lines(ls.drop_first())
    }
}

/// No character of `l` is a newline.
pub open spec fn no_nl(l: Seq<char>) -> bool {
    forall|j: int| 0 <= j < l.len() ==> l[j] != '\n'
}

/// Splitting the join of nonempty newline-free lines gives the lines back.
pub proof fn lemma_lines_join(ls: Seq<Seq<char>>)
    requires
        ls.len() >= 1,
        forall|k: int| 0 <= k < ls.len() ==> (#[trigger] ls[k]).len() > 0,
        forall|k: int| 0 <= k < ls.len() ==> no_nl(#[trigger] ls[k]),
        forall|k: int| 0 <= k < ls.len() ==> (#[trigger] ls[k]).last() != '\r',
    ensures
        lines_spec(join_lines(ls)) == ls,
    decreases ls.len(),
{
    let nl = seq!['\n'];
    let j = join_lines(ls);
    if ls.len() == 1 {
        if find_from(j, 0, nl) is Some {
            lemma_find_some(j, 0, nl);
            let i = find_from(j, 0, nl)->Some_0;
            assert(j.subrange(i, i + 1)[0] == '\n');
        }
        assert(lines_spec(j) =~= ls);
    } else {
        let l0 = ls[0];
        let rest = ls.drop_first();
        let jr = join_lines(rest);
        let n0 = l0.len() as int;
        assert(match_at(j, n0, nl)) by {
            assert(j.subrange(n0, n0 + 1) =~= nl);
        }
        assert forall|q: int| 0 <= q < n0 implies !match_at(j, q, nl) by {
            if match_at(j, q, nl) {
                assert(j.subrange(q, q + 1)[0] == '\n');
                assert(j[q] == l0[q]);
            }
        }
        lemma_find_from_is_first(j, 0, nl, n0);
        assert(j.subrange(0, n0) =~= l0);
        assert(j.subrange(n0 + 1, j.len() as int) =~= jr);
        assert(forall|k: int| 0 <= k < rest.len() ==> (#[trigger] rest[k]).len() > 0);
        assert(forall|k: int| 0 <= k < rest.len() ==> no_nl(#[trigger] rest[k]));
        assert(forall|k: int| 0 <= k < rest.len() ==> (#[trigger] rest[k]).last() != '\r');
        lemma_lines_join(rest);
        assert(lines_spec(j) =~= ls);
    }
}

/// Splits into lines.
pub fn lines(s: &str) -> (r: Vec<String>)
    ensures
        r.deep_view() == lines_spec(s@),
{
    proof {
        reveal_strlit("\n");
        assert("\n"@ =~= seq!['\n']);
    }
    let n = s.unicode_len();
    let mut out: Vec<String> = Vec::new();
    let mut pos: usize = 0;
    proof {
        assert(s@.subrange(0, n as int) =~= s@);
        assert(out.deep_view() =~= Seq::<Seq<char>>::empty());
        assert(out.deep_view() + lines_spec(s@) =~= lines_spec(s@));
    }
    while pos < n
        invariant
            0 <= pos <= n,
            n == s@.len(),
            "\n"@ =~= seq!['\n'],
            lines_spec(s@) == out.deep_view() + lines_spec(s@.subrange(pos as int, n as int)),
        decreases n - pos,
    {
        let ghost suf = s@.subrange(pos as int, n as int);
        let found = find_sub(s, pos, "\n");
        proof {
            lemma_find_shift(s@, pos as int, seq!['\n']);
        }
        match found {
            Option::Some(i) => {
                proof {
                    lemma_find_some(s@, pos as int, seq!['\n']);
                }
                let cut = if i > pos && s.get_char(i - 1) == '\r' {
                    i - 1
                } else {
                    i
                };
                proof {
                    assert(s@.subrange(pos as int, i as int) =~= suf.subrange(0, i - pos));
                    assert(strip_cr(suf.subrange(0, i - pos)) =~= s@.subrange(
                        pos as int,
                        cut as int,
                    ));
                    assert(suf.subrange(i - pos + 1, suf.len() as int) =~= s@.subrange(
                        i + 1,
                        n as int,
                    ));
                }
                let piece = s.substring_char(pos, cut).to_owned();
                out.push(piece);
                proof {
                    assert(lines_spec(suf) =~= seq![s@.subrange(pos as int, cut as int)]
                        + lines_spec(s@.subrange(i + 1, n as int)));
                    assert(out.deep_view() =~= out.deep_view().subrange(
                        0,
                        out.deep_view().len() - 1,
                    ).push(s@.subrange(pos as int, cut as int)));
                    assert(lines_spec(s@) =~= out.deep_view() + lines_spec(
                        s@.subrange(i + 1, n as int),
                    ));
                }
                pos = i + 1;
            },
            Option::None => {
                let cut = if n > pos && s.get_char(n - 1) == '\r' {
                    n - 1
                } else {
                    n
                };
                proof {
                    assert(strip_cr(suf) =~= s@.subrange(pos as int, cut as int));
                }
                let piece = s.substring_char(pos, cut).to_owned();
                out.push(piece);
                proof {
                    assert(lines_spec(suf) =~= seq![s@.subrange(pos as int, cut as int)]);
                    assert(lines_spec(s@) =~= out.deep_view());
                    assert(lines_spec(s@.subrange(n as int, n as int)) =~= Seq::<Seq<char>>::empty());
                    assert(lines_spec(s@) =~= out.deep_view() + lines_spec(
                        s@.subrange(n as int, n as int),
                    ));
                }
                pos = n;
            },
        }
    }
    proof {
        assert(s@.subrange(n as int, n as int) =~= Seq::<char>::empty());
        assert(out.deep_view() =~= out.deep_view() + lines_spec(Seq::<char>::empty()));
    }
    out
}

/// Character-for-character string equality.
pub fn eq_str(a: &str, b: &str) -> (r: bool)
    ensures
        r == (a@ == b@),
{
    let n = a.unicode_len();
    if n != b.unicode_len() {
        return false;
    }
    let mut i: usize = 0;
    while i < n
        invariant
            0 <= i <= n,
            n == a@.len(),
            n == b@.len(),
            forall|j: int| 0 <= j < i ==> a@[j] == b@[j],
        decreases n - i,
    {
        if a.get_char(i) != b.get_char(i) {
            return false;
        }
        i = i + 1;
    }
    proof {
        assert(a@ =~= b@);
    }
    true
}

/// Whether `s` starts with `pat`.
pub fn starts_with(s: &str, pat: &str) -> (r: bool)
    ensures
        r == match_at(s@, 0, pat@),
{
    if pat.unicode_len() > s.unicode_len() {
        return false;
    }
    match_at_exec(s, 0, pat)
}

/// Whether some character of `s` is `c`.
pub fn contains_char(s: &str, c: char) -> (r: bool)
    ensures
        r == s@.contains(c),
{
    let n = s.unicode_len();
    let mut i: usize = 0;
    while i < n
        invariant
            0 <= i <= n,
            n == s@.len(),
            forall|j: int| 0 <= j < i ==> s@[j] != c,
        decreases n - i,
    {
        if s.get_char(i) == c {
            assert(s@.contains(c));
            return true;
        }
        i = i + 1;
    }
    assert(!s@.contains(c));
    false
}

} // verus!

verus! {

/// The lines each followed by a newline, concatenated.
pub open spec fn cat_lines(ls: Seq<Seq<char>>) -> Seq<char>
    decreases ls.len(),
{
    if ls.len() == 0 {
        Seq::<char>::empty()
    } else {
        (ls[0] + seq!['\n']) + cat_lines(ls.drop_first())
    }
}

/// `cat_lines` distributes over concatenation.
pub proof fn lemma_cat_append(a: Seq<Seq<char>>, b: Seq<Seq<char>>)
    ensures
        cat_lines(a + b) == cat_lines(a) + cat_lines(b),
    decreases a.len(),
{
    if a.len() == 0 {
        assert(a + b =~= b);
        assert(cat_lines(a) + cat_lines(b) =~= cat_lines(b));
    } else {
        assert((a + b).drop_first() =~= a.drop_first() + b);
        assert((a + b)[0] == a[0]);
        lemma_cat_append(a.drop_first(), b);
        assert(cat_lines(a + b) =~= cat_lines(a) + cat_lines(b));
    }
}

/// Newline-terminated lines are the newline-joined lines plus one newline.
pub proof fn lemma_cat_join(ls: Seq<Seq<char>>)
    requires
        ls.len() >= 1,
    ensures
        cat_lines(ls) == join_lines(ls) + seq!['\n'],
    decreases ls.len(),
{
    if ls.len() == 1 {
        assert(cat_lines(ls.drop_first()) =~= Seq::<char>::empty());
        assert(cat_lines(ls) =~= join_lines(ls) + seq!['\n']);
    } else {
        lemma_cat_join(ls.drop_first());
        assert(cat_lines(ls) =~= join_lines(ls) + seq!['\n']);
    }
}

/// Trimming the start never lengthens a string.
pub proof fn lemma_trim_start_le(s: Seq<char>)
    ensures
        trim_start_spec(s).len() <= s.len(),
    decreases s.len(),
{
    if s.len() > 0 && is_space(s[0]) {
        lemma_trim_start_le(s.drop_first());
    }
}

/// Trimming the end never lengthens a string.
pub proof fn lemma_trim_end_le(s: Seq<char>)
    ensures
        trim_end_spec(s).len() <= s.len(),
    decreases s.len(),
{
    if s.len() > 0 && is_space(s.last()) {
        lemma_trim_end_le(s.drop_last());
    }
}

/// A nonempty string equal to its own trim neither starts nor ends in
/// whitespace.
pub proof fn lemma_trim_id_inv(s: Seq<char>)
    requires
        trim_spec(s) == s,
        s.len() > 0,
    ensures
        !is_space(s[0]),
        !is_space(s.last()),
{
    if is_space(s[0]) {
        lemma_trim_start_le(s.drop_first());
        lemma_trim_end_le(trim_start_spec(s));
    } else {
        if is_space(s.last()) {
            lemma_trim_end_le(s.drop_last());
        }
    }
}

} // verus!
