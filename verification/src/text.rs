use vstd::prelude::*;

verus! {

// ---------------------------------------------------------------------------
// Conversions between strings and character vectors
// ---------------------------------------------------------------------------

/// The characters of `s`, in order.
pub fn to_chars(s: &str) -> (v: Vec<char>)
    ensures
        v@ == s@,
{
    let mut v: Vec<char> = Vec::new();
    for c in it: s.chars()
        invariant
            v@ == it.seq().take(it.index() as int),
    {
        v.push(c);
    }
    v
}

/// `String::from_iter` over the characters of `v`: the string whose
/// characters are exactly those of `v`, in order.
#[verifier::external_body]
pub fn string_from_chars(v: &[char]) -> (s: String)
    ensures
        s@ == v@,
{
    v.iter().collect::<String>()
}

// ---------------------------------------------------------------------------
// Whitespace and trimming
// ---------------------------------------------------------------------------

/// The Unicode `White_Space` property, which is what both `char::is_whitespace`
/// and the `\s` class of a Unicode regular expression test.
pub open spec fn is_ws(c: char) -> bool {
    let u = c as u32;
    ||| 0x09 <= u <= 0x0d
    ||| u == 0x20
    ||| u == 0x85
    ||| u == 0xa0
    ||| u == 0x1680
    ||| 0x2000 <= u <= 0x200a
    ||| u == 0x2028
    ||| u == 0x2029
    ||| u == 0x202f
    ||| u == 0x205f
    ||| u == 0x3000
}

/// Whether `c` is white space (see [`is_ws`]).
pub fn is_whitespace(c: char) -> (b: bool)
    ensures
        b == is_ws(c),
{
    let u = c as u32;
    (0x09 <= u && u <= 0x0d) || u == 0x20 || u == 0x85 || u == 0xa0 || u == 0x1680 || (0x2000
        <= u && u <= 0x200a) || u == 0x2028 || u == 0x2029 || u == 0x202f || u == 0x205f || u
        == 0x3000
}

/// The index of the first character at or after `i` that is not white space
/// (or `s.len()` when there is none).
pub open spec fn skip_ws(s: Seq<char>, i: int) -> int
    decreases s.len() - i,
{
    if 0 <= i < s.len() && is_ws(s[i]) {
        skip_ws(s, i + 1)
    } else {
        i
    }
}

/// The end of `s.take(j)` once trailing white space is removed.
pub open spec fn trim_end_at(s: Seq<char>, j: int) -> int
    decreases j,
{
    if 0 < j <= s.len() && is_ws(s[j - 1]) {
        trim_end_at(s, j - 1)
    } else {
        j
    }
}

/// `str::trim`: `s` without its leading and trailing white space.
pub open spec fn trim(s: Seq<char>) -> Seq<char> {
    let lo = skip_ws(s, 0);
    let hi = trim_end_at(s, s.len() as int);
    if lo < hi {
        s.subrange(lo, hi)
    } else {
        Seq::empty()
    }
}

pub proof fn lemma_skip_ws_bounds(s: Seq<char>, i: int)
    requires
        0 <= i <= s.len(),
    ensures
        i <= skip_ws(s, i) <= s.len(),
        forall|k: int| i <= k < skip_ws(s, i) ==> is_ws(#[trigger] s[k]),
        skip_ws(s, i) < s.len() ==> !is_ws(s[skip_ws(s, i)]),
    decreases s.len() - i,
{
    if i < s.len() && is_ws(s[i]) {
        lemma_skip_ws_bounds(s, i + 1);
    }
}

pub proof fn lemma_trim_end_bounds(s: Seq<char>, j: int)
    requires
        0 <= j <= s.len(),
    ensures
        0 <= trim_end_at(s, j) <= j,
        forall|k: int| trim_end_at(s, j) <= k < j ==> is_ws(#[trigger] s[k]),
        trim_end_at(s, j) > 0 ==> !is_ws(s[trim_end_at(s, j) - 1]),
    decreases j,
{
    if 0 < j && is_ws(s[j - 1]) {
        lemma_trim_end_bounds(s, j - 1);
    }
}

pub proof fn lemma_skip_ws_unique(s: Seq<char>, i: int, r: int)
    requires
        0 <= i <= r <= s.len(),
        forall|k: int| i <= k < r ==> is_ws(#[trigger] s[k]),
        r < s.len() ==> !is_ws(s[r]),
    ensures
        skip_ws(s, i) == r,
    decreases r - i,
{
    if i < r {
        assert(is_ws(s[i]));
        lemma_skip_ws_unique(s, i + 1, r);
    }
}

/// The index where the non-blank part of `v[from..to]` starts.
pub fn skip_ws_from(v: &Vec<char>, from: usize, to: usize) -> (r: usize)
    requires
        from <= to <= v.len(),
    ensures
        from <= r <= to,
        forall|k: int| from <= k < r ==> is_ws(#[trigger] v@[k]),
        r < to ==> !is_ws(v@[r as int]),
        to == v.len() ==> r == skip_ws(v@, from as int),
{
    let mut i = from;
    while i < to && is_whitespace(v[i])
        invariant
            from <= i <= to <= v.len(),
            forall|k: int| from <= k < i ==> is_ws(#[trigger] v@[k]),
        decreases to - i,
    {
        i = i + 1;
    }
    proof {
        if to == v.len() {
            lemma_skip_ws_unique(v@, from as int, i as int);
        }
    }
    i
}

/// The index where the non-blank part of `v[from..to]` ends.
pub fn trim_end_from(v: &Vec<char>, from: usize, to: usize) -> (r: usize)
    requires
        from <= to <= v.len(),
    ensures
        from <= r <= to,
        forall|k: int| r <= k < to ==> is_ws(#[trigger] v@[k]),
        r > from ==> !is_ws(v@[r - 1]),
{
    let mut j = to;
    while j > from && is_whitespace(v[j - 1])
        invariant
            from <= j <= to <= v.len(),
            forall|k: int| j <= k < to ==> is_ws(#[trigger] v@[k]),
        decreases j,
    {
        j = j - 1;
    }
    j
}

/// The trimmed extent of a piece of text: any `lo`/`hi` with the properties
/// that the two scanning functions above ensure give `trim` of the piece.
pub proof fn lemma_trim_extent(s: Seq<char>, lo: int, hi: int)
    requires
        0 <= lo <= s.len(),
        0 <= hi <= s.len(),
        forall|k: int| 0 <= k < lo ==> is_ws(#[trigger] s[k]),
        lo < s.len() ==> !is_ws(s[lo]),
        forall|k: int| hi <= k < s.len() ==> is_ws(#[trigger] s[k]),
        hi > 0 ==> !is_ws(s[hi - 1]),
        lo < hi || lo == s.len(),
    ensures
        trim(s) == (if lo < hi {
            s.subrange(lo, hi)
        } else {
            Seq::<char>::empty()
        }),
{
    lemma_skip_ws_bounds(s, 0);
    lemma_trim_end_bounds(s, s.len() as int);
    let a = skip_ws(s, 0);
    let b = trim_end_at(s, s.len() as int);
    if a < lo {
        assert(is_ws(s[a]));
    }
    if lo < a {
        assert(is_ws(s[lo]));
    }
    assert(a == lo);
    if lo < hi {
        if b < hi {
            assert(is_ws(s[hi - 1]));
        }
        if hi < b {
            assert(is_ws(s[b - 1]));
        }
        assert(b == hi);
    } else {
        if a < b {
            assert(!is_ws(s[a]));
        }
    }
}

/// `v[from..to]` with leading and trailing white space removed.
pub fn trimmed_range(v: &Vec<char>, from: usize, to: usize) -> (r: (usize, usize))
    requires
        from <= to <= v.len(),
    ensures
        from <= r.0 <= r.1 <= to,
        v@.subrange(r.0 as int, r.1 as int) == trim(v@.subrange(from as int, to as int)),
{
    let lo = skip_ws_from(v, from, to);
    if lo == to {
        proof {
            let s = v@.subrange(from as int, to as int);
            lemma_trim_extent(s, (lo - from) as int, 0);
        }
        return (lo, lo);
    }
    let hi = trim_end_from(v, from, to);
    proof {
        let s = v@.subrange(from as int, to as int);
        assert(hi > lo) by {
            assert(!is_ws(v@[lo as int]));
        }
        lemma_trim_extent(s, (lo - from) as int, (hi - from) as int);
        assert(s.subrange((lo - from) as int, (hi - from) as int) =~= v@.subrange(
            lo as int,
            hi as int,
        ));
    }
    (lo, hi)
}

/// A copy of `v[from..to]`.
pub fn sub_vec(v: &Vec<char>, from: usize, to: usize) -> (r: Vec<char>)
    requires
        from <= to <= v.len(),
    ensures
        r@ == v@.subrange(from as int, to as int),
{
    let mut r: Vec<char> = Vec::new();
    let mut i = from;
    while i < to
        invariant
            from <= i <= to <= v.len(),
            r@ == v@.subrange(from as int, i as int),
        decreases to - i,
    {
        r.push(v[i]);
        i = i + 1;
        assert(r@ =~= v@.subrange(from as int, i as int));
    }
    r
}

/// Whether two character vectors hold the same text.
pub fn eq_chars(a: &Vec<char>, b: &Vec<char>) -> (r: bool)
    ensures
        r == (a@ == b@),
{
    if a.len() != b.len() {
        return false;
    }
    let mut i: usize = 0;
    while i < a.len()
        invariant
            a.len() == b.len(),
            i <= a.len(),
            forall|k: int| 0 <= k < i ==> a@[k] == b@[k],
        decreases a.len() - i,
    {
        if a[i] != b[i] {
            return false;
        }
        i = i + 1;
    }
    assert(a@ =~= b@);
    true
}

/// The pieces joined by `sep`.
pub open spec fn joined(pieces: Seq<Seq<char>>, sep: Seq<char>) -> Seq<char>
    decreases pieces.len(),
{
    if pieces.len() == 0 {
        Seq::empty()
    } else if pieces.len() == 1 {
        pieces[0]
    } else {
        joined(pieces.drop_last(), sep) + sep + pieces.last()
    }
}

/// The views of a sequence of strings.
pub open spec fn strs(v: Seq<String>) -> Seq<Seq<char>> {
    v.map_values(|s: String| s@)
}

/// The view of an optional string.
pub open spec fn opt_str(o: Option<String>) -> Option<Seq<char>> {
    match o {
        Some(s) => Some(s@),
        None => None,
    }
}

pub proof fn lemma_strs_push(v: Seq<String>, s: String)
    ensures
        strs(v.push(s)) == strs(v).push(s@),
{
    assert(strs(v.push(s)) =~= strs(v).push(s@));
}

// ---------------------------------------------------------------------------
// Searching and splitting
// ---------------------------------------------------------------------------

/// Whether `p` occurs in `h` at index `i`.
pub open spec fn occurs_at(h: Seq<char>, p: Seq<char>, i: int) -> bool {
    0 <= i && i + p.len() <= h.len() && h.subrange(i, i + p.len()) == p
}

/// `str::find` started at `i`: the first index at or after `i` where `p` occurs.
pub open spec fn find_from(h: Seq<char>, p: Seq<char>, i: int) -> Option<int>
    decreases h.len() + 1 - i,
{
    if i < 0 || i + p.len() > h.len() {
        None
    } else if occurs_at(h, p, i) {
        Some(i)
    } else {
        find_from(h, p, i + 1)
    }
}

pub proof fn lemma_find_from(h: Seq<char>, p: Seq<char>, i: int)
    requires
        0 <= i,
    ensures
        find_from(h, p, i) matches Some(k) ==> i <= k && k + p.len() <= h.len() && occurs_at(
            h,
            p,
            k,
        ),
        find_from(h, p, i) matches Some(k) ==> forall|j: int|
            i <= j < k ==> !#[trigger] occurs_at(h, p, j),
        find_from(h, p, i) is None ==> forall|j: int| i <= j ==> !#[trigger] occurs_at(h, p, j),
    decreases h.len() + 1 - i,
{
    if i + p.len() > h.len() {
    } else if occurs_at(h, p, i) {
    } else {
        lemma_find_from(h, p, i + 1);
    }
}

/// Whether the literal `p` occurs in `v` at `i`.
pub fn matches_at(v: &Vec<char>, p: &Vec<char>, i: usize) -> (b: bool)
    ensures
        b == occurs_at(v@, p@, i as int),
{
    if i > v.len() || p.len() > v.len() - i {
        return false;
    }
    let mut k: usize = 0;
    while k < p.len()
        invariant
            i + p.len() <= v.len(),
            k <= p.len(),
            forall|j: int| 0 <= j < k ==> v@[i + j] == p@[j],
        decreases p.len() - k,
    {
        if v[i + k] != p[k] {
            assert(v@.subrange(i as int, i + p.len())[k as int] != p@[k as int]);
            return false;
        }
        k = k + 1;
    }
    assert(v@.subrange(i as int, i + p.len()) =~= p@);
    true
}

/// The first index at or after `from` where `p` occurs in `v`.
pub fn find_chars(v: &Vec<char>, p: &Vec<char>, from: usize) -> (r: Option<usize>)
    ensures
        match r {
            Some(k) => find_from(v@, p@, from as int) == Some(k as int),
            None => find_from(v@, p@, from as int) is None,
        },
        r matches Some(k) ==> from <= k && k + p.len() <= v.len(),
{
    proof {
        lemma_find_from(v@, p@, from as int);
    }
    if p.len() > v.len() {
        return None;
    }
    let last = v.len() - p.len();
    let mut i = from;
    while i <= last
        invariant
            last + p.len() == v.len(),
            from <= i,
            find_from(v@, p@, i as int) == find_from(v@, p@, from as int),
        decreases last + 1 - i,
    {
        if matches_at(v, p, i) {
            return Some(i);
        }
        if i == last {
            assert(find_from(v@, p@, i + 1) is None);
            return None;
        }
        i = i + 1;
    }
    None
}

/// The pieces of `s[start..]` between the occurrences of `sep`
/// (`str::split` with a string pattern).
pub open spec fn split_from(s: Seq<char>, sep: Seq<char>, start: int) -> Seq<Seq<char>>
    decreases s.len() - start,
{
    if sep.len() == 0 || start < 0 || start > s.len() {
        seq![s.subrange(start, s.len() as int)]
    } else {
        match find_from(s, sep, start) {
            None => seq![s.subrange(start, s.len() as int)],
            Some(k) => {
                proof {
                    lemma_find_from(s, sep, start);
                }
                seq![s.subrange(start, k)] + split_from(s, sep, k + sep.len())
            },
        }
    }
}

/// `str::split(sep)` of the whole of `s`.
pub open spec fn split(s: Seq<char>, sep: Seq<char>) -> Seq<Seq<char>> {
    split_from(s, sep, 0)
}

/// The pieces of `v` between occurrences of `sep`, as index ranges.
pub fn split_ranges(v: &Vec<char>, sep: &Vec<char>) -> (r: Vec<(usize, usize)>)
    requires
        sep.len() > 0,
    ensures
        r@.len() == split(v@, sep@).len(),
        forall|i: int|
            #![trigger r@[i]]
            0 <= i < r@.len() ==> {
                &&& r@[i].0 <= r@[i].1 <= v.len()
                &&& split(v@, sep@)[i] == v@.subrange(r@[i].0 as int, r@[i].1 as int)
            },
{
    let mut out: Vec<(usize, usize)> = Vec::new();
    let mut start: usize = 0;
    loop
        invariant_except_break
            start <= v.len(),
            sep.len() > 0,
            out@.map_values(|r: (usize, usize)| v@.subrange(r.0 as int, r.1 as int)) + split_from(
                v@,
                sep@,
                start as int,
            ) == split(v@, sep@),
        invariant
            forall|i: int|
                0 <= i < out@.len() ==> (#[trigger] out@[i]).0 <= out@[i].1 <= v.len(),
        ensures
            out@.map_values(|r: (usize, usize)| v@.subrange(r.0 as int, r.1 as int)) == split(
                v@,
                sep@,
            ),
        decreases v.len() - start,
    {
        let ghost before = out@.map_values(|r: (usize, usize)| v@.subrange(r.0 as int, r.1 as int));
        proof {
            lemma_find_from(v@, sep@, start as int);
        }
        match find_chars(v, sep, start) {
            None => {
                out.push((start, v.len()));
                assert(out@.map_values(|r: (usize, usize)| v@.subrange(r.0 as int, r.1 as int))
                    =~= before + split_from(v@, sep@, start as int));
                break ;
            },
            Some(k) => {
                out.push((start, k));
                assert(out@.map_values(|r: (usize, usize)| v@.subrange(r.0 as int, r.1 as int))
                    =~= before + seq![v@.subrange(start as int, k as int)]);
                assert(before + split_from(v@, sep@, start as int) =~= before + seq![
                    v@.subrange(start as int, k as int),
                ] + split_from(v@, sep@, k + sep.len()));
                start = k + sep.len();
            },
        }
    }
    let ghost m = out@.map_values(|r: (usize, usize)| v@.subrange(r.0 as int, r.1 as int));
    assert forall|i: int| 0 <= i < out@.len() implies split(v@, sep@)[i] == v@.subrange(
        (#[trigger] out@[i]).0 as int,
        out@[i].1 as int,
    ) by {
        assert(m[i] == v@.subrange(out@[i].0 as int, out@[i].1 as int));
    }
    out
}

} // verus!
