//! Character-level text operations used by the parsers and adapters.
//!
//! Strings are modelled by their character sequences (`s@: Seq<char>`);
//! every operation here is specified over those sequences.

use vstd::prelude::*;

verus! {

/// Unicode `White_Space` property, the set of characters that
/// `char::is_whitespace` accepts.
pub open spec fn is_white_space(c: char) -> bool {
    let v = c as u32;
    ||| 0x09 <= v <= 0x0D
    ||| v == 0x20
    ||| v == 0x85
    ||| v == 0xA0
    ||| v == 0x1680
    ||| 0x2000 <= v <= 0x200A
    ||| v == 0x2028
    ||| v == 0x2029
    ||| v == 0x202F
    ||| v == 0x205F
    ||| v == 0x3000
}

/// `s` with its leading whitespace removed.
pub open spec fn trim_start_spec(s: Seq<char>) -> Seq<char>
    decreases s.len(),
{
    if s.len() > 0 && is_white_space(s[0]) {
        trim_start_spec(s.drop_first())
    } else {
        s
    }
}

/// `s` with its trailing whitespace removed.
pub open spec fn trim_end_spec(s: Seq<char>) -> Seq<char>
    decreases s.len(),
{
    if s.len() > 0 && is_white_space(s.last()) {
        trim_end_spec(s.drop_last())
    } else {
        s
    }
}

/// `s` with leading and trailing whitespace removed, as `str::trim` does.
pub open spec fn trim_spec(s: Seq<char>) -> Seq<char> {
    trim_end_spec(trim_start_spec(s))
}

/// `p` occurs in `s` as a contiguous run of characters.
pub open spec fn has_substr(s: Seq<char>, p: Seq<char>) -> bool {
    exists|i: int| 0 <= i && i + p.len() <= s.len() && #[trigger] s.subrange(i, i + p.len()) == p
}

/// `s` begins with `p`.
pub open spec fn has_prefix(s: Seq<char>, p: Seq<char>) -> bool {
    p.len() <= s.len() && s.subrange(0, p.len() as int) == p
}

/// `s` with every non-overlapping occurrence of the non-empty pattern `from`
/// replaced by `to`, scanning from left to right, as `str::replace` does.
pub open spec fn replace_spec(s: Seq<char>, from: Seq<char>, to: Seq<char>) -> Seq<char>
    decreases s.len(),
{
    if s.len() == 0 {
        s
    } else if 0 < from.len() <= s.len() && s.subrange(0, from.len() as int) == from {
        to + replace_spec(s.subrange(from.len() as int, s.len() as int), from, to)
    } else {
        seq![s[0]] + replace_spec(s.drop_first(), from, to)
    }
}

/// Whether `c` has the Unicode `White_Space` property, as `char::is_whitespace`.
fn char_is_whitespace(c: char) -> (b: bool)
    ensures
        b == is_white_space(c),
{
    let v = c as u32;
    (0x09 <= v && v <= 0x0D) || v == 0x20 || v == 0x85 || v == 0xA0 || v == 0x1680 || (0x2000 <= v
        && v <= 0x200A) || v == 0x2028 || v == 0x2029 || v == 0x202F || v == 0x205F || v == 0x3000
}

/// `String::push`: appends one character.
#[verifier::external_body]
fn push_char(s: &mut String, c: char)
    ensures
        final(s)@ == old(s)@.push(c),
{
    s.push(c)
}

/// Copies the characters of `s` into a vector.
pub fn chars_of(s: &str) -> (v: Vec<char>)
    ensures
        v@ == s@,
{
    let mut v: Vec<char> = Vec::new();
    for c in it: s.chars()
        invariant
            v@ == it.seq().take(it.index() as int),
            it.seq() == s@,
    {
        v.push(c);
    }
    v
}

/// Builds a string from a sequence of characters.
pub fn string_of(v: &Vec<char>) -> (s: String)
    ensures
        s@ == v@,
{
    let mut s = String::new();
    let mut i: usize = 0;
    while i < v.len()
        invariant
            i <= v.len(),
            s@ == v@.take(i as int),
        decreases v.len() - i,
    {
        push_char(&mut s, v[i]);
        assert(v@.take(i as int).push(v@[i as int]) =~= v@.take(i + 1));
        i = i + 1;
    }
    assert(v@.take(v.len() as int) =~= v@);
    s
}

/// Whether `p` occurs in `s` starting at position `i`.
pub fn matches_at(s: &Vec<char>, p: &Vec<char>, i: usize) -> (b: bool)
    requires
        i <= s.len(),
    ensures
        b == (i + p.len() <= s.len() && s@.subrange(i as int, i + p.len()) == p@),
{
    if p.len() > s.len() - i {
        return false;
    }
    let mut k: usize = 0;
    while k < p.len()
        invariant
            k <= p.len(),
            i + p.len() <= s.len(),
            forall|j: int| 0 <= j < k ==> s@[i + j] == p@[j],
        decreases p.len() - k,
    {
        if s[i + k] != p[k] {
            assert(s@.subrange(i as int, i + p.len())[k as int] != p@[k as int]);
            return false;
        }
        k = k + 1;
    }
    assert(s@.subrange(i as int, i + p.len()) =~= p@);
    true
}

/// Whether `s` begins with `p`, as `str::starts_with`.
pub fn starts_with_chars(s: &Vec<char>, p: &Vec<char>) -> (b: bool)
    ensures
        b == has_prefix(s@, p@),
{
    matches_at(s, p, 0)
}

/// Whether `p` occurs in `s`, as `str::contains`.
pub fn contains_chars(s: &Vec<char>, p: &Vec<char>) -> (b: bool)
    ensures
        b == has_substr(s@, p@),
{
    if p.len() == 0 {
        assert(s@.subrange(0int, 0int + p@.len()) =~= p@);
        return true;
    }
    if p.len() > s.len() {
        return false;
    }
    let last = s.len() - p.len();
    let mut i: usize = 0;
    while i <= last
        invariant
            last + p.len() == s.len(),
            p.len() > 0,
            i <= last + 1,
            forall|j: int| 0 <= j < i ==> #[trigger] s@.subrange(j, j + p.len()) != p@,
        decreases last + 1 - i,
    {
        if matches_at(s, p, i) {
            return true;
        }
        i = i + 1;
    }
    assert forall|j: int| 0 <= j && j + p.len() <= s.len() implies #[trigger] s@.subrange(
        j,
        j + p.len(),
    ) != p@ by {
        assert(j < i);
    }
    false
}

/// Copies `s[lo..hi]` into a new vector.
pub fn slice_chars(s: &Vec<char>, lo: usize, hi: usize) -> (t: Vec<char>)
    requires
        lo <= hi <= s.len(),
    ensures
        t@ == s@.subrange(lo as int, hi as int),
{
    let mut t: Vec<char> = Vec::new();
    let mut k: usize = lo;
    while k < hi
        invariant
            lo <= k <= hi,
            hi <= s.len(),
            t@ == s@.subrange(lo as int, k as int),
        decreases hi - k,
    {
        t.push(s[k]);
        assert(s@.subrange(lo as int, k as int).push(s@[k as int]) =~= s@.subrange(
            lo as int,
            k + 1,
        ));
        k = k + 1;
    }
    t
}

/// Removes leading and trailing whitespace, as `str::trim`.
pub fn trim_chars(s: &Vec<char>) -> (t: Vec<char>)
    ensures
        t@ == trim_spec(s@),
{
    let n = s.len();
    let mut i: usize = 0;
    assert(s@.subrange(0, n as int) =~= s@);
    while i < n && char_is_whitespace(s[i])
        invariant
            i <= n,
            n == s.len(),
            trim_start_spec(s@) == trim_start_spec(s@.subrange(i as int, n as int)),
        decreases n - i,
    {
        assert(s@.subrange(i as int, n as int).drop_first() =~= s@.subrange(i + 1, n as int));
        i = i + 1;
    }
    let mut j: usize = n;
    while j > i && char_is_whitespace(s[j - 1])
        invariant
            i <= j <= n,
            n == s.len(),
            trim_start_spec(s@) == s@.subrange(i as int, n as int) || i == n,
            trim_end_spec(s@.subrange(i as int, n as int)) == trim_end_spec(
                s@.subrange(i as int, j as int),
            ),
        decreases j - i,
    {
        assert(s@.subrange(i as int, j as int).drop_last() =~= s@.subrange(i as int, j - 1));
        j = j - 1;
    }
    proof {
        if i == n {
            assert(s@.subrange(i as int, n as int) =~= Seq::<char>::empty());
        }
    }
    slice_chars(s, i, j)
}

/// Replaces every non-overlapping occurrence of the non-empty pattern `from`
/// by `to`, scanning left to right, as `str::replace`.
pub fn replace_chars(s: &Vec<char>, from: &Vec<char>, to: &Vec<char>) -> (r: Vec<char>)
    requires
        from.len() > 0,
    ensures
        r@ == replace_spec(s@, from@, to@),
{
    let n = s.len();
    let mut out: Vec<char> = Vec::new();
    let mut i: usize = 0;
    assert(s@.subrange(0, n as int) =~= s@);
    assert(out@ + replace_spec(s@, from@, to@) =~= replace_spec(s@, from@, to@));
    while i < n
        invariant
            i <= n,
            n == s.len(),
            from.len() > 0,
            out@ + replace_spec(s@.subrange(i as int, n as int), from@, to@) == replace_spec(
                s@,
                from@,
                to@,
            ),
        decreases n - i,
    {
        let ghost rest = s@.subrange(i as int, n as int);
        if matches_at(s, from, i) {
            assert(rest.subrange(0, from@.len() as int) =~= from@);
            assert(rest.subrange(from@.len() as int, rest.len() as int) =~= s@.subrange(
                i + from.len(),
                n as int,
            ));
            let ghost before = out@;
            let mut k: usize = 0;
            while k < to.len()
                invariant
                    k <= to.len(),
                    out@ == before + to@.take(k as int),
                decreases to.len() - k,
            {
                out.push(to[k]);
                assert(to@.take(k as int).push(to@[k as int]) =~= to@.take(k + 1));
                k = k + 1;
            }
            assert(to@.take(to.len() as int) =~= to@);
            assert(before + (to@ + replace_spec(s@.subrange(i + from.len(), n as int), from@, to@))
                =~= out@ + replace_spec(s@.subrange(i + from.len(), n as int), from@, to@));
            i = i + from.len();
        } else {
            assert(rest.drop_first() =~= s@.subrange(i + 1, n as int));
            assert(rest.len() >= from@.len() ==> s@.subrange(i as int, i + from@.len())
                == rest.subrange(0, from@.len() as int));
            let ghost before = out@;
            out.push(s[i]);
            assert(before + (seq![s@[i as int]] + replace_spec(s@.subrange(i + 1, n as int), from@, to@))
                =~= out@ + replace_spec(s@.subrange(i + 1, n as int), from@, to@));
            i = i + 1;
        }
    }
    assert(s@.subrange(n as int, n as int) =~= Seq::<char>::empty());
    assert(out@ + Seq::<char>::empty() =~= out@);
    out
}

/// A substring's prefix is a substring too.
pub proof fn lemma_substr_prefix(s: Seq<char>, p: Seq<char>, q: Seq<char>)
    requires
        has_substr(s, p),
        q.len() <= p.len(),
        p.subrange(0, q.len() as int) == q,
    ensures
        has_substr(s, q),
{
    let i = choose|i: int| 0 <= i && i + p.len() <= s.len() && #[trigger] s.subrange(i, i + p.len()) == p;
    assert(s.subrange(i, i + q.len()) =~= p.subrange(0, q.len() as int));
}

/// `trim` removes exactly a whitespace prefix and a whitespace suffix: the
/// result is a contiguous part of `s`, everything before and after it is
/// whitespace, and a non-empty result starts and ends with a non-whitespace
/// character.
pub proof fn law_trim_strips_exactly_outer_whitespace(s: Seq<char>)
    ensures
        exists|i: int, j: int|
            0 <= i <= j <= s.len() && trim_spec(s) == s.subrange(i, j) && (forall|k: int|
                0 <= k < i ==> is_white_space(#[trigger] s[k])) && (forall|k: int|
                j <= k < s.len() ==> is_white_space(#[trigger] s[k])) && (i < j ==> !is_white_space(
                s[i]) && !is_white_space(s[j - 1])) && (i == j ==> j == s.len()),
{
    let (i, st) = lemma_trim_start_shape(s);
    let j = lemma_trim_end_shape(st);
    assert(trim_spec(s) == s.subrange(i, i + j));
    assert(st.subrange(0, j) =~= s.subrange(i, i + j));
    assert forall|k: int| i + j <= k < s.len() implies is_white_space(#[trigger] s[k]) by {
        assert(s[k] == st[k - i]);
    }
    if j > 0 {
        assert(st[0] == s[i]);
        assert(st[j - 1] == s[i + j - 1]);
    } else if i < s.len() {
        // `st` would be all whitespace, yet it starts with `s[i]`.
        assert(st[0] == s[i]);
        assert(is_white_space(st[0]));
    }
}

proof fn lemma_trim_start_shape(s: Seq<char>) -> (r: (int, Seq<char>))
    ensures
        0 <= r.0 <= s.len(),
        r.1 == s.subrange(r.0, s.len() as int),
        trim_start_spec(s) == r.1,
        forall|k: int| 0 <= k < r.0 ==> is_white_space(#[trigger] s[k]),
        r.0 < s.len() ==> !is_white_space(s[r.0]),
    decreases s.len(),
{
    if s.len() > 0 && is_white_space(s[0]) {
        let (i, t) = lemma_trim_start_shape(s.drop_first());
        assert(s.drop_first().subrange(i, s.len() - 1) =~= s.subrange(i + 1, s.len() as int));
        assert forall|k: int| 0 <= k < i + 1 implies is_white_space(#[trigger] s[k]) by {
            if k > 0 {
                assert(s[k] == s.drop_first()[k - 1]);
            }
        }
        (i + 1, t)
    } else {
        assert(s.subrange(0, s.len() as int) =~= s);
        (0, s)
    }
}

proof fn lemma_trim_end_shape(s: Seq<char>) -> (j: int)
    ensures
        0 <= j <= s.len(),
        trim_end_spec(s) == s.subrange(0, j),
        forall|k: int| j <= k < s.len() ==> is_white_space(#[trigger] s[k]),
        j > 0 ==> !is_white_space(s[j - 1]),
        j == 0 ==> (forall|k: int| 0 <= k < s.len() ==> is_white_space(#[trigger] s[k])),
    decreases s.len(),
{
    if s.len() > 0 && is_white_space(s.last()) {
        let j = lemma_trim_end_shape(s.drop_last());
        assert(s.drop_last().subrange(0, j) =~= s.subrange(0, j));
        assert forall|k: int| j <= k < s.len() implies is_white_space(#[trigger] s[k]) by {
            if k < s.len() - 1 {
                assert(s[k] == s.drop_last()[k]);
            }
        }
        if j == 0 {
            assert forall|k: int| 0 <= k < s.len() implies is_white_space(#[trigger] s[k]) by {
                if k < s.len() - 1 {
                    assert(s[k] == s.drop_last()[k]);
                }
            }
        }
        j
    } else {
        assert(s.subrange(0, s.len() as int) =~= s);
        s.len() as int
    }
}

/// Replacing a pattern that does not occur leaves the text unchanged.
pub proof fn law_replace_absent_is_identity(s: Seq<char>, from: Seq<char>, to: Seq<char>)
    requires
        from.len() > 0,
        !has_substr(s, from),
    ensures
        replace_spec(s, from, to) == s,
    decreases s.len(),
{
    if s.len() > 0 {
        assert(!(from.len() <= s.len() && s.subrange(0, from.len() as int) == from)) by {
            if from.len() <= s.len() && s.subrange(0, from.len() as int) == from {
                assert(s.subrange(0int, 0int + from.len()) == from);
            }
        }
        assert(!has_substr(s.drop_first(), from)) by {
            if has_substr(s.drop_first(), from) {
                let i = choose|i: int|
                    0 <= i && i + from.len() <= s.drop_first().len()
                        && #[trigger] s.drop_first().subrange(i, i + from.len()) == from;
                assert(s.subrange(i + 1, i + 1 + from.len()) =~= s.drop_first().subrange(
                    i,
                    i + from.len(),
                ));
            }
        }
        law_replace_absent_is_identity(s.drop_first(), from, to);
        assert(seq![s[0]] + s.drop_first() =~= s);
    }
}

/// Replacement works on the leftmost occurrence first: the text before it is
/// kept, the occurrence becomes `to`, and replacement goes on after it (so
/// occurrences never overlap).
pub proof fn law_replace_leftmost_first(s: Seq<char>, from: Seq<char>, to: Seq<char>, i: int)
    requires
        from.len() > 0,
        0 <= i,
        i + from.len() <= s.len(),
        s.subrange(i, i + from.len()) == from,
        forall|j: int|
            0 <= j < i && j + from.len() <= s.len() ==> #[trigger] s.subrange(j, j + from.len())
                != from,
    ensures
        replace_spec(s, from, to) == s.subrange(0, i) + to + replace_spec(
            s.subrange(i + from.len(), s.len() as int),
            from,
            to,
        ),
    decreases i,
{
    if i == 0 {
        assert(s.subrange(0, 0) + to =~= to);
    } else {
        assert(!(s.subrange(0, from.len() as int) == from)) by {
            assert(s.subrange(0int, 0int + from.len()) != from);
        }
        let t = s.drop_first();
        assert(t.subrange(i - 1, i - 1 + from.len()) =~= s.subrange(i, i + from.len()));
        assert forall|j: int|
            0 <= j < i - 1 && j + from.len() <= t.len() implies #[trigger] t.subrange(
            j,
            j + from.len(),
        ) != from by {
            assert(t.subrange(j, j + from.len()) =~= s.subrange(j + 1, j + 1 + from.len()));
        }
        law_replace_leftmost_first(t, from, to, i - 1);
        assert(t.subrange(i - 1 + from.len(), t.len() as int) =~= s.subrange(
            i + from.len(),
            s.len() as int,
        ));
        assert(seq![s[0]] + t.subrange(0, i - 1) =~= s.subrange(0, i));
    }
}

} // verus!
