//! Character-level text utilities shared by the parsing and rendering
//! modules: whitespace trimming, character search, string equality and
//! prefix tests, splitting, and small string builders.
//!
//! All executable functions here are verified against spec functions over
//! `Seq<char>`, the view of `str` and `String`.

use vstd::prelude::*;

verus! {

/// Relies on `String::push`: appends the given `char` to the end of the
/// `String`.
pub assume_specification[ String::push ](s: &mut String, c: char)
    ensures
        final(s)@ == old(s)@.push(c),
;

/// The whitespace characters recognized when trimming: the Unicode
/// white-space set.
pub open spec fn is_space(c: char) -> bool {
    let u = c as u32;
    (0x9 <= u && u <= 0xd) || u == 0x20 || u == 0x85 || u == 0xa0 || u == 0x1680 || (0x2000 <= u
        && u <= 0x200a) || u == 0x2028 || u == 0x2029 || u == 0x202f || u == 0x205f || u == 0x3000
}

/// Whether `c` is whitespace, as `is_space` says.
pub fn is_space_char(c: char) -> (r: bool)
    ensures
        r == is_space(c),
{
    let u = c as u32;
    (0x9 <= u && u <= 0xd) || u == 0x20 || u == 0x85 || u == 0xa0 || u == 0x1680 || (0x2000 <= u
        && u <= 0x200a) || u == 0x2028 || u == 0x2029 || u == 0x202f || u == 0x205f || u == 0x3000
}

/// `s` with its longest whitespace prefix removed.
pub open spec fn trim_start_spec(s: Seq<char>) -> Seq<char>
    decreases s.len(),
{
    if s.len() > 0 && is_space(s[0]) {
        trim_start_spec(s.drop_first())
    } else {
        s
    }
}

/// `s` with its longest whitespace suffix removed.
pub open spec fn trim_end_spec(s: Seq<char>) -> Seq<char>
    decreases s.len(),
{
    if s.len() > 0 && is_space(s[s.len() - 1]) {
        trim_end_spec(s.drop_last())
    } else {
        s
    }
}

/// `s` with whitespace removed from both ends.
pub open spec fn trim_spec(s: Seq<char>) -> Seq<char> {
    trim_end_spec(trim_start_spec(s))
}

/// Dropping the trailing run leaves no whitespace at the end.
proof fn lemma_trim_end_last(s: Seq<char>)
    ensures
        trim_end_spec(s).len() > 0 ==> !is_space(trim_end_spec(s)[trim_end_spec(s).len() - 1]),
    decreases s.len(),
{
    if s.len() > 0 && is_space(s[s.len() - 1]) {
        lemma_trim_end_last(s.drop_last());
    }
}

/// Dropping the trailing run keeps a prefix of the original.
proof fn lemma_trim_end_prefix(s: Seq<char>)
    ensures
        trim_end_spec(s).len() <= s.len(),
        forall|i: int| 0 <= i < trim_end_spec(s).len() ==> trim_end_spec(s)[i] == s[i],
    decreases s.len(),
{
    if s.len() > 0 && is_space(s[s.len() - 1]) {
        lemma_trim_end_prefix(s.drop_last());
        assert forall|i: int| 0 <= i < trim_end_spec(s).len() implies trim_end_spec(s)[i]
            == s[i] by {
            assert(trim_end_spec(s) == trim_end_spec(s.drop_last()));
            assert(trim_end_spec(s.drop_last())[i] == s.drop_last()[i]);
            assert(s.drop_last()[i] == s[i]);
        }
    }
}

/// Dropping the leading run leaves no whitespace at the front.
proof fn lemma_trim_start_first(s: Seq<char>)
    ensures
        trim_start_spec(s).len() > 0 ==> !is_space(trim_start_spec(s)[0]),
    decreases s.len(),
{
    if s.len() > 0 && is_space(s[0]) {
        lemma_trim_start_first(s.drop_first());
    }
}

/// Dropping the leading run keeps the last character when it is not
/// whitespace.
proof fn lemma_trim_start_last(s: Seq<char>)
    requires
        s.len() > 0,
        !is_space(s[s.len() - 1]),
    ensures
        trim_start_spec(s).len() > 0,
        trim_start_spec(s)[trim_start_spec(s).len() - 1] == s[s.len() - 1],
    decreases s.len(),
{
    if is_space(s[0]) {
        lemma_trim_start_last(s.drop_first());
    }
}

/// A nonempty trimmed value carries no whitespace at either end.
pub proof fn lemma_trim_ends(s: Seq<char>)
    ensures
        trim_spec(s).len() > 0 ==> !is_space(trim_spec(s)[0]) && !is_space(
            trim_spec(s)[trim_spec(s).len() - 1],
        ),
{
    lemma_trim_start_first(s);
    lemma_trim_end_last(trim_start_spec(s));
    lemma_trim_end_prefix(trim_start_spec(s));
}

/// A value ending in a non-whitespace character survives trimming.
pub proof fn lemma_trim_keeps_tail(s: Seq<char>)
    requires
        s.len() > 0,
        !is_space(s[s.len() - 1]),
    ensures
        trim_spec(s).len() > 0,
{
    lemma_trim_start_last(s);
    let t = trim_start_spec(s);
    assert(trim_end_spec(t) == t);
}

/// Removes leading and trailing whitespace.
pub fn trim(s: &str) -> (r: &str)
    ensures
        r@ == trim_spec(s@),
{
    let n = s.unicode_len();
    let mut i: usize = 0;
    proof {
        assert(s@.skip(0) =~= s@);
    }
    while i < n && is_space_char(s.get_char(i))
        invariant
            n == s@.len(),
            i <= n,
            trim_start_spec(s@) == trim_start_spec(s@.skip(i as int)),
        decreases n - i,
    {
        proof {
            assert(s@.skip(i as int).len() > 0);
            assert(s@.skip(i as int)[0] == s@[i as int]);
            assert(s@.skip(i as int).drop_first() =~= s@.skip(i as int + 1));
        }
        i = i + 1;
    }
    proof {
        assert(trim_start_spec(s@) == s@.skip(i as int));
    }
    let mut j: usize = n;
    while j > i && is_space_char(s.get_char(j - 1))
        invariant
            n == s@.len(),
            i <= j <= n,
            trim_start_spec(s@) == s@.skip(i as int),
            trim_end_spec(s@.skip(i as int)) == trim_end_spec(s@.subrange(i as int, j as int)),
        decreases j,
    {
        proof {
            let sub = s@.subrange(i as int, j as int);
            assert(sub.len() > 0);
            assert(sub[sub.len() - 1] == s@[j - 1]);
            assert(sub.drop_last() =~= s@.subrange(i as int, j as int - 1));
        }
        j = j - 1;
    }
    proof {
        let sub = s@.subrange(i as int, j as int);
        if j == i {
            assert(sub =~= Seq::<char>::empty());
            assert(trim_end_spec(sub) == sub);
        } else {
            assert(sub[sub.len() - 1] == s@[j - 1]);
            assert(trim_end_spec(sub) == sub);
        }
    }
    s.substring_char(i, j)
}

/// Whether the views of `a` and `b` are the same character sequence.
pub fn str_eq(a: &str, b: &str) -> (r: bool)
    ensures
        r == (a@ == b@),
{
    let na = a.unicode_len();
    let nb = b.unicode_len();
    if na != nb {
        return false;
    }
    let mut i: usize = 0;
    while i < na
        invariant
            na == a@.len(),
            na == b@.len(),
            i <= na,
            forall|k: int| 0 <= k < i ==> a@[k] == b@[k],
        decreases na - i,
    {
        if a.get_char(i) != b.get_char(i) {
            return false;
        }
        i = i + 1;
    }
    proof {
        assert(a@ =~= b@);
    }
    true
}

/// Whether `p` is a prefix of `s`.
pub fn starts_with_str(s: &str, p: &str) -> (r: bool)
    ensures
        r == p@.is_prefix_of(s@),
{
    let np = p.unicode_len();
    let ns = s.unicode_len();
    if np > ns {
        return false;
    }
    let mut i: usize = 0;
    while i < np
        invariant
            np == p@.len(),
            ns == s@.len(),
            np <= ns,
            i <= np,
            forall|k: int| 0 <= k < i ==> p@[k] == s@[k],
        decreases np - i,
    {
        if p.get_char(i) != s.get_char(i) {
            proof {
                assert(!(p@ =~= s@.subrange(0, np as int)));
            }
            return false;
        }
        i = i + 1;
    }
    proof {
        assert(p@ =~= s@.subrange(0, np as int));
    }
    true
}

/// The first position of `c` in `s`, if any.
pub fn find_char(s: &str, c: char) -> (r: Option<usize>)
    ensures
        match r {
            Some(i) => i < s@.len() && s@[i as int] == c && forall|k: int|
                0 <= k < i ==> s@[k] != c,
            None => !s@.contains(c),
        },
{
    let n = s.unicode_len();
    let mut i: usize = 0;
    while i < n
        invariant
            n == s@.len(),
            i <= n,
            forall|k: int| 0 <= k < i ==> s@[k] != c,
        decreases n - i,
    {
        if s.get_char(i) == c {
            return Some(i);
        }
        i = i + 1;
    }
    proof {
        assert(forall|k: int| 0 <= k < s@.len() ==> s@[k] != c);
    }
    None
}

/// Whether `s` holds the character `c`.
pub fn contains_char(s: &str, c: char) -> (r: bool)
    ensures
        r == s@.contains(c),
{
    match find_char(s, c) {
        Some(i) => {
            proof {
                assert(s@[i as int] == c);
            }
            true
        },
        None => false,
    }
}

/// `n` copies of `c`.
pub fn repeat_char(c: char, n: usize) -> (r: String)
    ensures
        r@ == Seq::new(n as nat, |i: int| c),
{
    let mut out = String::new();
    let mut i: usize = 0;
    while i < n
        invariant
            i <= n,
            out@.len() == i,
            forall|k: int| 0 <= k < i ==> out@[k] == c,
        decreases n - i,
    {
        out.push(c);
        i = i + 1;
    }
    proof {
        assert(out@ =~= Seq::new(n as nat, |i: int| c));
    }
    out
}

/// A copy of `s` as an owned `String`.
pub fn to_owned_string(s: &str) -> (r: String)
    ensures
        r@ == s@,
{
    String::from_str(s)
}

/// The lower-case character code used for case-insensitive comparison:
/// ASCII capital letters fold to their small forms, everything else is
/// itself.
pub open spec fn lower_code(c: char) -> u32 {
    let u = c as u32;
    if 65 <= u && u <= 90 {
        (u + 32) as u32
    } else {
        u
    }
}

/// Case-insensitive equality of character sequences, folding ASCII
/// letters only.
pub open spec fn eq_ci(a: Seq<char>, b: Seq<char>) -> bool {
    a.len() == b.len() && forall|i: int| 0 <= i < a.len() ==> lower_code(a[i]) == lower_code(b[i])
}

/// Compares two strings case-insensitively over ASCII letters.
pub fn eq_ignore_ascii(a: &str, b: &str) -> (r: bool)
    ensures
        r == eq_ci(a@, b@),
{
    let na = a.unicode_len();
    let nb = b.unicode_len();
    if na != nb {
        return false;
    }
    let mut i: usize = 0;
    while i < na
        invariant
            na == a@.len(),
            na == b@.len(),
            i <= na,
            forall|k: int| 0 <= k < i ==> lower_code(a@[k]) == lower_code(b@[k]),
        decreases na - i,
    {
        let ca = a.get_char(i) as u32;
        let cb = b.get_char(i) as u32;
        let fa = if 65 <= ca && ca <= 90 {
            ca + 32
        } else {
            ca
        };
        let fb = if 65 <= cb && cb <= 90 {
            cb + 32
        } else {
            cb
        };
        if fa != fb {
            return false;
        }
        i = i + 1;
    }
    true
}

/// Case-insensitive containment: some window of `s` matches `p`,
/// folding ASCII letters.
pub open spec fn contains_ci(s: Seq<char>, p: Seq<char>) -> bool {
    exists|i: int| 0 <= i && i + p.len() <= s.len() && eq_ci(#[trigger] s.subrange(i, i + p.len()), p)
}

/// Whether `s` holds `p` somewhere, case-insensitively over ASCII
/// letters.
pub fn contains_ignore_ascii(s: &str, p: &str) -> (r: bool)
    ensures
        r == contains_ci(s@, p@),
{
    let n = s.unicode_len();
    let np = p.unicode_len();
    if np > n {
        proof {
            assert(!contains_ci(s@, p@));
        }
        return false;
    }
    let mut i: usize = 0;
    while i <= n - np
        invariant
            n == s@.len(),
            np == p@.len(),
            np <= n,
            i <= n - np + 1,
            forall|k: int| 0 <= k < i ==> !eq_ci(#[trigger] s@.subrange(k, k + np as int), p@),
        decreases n - np + 1 - i,
    {
        if eq_ignore_ascii(s.substring_char(i, i + np), p) {
            proof {
                assert(eq_ci(s@.subrange(i as int, i as int + np as int), p@));
            }
            return true;
        }
        i = i + 1;
    }
    proof {
        assert forall|k: int| 0 <= k && k + p@.len() <= s@.len() implies !eq_ci(
            #[trigger] s@.subrange(k, k + p@.len()),
            p@,
        ) by {
            assert(k < i);
        }
    }
    false
}

/// The pieces of `s` separated by `sep`: always at least one piece, and
/// one more piece than separator occurrences.
pub open spec fn split_char_spec(s: Seq<char>, sep: char) -> Seq<Seq<char>>
    decreases s.len(),
{
    if s.len() == 0 {
        seq![Seq::<char>::empty()]
    } else if s[0] == sep {
        seq![Seq::<char>::empty()] + split_char_spec(s.drop_first(), sep)
    } else {
        let rest = split_char_spec(s.drop_first(), sep);
        seq![seq![s[0]] + rest[0]] + rest.drop_first()
    }
}

/// `split_char_spec` always yields at least one piece.
pub proof fn lemma_split_char_len(s: Seq<char>, sep: char)
    ensures
        split_char_spec(s, sep).len() >= 1,
    decreases s.len(),
{
    if s.len() == 0 {
    } else if s[0] == sep {
        lemma_split_char_len(s.drop_first(), sep);
    } else {
        lemma_split_char_len(s.drop_first(), sep);
    }
}

/// The views of the strings in `v`.
pub open spec fn views_of(v: Seq<String>) -> Seq<Seq<char>> {
    v.map_values(|t: String| t@)
}

/// Splits `s` at every occurrence of `sep`.
pub fn split_char(s: &str, sep: char) -> (r: Vec<String>)
    ensures
        views_of(r@) == split_char_spec(s@, sep),
{
    let n = s.unicode_len();
    let mut done: Vec<String> = Vec::new();
    let mut cur: String = String::new();
    let mut i: usize = 0;
    proof {
        lemma_split_char_len(s@, sep);
        assert(s@.skip(0) =~= s@);
    }
    while i < n
        invariant
            n == s@.len(),
            i <= n,
            split_char_spec(s@.skip(i as int), sep).len() >= 1,
            split_char_spec(s@, sep) == views_of(done@) + seq![
                cur@ + split_char_spec(s@.skip(i as int), sep)[0],
            ] + split_char_spec(s@.skip(i as int), sep).drop_first(),
        decreases n - i,
    {
        let ghost pre = s@.skip(i as int);
        proof {
            assert(pre.len() > 0);
            assert(pre[0] == s@[i as int]);
            assert(pre.drop_first() =~= s@.skip(i as int + 1));
            lemma_split_char_len(s@.skip(i as int + 1), sep);
        }
        let ghost done0 = done@;
        let ghost cur0 = cur@;
        let c = s.get_char(i);
        if c == sep {
            done.push(cur);
            cur = String::new();
            proof {
                let next = split_char_spec(s@.skip(i as int + 1), sep);
                assert(split_char_spec(pre, sep) == seq![Seq::<char>::empty()] + next);
                assert(split_char_spec(pre, sep)[0] == Seq::<char>::empty());
                assert(split_char_spec(pre, sep).drop_first() =~= next);
                assert(cur0 + split_char_spec(pre, sep)[0] =~= cur0);
                assert(views_of(done@) =~= views_of(done0) + seq![cur0]);
                assert(next =~= seq![next[0]] + next.drop_first());
                assert(cur@ + next[0] =~= next[0]);
                assert(split_char_spec(s@, sep) =~= views_of(done@) + seq![cur@ + next[0]]
                    + next.drop_first());
            }
        } else {
            cur.push(c);
            proof {
                let next = split_char_spec(s@.skip(i as int + 1), sep);
                assert(split_char_spec(pre, sep) == seq![seq![pre[0]] + next[0]]
                    + next.drop_first());
                assert(split_char_spec(pre, sep)[0] == seq![pre[0]] + next[0]);
                assert(split_char_spec(pre, sep).drop_first() =~= next.drop_first());
                assert(cur@ =~= cur0.push(pre[0]));
                assert(cur@ + next[0] =~= cur0 + (seq![pre[0]] + next[0]));
                assert(split_char_spec(s@, sep) =~= views_of(done@) + seq![cur@ + next[0]]
                    + next.drop_first());
            }
        }
        i = i + 1;
    }
    proof {
        let last = split_char_spec(s@.skip(i as int), sep);
        assert(s@.skip(i as int) =~= Seq::<char>::empty());
        assert(last == seq![Seq::<char>::empty()]);
        assert(cur@ + last[0] =~= cur@);
        assert(last.drop_first() =~= Seq::<Seq<char>>::empty());
    }
    let ghost done0 = done@;
    let ghost cur0 = cur@;
    done.push(cur);
    proof {
        assert(views_of(done@) =~= views_of(done0) + seq![cur0]);
        assert(views_of(done@) =~= split_char_spec(s@, sep));
    }
    done
}

/// The view of an optional string.
pub open spec fn view_opt(o: Option<String>) -> Option<Seq<char>> {
    match o {
        Some(s) => Some(s@),
        None => None,
    }
}

/// The parts of `s` before and after the first occurrence of `c`, when
/// `c` occurs at all.
pub open spec fn split_once_spec(s: Seq<char>, c: char) -> Option<(Seq<char>, Seq<char>)>
    decreases s.len(),
{
    if s.len() == 0 {
        None
    } else if s[0] == c {
        Some((Seq::<char>::empty(), s.drop_first()))
    } else {
        match split_once_spec(s.drop_first(), c) {
            Some(p) => Some((seq![s[0]] + p.0, p.1)),
            None => None,
        }
    }
}

/// When the first occurrence of `c` in `s` is at `i`, the first split
/// is around position `i`.
pub proof fn lemma_split_once_at(s: Seq<char>, c: char, i: int)
    requires
        0 <= i < s.len(),
        s[i] == c,
        forall|k: int| 0 <= k < i ==> s[k] != c,
    ensures
        split_once_spec(s, c) == Some((s.take(i), s.skip(i + 1))),
    decreases i,
{
    if i == 0 {
        assert(s.take(0) =~= Seq::<char>::empty());
        assert(s.skip(1) =~= s.drop_first());
    } else {
        lemma_split_once_at(s.drop_first(), c, i - 1);
        assert(seq![s[0]] + s.drop_first().take(i - 1) =~= s.take(i));
        assert(s.drop_first().skip(i) =~= s.skip(i + 1));
    }
}

/// The first split's parts are the surroundings of the first
/// occurrence of `c`.
pub proof fn lemma_split_once_parts(s: Seq<char>, c: char)
    requires
        split_once_spec(s, c) is Some,
    ensures
        ({
            let p = split_once_spec(s, c)->0;
            &&& p.0.len() + 1 + p.1.len() == s.len()
            &&& forall|i: int| 0 <= i < p.0.len() ==> p.0[i] == s[i]
            &&& forall|i: int| 0 <= i < p.0.len() ==> s[i] != c
            &&& s[p.0.len() as int] == c
            &&& p.1 == s.skip(p.0.len() as int + 1)
        }),
    decreases s.len(),
{
    if s.len() == 0 {
    } else if s[0] == c {
        assert(s.drop_first() =~= s.skip(1));
    } else {
        lemma_split_once_parts(s.drop_first(), c);
        let q = split_once_spec(s.drop_first(), c)->0;
        let p = split_once_spec(s, c)->0;
        assert(p.0 == seq![s[0]] + q.0);
        assert forall|i: int| 0 <= i < p.0.len() implies p.0[i] == s[i] && s[i] != c by {
            if i > 0 {
                assert(p.0[i] == q.0[i - 1]);
                assert(q.0[i - 1] == s.drop_first()[i - 1]);
                assert(s.drop_first()[i - 1] == s[i]);
            }
        }
        assert(s.drop_first()[q.0.len() as int] == s[p.0.len() as int]);
        assert(s.drop_first().skip(q.0.len() as int + 1) =~= s.skip(p.0.len() as int + 1));
    }
}

/// A sequence that splits into no parts holds no separator.
pub proof fn lemma_split_once_none_converse(s: Seq<char>, c: char)
    requires
        split_once_spec(s, c) is None,
    ensures
        !s.contains(c),
    decreases s.len(),
{
    if s.len() > 0 {
        lemma_split_once_none_converse(s.drop_first(), c);
        if s.contains(c) {
            let i = choose|i: int| 0 <= i < s.len() && s[i] == c;
            assert(i > 0);
            assert(s.drop_first()[i - 1] == c);
            assert(s.drop_first().contains(c));
        }
    }
}

/// When `c` does not occur in `s`, there is no first split.
pub proof fn lemma_split_once_none(s: Seq<char>, c: char)
    requires
        forall|k: int| 0 <= k < s.len() ==> s[k] != c,
    ensures
        split_once_spec(s, c) is None,
    decreases s.len(),
{
    if s.len() > 0 {
        lemma_split_once_none(s.drop_first(), c);
    }
}

/// Splits `s` around the first occurrence of `c`.
pub fn split_once_char<'a>(s: &'a str, c: char) -> (r: Option<(&'a str, &'a str)>)
    ensures
        match r {
            Some(p) => split_once_spec(s@, c) == Some((p.0@, p.1@)),
            None => split_once_spec(s@, c) is None,
        },
{
    let n = s.unicode_len();
    match find_char(s, c) {
        Some(i) => {
            proof {
                lemma_split_once_at(s@, c, i as int);
                assert(s@.subrange(0, i as int) =~= s@.take(i as int));
                assert(s@.subrange(i as int + 1, n as int) =~= s@.skip(i as int + 1));
            }
            Some((s.substring_char(0, i), s.substring_char(i + 1, n)))
        },
        None => {
            proof {
                assert(forall|k: int| 0 <= k < s@.len() ==> s@[k] != c);
                lemma_split_once_none(s@, c);
            }
            None
        },
    }
}

/// `s` with its leading run of `c` removed.
pub open spec fn trim_char_start_spec(s: Seq<char>, c: char) -> Seq<char>
    decreases s.len(),
{
    if s.len() > 0 && s[0] == c {
        trim_char_start_spec(s.drop_first(), c)
    } else {
        s
    }
}

/// `s` with its trailing run of `c` removed.
pub open spec fn trim_char_end_spec(s: Seq<char>, c: char) -> Seq<char>
    decreases s.len(),
{
    if s.len() > 0 && s[s.len() - 1] == c {
        trim_char_end_spec(s.drop_last(), c)
    } else {
        s
    }
}

/// `s` with leading and trailing runs of `c` removed.
pub open spec fn trim_char_spec(s: Seq<char>, c: char) -> Seq<char> {
    trim_char_end_spec(trim_char_start_spec(s, c), c)
}

/// Removes leading and trailing runs of `c`.
pub fn trim_char<'a>(s: &'a str, c: char) -> (r: &'a str)
    ensures
        r@ == trim_char_spec(s@, c),
{
    let n = s.unicode_len();
    let mut i: usize = 0;
    proof {
        assert(s@.skip(0) =~= s@);
    }
    while i < n && s.get_char(i) == c
        invariant
            n == s@.len(),
            i <= n,
            trim_char_start_spec(s@, c) == trim_char_start_spec(s@.skip(i as int), c),
        decreases n - i,
    {
        proof {
            assert(s@.skip(i as int)[0] == s@[i as int]);
            assert(s@.skip(i as int).drop_first() =~= s@.skip(i as int + 1));
        }
        i = i + 1;
    }
    proof {
        assert(trim_char_start_spec(s@, c) == s@.skip(i as int));
    }
    let mut j: usize = n;
    while j > i && s.get_char(j - 1) == c
        invariant
            n == s@.len(),
            i <= j <= n,
            trim_char_start_spec(s@, c) == s@.skip(i as int),
            trim_char_end_spec(s@.skip(i as int), c) == trim_char_end_spec(
                s@.subrange(i as int, j as int),
                c,
            ),
        decreases j,
    {
        proof {
            let sub = s@.subrange(i as int, j as int);
            assert(sub[sub.len() - 1] == s@[j - 1]);
            assert(sub.drop_last() =~= s@.subrange(i as int, j as int - 1));
        }
        j = j - 1;
    }
    proof {
        let sub = s@.subrange(i as int, j as int);
        if j == i {
            assert(sub =~= Seq::<char>::empty());
        } else {
            assert(sub[sub.len() - 1] == s@[j - 1]);
        }
        assert(trim_char_end_spec(sub, c) == sub);
    }
    s.substring_char(i, j)
}

/// Removes the leading run of `c` alone.
pub fn trim_char_start<'a>(s: &'a str, c: char) -> (r: &'a str)
    ensures
        r@ == trim_char_start_spec(s@, c),
{
    let n = s.unicode_len();
    let mut i: usize = 0;
    proof {
        assert(s@.skip(0) =~= s@);
    }
    while i < n && s.get_char(i) == c
        invariant
            n == s@.len(),
            i <= n,
            trim_char_start_spec(s@, c) == trim_char_start_spec(s@.skip(i as int), c),
        decreases n - i,
    {
        proof {
            assert(s@.skip(i as int)[0] == s@[i as int]);
            assert(s@.skip(i as int).drop_first() =~= s@.skip(i as int + 1));
        }
        i = i + 1;
    }
    proof {
        assert(trim_char_start_spec(s@, c) == s@.skip(i as int));
        assert(s@.subrange(i as int, n as int) =~= s@.skip(i as int));
    }
    s.substring_char(i, n)
}

/// Removes the trailing run of `c` alone.
pub fn trim_char_end<'a>(s: &'a str, c: char) -> (r: &'a str)
    ensures
        r@ == trim_char_end_spec(s@, c),
{
    let n = s.unicode_len();
    let mut j: usize = n;
    proof {
        assert(s@.subrange(0, n as int) =~= s@);
    }
    while j > 0 && s.get_char(j - 1) == c
        invariant
            n == s@.len(),
            j <= n,
            trim_char_end_spec(s@, c) == trim_char_end_spec(s@.subrange(0, j as int), c),
        decreases j,
    {
        proof {
            let sub = s@.subrange(0, j as int);
            assert(sub[sub.len() - 1] == s@[j - 1]);
            assert(sub.drop_last() =~= s@.subrange(0, j as int - 1));
        }
        j = j - 1;
    }
    proof {
        let sub = s@.subrange(0, j as int);
        if j == 0 {
            assert(sub =~= Seq::<char>::empty());
        } else {
            assert(sub[sub.len() - 1] == s@[j - 1]);
        }
        assert(trim_char_end_spec(sub, c) == sub);
    }
    s.substring_char(0, j)
}

/// `s` with every repetition of the prefix `p` removed from its front.
pub open spec fn strip_prefix_all_spec(s: Seq<char>, p: Seq<char>) -> Seq<char>
    decreases s.len(),
{
    if p.len() > 0 && p.is_prefix_of(s) {
        strip_prefix_all_spec(s.skip(p.len() as int), p)
    } else {
        s
    }
}

/// Removes every repetition of the prefix `p` from the front of `s`.
pub fn strip_prefix_all<'a>(s: &'a str, p: &str) -> (r: &'a str)
    ensures
        r@ == strip_prefix_all_spec(s@, p@),
{
    let n = s.unicode_len();
    let np = p.unicode_len();
    let mut i: usize = 0;
    proof {
        assert(s@.skip(0) =~= s@);
    }
    while np > 0 && np <= n - i && starts_with_str(s.substring_char(i, n), p)
        invariant
            n == s@.len(),
            np == p@.len(),
            i <= n,
            strip_prefix_all_spec(s@, p@) == strip_prefix_all_spec(s@.skip(i as int), p@),
        decreases n - i,
    {
        proof {
            assert(s@.subrange(i as int, n as int) =~= s@.skip(i as int));
            assert(s@.skip(i as int).skip(np as int) =~= s@.skip(i as int + np as int));
        }
        i = i + np;
    }
    proof {
        if np == 0 {
            assert(strip_prefix_all_spec(s@.skip(i as int), p@) == s@.skip(i as int));
        } else if np <= n - i {
            assert(s@.subrange(i as int, n as int) =~= s@.skip(i as int));
            assert(!p@.is_prefix_of(s@.skip(i as int)));
        } else {
            assert(p@.len() > s@.skip(i as int).len());
            assert(!p@.is_prefix_of(s@.skip(i as int)));
        }
        assert(s@.subrange(i as int, n as int) =~= s@.skip(i as int));
    }
    s.substring_char(i, n)
}

/// The first of `lines` that begins with `p`, if any.
pub open spec fn first_with_prefix(lines: Seq<Seq<char>>, p: Seq<char>) -> Option<Seq<char>>
    decreases lines.len(),
{
    if lines.len() == 0 {
        None
    } else if p.is_prefix_of(lines[0]) {
        Some(lines[0])
    } else {
        first_with_prefix(lines.drop_first(), p)
    }
}

/// The position of the first of `lines` that begins with `p`.
pub fn find_line_with_prefix(lines: &Vec<String>, p: &str) -> (r: Option<usize>)
    ensures
        match r {
            Some(i) => i < lines@.len() && first_with_prefix(views_of(lines@), p@) == Some(
                lines@[i as int]@,
            ),
            None => first_with_prefix(views_of(lines@), p@) is None,
        },
{
    let n = lines.len();
    let mut i: usize = 0;
    proof {
        assert(views_of(lines@).skip(0) =~= views_of(lines@));
    }
    while i < n
        invariant
            n == lines@.len(),
            i <= n,
            first_with_prefix(views_of(lines@), p@) == first_with_prefix(
                views_of(lines@).skip(i as int),
                p@,
            ),
        decreases n - i,
    {
        proof {
            assert(views_of(lines@).skip(i as int)[0] == views_of(lines@)[i as int]);
            assert(views_of(lines@).skip(i as int).drop_first() =~= views_of(lines@).skip(
                i as int + 1,
            ));
        }
        if starts_with_str(lines[i].as_str(), p) {
            return Some(i);
        }
        i = i + 1;
    }
    proof {
        assert(views_of(lines@).skip(i as int) =~= Seq::<Seq<char>>::empty());
    }
    None
}

/// `s` with every non-overlapping occurrence of the two-character pair
/// `a`,`b` replaced: dropped when `rep` is `None`, else replaced by the
/// single character in `rep`.
pub open spec fn replace_pair_spec(s: Seq<char>, a: char, b: char, rep: Option<char>) -> Seq<char>
    decreases s.len(),
{
    if s.len() >= 2 && s[0] == a && s[1] == b {
        match rep {
            Some(c) => seq![c] + replace_pair_spec(s.skip(2), a, b, rep),
            None => replace_pair_spec(s.skip(2), a, b, rep),
        }
    } else if s.len() == 0 {
        s
    } else {
        seq![s[0]] + replace_pair_spec(s.drop_first(), a, b, rep)
    }
}

/// Replaces every occurrence of the pair `a`,`b` as `replace_pair_spec`
/// says.
pub fn replace_pair(s: &str, a: char, b: char, rep: Option<char>) -> (r: String)
    ensures
        r@ == replace_pair_spec(s@, a, b, rep),
{
    let n = s.unicode_len();
    let mut out = String::new();
    let mut i: usize = 0;
    proof {
        assert(s@.skip(0) =~= s@);
    }
    while i < n
        invariant
            n == s@.len(),
            i <= n,
            replace_pair_spec(s@, a, b, rep) == out@ + replace_pair_spec(
                s@.skip(i as int),
                a,
                b,
                rep,
            ),
        decreases n - i,
    {
        let ghost suf = s@.skip(i as int);
        let ghost out0 = out@;
        proof {
            assert(suf[0] == s@[i as int]);
            if i + 1 < n {
                assert(suf[1] == s@[i as int + 1]);
            }
        }
        if i + 1 < n && s.get_char(i) == a && s.get_char(i + 1) == b {
            proof {
                assert(suf.skip(2) =~= s@.skip(i as int + 2));
            }
            match rep {
                Some(c) => {
                    out.push(c);
                    proof {
                        assert(out@ + replace_pair_spec(s@.skip(i as int + 2), a, b, rep) =~= out0
                            + replace_pair_spec(suf, a, b, rep));
                    }
                },
                None => {
                },
            }
            i = i + 2;
        } else {
            let c = s.get_char(i);
            out.push(c);
            proof {
                assert(suf.drop_first() =~= s@.skip(i as int + 1));
                assert(replace_pair_spec(suf, a, b, rep) == seq![s@[i as int]] + replace_pair_spec(
                    s@.skip(i as int + 1),
                    a,
                    b,
                    rep,
                ));
                assert(out@ + replace_pair_spec(s@.skip(i as int + 1), a, b, rep) =~= out0
                    + replace_pair_spec(suf, a, b, rep));
            }
            i = i + 1;
        }
    }
    proof {
        assert(s@.skip(i as int) =~= Seq::<char>::empty());
        assert(out@ + replace_pair_spec(s@.skip(i as int), a, b, rep) =~= out@);
    }
    out
}

/// A text line: a piece of the newline split with a trailing carriage
/// return dropped.
pub open spec fn strip_cr(p: Seq<char>) -> Seq<char> {
    if p.len() > 0 && p[p.len() - 1] == '\r' {
        p.drop_last()
    } else {
        p
    }
}

/// The lines of `s`: the pieces between newline characters, each with a
/// trailing carriage return dropped.
pub open spec fn lines_spec(s: Seq<char>) -> Seq<Seq<char>> {
    split_char_spec(s, '\n').map_values(|p: Seq<char>| strip_cr(p))
}

/// Splits `s` into its lines.
pub fn split_lines(s: &str) -> (r: Vec<String>)
    ensures
        views_of(r@) == lines_spec(s@),
{
    let pieces = split_char(s, '\n');
    let mut out: Vec<String> = Vec::new();
    let n = pieces.len();
    let mut i: usize = 0;
    while i < n
        invariant
            n == pieces@.len(),
            i <= n,
            views_of(pieces@) == split_char_spec(s@, '\n'),
            out@.len() == i,
            forall|k: int| 0 <= k < i ==> out@[k]@ == strip_cr(views_of(pieces@)[k]),
        decreases n - i,
    {
        let piece = &pieces[i];
        let np = piece.as_str().unicode_len();
        if np > 0 && piece.as_str().get_char(np - 1) == '\r' {
            let t = piece.as_str().substring_char(0, np - 1);
            proof {
                assert(piece@.subrange(0, np as int - 1) =~= piece@.drop_last());
            }
            out.push(to_owned_string(t));
        } else {
            out.push(to_owned_string(piece.as_str()));
        }
        i = i + 1;
    }
    proof {
        assert(views_of(out@) =~= lines_spec(s@));
    }
    out
}

/// The character for a single decimal digit.
pub open spec fn digit_char(d: int) -> char {
    if d == 0 {
        '0'
    } else if d == 1 {
        '1'
    } else if d == 2 {
        '2'
    } else if d == 3 {
        '3'
    } else if d == 4 {
        '4'
    } else if d == 5 {
        '5'
    } else if d == 6 {
        '6'
    } else if d == 7 {
        '7'
    } else if d == 8 {
        '8'
    } else {
        '9'
    }
}

/// The decimal digits of `n`, most significant first, with no leading
/// zeros (a lone zero for 0).
pub open spec fn dec_spec(n: nat) -> Seq<char>
    decreases n,
{
    if n < 10 {
        seq![digit_char(n as int)]
    } else {
        dec_spec(n / 10).push(digit_char((n % 10) as int))
    }
}

/// The character for digit `d`.
pub fn digit_to_char(d: u64) -> (c: char)
    requires
        d < 10,
    ensures
        c == digit_char(d as int),
{
    if d == 0 {
        '0'
    } else if d == 1 {
        '1'
    } else if d == 2 {
        '2'
    } else if d == 3 {
        '3'
    } else if d == 4 {
        '4'
    } else if d == 5 {
        '5'
    } else if d == 6 {
        '6'
    } else if d == 7 {
        '7'
    } else if d == 8 {
        '8'
    } else {
        '9'
    }
}

/// Writes `n` in decimal.
pub fn u64_to_dec(n: u64) -> (r: String)
    ensures
        r@ == dec_spec(n as nat),
    decreases n,
{
    if n < 10 {
        let mut s = String::new();
        s.push(digit_to_char(n));
        proof {
            assert(s@ =~= seq![digit_char(n as int)]);
        }
        s
    } else {
        let mut s = u64_to_dec(n / 10);
        s.push(digit_to_char(n % 10));
        s
    }
}

} // verus!
