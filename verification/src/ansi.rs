//! Visible-width measurement for styled text.
//!
//! A terminal styling sequence has the form: the escape character, `[`,
//! a run of digits or semicolons, and a final ASCII letter. The visible
//! width of a string is the number of characters left after every such
//! sequence is removed. Padding and border layout go by visible width,
//! so embedded styling never desyncs a frame.

use vstd::prelude::*;

verus! {

/// A parameter character of a styling sequence: a decimal digit or a
/// semicolon.
pub open spec fn is_csi_param(c: char) -> bool {
    let u = c as u32;
    (48 <= u && u <= 57) || c == ';'
}

/// An ASCII letter, the only characters that terminate a styling
/// sequence.
pub open spec fn is_ascii_letter(c: char) -> bool {
    let u = c as u32;
    (65 <= u && u <= 90) || (97 <= u && u <= 122)
}

/// The length of the longest prefix of `s` made of parameter
/// characters.
pub open spec fn param_len(s: Seq<char>) -> nat
    decreases s.len(),
{
    if s.len() > 0 && is_csi_param(s[0]) {
        (1 + param_len(s.drop_first())) as nat
    } else {
        0
    }
}

/// Whether `s` begins with a complete styling sequence.
pub open spec fn is_csi_start(s: Seq<char>) -> bool {
    &&& s.len() >= 2
    &&& s[0] == '\u{1b}'
    &&& s[1] == '['
    &&& 2 + param_len(s.skip(2)) < s.len()
    &&& is_ascii_letter(s[2 + param_len(s.skip(2)) as int])
}

/// The length of the styling sequence at the head of `s` (meaningful
/// when `is_csi_start(s)` holds).
pub open spec fn csi_len(s: Seq<char>) -> int {
    3 + param_len(s.skip(2)) as int
}

/// `s` with every complete styling sequence removed, scanning left to
/// right; characters of incomplete sequences are kept literally.
pub open spec fn strip_ansi(s: Seq<char>) -> Seq<char>
    decreases s.len(),
{
    if s.len() == 0 {
        s
    } else if is_csi_start(s) {
        strip_ansi(s.skip(csi_len(s)))
    } else {
        seq![s[0]] + strip_ansi(s.drop_first())
    }
}

/// The number of characters of `s` that a terminal shows.
pub open spec fn visible_width(s: Seq<char>) -> nat {
    strip_ansi(s).len()
}

/// Whether `c` is a parameter character, as `is_csi_param` says.
pub fn is_csi_param_char(c: char) -> (r: bool)
    ensures
        r == is_csi_param(c),
{
    let u = c as u32;
    (48 <= u && u <= 57) || c == ';'
}

/// Whether `c` is an ASCII letter, as `is_ascii_letter` says.
pub fn is_ascii_letter_char(c: char) -> (r: bool)
    ensures
        r == is_ascii_letter(c),
{
    let u = c as u32;
    (65 <= u && u <= 90) || (97 <= u && u <= 122)
}

/// If a complete styling sequence begins at position `i` of `s`,
/// returns the position just past its final letter.
fn csi_end_at(s: &str, i: usize, n: usize) -> (r: Option<usize>)
    requires
        n == s@.len(),
        i < n,
    ensures
        match r {
            Some(e) => is_csi_start(s@.skip(i as int)) && e == i + csi_len(s@.skip(i as int))
                && i < e <= n,
            None => !is_csi_start(s@.skip(i as int)),
        },
{
    let ghost suf = s@.skip(i as int);
    proof {
        assert(suf[0] == s@[i as int]);
    }
    if s.get_char(i) != '\u{1b}' {
        return None;
    }
    if i + 1 >= n {
        return None;
    }
    proof {
        assert(suf[1] == s@[i as int + 1]);
    }
    if s.get_char(i + 1) != '[' {
        return None;
    }
    let mut j: usize = i + 2;
    proof {
        assert(s@.skip(i as int + 2) =~= s@.skip(i as int + 2));
    }
    while j < n && is_csi_param_char(s.get_char(j))
        invariant
            n == s@.len(),
            i + 2 <= j <= n,
            param_len(s@.skip(i as int + 2)) == (j - (i + 2)) + param_len(s@.skip(j as int)),
        decreases n - j,
    {
        proof {
            assert(s@.skip(j as int).len() > 0);
            assert(s@.skip(j as int)[0] == s@[j as int]);
            assert(s@.skip(j as int).drop_first() =~= s@.skip(j as int + 1));
        }
        j = j + 1;
    }
    proof {
        if j == n {
            assert(s@.skip(j as int) =~= Seq::<char>::empty());
            assert(param_len(s@.skip(j as int)) == 0);
        } else {
            assert(s@.skip(j as int)[0] == s@[j as int]);
            assert(param_len(s@.skip(j as int)) == 0);
        }
        assert(suf.skip(2) =~= s@.skip(i as int + 2));
        assert(param_len(suf.skip(2)) == j - (i + 2));
    }
    if j < n && is_ascii_letter_char(s.get_char(j)) {
        proof {
            assert(suf[2 + param_len(suf.skip(2)) as int] == s@[j as int]);
            assert(is_csi_start(suf));
        }
        Some(j + 1)
    } else {
        proof {
            if j < n {
                assert(suf[2 + param_len(suf.skip(2)) as int] == s@[j as int]);
            }
            assert(!is_csi_start(suf));
        }
        None
    }
}

/// Removes every complete styling sequence from `s`; this is the
/// reference stripper that `visible_length` counts by.
pub fn strip_styling(s: &str) -> (r: String)
    ensures
        r@ == strip_ansi(s@),
{
    let n = s.unicode_len();
    let mut out = String::new();
    let mut i: usize = 0;
    proof {
        assert(s@.skip(0) =~= s@);
    }
    while i < n
        invariant
            n == s@.len(),
            i <= n,
            strip_ansi(s@) == out@ + strip_ansi(s@.skip(i as int)),
        decreases n - i,
    {
        let ghost suf = s@.skip(i as int);
        let ghost out0 = out@;
        match csi_end_at(s, i, n) {
            Some(e) => {
                proof {
                    assert(suf.len() > 0);
                    assert(suf.skip(csi_len(suf)) =~= s@.skip(e as int));
                    assert(strip_ansi(suf) == strip_ansi(s@.skip(e as int)));
                }
                i = e;
            },
            None => {
                let c = s.get_char(i);
                out.push(c);
                proof {
                    assert(suf.len() > 0);
                    assert(suf[0] == s@[i as int]);
                    assert(suf.drop_first() =~= s@.skip(i as int + 1));
                    assert(strip_ansi(suf) == seq![s@[i as int]] + strip_ansi(
                        s@.skip(i as int + 1),
                    ));
                    assert(out@ + strip_ansi(s@.skip(i as int + 1)) =~= out0 + strip_ansi(suf));
                }
                i = i + 1;
            },
        }
    }
    proof {
        assert(s@.skip(i as int) =~= Seq::<char>::empty());
        assert(strip_ansi(Seq::<char>::empty()).len() == 0);
        assert(out@ + strip_ansi(s@.skip(i as int)) =~= out@);
    }
    out
}

/// The visible character width of `s`: its length with every styling
/// sequence removed.
pub fn visible_length(s: &str) -> (r: usize)
    ensures
        r == visible_width(s@),
{
    let stripped = strip_styling(s);
    stripped.as_str().unicode_len()
}

/// A sequence without the escape character strips to itself: plain text
/// is as wide as it is long.
pub proof fn lemma_strip_esc_free(s: Seq<char>)
    requires
        forall|i: int| 0 <= i < s.len() ==> s[i] != '\u{1b}',
    ensures
        strip_ansi(s) == s,
    decreases s.len(),
{
    if s.len() == 0 {
    } else {
        lemma_strip_esc_free(s.drop_first());
        assert(seq![s[0]] + s.drop_first() =~= s);
    }
}

/// An escape-free prefix passes through the stripper unchanged, in
/// front of anything.
pub proof fn lemma_strip_concat_esc_free(a: Seq<char>, b: Seq<char>)
    requires
        forall|i: int| 0 <= i < a.len() ==> a[i] != '\u{1b}',
    ensures
        strip_ansi(a + b) == a + strip_ansi(b),
    decreases a.len(),
{
    if a.len() == 0 {
        assert(a + b =~= b);
        assert(a + strip_ansi(b) =~= strip_ansi(b));
    } else {
        assert((a + b)[0] == a[0]);
        assert(!is_csi_start(a + b));
        assert((a + b).drop_first() =~= a.drop_first() + b);
        lemma_strip_concat_esc_free(a.drop_first(), b);
        assert(seq![a[0]] + (a.drop_first() + strip_ansi(b)) =~= a + strip_ansi(b));
    }
}

/// `param_len` never exceeds the length of its argument.
pub proof fn lemma_param_len_bound(s: Seq<char>)
    ensures
        param_len(s) <= s.len(),
    decreases s.len(),
{
    if s.len() > 0 && is_csi_param(s[0]) {
        lemma_param_len_bound(s.drop_first());
    }
}

/// When `a` holds a non-parameter character, the parameter run of
/// `a + b` lies within `a`.
proof fn lemma_param_len_concat(a: Seq<char>, b: Seq<char>)
    requires
        exists|i: int| 0 <= i < a.len() && !is_csi_param(a[i]),
    ensures
        param_len(a + b) == param_len(a) < a.len(),
    decreases a.len(),
{
    let i = choose|i: int| 0 <= i < a.len() && !is_csi_param(a[i]);
    assert((a + b).len() > 0);
    assert((a + b)[0] == a[0]);
    if is_csi_param(a[0]) {
        assert(i != 0);
        assert((a + b).drop_first() =~= a.drop_first() + b);
        assert(!is_csi_param(a.drop_first()[i - 1]));
        lemma_param_len_concat(a.drop_first(), b);
    } else {
        assert(param_len(a + b) == 0);
        assert(param_len(a) == 0);
    }
}

/// When every character of `a` is a parameter character, the parameter
/// run of `a + b` continues into `b`.
proof fn lemma_param_len_all(a: Seq<char>, b: Seq<char>)
    requires
        forall|i: int| 0 <= i < a.len() ==> is_csi_param(a[i]),
    ensures
        param_len(a + b) == a.len() + param_len(b),
    decreases a.len(),
{
    if a.len() == 0 {
        assert(a + b =~= b);
    } else {
        assert((a + b)[0] == a[0]);
        assert((a + b).drop_first() =~= a.drop_first() + b);
        lemma_param_len_all(a.drop_first(), b);
    }
}

/// A complete styling sequence at the head of `a` is still there, with
/// the same length, after anything is appended.
proof fn lemma_csi_start_extends(a: Seq<char>, b: Seq<char>)
    requires
        is_csi_start(a),
    ensures
        is_csi_start(a + b),
        csi_len(a + b) == csi_len(a),
{
    let k = param_len(a.skip(2)) as int;
    assert(!is_csi_param(a.skip(2)[k]));
    assert((a + b).skip(2) =~= a.skip(2) + b);
    lemma_param_len_concat(a.skip(2), b);
    assert(param_len((a + b).skip(2)) == k);
    assert((a + b)[0] == a[0]);
    assert((a + b)[1] == a[1]);
    assert((a + b)[2 + k] == a[2 + k]);
}

/// A character that can stand right after `a` without extending or
/// completing a styling sequence begun in `a`.
pub open spec fn boundary_safe(c: char) -> bool {
    c != '[' && !is_csi_param(c) && !is_ascii_letter(c)
}

/// With a safe character on the boundary, a styling sequence at the
/// head of `a + b` is exactly one at the head of `a`.
proof fn lemma_csi_start_concat(a: Seq<char>, b: Seq<char>)
    requires
        a.len() > 0,
        b.len() > 0,
        boundary_safe(b[0]),
    ensures
        is_csi_start(a + b) == is_csi_start(a),
        is_csi_start(a) ==> csi_len(a + b) == csi_len(a),
{
    if is_csi_start(a) {
        lemma_csi_start_extends(a, b);
    } else {
        if (a + b).len() >= 2 && (a + b)[0] == '\u{1b}' && (a + b)[1] == '[' {
            if a.len() == 1 {
                assert((a + b)[1] == b[0]);
                assert(b[0] != '[');
                assert(false);
            } else {
                assert((a + b)[0] == a[0]);
                assert((a + b)[1] == a[1]);
                assert((a + b).skip(2) =~= a.skip(2) + b);
                if exists|i: int| 0 <= i < a.skip(2).len() && !is_csi_param(a.skip(2)[i]) {
                    lemma_param_len_concat(a.skip(2), b);
                    let k = param_len(a.skip(2)) as int;
                    assert(k < a.len() - 2);
                    assert((a + b)[2 + k] == a[2 + k]);
                    if is_csi_start(a + b) {
                        assert(is_ascii_letter(a[2 + k]));
                        assert(is_csi_start(a));
                        assert(false);
                    }
                } else {
                    assert(forall|i: int|
                        0 <= i < a.skip(2).len() ==> is_csi_param(a.skip(2)[i]));
                    lemma_param_len_all(a.skip(2), b);
                    assert(b[0] == (b + Seq::<char>::empty())[0]);
                    if b.len() > 0 && is_csi_param(b[0]) {
                        assert(false);
                    }
                    assert(param_len(b) == 0);
                    let k = a.len() - 2 + 0;
                    assert(param_len((a + b).skip(2)) == a.len() - 2);
                    if is_csi_start(a + b) {
                        assert((a + b)[2 + (a.len() - 2)] == b[0]);
                        assert(is_ascii_letter(b[0]));
                        assert(false);
                    }
                }
            }
        }
    }
}

/// With a safe character on the boundary, stripping distributes over
/// concatenation: no styling sequence spans the joint.
pub proof fn lemma_strip_concat_safe(a: Seq<char>, b: Seq<char>)
    requires
        b.len() > 0,
        boundary_safe(b[0]),
    ensures
        strip_ansi(a + b) == strip_ansi(a) + strip_ansi(b),
    decreases a.len(),
{
    if a.len() == 0 {
        assert(a + b =~= b);
        assert(strip_ansi(a) + strip_ansi(b) =~= strip_ansi(b));
    } else {
        lemma_csi_start_concat(a, b);
        if is_csi_start(a) {
            let l = csi_len(a);
            lemma_param_len_bound(a.skip(2));
            assert((a + b).skip(l) =~= a.skip(l) + b);
            lemma_strip_concat_safe(a.skip(l), b);
        } else {
            assert((a + b)[0] == a[0]);
            assert((a + b).drop_first() =~= a.drop_first() + b);
            lemma_strip_concat_safe(a.drop_first(), b);
            assert(seq![a[0]] + (strip_ansi(a.drop_first()) + strip_ansi(b)) =~= (seq![a[0]]
                + strip_ansi(a.drop_first())) + strip_ansi(b));
        }
    }
}

/// Text that strips to nothing (pure styling) adds no visible
/// characters in front of anything.
pub proof fn lemma_strip_empty_prefix(a: Seq<char>, b: Seq<char>)
    requires
        strip_ansi(a) == Seq::<char>::empty(),
    ensures
        strip_ansi(a + b) == strip_ansi(b),
    decreases a.len(),
{
    if a.len() == 0 {
        assert(a + b =~= b);
    } else {
        if !is_csi_start(a) {
            assert(strip_ansi(a) == seq![a[0]] + strip_ansi(a.drop_first()));
            assert(strip_ansi(a).len() > 0);
            assert(false);
        }
        let l = csi_len(a);
        lemma_csi_start_extends(a, b);
        lemma_param_len_bound(a.skip(2));
        assert((a + b).skip(l) =~= a.skip(l) + b);
        lemma_strip_empty_prefix(a.skip(l), b);
    }
}

/// Styling sequences carry no visible width: pure styling in front of
/// any text leaves the visible width unchanged.
pub proof fn lemma_styling_invisible(e: Seq<char>, s: Seq<char>)
    requires
        strip_ansi(e) == Seq::<char>::empty(),
    ensures
        visible_width(e + s) == visible_width(s),
{
    lemma_strip_empty_prefix(e, s);
}

/// A lone complete styling sequence strips to nothing.
pub proof fn lemma_csi_strips_empty(e: Seq<char>)
    requires
        is_csi_start(e),
        e.len() == csi_len(e),
    ensures
        strip_ansi(e) == Seq::<char>::empty(),
{
    assert(e.skip(csi_len(e)) =~= Seq::<char>::empty());
    assert(strip_ansi(e) == strip_ansi(e.skip(csi_len(e))));
    assert(strip_ansi(Seq::<char>::empty()) == Seq::<char>::empty());
}

} // verus!
