//! The fallback fact-detection engine.
//!
//! A fact (device name, OS identity, hostname) is resolved by an ordered
//! chain of detectors. Each candidate a detector yields is normalized —
//! whitespace trimmed, embedded NUL characters and literal backslash-n
//! pairs removed, vendor sentinel strings collapsed to empty — and the
//! first candidate that is still nonempty wins. A chain whose detectors
//! all fail falls back to a caller-supplied default.

use vstd::prelude::*;

use crate::text::{is_space, trim_spec, trim, str_eq, to_owned_string};

verus! {

/// `s` with every literal two-character backslash-n pair removed,
/// scanning left to right without overlap.
pub open spec fn strip_bsn(s: Seq<char>) -> Seq<char>
    decreases s.len(),
{
    if s.len() >= 2 && s[0] == '\\' && s[1] == 'n' {
        strip_bsn(s.skip(2))
    } else if s.len() == 0 {
        s
    } else {
        seq![s[0]] + strip_bsn(s.drop_first())
    }
}

/// `s` with every NUL character removed.
pub open spec fn strip_nul(s: Seq<char>) -> Seq<char> {
    s.filter(|c: char| c != '\0')
}

/// The vendor placeholder strings that stand for absent data.
pub open spec fn sentinel(s: Seq<char>) -> bool {
    ||| s == "Not Specified"@
    ||| s == "Default string"@
    ||| s == "To be filled by O.E.M."@
    ||| s == "System Product Name"@
}

/// The shared cleaning step: trim, drop literal backslash-n pairs, drop
/// NUL characters, trim again.
pub open spec fn cleanup_spec(s: Seq<char>) -> Seq<char> {
    trim_spec(strip_nul(strip_bsn(trim_spec(s))))
}

/// Full candidate normalization: cleaning, then sentinel values
/// collapse to empty.
pub open spec fn normalize_spec(s: Seq<char>) -> Seq<char> {
    if sentinel(cleanup_spec(s)) {
        Seq::<char>::empty()
    } else {
        cleanup_spec(s)
    }
}

/// A candidate is valid when something is left of it after
/// normalization.
pub open spec fn valid_candidate(s: Seq<char>) -> bool {
    normalize_spec(s).len() > 0
}

/// Removes every literal backslash-n pair.
fn strip_backslash_n(s: &str) -> (r: String)
    ensures
        r@ == strip_bsn(s@),
{
    let n = s.unicode_len();
    let mut out = String::new();
    let mut i: usize = 0;
    proof {
        assert(s@.skip(0) =~= s@);
    }
    while i < n
        invariant
            n == s@.len(),
            i <= n,
            strip_bsn(s@) == out@ + strip_bsn(s@.skip(i as int)),
        decreases n - i,
    {
        let ghost suf = s@.skip(i as int);
        let ghost out0 = out@;
        proof {
            assert(suf[0] == s@[i as int]);
            if i + 1 < n {
                assert(suf[1] == s@[i as int + 1]);
            }
        }
        if i + 1 < n && s.get_char(i) == '\\' && s.get_char(i + 1) == 'n' {
            proof {
                assert(suf.skip(2) =~= s@.skip(i as int + 2));
                assert(strip_bsn(suf) == strip_bsn(s@.skip(i as int + 2)));
            }
            i = i + 2;
        } else {
            let c = s.get_char(i);
            out.push(c);
            proof {
                assert(suf.drop_first() =~= s@.skip(i as int + 1));
                assert(strip_bsn(suf) == seq![s@[i as int]] + strip_bsn(s@.skip(i as int + 1)));
                assert(out@ + strip_bsn(s@.skip(i as int + 1)) =~= out0 + strip_bsn(suf));
            }
            i = i + 1;
        }
    }
    proof {
        assert(s@.skip(i as int) =~= Seq::<char>::empty());
        assert(out@ + strip_bsn(s@.skip(i as int)) =~= out@);
    }
    out
}

/// Removes every NUL character.
fn strip_nul_chars(s: &str) -> (r: String)
    ensures
        r@ == strip_nul(s@),
{
    let n = s.unicode_len();
    let mut out = String::new();
    let mut i: usize = 0;
    proof {
        assert(s@.take(0) =~= Seq::<char>::empty());
        assert(Seq::<char>::empty().filter(|c: char| c != '\0') =~= Seq::<char>::empty());
    }
    while i < n
        invariant
            n == s@.len(),
            i <= n,
            out@ == s@.take(i as int).filter(|c: char| c != '\0'),
        decreases n - i,
    {
        let c = s.get_char(i);
        proof {
            s@.take(i as int).lemma_filter_push(s@[i as int], |c: char| c != '\0');
            assert(s@.take(i as int + 1) =~= s@.take(i as int).push(s@[i as int]));
        }
        if c != '\0' {
            out.push(c);
        }
        i = i + 1;
    }
    proof {
        assert(s@.take(i as int) =~= s@);
    }
    out
}

/// Whether `s` is one of the vendor sentinel strings.
pub fn is_sentinel(s: &str) -> (r: bool)
    ensures
        r == sentinel(s@),
{
    str_eq(s, "Not Specified") || str_eq(s, "Default string") || str_eq(
        s,
        "To be filled by O.E.M.",
    ) || str_eq(s, "System Product Name")
}

/// The shared cleaning step of every detector chain, as `cleanup_spec`
/// says.
pub fn cleanup_string(s: &str) -> (r: String)
    ensures
        r@ == cleanup_spec(s@),
{
    let t = trim(s);
    let without_bsn = strip_backslash_n(t);
    let without_nul = strip_nul_chars(without_bsn.as_str());
    to_owned_string(trim(without_nul.as_str()))
}

/// Normalizes one candidate, as `normalize_spec` says.
pub fn normalize_candidate(s: &str) -> (r: String)
    ensures
        r@ == normalize_spec(s@),
{
    let cleaned = cleanup_string(s);
    if is_sentinel(cleaned.as_str()) {
        String::new()
    } else {
        cleaned
    }
}

/// The views of a chain's optional candidates.
pub open spec fn option_views(v: Seq<Option<String>>) -> Seq<Option<Seq<char>>> {
    v.map_values(
        |o: Option<String>|
            match o {
                Some(s) => Some(s@),
                None => None,
            },
    )
}

/// Whether an optional candidate is present and valid.
pub open spec fn opt_valid(o: Option<Seq<char>>) -> bool {
    o matches Some(c) && valid_candidate(c)
}

/// What an ordered chain of candidates resolves to: the normalized
/// value of the first valid candidate, else the default.
pub open spec fn resolve_spec(cands: Seq<Option<Seq<char>>>, default: Seq<char>) -> Seq<char>
    decreases cands.len(),
{
    if cands.len() == 0 {
        default
    } else if opt_valid(cands[0]) {
        normalize_spec(cands[0]->0)
    } else {
        resolve_spec(cands.drop_first(), default)
    }
}

/// Resolves a chain of already-fetched candidates in order, stopping at
/// the first valid one.
pub fn resolve_candidates(cands: &Vec<Option<String>>, default: &str) -> (r: String)
    ensures
        r@ == resolve_spec(option_views(cands@), default@),
{
    let ghost full = option_views(cands@);
    let n = cands.len();
    let mut i: usize = 0;
    proof {
        assert(full.skip(0) =~= full);
    }
    while i < n
        invariant
            n == cands@.len(),
            i <= n,
            full == option_views(cands@),
            resolve_spec(full, default@) == resolve_spec(full.skip(i as int), default@),
        decreases n - i,
    {
        proof {
            assert(full.skip(i as int)[0] == full[i as int]);
            assert(full.skip(i as int).drop_first() =~= full.skip(i as int + 1));
        }
        match &cands[i] {
            Some(c) => {
                let v = normalize_candidate(c.as_str());
                if v.as_str().unicode_len() > 0 {
                    proof {
                        assert(opt_valid(full[i as int]));
                        assert(resolve_spec(full.skip(i as int), default@) == normalize_spec(c@));
                    }
                    return v;
                }
                proof {
                    assert(!opt_valid(full[i as int]));
                }
            },
            None => {
                proof {
                    assert(!opt_valid(full[i as int]));
                }
            },
        }
        i = i + 1;
    }
    proof {
        assert(full.skip(i as int) =~= Seq::<Option<Seq<char>>>::empty());
    }
    to_owned_string(default)
}

/// A probe chain driven step by step: the caller invokes the detector
/// the probe asks for and feeds its candidate back, so detectors after
/// the first valid one are never invoked.
pub struct FactProbe {
    /// How many detectors the chain has.
    pub num_detectors: usize,
    /// The position of the next detector to try.
    pub next: usize,
    /// The normalized value of the first valid candidate, once seen.
    pub resolved: Option<String>,
}

impl FactProbe {
    /// Well-formed: the cursor never runs past the chain, and a
    /// resolved value is nonempty.
    pub open spec fn wf(&self) -> bool {
        &&& self.next <= self.num_detectors
        &&& (self.resolved matches Some(v) ==> v@.len() > 0)
    }

    /// A fresh chain of `num_detectors` detectors.
    pub fn new(num_detectors: usize) -> (r: Self)
        ensures
            r.wf(),
            r.num_detectors == num_detectors,
            r.next == 0,
            r.resolved is None,
    {
        FactProbe { num_detectors, next: 0, resolved: None }
    }

    /// The position of the detector to invoke next; `None` once the
    /// chain is resolved or exhausted, so no detector is ever invoked
    /// after a valid candidate arrived.
    pub fn next_detector(&self) -> (r: Option<usize>)
        ensures
            r == if self.resolved is None && self.next < self.num_detectors {
                Some(self.next)
            } else {
                None::<usize>
            },
    {
        if self.resolved.is_none() && self.next < self.num_detectors {
            Some(self.next)
        } else {
            None
        }
    }

    /// Feeds the candidate of the detector at the cursor: a valid
    /// candidate resolves the chain, anything else advances past the
    /// detector.
    pub fn feed(&mut self, candidate: Option<&str>)
        requires
            old(self).wf(),
            old(self).resolved is None,
            old(self).next < old(self).num_detectors,
        ensures
            final(self).wf(),
            final(self).num_detectors == old(self).num_detectors,
            final(self).next == old(self).next + 1,
            match candidate {
                Some(c) => if valid_candidate(c@) {
                    final(self).resolved matches Some(v) && v@ == normalize_spec(c@)
                } else {
                    final(self).resolved is None
                },
                None => final(self).resolved is None,
            },
    {
        self.next = self.next + 1;
        if let Some(c) = candidate {
            let v = normalize_candidate(c);
            if v.as_str().unicode_len() > 0 {
                self.resolved = Some(v);
            }
        }
    }

    /// The chain's final value: the resolved fact, else the caller's
    /// default — never an empty string when the default is nonempty.
    pub fn into_result(self, default: &str) -> (r: String)
        ensures
            r@ == match self.resolved {
                Some(v) => v@,
                None => default@,
            },
    {
        match self.resolved {
            Some(v) => v,
            None => to_owned_string(default),
        }
    }
}

/// Short-circuit rule: when the first valid candidate sits at position
/// `i` of `cands`, the chain's result is settled there — appending any
/// further detector outcomes changes nothing.
pub proof fn lemma_short_circuit(
    cands: Seq<Option<Seq<char>>>,
    i: int,
    rest: Seq<Option<Seq<char>>>,
    default: Seq<char>,
)
    requires
        0 <= i < cands.len(),
        opt_valid(cands[i]),
        forall|j: int| 0 <= j < i ==> !opt_valid(#[trigger] cands[j]),
    ensures
        resolve_spec(cands + rest, default) == normalize_spec(cands[i]->0),
        resolve_spec(cands + rest, default) == resolve_spec(cands, default),
    decreases i,
{
    assert((cands + rest)[0] == cands[0]);
    if i == 0 {
    } else {
        assert((cands + rest).drop_first() =~= cands.drop_first() + rest);
        assert(forall|j: int|
            0 <= j < i - 1 ==> !opt_valid(#[trigger] cands.drop_first()[j]));
        lemma_short_circuit(cands.drop_first(), i - 1, rest, default);
    }
}

/// Unfolding helpers for `trim_start_spec` over sequences that carry no
/// leading or trailing whitespace, no backslash and no NUL: the shared
/// cleaning step leaves such a sequence unchanged.
proof fn lemma_strip_bsn_id(s: Seq<char>)
    requires
        forall|i: int| 0 <= i < s.len() ==> s[i] != '\\',
    ensures
        strip_bsn(s) == s,
    decreases s.len(),
{
    if s.len() == 0 {
    } else {
        lemma_strip_bsn_id(s.drop_first());
        assert(seq![s[0]] + s.drop_first() =~= s);
    }
}

proof fn lemma_strip_nul_id(s: Seq<char>)
    requires
        forall|i: int| 0 <= i < s.len() ==> s[i] != '\0',
    ensures
        strip_nul(s) == s,
    decreases s.len(),
{
    if s.len() == 0 {
        assert(s.filter(|c: char| c != '\0') =~= s);
    } else {
        lemma_strip_nul_id(s.drop_last());
        s.drop_last().lemma_filter_push(s.last(), |c: char| c != '\0');
        assert(s.drop_last().push(s.last()) =~= s);
        assert(strip_nul(s) =~= s);
    }
}

proof fn lemma_cleanup_id(s: Seq<char>)
    requires
        s.len() > 0,
        !is_space(s[0]),
        !is_space(s[s.len() - 1]),
        forall|i: int| 0 <= i < s.len() ==> s[i] != '\\' && s[i] != '\0',
    ensures
        cleanup_spec(s) == s,
{
    assert(trim_spec(s) == s);
    lemma_strip_bsn_id(s);
    lemma_strip_nul_id(s);
}

/// Sentinel rule: a vendor sentinel string is never a valid candidate,
/// whatever detector produced it; nor are the empty string and strings
/// of NUL characters alone.
pub proof fn lemma_sentinel_invalid(s: Seq<char>)
    requires
        sentinel(s) || s.len() == 0 || (forall|i: int| 0 <= i < s.len() ==> s[i] == '\0'),
    ensures
        !valid_candidate(s),
{
    if sentinel(s) {
        reveal_strlit("Not Specified");
        reveal_strlit("Default string");
        reveal_strlit("To be filled by O.E.M.");
        reveal_strlit("System Product Name");
        lemma_cleanup_id(s);
        assert(normalize_spec(s).len() == 0);
    } else if s.len() == 0 {
        assert(trim_spec(s) == s);
        lemma_strip_bsn_id(s);
        lemma_strip_nul_id(s);
        assert(cleanup_spec(s).len() == 0);
        assert(normalize_spec(s).len() == 0);
    } else {
        assert(forall|i: int| 0 <= i < s.len() ==> s[i] == '\0');
        lemma_trim_nul_only(s);
        lemma_strip_bsn_nul_only(trim_spec(s));
        lemma_strip_nul_all(strip_bsn(trim_spec(s)));
        assert(cleanup_spec(s).len() == 0);
        assert(normalize_spec(s).len() == 0);
    }
}

/// NUL is not whitespace, so trimming leaves a NUL-only sequence.
proof fn lemma_trim_nul_only(s: Seq<char>)
    requires
        forall|i: int| 0 <= i < s.len() ==> s[i] == '\0',
    ensures
        trim_spec(s) == s,
{
    if s.len() > 0 {
        assert(!is_space(s[0]));
        assert(!is_space(s[s.len() - 1]));
    }
}

proof fn lemma_strip_bsn_nul_only(s: Seq<char>)
    requires
        forall|i: int| 0 <= i < s.len() ==> s[i] == '\0',
    ensures
        strip_bsn(s) == s,
        forall|i: int| 0 <= i < strip_bsn(s).len() ==> strip_bsn(s)[i] == '\0',
{
    lemma_strip_bsn_id(s);
}

proof fn lemma_strip_nul_all(s: Seq<char>)
    requires
        forall|i: int| 0 <= i < s.len() ==> s[i] == '\0',
    ensures
        strip_nul(s).len() == 0,
    decreases s.len(),
{
    if s.len() == 0 {
        assert(s.filter(|c: char| c != '\0') =~= s);
    } else {
        lemma_strip_nul_all(s.drop_last());
        s.drop_last().lemma_filter_push(s.last(), |c: char| c != '\0');
        assert(s.drop_last().push(s.last()) =~= s);
    }
}

} // verus!
