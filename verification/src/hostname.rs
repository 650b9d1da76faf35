//! Hostname resolution.
//!
//! Four tiers are tried in order: the primitive OS hostname call, a
//! kernel pseudo-file, the output of a hostname helper program, and two
//! recognized environment variables. The system call's value is cut at
//! its first embedded NUL; file and helper output lose their trailing
//! newlines. This is the one chain that surfaces failure to the caller
//! instead of substituting a placeholder.

use vstd::prelude::*;

use crate::probe::{opt_valid, resolve_candidates, resolve_spec};
use crate::text::{find_char, to_owned_string, trim_char_end, trim_char_end_spec, view_opt};

verus! {

/// Why hostname resolution failed: every tier of the chain failed.
#[derive(Clone, Copy, Debug, PartialEq, Eq, Structural)]
pub enum HostnameError {
    /// No tier produced a valid hostname.
    NotFound,
}

/// The raw values the four tiers produced, `None` where a tier's
/// underlying source was unavailable.
pub struct HostnameSources {
    /// What the primitive OS hostname call returned.
    pub system_call: Option<String>,
    /// The content of the kernel hostname pseudo-file.
    pub proc_file: Option<String>,
    /// The standard output of the hostname helper, only when it exited
    /// successfully.
    pub command: Option<String>,
    /// The first value found among the recognized environment
    /// variables.
    pub environment: Option<String>,
}

/// The part of `s` before its first NUL character: what follows an
/// embedded NUL is not part of the name.
pub open spec fn until_nul(s: Seq<char>) -> Seq<char>
    decreases s.len(),
{
    if s.len() == 0 {
        s
    } else if s[0] == '\0' {
        Seq::<char>::empty()
    } else {
        seq![s[0]] + until_nul(s.drop_first())
    }
}

/// When the first NUL of `s` sits at `i` (or `s` has none and `i` is
/// its length), the prefix before it is `s.take(i)`.
proof fn lemma_until_nul_take(s: Seq<char>, i: int)
    requires
        0 <= i <= s.len(),
        forall|k: int| 0 <= k < i ==> s[k] != '\0',
        i < s.len() ==> s[i] == '\0',
    ensures
        until_nul(s) == s.take(i),
    decreases i,
{
    if s.len() == 0 {
        assert(s.take(0) =~= s);
    } else if i == 0 {
        if s.len() > 0 && s[0] == '\0' {
            assert(s.take(0) =~= Seq::<char>::empty());
        } else {
            assert(s.take(0) =~= Seq::<char>::empty());
            assert(until_nul(s) == seq![s[0]] + until_nul(s.drop_first()));
            assert(false);
        }
    } else {
        lemma_until_nul_take(s.drop_first(), i - 1);
        assert(seq![s[0]] + s.drop_first().take(i - 1) =~= s.take(i));
    }
}

/// Cuts `s` at its first NUL character.
pub fn take_until_nul(s: &str) -> (r: &str)
    ensures
        r@ == until_nul(s@),
{
    let n = s.unicode_len();
    match find_char(s, '\0') {
        Some(i) => {
            proof {
                lemma_until_nul_take(s@, i as int);
                assert(s@.subrange(0, i as int) =~= s@.take(i as int));
            }
            s.substring_char(0, i)
        },
        None => {
            proof {
                assert(forall|k: int| 0 <= k < s@.len() ==> s@[k] != '\0');
                lemma_until_nul_take(s@, n as int);
                assert(s@.take(n as int) =~= s@);
            }
            s
        },
    }
}

impl HostnameSources {
    /// The candidate each tier hands the chain: the system call's
    /// value cut at its first NUL, file and helper output with
    /// trailing newlines removed, the environment value as it is.
    pub open spec fn candidates(&self) -> Seq<Option<Seq<char>>> {
        seq![
            match view_opt(self.system_call) {
                Some(v) => Some(until_nul(v)),
                None => None,
            },
            match view_opt(self.proc_file) {
                Some(v) => Some(trim_char_end_spec(v, '\n')),
                None => None,
            },
            match view_opt(self.command) {
                Some(v) => Some(trim_char_end_spec(v, '\n')),
                None => None,
            },
            view_opt(self.environment),
        ]
    }
}

/// Resolves the hostname through the four tiers in order. On success
/// `hostname` holds the normalized value of the first valid tier; when
/// every tier fails, `hostname` is left alone and the failure is
/// surfaced.
pub fn get_hostname(hostname: &mut String, sources: &HostnameSources) -> (r: Result<
    (),
    HostnameError,
>)
    ensures
        r is Ok <==> resolve_spec(sources.candidates(), Seq::<char>::empty()).len() > 0,
        r is Ok ==> final(hostname)@ == resolve_spec(
            sources.candidates(),
            Seq::<char>::empty(),
        ),
        r is Err ==> final(hostname)@ == old(hostname)@ && r == Err::<(), HostnameError>(
            HostnameError::NotFound,
        ),
{
    let mut cands: Vec<Option<String>> = Vec::new();
    match &sources.system_call {
        Some(v) => {
            let t = take_until_nul(v.as_str());
            cands.push(Some(to_owned_string(t)));
        },
        None => {
            cands.push(None);
        },
    }
    match &sources.proc_file {
        Some(v) => {
            let t = trim_char_end(v.as_str(), '\n');
            cands.push(Some(to_owned_string(t)));
        },
        None => {
            cands.push(None);
        },
    }
    match &sources.command {
        Some(v) => {
            let t = trim_char_end(v.as_str(), '\n');
            cands.push(Some(to_owned_string(t)));
        },
        None => {
            cands.push(None);
        },
    }
    match &sources.environment {
        Some(v) => {
            cands.push(Some(to_owned_string(v.as_str())));
        },
        None => {
            cands.push(None);
        },
    }
    proof {
        assert(crate::probe::option_views(cands@) =~= sources.candidates());
        reveal_strlit("");
        assert(""@ =~= Seq::<char>::empty());
    }
    let resolved = resolve_candidates(&cands, "");
    if resolved.as_str().unicode_len() > 0 {
        *hostname = resolved;
        Ok(())
    } else {
        Err(HostnameError::NotFound)
    }
}

/// The failing tiers of a chain never mask a later valid tier, and a
/// valid tier settles the result: restated for the hostname chain.
pub proof fn lemma_hostname_first_valid(sources: HostnameSources, i: int)
    requires
        0 <= i < sources.candidates().len(),
        opt_valid(sources.candidates()[i]),
        forall|j: int| 0 <= j < i ==> !opt_valid(#[trigger] sources.candidates()[j]),
    ensures
        resolve_spec(sources.candidates(), Seq::<char>::empty()) == crate::probe::normalize_spec(
            sources.candidates()[i]->0,
        ),
{
    let cs = sources.candidates();
    crate::probe::lemma_short_circuit(cs, i, Seq::<Option<Seq<char>>>::empty(), Seq::<char>::empty());
    assert(cs + Seq::<Option<Seq<char>>>::empty() =~= cs);
}

} // verus!
