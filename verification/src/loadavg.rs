//! Load-average formatting.
//!
//! The three load figures arrive as decimal strings; each is read into
//! hundredths — a fixed-point model, no floating point — and printed
//! back with exactly two decimal places. A figure that does not read
//! as a decimal counts as zero. The uptime helper's output is
//! preferred; the kernel pseudo-file is the fallback; with neither,
//! the display degrades to "N/A".

use vstd::prelude::*;

use crate::text::{
    contains_char, dec_spec, digit_char, digit_to_char, lemma_split_once_none_converse,
    lemma_split_once_parts, split_char, split_char_spec, split_once_char, split_once_spec,
    to_owned_string, trim, trim_spec, u64_to_dec, view_opt, views_of,
};

verus! {

/// A decimal digit.
pub open spec fn is_ascii_digit(c: char) -> bool {
    let u = c as u32;
    48 <= u && u <= 57
}

/// The value of a decimal digit.
pub open spec fn digit_val(c: char) -> int {
    c as u32 - 48
}

/// The value of a digit run, most significant first.
pub open spec fn digits_val(s: Seq<char>) -> int
    decreases s.len(),
{
    if s.len() == 0 {
        0
    } else {
        digits_val(s.drop_last()) * 10 + digit_val(s.last())
    }
}

/// Powers of ten.
spec fn pow10(n: nat) -> int
    decreases n,
{
    if n == 0 {
        1
    } else {
        10 * pow10((n - 1) as nat)
    }
}

/// A digit run's value is bounded by the power of ten of its length.
proof fn lemma_digits_val_bound(s: Seq<char>)
    requires
        forall|i: int| 0 <= i < s.len() ==> is_ascii_digit(s[i]),
    ensures
        0 <= digits_val(s) < pow10(s.len()),
    decreases s.len(),
{
    if s.len() > 0 {
        lemma_digits_val_bound(s.drop_last());
    }
}

/// Powers of ten are positive.
proof fn lemma_pow10_pos(n: nat)
    ensures
        pow10(n) >= 1,
    decreases n,
{
    if n > 0 {
        lemma_pow10_pos((n - 1) as nat);
    }
}

/// Powers of ten grow.
proof fn lemma_pow10_le(a: nat, b: nat)
    requires
        a <= b,
    ensures
        pow10(a) <= pow10(b),
    decreases b,
{
    if a < b {
        lemma_pow10_le(a, (b - 1) as nat);
        lemma_pow10_pos((b - 1) as nat);
    }
}

/// The digit and dot characters of a load figure; everything else is
/// dropped before reading.
pub open spec fn load_digits(s: Seq<char>) -> Seq<char> {
    s.filter(|c: char| is_ascii_digit(c) || c == '.')
}

/// The hundredths contributed by the fraction part: the first two
/// fraction digits, with the third rounding half-up.
pub open spec fn frac_centi(frac: Seq<char>) -> int {
    let d1: int = if frac.len() >= 1 {
        digit_val(frac[0])
    } else {
        0
    };
    let d2: int = if frac.len() >= 2 {
        digit_val(frac[1])
    } else {
        0
    };
    let up: int = if frac.len() >= 3 && digit_val(frac[2]) >= 5 {
        1
    } else {
        0
    };
    d1 * 10 + d2 + up
}

/// The hundredths a load figure reads to. A figure with a second dot,
/// nothing left after cleaning, or an unreasonably long whole part
/// reads as zero.
pub open spec fn load_centi(s: Seq<char>) -> int {
    let f = load_digits(s);
    match split_once_spec(f, '.') {
        None => if f.len() == 0 || f.len() > 15 {
            0
        } else {
            digits_val(f) * 100
        },
        Some(p) => if p.1.contains('.') || p.0.len() > 15 {
            0
        } else {
            digits_val(p.0) * 100 + frac_centi(p.1)
        },
    }
}

/// Reads a digit run, bounded so the hundredths fit comfortably.
fn digits_to_u64(w: &str) -> (r: u64)
    requires
        w@.len() <= 15,
        forall|i: int| 0 <= i < w@.len() ==> is_ascii_digit(w@[i]),
    ensures
        r as int == digits_val(w@),
        r < 1000000000000000,
{
    proof {
        lemma_digits_val_bound(w@);
        lemma_pow10_le(w@.len(), 15);
        assert(pow10(15) == 1000000000000000) by {
            reveal_with_fuel(pow10, 17);
        }
    }
    let n = w.unicode_len();
    let mut acc: u64 = 0;
    let mut i: usize = 0;
    proof {
        assert(w@.take(0) =~= Seq::<char>::empty());
    }
    while i < n
        invariant
            n == w@.len(),
            n <= 15,
            i <= n,
            forall|k: int| 0 <= k < w@.len() ==> is_ascii_digit(w@[k]),
            acc as int == digits_val(w@.take(i as int)),
            (acc as int) < pow10(i as nat),
        decreases n - i,
    {
        proof {
            assert(w@.take(i as int + 1).drop_last() =~= w@.take(i as int));
            assert(w@.take(i as int + 1).last() == w@[i as int]);
            lemma_pow10_le(i as nat + 1, 15);
            assert(pow10(15) == 1000000000000000) by {
                reveal_with_fuel(pow10, 17);
            }
        }
        let c = w.get_char(i);
        let d = (c as u32 - 48) as u64;
        acc = acc * 10 + d;
        i = i + 1;
    }
    proof {
        assert(w@.take(i as int) =~= w@);
    }
    acc
}

/// Reads the fraction part into hundredths.
fn frac_to_centi(frac: &str) -> (r: u64)
    requires
        forall|i: int| 0 <= i < frac@.len() ==> is_ascii_digit(frac@[i]),
    ensures
        r as int == frac_centi(frac@),
        r <= 100,
{
    let n = frac.unicode_len();
    let d1: u64 = if n >= 1 {
        (frac.get_char(0) as u32 - 48) as u64
    } else {
        0
    };
    let d2: u64 = if n >= 2 {
        (frac.get_char(1) as u32 - 48) as u64
    } else {
        0
    };
    let up: u64 = if n >= 3 && (frac.get_char(2) as u32 - 48) >= 5 {
        1
    } else {
        0
    };
    d1 * 10 + d2 + up
}

/// Reads one load figure into hundredths, as `load_centi` says.
pub fn load_field_centi(s: &str) -> (r: u64)
    ensures
        r as int == load_centi(s@),
{
    let n = s.unicode_len();
    let mut f = String::new();
    let mut i: usize = 0;
    proof {
        assert(s@.take(0) =~= Seq::<char>::empty());
        assert(f@ =~= s@.take(0).filter(|c: char| is_ascii_digit(c) || c == '.'));
    }
    while i < n
        invariant
            n == s@.len(),
            i <= n,
            f@ == s@.take(i as int).filter(|c: char| is_ascii_digit(c) || c == '.'),
        decreases n - i,
    {
        let c = s.get_char(i);
        proof {
            s@.take(i as int).lemma_filter_push(s@[i as int], |c: char| is_ascii_digit(c) || c
                == '.');
            assert(s@.take(i as int + 1) =~= s@.take(i as int).push(s@[i as int]));
        }
        let u = c as u32;
        if (48 <= u && u <= 57) || c == '.' {
            f.push(c);
        }
        i = i + 1;
    }
    proof {
        assert(s@.take(i as int) =~= s@);
        assert(f@ == load_digits(s@));
        assert(forall|k: int|
            0 <= k < f@.len() ==> (is_ascii_digit(#[trigger] f@[k]) || f@[k] == '.')) by {
            broadcast use vstd::seq_lib::group_filter_ensures;

        }
    }
    match split_once_char(f.as_str(), '.') {
        None => {
            let fl = f.as_str().unicode_len();
            if fl == 0 || fl > 15 {
                0
            } else {
                proof {
                    lemma_split_once_none_converse(f@, '.');
                    assert(forall|k: int| 0 <= k < f@.len() ==> f@[k] != '.');
                }
                let whole = digits_to_u64(f.as_str());
                whole * 100
            }
        },
        Some((w, frac)) => {
            proof {
                lemma_split_once_parts(f@, '.');
                assert forall|k: int| 0 <= k < w@.len() implies is_ascii_digit(w@[k]) by {
                    assert(w@[k] == f@[k]);
                    assert(f@[k] != '.');
                    assert(is_ascii_digit(f@[k]) || f@[k] == '.');
                }
            }
            if contains_char(frac, '.') || w.unicode_len() > 15 {
                0
            } else {
                proof {
                    assert(forall|k: int|
                        0 <= k < frac@.len() ==> (is_ascii_digit(#[trigger] frac@[k]) || frac@[k]
                            == '.')) by {
                        assert(forall|k: int|
                            0 <= k < frac@.len() ==> frac@[k] == f@[w@.len() + 1 + k]);
                    }
                    assert(forall|k: int| 0 <= k < frac@.len() ==> is_ascii_digit(frac@[k]));
                }
                let whole = digits_to_u64(w);
                let fr = frac_to_centi(frac);
                whole * 100 + fr
            }
        },
    }
}

/// Writes hundredths with exactly two decimal places.
pub open spec fn format_centi(v: int) -> Seq<char> {
    dec_spec((v / 100) as nat) + "."@ + seq![digit_char((v / 10) % 10), digit_char(v % 10)]
}

/// Formats hundredths, as `format_centi` says.
pub fn format_centi_string(v: u64) -> (r: String)
    ensures
        r@ == format_centi(v as int),
{
    let mut s = u64_to_dec(v / 100);
    s.append(".");
    s.push(digit_to_char((v / 10) % 10));
    s.push(digit_to_char(v % 10));
    proof {
        assert(s@ =~= format_centi(v as int));
    }
    s
}

/// What the three figures format to, separated by comma-space.
pub open spec fn format_load_spec(a: Seq<char>, b: Seq<char>, c: Seq<char>) -> Seq<char> {
    format_centi(load_centi(a)) + ", "@ + format_centi(load_centi(b)) + ", "@ + format_centi(
        load_centi(c),
    )
}

/// Formats the first three figures of a split load line.
pub fn format_load(parts: &Vec<String>) -> (r: String)
    requires
        parts@.len() >= 3,
    ensures
        r@ == format_load_spec(parts@[0]@, parts@[1]@, parts@[2]@),
{
    let a = load_field_centi(parts[0].as_str());
    let b = load_field_centi(parts[1].as_str());
    let c = load_field_centi(parts[2].as_str());
    let mut s = format_centi_string(a);
    s.append(", ");
    let sb = format_centi_string(b);
    s.append(sb.as_str());
    s.append(", ");
    let sc = format_centi_string(c);
    s.append(sc.as_str());
    s
}

/// The whitespace-separated fields of a load line: split on spaces
/// after trimming, empty pieces dropped.
pub open spec fn ws_fields(s: Seq<char>) -> Seq<Seq<char>> {
    split_char_spec(trim_spec(s), ' ').filter(|p: Seq<char>| p.len() > 0)
}

/// Splits a load line into its fields, as `ws_fields` says.
pub fn fields_of(s: &str) -> (r: Vec<String>)
    ensures
        views_of(r@) == ws_fields(s@),
{
    let t = trim(s);
    let pieces = split_char(t, ' ');
    let ghost pv = views_of(pieces@);
    let n = pieces.len();
    let mut out: Vec<String> = Vec::new();
    let mut i: usize = 0;
    proof {
        assert(pv.take(0) =~= Seq::<Seq<char>>::empty());
        assert(views_of(out@) =~= pv.take(0).filter(|p: Seq<char>| p.len() > 0));
    }
    while i < n
        invariant
            n == pieces@.len(),
            pv == views_of(pieces@),
            i <= n,
            views_of(out@) == pv.take(i as int).filter(|p: Seq<char>| p.len() > 0),
        decreases n - i,
    {
        let ghost out0 = out@;
        proof {
            pv.take(i as int).lemma_filter_push(pv[i as int], |p: Seq<char>| p.len() > 0);
            assert(pv.take(i as int + 1) =~= pv.take(i as int).push(pv[i as int]));
            assert(pv[i as int] == pieces@[i as int]@);
        }
        if pieces[i].as_str().unicode_len() > 0 {
            out.push(to_owned_string(pieces[i].as_str()));
            proof {
                assert(views_of(out@) =~= views_of(out0).push(pv[i as int]));
            }
        }
        i = i + 1;
    }
    proof {
        assert(pv.take(i as int) =~= pv);
    }
    out
}

/// What the load-average display shows: the helper's figures when it
/// yielded at least three, else the pseudo-file's, else "N/A".
pub open spec fn loadavg_spec(helper: Option<Seq<char>>, proc_file: Option<Seq<char>>) -> Seq<
    char,
> {
    let hf = match helper {
        Some(s) => ws_fields(s),
        None => Seq::<Seq<char>>::empty(),
    };
    if hf.len() >= 3 {
        format_load_spec(hf[0], hf[1], hf[2])
    } else {
        match proc_file {
            Some(c) => {
                let pf = ws_fields(c);
                if pf.len() >= 3 {
                    format_load_spec(pf[0], pf[1], pf[2])
                } else {
                    "N/A"@
                }
            },
            None => "N/A"@,
        }
    }
}

/// Resolves the load-average display, as `loadavg_spec` says.
pub fn get_loadavg(helper: &Option<String>, proc_file: &Option<String>) -> (r: String)
    ensures
        r@ == loadavg_spec(view_opt(*helper), view_opt(*proc_file)),
{
    if let Some(h) = helper {
        let hf = fields_of(h.as_str());
        if hf.len() >= 3 {
            proof {
                assert(views_of(hf@)[0] == hf@[0]@);
                assert(views_of(hf@)[1] == hf@[1]@);
                assert(views_of(hf@)[2] == hf@[2]@);
            }
            return format_load(&hf);
        }
    }
    if let Some(c) = proc_file {
        let pf = fields_of(c.as_str());
        if pf.len() >= 3 {
            proof {
                assert(views_of(pf@)[0] == pf@[0]@);
                assert(views_of(pf@)[1] == pf@[1]@);
                assert(views_of(pf@)[2] == pf@[2]@);
            }
            return format_load(&pf);
        }
    }
    to_owned_string("N/A")
}

} // verus!
