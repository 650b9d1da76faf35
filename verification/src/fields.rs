//! Field assembly.
//!
//! Each information category arrives as a priority and its rendered
//! text. Categories with priority zero are hidden; the rest are sorted
//! ascending by priority with a stable sort, so categories sharing a
//! priority keep the caller's order and the output is reproducible for
//! a fixed configuration.

use vstd::prelude::*;

use crate::text::{to_owned_string, views_of};

verus! {

/// One display field: a priority and its already-styled text.
pub struct Field {
    /// The configured order key; zero hides the field.
    pub priority: u8,
    /// The rendered line, possibly with styling sequences.
    pub text: String,
}

/// The view of one field.
pub open spec fn field_view(f: Field) -> (u8, Seq<char>) {
    (f.priority, f.text@)
}

/// The views of a sequence of fields.
pub open spec fn field_views(v: Seq<Field>) -> Seq<(u8, Seq<char>)> {
    v.map_values(|f: Field| field_view(f))
}

/// The views of priority/text pairs.
pub open spec fn pair_field_views(v: Seq<(u8, String)>) -> Seq<(u8, Seq<char>)> {
    v.map_values(|p: (u8, String)| (p.0, p.1@))
}

/// The fields that are shown: those with priority above zero.
pub open spec fn shown(s: Seq<(u8, Seq<char>)>) -> Seq<(u8, Seq<char>)> {
    s.filter(|f: (u8, Seq<char>)| f.0 > 0)
}

/// Stable insertion: `x` goes after every element whose key is at most
/// its own, so an element inserted later never jumps ahead of an equal
/// key.
pub open spec fn insert_sorted(x: (u8, Seq<char>), s: Seq<(u8, Seq<char>)>) -> Seq<
    (u8, Seq<char>),
>
    decreases s.len(),
{
    if s.len() == 0 {
        seq![x]
    } else if s[0].0 <= x.0 {
        seq![s[0]] + insert_sorted(x, s.drop_first())
    } else {
        seq![x] + s
    }
}

/// Stable insertion sort, processing the input left to right.
pub open spec fn sort_fields(s: Seq<(u8, Seq<char>)>) -> Seq<(u8, Seq<char>)>
    decreases s.len(),
{
    if s.len() == 0 {
        s
    } else {
        insert_sorted(s.last(), sort_fields(s.drop_last()))
    }
}

/// Non-decreasing priorities.
pub open spec fn sorted_by_priority(s: Seq<(u8, Seq<char>)>) -> bool {
    forall|i: int, j: int| 0 <= i <= j < s.len() ==> s[i].0 <= s[j].0
}

/// Where `insert_sorted` puts its element: past the leading run of
/// keys at most its own.
pub open spec fn insert_pos(x: (u8, Seq<char>), s: Seq<(u8, Seq<char>)>) -> int
    decreases s.len(),
{
    if s.len() == 0 {
        0
    } else if s[0].0 <= x.0 {
        1 + insert_pos(x, s.drop_first())
    } else {
        0
    }
}

/// The closed form of stable insertion: the sequence splits at the
/// insertion position.
pub proof fn lemma_insert_closed(x: (u8, Seq<char>), s: Seq<(u8, Seq<char>)>)
    ensures
        0 <= insert_pos(x, s) <= s.len(),
        forall|k: int| 0 <= k < insert_pos(x, s) ==> s[k].0 <= x.0,
        insert_pos(x, s) < s.len() ==> s[insert_pos(x, s)].0 > x.0,
        insert_sorted(x, s) == s.take(insert_pos(x, s)) + seq![x] + s.skip(insert_pos(x, s)),
    decreases s.len(),
{
    if s.len() == 0 {
        assert(insert_sorted(x, s) =~= s.take(0) + seq![x] + s.skip(0));
    } else if s[0].0 <= x.0 {
        lemma_insert_closed(x, s.drop_first());
        let p = insert_pos(x, s.drop_first());
        assert(seq![s[0]] + (s.drop_first().take(p) + seq![x] + s.drop_first().skip(p)) =~= s.take(
            p + 1,
        ) + seq![x] + s.skip(p + 1));
        assert forall|k: int| 0 <= k < insert_pos(x, s) implies s[k].0 <= x.0 by {
            if k > 0 {
                assert(s.drop_first()[k - 1] == s[k]);
            }
        }
    } else {
        assert(insert_sorted(x, s) =~= s.take(0) + seq![x] + s.skip(0));
    }
}

/// When the first `j` keys are at most `x`'s and the next is greater,
/// the insertion position is `j`.
pub proof fn lemma_insert_pos_at(x: (u8, Seq<char>), s: Seq<(u8, Seq<char>)>, j: int)
    requires
        0 <= j <= s.len(),
        forall|k: int| 0 <= k < j ==> s[k].0 <= x.0,
        j < s.len() ==> s[j].0 > x.0,
    ensures
        insert_pos(x, s) == j,
    decreases j,
{
    if s.len() == 0 {
    } else if j == 0 {
    } else {
        assert(s[0].0 <= x.0);
        assert(forall|k: int| 0 <= k < j - 1 ==> s.drop_first()[k].0 <= x.0);
        assert(j - 1 < s.drop_first().len() ==> s.drop_first()[j - 1].0 > x.0);
        lemma_insert_pos_at(x, s.drop_first(), j - 1);
    }
}

/// Insertion grows the length by one.
pub proof fn lemma_insert_len(x: (u8, Seq<char>), s: Seq<(u8, Seq<char>)>)
    ensures
        insert_sorted(x, s).len() == s.len() + 1,
{
    lemma_insert_closed(x, s);
}

/// Sorting keeps the length.
pub proof fn lemma_sort_len(s: Seq<(u8, Seq<char>)>)
    ensures
        sort_fields(s).len() == s.len(),
    decreases s.len(),
{
    if s.len() > 0 {
        lemma_sort_len(s.drop_last());
        lemma_insert_len(s.last(), sort_fields(s.drop_last()));
    }
}

/// Inserting into a sorted sequence keeps it sorted.
pub proof fn lemma_insert_sorted_stays(x: (u8, Seq<char>), s: Seq<(u8, Seq<char>)>)
    requires
        sorted_by_priority(s),
    ensures
        sorted_by_priority(insert_sorted(x, s)),
{
    lemma_insert_closed(x, s);
    let p = insert_pos(x, s);
    let r = insert_sorted(x, s);
    assert forall|i: int, j: int| 0 <= i <= j < r.len() implies r[i].0 <= r[j].0 by {
        if i < p {
            assert(r[i] == s[i]);
        } else if i == p {
            assert(r[i] == x);
        } else {
            assert(r[i] == s[i - 1]);
        }
        if j < p {
            assert(r[j] == s[j]);
        } else if j == p {
            assert(r[j] == x);
        } else {
            assert(r[j] == s[j - 1]);
        }
        if i == p && p <= j - 1 {
            assert(s[p].0 > x.0);
            assert(s[p].0 <= s[j - 1].0);
        }
    }
}

/// The sort's output is sorted.
pub proof fn lemma_sort_sorted(s: Seq<(u8, Seq<char>)>)
    ensures
        sorted_by_priority(sort_fields(s)),
    decreases s.len(),
{
    if s.len() > 0 {
        lemma_sort_sorted(s.drop_last());
        lemma_insert_sorted_stays(s.last(), sort_fields(s.drop_last()));
    }
}

/// Inserting into a sorted sequence appends to the run of its own key
/// and leaves every other key's run alone.
pub proof fn lemma_insert_filter(x: (u8, Seq<char>), s: Seq<(u8, Seq<char>)>, key: u8)
    requires
        sorted_by_priority(s),
    ensures
        insert_sorted(x, s).filter(|f: (u8, Seq<char>)| f.0 == key) == if x.0 == key {
            s.filter(|f: (u8, Seq<char>)| f.0 == key).push(x)
        } else {
            s.filter(|f: (u8, Seq<char>)| f.0 == key)
        },
{
    let pred = |f: (u8, Seq<char>)| f.0 == key;
    lemma_insert_closed(x, s);
    let p = insert_pos(x, s);
    let a = s.take(p);
    let b = s.skip(p);
    assert(s =~= a + b);
    Seq::filter_distributes_over_add(a, b, pred);
    Seq::filter_distributes_over_add(a + seq![x], b, pred);
    Seq::filter_distributes_over_add(a, seq![x], pred);
    assert(insert_sorted(x, s) =~= (a + seq![x]) + b);
    reveal(Seq::filter);
    assert(seq![x].drop_last() =~= Seq::<(u8, Seq<char>)>::empty());
    assert(Seq::<(u8, Seq<char>)>::empty().filter(pred) =~= Seq::<(u8, Seq<char>)>::empty());
    if x.0 == key {
        assert(seq![x].filter(pred) =~= seq![x]);
        assert forall|k: int| 0 <= k < b.len() implies !pred(b[k]) by {
            assert(b[k] == s[p + k]);
            assert(s[p].0 > x.0);
            assert(s[p].0 <= s[p + k].0);
        }
        assert(b.filter(pred) =~= Seq::<(u8, Seq<char>)>::empty()) by {
            b.lemma_all_neg_filter_empty(pred);
        }
        assert(insert_sorted(x, s).filter(pred) =~= s.filter(pred).push(x));
    } else {
        assert(seq![x].filter(pred) =~= Seq::<(u8, Seq<char>)>::empty());
        assert(insert_sorted(x, s).filter(pred) =~= s.filter(pred));
    }
}

/// Stability: for every priority, the sorted sequence lists exactly
/// the input's fields of that priority, in the input's order.
pub proof fn lemma_sort_stable(s: Seq<(u8, Seq<char>)>, key: u8)
    ensures
        sort_fields(s).filter(|f: (u8, Seq<char>)| f.0 == key) == s.filter(
            |f: (u8, Seq<char>)| f.0 == key,
        ),
    decreases s.len(),
{
    let pred = |f: (u8, Seq<char>)| f.0 == key;
    if s.len() > 0 {
        lemma_sort_stable(s.drop_last(), key);
        lemma_sort_sorted(s.drop_last());
        lemma_insert_filter(s.last(), sort_fields(s.drop_last()), key);
        s.drop_last().lemma_filter_push(s.last(), pred);
        assert(s.drop_last().push(s.last()) =~= s);
    }
}

/// What field assembly yields: the shown fields stably sorted by
/// priority, texts only.
pub open spec fn assemble_spec(s: Seq<(u8, Seq<char>)>) -> Seq<Seq<char>> {
    sort_fields(shown(s)).map_values(|f: (u8, Seq<char>)| f.1)
}

/// The output holds exactly one line per input field with priority
/// above zero.
pub proof fn lemma_assemble_len(s: Seq<(u8, Seq<char>)>)
    ensures
        assemble_spec(s).len() == shown(s).len(),
{
    lemma_sort_len(shown(s));
}

/// The output's underlying field order is non-decreasing by priority.
pub proof fn lemma_assemble_sorted(s: Seq<(u8, Seq<char>)>)
    ensures
        sorted_by_priority(sort_fields(shown(s))),
{
    lemma_sort_sorted(shown(s));
}

/// Fields sharing a priority keep their input order in the output.
pub proof fn lemma_assemble_stable(s: Seq<(u8, Seq<char>)>, key: u8)
    ensures
        sort_fields(shown(s)).filter(|f: (u8, Seq<char>)| f.0 == key) == shown(s).filter(
            |f: (u8, Seq<char>)| f.0 == key,
        ),
{
    lemma_sort_stable(shown(s), key);
}

/// Drops the hidden fields, stable-sorts the rest ascending by
/// priority, and emits their texts in that order.
pub fn assemble_fields(fields: &Vec<Field>) -> (r: Vec<String>)
    ensures
        views_of(r@) == assemble_spec(field_views(fields@)),
{
    let ghost fv = field_views(fields@);
    let ghost pred = |f: (u8, Seq<char>)| f.0 > 0;
    let n = fields.len();
    let mut kept: Vec<(u8, String)> = Vec::new();
    let mut i: usize = 0;
    proof {
        assert(fv.take(0) =~= Seq::<(u8, Seq<char>)>::empty());
        assert(fv.take(0).filter(pred) =~= Seq::<(u8, Seq<char>)>::empty());
        assert(pair_field_views(kept@) =~= Seq::<(u8, Seq<char>)>::empty());
    }
    while i < n
        invariant
            n == fields@.len(),
            fv == field_views(fields@),
            i <= n,
            pair_field_views(kept@) == fv.take(i as int).filter(
                |f: (u8, Seq<char>)| f.0 > 0,
            ),
        decreases n - i,
    {
        let ghost kept0 = kept@;
        proof {
            fv.take(i as int).lemma_filter_push(fv[i as int], |f: (u8, Seq<char>)| f.0 > 0);
            assert(fv.take(i as int + 1) =~= fv.take(i as int).push(fv[i as int]));
            assert(fv[i as int] == field_view(fields@[i as int]));
        }
        let f = &fields[i];
        if f.priority > 0 {
            kept.push((f.priority, to_owned_string(f.text.as_str())));
            proof {
                assert(pair_field_views(kept@) =~= pair_field_views(kept0).push(fv[i as int]));
            }
        }
        i = i + 1;
    }
    proof {
        assert(fv.take(i as int) =~= fv);
    }
    let ghost kv = pair_field_views(kept@);
    let m = kept.len();
    let mut sorted: Vec<(u8, String)> = Vec::new();
    let mut i2: usize = 0;
    proof {
        assert(kv.take(0) =~= Seq::<(u8, Seq<char>)>::empty());
        assert(pair_field_views(sorted@) =~= sort_fields(kv.take(0)));
        assert(m == kv.len());
    }
    while i2 < m
        invariant
            m == kept@.len(),
            m == kv.len(),
            kv == pair_field_views(kept@),
            i2 <= m,
            pair_field_views(sorted@) == sort_fields(kv.take(i2 as int)),
        decreases m - i2,
    {
        let ghost sv = pair_field_views(sorted@);
        let x = &kept[i2];
        let xp = x.0;
        let xt = to_owned_string(x.1.as_str());
        proof {
            assert(kv[i2 as int] == (kept@[i2 as int].0, kept@[i2 as int].1@));
            lemma_sort_len(kv.take(i2 as int));
        }
        let len = sorted.len();
        let mut j: usize = 0;
        while j < len && sorted[j].0 <= xp
            invariant
                len == sorted@.len(),
                j <= len,
                sv == pair_field_views(sorted@),
                forall|k: int| 0 <= k < j ==> sv[k].0 <= xp,
            decreases len - j,
        {
            proof {
                assert(sv[j as int] == (sorted@[j as int].0, sorted@[j as int].1@));
            }
            j = j + 1;
        }
        proof {
            if j < len {
                assert(sv[j as int] == (sorted@[j as int].0, sorted@[j as int].1@));
                assert(sv[j as int].0 > xp);
            }
            lemma_insert_pos_at(kv[i2 as int], sv, j as int);
            lemma_insert_closed(kv[i2 as int], sv);
        }
        sorted.insert(j, (xp, xt));
        proof {
            assert(kv.take(i2 as int + 1).drop_last() =~= kv.take(i2 as int));
            assert(kv.take(i2 as int + 1).last() == kv[i2 as int]);
            assert(sorted@ =~= sorted@.subrange(0, j as int) + seq![sorted@[j as int]]
                + sorted@.subrange(j as int + 1, sorted@.len() as int));
            assert(pair_field_views(sorted@) =~= sv.take(j as int) + seq![kv[i2 as int]]
                + sv.skip(j as int));
            assert(pair_field_views(sorted@) =~= sort_fields(kv.take(i2 as int + 1)));
        }
        i2 = i2 + 1;
    }
    proof {
        assert(kv.take(i2 as int) =~= kv);
    }
    let p = sorted.len();
    let mut out: Vec<String> = Vec::new();
    let mut i3: usize = 0;
    while i3 < p
        invariant
            p == sorted@.len(),
            i3 <= p,
            out@.len() == i3,
            forall|k: int| 0 <= k < i3 ==> out@[k]@ == pair_field_views(sorted@)[k].1,
        decreases p - i3,
    {
        proof {
            assert(pair_field_views(sorted@)[i3 as int] == (
                sorted@[i3 as int].0,
                sorted@[i3 as int].1@,
            ));
        }
        out.push(to_owned_string(sorted[i3].1.as_str()));
        i3 = i3 + 1;
    }
    proof {
        assert(views_of(out@) =~= pair_field_views(sorted@).map_values(
            |f: (u8, Seq<char>)| f.1,
        ));
        assert(pair_field_views(sorted@) == sort_fields(shown(fv)));
    }
    out
}

} // verus!
