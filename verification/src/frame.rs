//! Border rendering.
//!
//! A group of already-styled lines becomes a framed block: a top rule,
//! one padded content row per line, and a bottom rule, drawn with
//! box-drawing characters. The content width is the maximum visible
//! width of the group, so embedded styling never desyncs the border.
//! A border decoration (`pre`/`post`) wraps every border piece; when it
//! is pure styling it adds no visible width.

use vstd::prelude::*;

use crate::ansi::{
    lemma_strip_concat_esc_free, lemma_strip_concat_safe, strip_ansi, visible_length,
    visible_width,
};
use crate::text::{repeat_char, to_owned_string, views_of};

verus! {

/// `w` box-drawing dashes.
pub open spec fn dashes(w: int) -> Seq<char> {
    Seq::new(w as nat, |i: int| '─')
}

/// `w` spaces.
pub open spec fn spaces(w: int) -> Seq<char> {
    Seq::new(w as nat, |i: int| ' ')
}

/// The widest visible width among the lines.
pub open spec fn max_visible(lines: Seq<Seq<char>>) -> nat
    decreases lines.len(),
{
    if lines.len() == 0 {
        0
    } else {
        let rest = max_visible(lines.drop_last());
        if visible_width(lines.last()) >= rest {
            visible_width(lines.last())
        } else {
            rest
        }
    }
}

/// No line is wider than the group's maximum.
pub proof fn lemma_max_visible_ge(lines: Seq<Seq<char>>, i: int)
    requires
        0 <= i < lines.len(),
    ensures
        visible_width(lines[i]) <= max_visible(lines),
    decreases lines.len(),
{
    if i + 1 < lines.len() {
        lemma_max_visible_ge(lines.drop_last(), i);
        assert(lines.drop_last()[i] == lines[i]);
    }
}

/// The widest visible width among the lines of a group.
pub fn max_visible_length(lines: &Vec<String>) -> (r: usize)
    ensures
        r as nat == max_visible(views_of(lines@)),
{
    let ghost lv = views_of(lines@);
    let n = lines.len();
    let mut best: usize = 0;
    let mut i: usize = 0;
    proof {
        assert(lv.take(0) =~= Seq::<Seq<char>>::empty());
    }
    while i < n
        invariant
            n == lines@.len(),
            lv == views_of(lines@),
            i <= n,
            best as nat == max_visible(lv.take(i as int)),
        decreases n - i,
    {
        proof {
            assert(lv.take(i as int + 1).drop_last() =~= lv.take(i as int));
            assert(lv.take(i as int + 1).last() == lv[i as int]);
            assert(lv[i as int] == lines@[i as int]@);
        }
        let w = visible_length(lines[i].as_str());
        if w > best {
            best = w;
        }
        i = i + 1;
    }
    proof {
        assert(lv.take(i as int) =~= lv);
    }
    best
}

/// A vertical border piece with its decoration.
pub open spec fn bar(pre: Seq<char>, post: Seq<char>) -> Seq<char> {
    pre + seq!['│'] + post
}

/// The top rule of a frame of content width `w`.
pub open spec fn top_rule(w: int, pre: Seq<char>, post: Seq<char>) -> Seq<char> {
    pre + (seq!['╭', '─'] + dashes(w) + seq!['─', '╮']) + post
}

/// The bottom rule of a frame of content width `w`.
pub open spec fn bottom_rule(w: int, pre: Seq<char>, post: Seq<char>) -> Seq<char> {
    pre + (seq!['╰', '─'] + dashes(w) + seq!['─', '╯']) + post
}

/// One content row: the line between decorated bars, padded by
/// visible width to exactly `w` columns of content.
pub open spec fn content_row(line: Seq<char>, w: int, pre: Seq<char>, post: Seq<char>) -> Seq<
    char,
> {
    bar(pre, post) + seq![' '] + line + spaces(w - visible_width(line)) + seq![' '] + bar(
        pre,
        post,
    )
}

/// The whole frame: nothing for an empty group, else the top rule, one
/// row per line, and the bottom rule.
pub open spec fn frame_spec(lines: Seq<Seq<char>>, pre: Seq<char>, post: Seq<char>) -> Seq<
    Seq<char>,
> {
    if lines.len() == 0 {
        Seq::<Seq<char>>::empty()
    } else {
        let w = max_visible(lines) as int;
        seq![top_rule(w, pre, post)] + lines.map_values(|l: Seq<char>| content_row(l, w, pre, post))
            + seq![bottom_rule(w, pre, post)]
    }
}

/// What a decorated bar strips to.
proof fn lemma_bar_strip(pre: Seq<char>, post: Seq<char>)
    ensures
        strip_ansi(bar(pre, post)) == strip_ansi(pre) + seq!['│'] + strip_ansi(post),
{
    let b2 = seq!['│'] + post;
    assert(b2[0] == '│');
    assert(bar(pre, post) =~= pre + b2);
    lemma_strip_concat_safe(pre, b2);
    lemma_strip_concat_esc_free(seq!['│'], post);
    assert(strip_ansi(pre) + (seq!['│'] + strip_ansi(post)) =~= strip_ansi(pre) + seq!['│']
        + strip_ansi(post));
}

/// A rule's visible width is the content width plus four, plus its one
/// decoration pair.
pub proof fn lemma_rule_width(w: int, pre: Seq<char>, post: Seq<char>)
    requires
        w >= 0,
    ensures
        visible_width(top_rule(w, pre, post)) == w + 4 + visible_width(pre) + visible_width(post),
        visible_width(bottom_rule(w, pre, post)) == w + 4 + visible_width(pre) + visible_width(
            post,
        ),
{
    let mid_top = seq!['╭', '─'] + dashes(w) + seq!['─', '╮'];
    lemma_strip_concat_safe(pre, mid_top + post);
    assert(forall|i: int| 0 <= i < mid_top.len() ==> mid_top[i] != '\u{1b}');
    lemma_strip_concat_esc_free(mid_top, post);
    assert(pre + (mid_top + post) =~= top_rule(w, pre, post));
    assert((mid_top + post).len() > 0 && (mid_top + post)[0] == '╭');
    assert(strip_ansi(top_rule(w, pre, post)) =~= strip_ansi(pre) + (mid_top + strip_ansi(post)));
    let mid_bottom = seq!['╰', '─'] + dashes(w) + seq!['─', '╯'];
    lemma_strip_concat_safe(pre, mid_bottom + post);
    assert(forall|i: int| 0 <= i < mid_bottom.len() ==> mid_bottom[i] != '\u{1b}');
    lemma_strip_concat_esc_free(mid_bottom, post);
    assert(pre + (mid_bottom + post) =~= bottom_rule(w, pre, post));
    assert(strip_ansi(bottom_rule(w, pre, post)) =~= strip_ansi(pre) + (mid_bottom + strip_ansi(
        post,
    )));
}

/// A content row's visible width is the content width plus four, plus
/// its two decoration pairs: padding goes by visible width, so styling
/// inside the line never shifts the border.
pub proof fn lemma_row_width(line: Seq<char>, w: int, pre: Seq<char>, post: Seq<char>)
    requires
        visible_width(line) <= w,
    ensures
        visible_width(content_row(line, w, pre, post)) == w + 4 + 2 * (visible_width(pre)
            + visible_width(post)),
{
    let b = bar(pre, post);
    let pad = spaces(w - visible_width(line));
    let tail3 = (pad + seq![' ']) + b;
    let tail2 = line + tail3;
    let tail1 = seq![' '] + tail2;
    assert(content_row(line, w, pre, post) =~= b + tail1);
    assert(tail1[0] == ' ');
    lemma_strip_concat_safe(b, tail1);
    lemma_strip_concat_esc_free(seq![' '], tail2);
    assert(tail3.len() > 0);
    assert(tail3[0] == ' ') by {
        if pad.len() > 0 {
            assert((pad + seq![' '])[0] == pad[0]);
        } else {
            assert((pad + seq![' '])[0] == ' ');
        }
    }
    lemma_strip_concat_safe(line, tail3);
    assert(forall|i: int| 0 <= i < (pad + seq![' ']).len() ==> (pad + seq![' '])[i] != '\u{1b}');
    lemma_strip_concat_esc_free(pad + seq![' '], b);
    lemma_bar_strip(pre, post);
    assert(strip_ansi(content_row(line, w, pre, post)) =~= strip_ansi(b) + (seq![' ']
        + (strip_ansi(line) + ((pad + seq![' ']) + strip_ansi(b)))));
}

/// Every piece of a block frame has the same visible width — the
/// content width plus four — when the border decoration is pure
/// styling.
pub proof fn lemma_frame_uniform_width(lines: Seq<Seq<char>>, pre: Seq<char>, post: Seq<char>)
    requires
        lines.len() > 0,
        strip_ansi(pre) == Seq::<char>::empty(),
        strip_ansi(post) == Seq::<char>::empty(),
    ensures
        frame_spec(lines, pre, post).len() == lines.len() + 2,
        forall|i: int|
            0 <= i < frame_spec(lines, pre, post).len() ==> visible_width(
                #[trigger] frame_spec(lines, pre, post)[i],
            ) == max_visible(lines) + 4,
{
    let w = max_visible(lines) as int;
    let fr = frame_spec(lines, pre, post);
    lemma_rule_width(w, pre, post);
    assert forall|i: int| 0 <= i < fr.len() implies visible_width(fr[i]) == max_visible(lines)
        + 4 by {
        if i == 0 {
            assert(fr[i] == top_rule(w, pre, post));
        } else if i == fr.len() - 1 {
            assert(fr[i] == bottom_rule(w, pre, post));
        } else {
            let rows = lines.map_values(|l: Seq<char>| content_row(l, w, pre, post));
            assert(fr[i] == rows[i - 1]);
            assert(rows[i - 1] == content_row(lines[i - 1], w, pre, post));
            lemma_max_visible_ge(lines, i - 1);
            lemma_row_width(lines[i - 1], w, pre, post);
        }
    }
}

/// Renders the framed block: a top rule, one row per line padded to
/// the group's maximum visible width, and a bottom rule; every border
/// piece is wrapped in the decoration. An empty group renders nothing.
pub fn render_frame(lines: &Vec<String>, pre: &str, post: &str) -> (r: Vec<String>)
    ensures
        views_of(r@) == frame_spec(views_of(lines@), pre@, post@),
{
    let ghost lv = views_of(lines@);
    if lines.len() == 0 {
        let r: Vec<String> = Vec::new();
        proof {
            assert(views_of(r@) =~= frame_spec(lv, pre@, post@));
        }
        return r;
    }
    let w = max_visible_length(lines);
    let ghost wg = w as int;
    let dash = repeat_char('─', w);
    let mut top = to_owned_string(pre);
    top.push('╭');
    top.push('─');
    top.append(dash.as_str());
    top.push('─');
    top.push('╮');
    top.append(post);
    proof {
        assert(top@ =~= top_rule(wg, pre@, post@));
    }
    let mut out: Vec<String> = Vec::new();
    out.push(top);
    let n = lines.len();
    let mut i: usize = 0;
    while i < n
        invariant
            n == lines@.len(),
            lv == views_of(lines@),
            w as nat == max_visible(lv),
            wg == w as int,
            i <= n,
            out@.len() == i + 1,
            out@[0]@ == top_rule(wg, pre@, post@),
            forall|k: int|
                0 <= k < i ==> out@[k + 1]@ == content_row(lv[k], wg, pre@, post@),
        decreases n - i,
    {
        proof {
            assert(lv[i as int] == lines@[i as int]@);
            lemma_max_visible_ge(lv, i as int);
        }
        let line = &lines[i];
        let vis = visible_length(line.as_str());
        let pad = repeat_char(' ', w - vis);
        let mut row = to_owned_string(pre);
        row.push('│');
        row.append(post);
        row.push(' ');
        row.append(line.as_str());
        row.append(pad.as_str());
        row.push(' ');
        row.append(pre);
        row.push('│');
        row.append(post);
        proof {
            assert(row@ =~= content_row(lv[i as int], wg, pre@, post@));
        }
        out.push(row);
        i = i + 1;
    }
    let mut bottom = to_owned_string(pre);
    bottom.push('╰');
    bottom.push('─');
    bottom.append(dash.as_str());
    bottom.push('─');
    bottom.push('╯');
    bottom.append(post);
    proof {
        assert(bottom@ =~= bottom_rule(wg, pre@, post@));
    }
    out.push(bottom);
    proof {
        assert(views_of(out@) =~= frame_spec(lv, pre@, post@));
    }
    out
}

/// Pads `s` with spaces to exactly `w` visible columns; alignment goes
/// by visible width, so styled labels line up with plain ones.
pub fn pad_line(s: &str, w: usize) -> (r: String)
    requires
        visible_width(s@) <= w,
    ensures
        r@ == s@ + spaces(w - visible_width(s@)),
{
    let vis = visible_length(s);
    let mut r = to_owned_string(s);
    let pad = repeat_char(' ', w - vis);
    r.append(pad.as_str());
    proof {
        assert(r@ =~= s@ + spaces(w - visible_width(s@)));
    }
    r
}

/// A single line centered in a field of `target` visible columns: the
/// extra space splits into a left half, rounded down, and the rest on
/// the right.
pub open spec fn centered_spec(content: Seq<char>, target: int) -> Seq<char> {
    let pad = (target - visible_width(content)) / 2;
    spaces(pad) + content + spaces(target - visible_width(content) - pad)
}

/// Centers `content` in `target` visible columns, as `centered_spec`
/// says. The content must fit.
pub fn center_line(content: &str, target: usize) -> (r: String)
    requires
        visible_width(content@) <= target,
    ensures
        r@ == centered_spec(content@, target as int),
{
    let vis = visible_length(content);
    let pad = (target - vis) / 2;
    let mut r = repeat_char(' ', pad);
    r.append(content);
    let right = repeat_char(' ', target - vis - pad);
    r.append(right.as_str());
    proof {
        assert(r@ =~= centered_spec(content@, target as int));
    }
    r
}

/// A centered line fills its target width exactly.
pub proof fn lemma_centered_width(content: Seq<char>, target: int)
    requires
        visible_width(content) <= target,
    ensures
        visible_width(centered_spec(content, target)) == target,
{
    let vis = visible_width(content) as int;
    let pad = (target - vis) / 2;
    let left = spaces(pad);
    let right = spaces(target - vis - pad);
    assert(forall|i: int| 0 <= i < left.len() ==> left[i] != '\u{1b}');
    lemma_strip_concat_esc_free(left, content + right);
    if target - vis - pad > 0 {
        assert((content + right).len() > 0);
        assert(right[0] == ' ');
        assert((content + right)[(content + right).len() - 1] == ' ');
        lemma_strip_concat_safe(content, right);
        assert(forall|i: int| 0 <= i < right.len() ==> right[i] != '\u{1b}');
        crate::ansi::lemma_strip_esc_free(right);
        assert(centered_spec(content, target) =~= left + (content + right));
    } else {
        assert(right =~= Seq::<char>::empty());
        assert(content + right =~= content);
        assert(centered_spec(content, target) =~= left + content);
    }
}

/// Frames one centered line at an externally supplied width, so a
/// stacked pair of frames aligns.
pub fn render_centered_frame(content: &str, target: usize, pre: &str, post: &str) -> (r: Vec<
    String,
>)
    requires
        visible_width(content@) <= target,
    ensures
        views_of(r@) == frame_spec(seq![centered_spec(content@, target as int)], pre@, post@),
{
    let line = center_line(content, target);
    let mut group: Vec<String> = Vec::new();
    group.push(line);
    proof {
        assert(views_of(group@) =~= seq![centered_spec(content@, target as int)]);
    }
    render_frame(&group, pre, post)
}

} // verus!
