use hostfetch::ansi::visible_length;
use hostfetch::frame::{center_line, max_visible_length, render_centered_frame, render_frame};

#[test]
fn plain_frame_draws_rules_and_padded_rows() {
    let lines = vec!["ab".to_string(), "c".to_string()];
    let out = render_frame(&lines, "", "");
    assert_eq!(
        out,
        vec![
            "\u{256d}\u{2500}\u{2500}\u{2500}\u{2500}\u{256e}".to_string(),
            "\u{2502} ab \u{2502}".to_string(),
            "\u{2502} c  \u{2502}".to_string(),
            "\u{2570}\u{2500}\u{2500}\u{2500}\u{2500}\u{256f}".to_string(),
        ]
    );
}

#[test]
fn every_frame_row_has_the_same_visible_width() {
    let lines = vec![
        "\x1b[31mred\x1b[0m".to_string(),
        "plain line".to_string(),
        "\x1b[1m\x1b[32mgreen bold\x1b[0m!".to_string(),
    ];
    let w = max_visible_length(&lines);
    assert_eq!(w, 11);
    let out = render_frame(&lines, "\x1b[34m", "\x1b[0m");
    assert_eq!(out.len(), lines.len() + 2);
    for row in &out {
        assert_eq!(visible_length(row), w + 4);
    }
}

#[test]
fn styling_does_not_shift_the_padding() {
    let plain = vec!["abc".to_string(), "d".to_string()];
    let styled = vec!["\x1b[35mabc\x1b[0m".to_string(), "d".to_string()];
    let w_plain = max_visible_length(&plain);
    let w_styled = max_visible_length(&styled);
    assert_eq!(w_plain, w_styled);
    let out = render_frame(&styled, "", "");
    assert_eq!(out[1], "\u{2502} \x1b[35mabc\x1b[0m \u{2502}");
    assert_eq!(out[2], "\u{2502} d   \u{2502}");
}

#[test]
fn empty_group_renders_nothing() {
    let lines: Vec<String> = Vec::new();
    assert_eq!(render_frame(&lines, "", "").len(), 0);
}

#[test]
fn centering_splits_the_padding() {
    assert_eq!(center_line("ab", 6), "  ab  ");
    assert_eq!(center_line("ab", 5), " ab  ");
    assert_eq!(center_line("ab", 2), "ab");
}

#[test]
fn centered_frame_matches_the_target_width() {
    let out = render_centered_frame("hi", 8, "", "");
    assert_eq!(
        out,
        vec![
            "\u{256d}\u{2500}\u{2500}\u{2500}\u{2500}\u{2500}\u{2500}\u{2500}\u{2500}\u{2500}\u{2500}\u{256e}".to_string(),
            "\u{2502}    hi    \u{2502}".to_string(),
            "\u{2570}\u{2500}\u{2500}\u{2500}\u{2500}\u{2500}\u{2500}\u{2500}\u{2500}\u{2500}\u{2500}\u{256f}".to_string(),
        ]
    );
}
