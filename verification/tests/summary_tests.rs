use hostfetch::ansi::visible_length;
use hostfetch::fields::{assemble_fields, Field};
use hostfetch::frame::{max_visible_length, pad_line, render_centered_frame, render_frame};

#[test]
fn a_small_summary_lays_out_consistently() {
    // Two styled information lines with aligned labels, one hidden
    // category, and a styled banner above, as the program builds them.
    let os_line = format!(
        "{}{}",
        pad_line("\x1b[3mOS:\x1b[0m", 9),
        "\x1b[1mUbuntu 22.04\x1b[0m"
    );
    let host_line = format!(
        "{}{}",
        pad_line("\x1b[3mHost:\x1b[0m", 9),
        "\x1b[1mXPS 13\x1b[0m"
    );
    let fields = vec![
        Field { priority: 2, text: os_line.clone() },
        Field { priority: 1, text: host_line.clone() },
        Field { priority: 0, text: "hidden".to_string() },
    ];
    let lines = assemble_fields(&fields);
    assert_eq!(lines, vec![host_line.clone(), os_line.clone()]);

    let banner = "\x1b[35muser@host\x1b[0m".to_string();
    let mut all = vec![banner.clone()];
    for line in &lines {
        all.push(line.clone());
    }
    let width = max_visible_length(&all);
    assert_eq!(width, 21);

    let banner_frame = render_centered_frame(&banner, width, "\x1b[34m", "\x1b[0m");
    let block = render_frame(&lines, "\x1b[34m", "\x1b[0m");
    assert_eq!(banner_frame.len(), 3);
    assert_eq!(block.len(), 4);
    for row in banner_frame.iter() {
        assert_eq!(visible_length(row), width + 4);
    }
    for row in block.iter() {
        assert_eq!(visible_length(row), width + 4);
    }
}
