use hostfetch::ansi::{strip_styling, visible_length};

#[test]
fn width_of_plain_text() {
    assert_eq!(visible_length(""), 0);
    assert_eq!(visible_length("hello"), 5);
    assert_eq!(visible_length("héllo"), 5);
}

#[test]
fn width_ignores_one_styling_sequence() {
    assert_eq!(visible_length("\x1b[31mred\x1b[0m"), 3);
}

#[test]
fn width_ignores_nested_and_repeated_sequences() {
    assert_eq!(visible_length("\x1b[1m\x1b[32mhi\x1b[0m"), 2);
    assert_eq!(visible_length("\x1b[1;32mhi\x1b[0m\x1b[4munder\x1b[0m"), 7);
}

#[test]
fn width_counts_incomplete_sequence_literally() {
    // No final letter: the escape, bracket and digits stay visible.
    assert_eq!(visible_length("\x1b[12"), 4);
    assert_eq!(visible_length("\x1b"), 1);
    assert_eq!(visible_length("\x1bx"), 2);
}

#[test]
fn stripper_removes_exactly_the_sequences() {
    assert_eq!(strip_styling("\x1b[31mred\x1b[0m"), "red");
    assert_eq!(strip_styling("plain"), "plain");
    assert_eq!(strip_styling("\x1b[12"), "\x1b[12");
    assert_eq!(strip_styling("a\x1b[999;1;0mb"), "ab");
}

#[test]
fn width_agrees_with_stripped_width() {
    let samples = [
        "",
        "plain",
        "\x1b[31mred\x1b[0m",
        "\x1b[1m\x1b[32mhi\x1b[0m",
        "mid\x1b[7mdle\x1b[0m end",
        "\x1b[",
        "\x1b[31",
    ];
    for s in samples {
        let stripped = strip_styling(s);
        assert_eq!(visible_length(s), visible_length(&stripped));
        assert_eq!(visible_length(&stripped), stripped.chars().count());
    }
}
