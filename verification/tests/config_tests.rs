use hostfetch::config::{
    parse_color, parse_hex, parse_style, parse_styles, ColorSpec, Config, StyleKind,
};

#[test]
fn short_hex_digits_expand_by_repetition() {
    assert_eq!(parse_hex("#fff"), Some((255, 255, 255)));
    assert_eq!(parse_hex("#a0c"), Some((170, 0, 204)));
    assert_eq!(parse_hex("fff"), Some((255, 255, 255)));
}

#[test]
fn long_hex_digits_pair_up() {
    assert_eq!(parse_hex("#123456"), Some((18, 52, 86)));
    assert_eq!(parse_hex("#FFFFFF"), Some((255, 255, 255)));
    assert_eq!(parse_hex("#000000"), Some((0, 0, 0)));
}

#[test]
fn malformed_hex_is_no_color() {
    assert_eq!(parse_hex("#12"), None);
    assert_eq!(parse_hex("#12345"), None);
    assert_eq!(parse_hex("#zzz"), None);
    assert_eq!(parse_hex(""), None);
}

#[test]
fn color_names_match_case_insensitively() {
    assert_eq!(parse_color("red"), ColorSpec::Red);
    assert_eq!(parse_color("RED"), ColorSpec::Red);
    assert_eq!(parse_color("Bright_Blue"), ColorSpec::BrightBlue);
    assert_eq!(parse_color("magenta"), ColorSpec::Magenta);
}

#[test]
fn hex_colors_beat_names_and_unknown_names_fall_to_white() {
    assert_eq!(parse_color("#000"), ColorSpec::TrueColor(0, 0, 0));
    assert_eq!(parse_color("#ff8000"), ColorSpec::TrueColor(255, 128, 0));
    assert_eq!(parse_color("no such color"), ColorSpec::White);
    assert_eq!(parse_color(""), ColorSpec::White);
}

#[test]
fn style_names_resolve_case_insensitively() {
    assert_eq!(parse_style("bold"), Some(StyleKind::Bold));
    assert_eq!(parse_style("Bold"), Some(StyleKind::Bold));
    assert_eq!(parse_style("REVERSE"), Some(StyleKind::Reverse));
    assert_eq!(parse_style("sparkly"), None);
}

#[test]
fn style_lists_keep_order_and_skip_unknowns() {
    let names = vec![
        "bold".to_string(),
        "sparkly".to_string(),
        "italic".to_string(),
    ];
    assert_eq!(parse_styles(&names), vec![StyleKind::Bold, StyleKind::Italic]);
}

#[test]
fn default_settings_match_the_documented_values() {
    let cfg = Config::default();
    assert_eq!(cfg.host.color, "magenta");
    assert_eq!(cfg.host.styles, vec!["bold".to_string()]);
    assert_eq!(cfg.position.os_order, 1);
    assert_eq!(cfg.position.host_order, 2);
    assert_eq!(cfg.position.locale_order, 10);
    assert_eq!(cfg.info.main_color, "white");
    assert_eq!(cfg.info.secondary_color, "blue");
    assert_eq!(cfg.info.border_color, "blue");
    assert!(cfg.icons.enabled);
    assert_eq!(cfg.icons.color, "green");
}

#[test]
fn getters_resolve_the_configured_colors() {
    let cfg = Config::default();
    assert_eq!(cfg.get_main_color(), ColorSpec::White);
    assert_eq!(cfg.get_secondary_color(), ColorSpec::Blue);
    assert_eq!(cfg.get_host_color(), ColorSpec::Magenta);
    assert_eq!(cfg.get_icon_color(), ColorSpec::Green);
    assert_eq!(cfg.border_color(), ColorSpec::Blue);
    assert!(cfg.icons_enabled());
    assert_eq!(cfg.get_main_styles(), &vec!["italic".to_string()]);
    assert_eq!(cfg.get_secondary_styles(), &vec!["bold".to_string()]);
    assert_eq!(cfg.get_host_styles(), &vec!["bold".to_string()]);
}
