use hostfetch::os::{
    detect_android, get_os_info, get_property, parse_legacy_release, parse_prop,
    parse_standard_release, OsSources,
};

fn no_os_sources() -> OsSources {
    OsSources {
        android: false,
        android_version: None,
        standard_files: Vec::new(),
        legacy_files: Vec::new(),
        debian_version: None,
    }
}

#[test]
fn name_and_version_id_combine() {
    // No PRETTY_NAME: NAME and VERSION_ID join with a space.
    let r = parse_standard_release("VERSION_ID=\"22.04\"\nNAME=\"Ubuntu\"\n");
    assert_eq!(r, Some("Ubuntu 22.04".to_string()));
}

#[test]
fn pretty_name_wins_outright() {
    let content = "NAME=\"Ubuntu\"\nPRETTY_NAME=\"Ubuntu 22.04.3 LTS\"\nVERSION_ID=\"22.04\"\n";
    assert_eq!(
        parse_standard_release(content),
        Some("Ubuntu 22.04.3 LTS".to_string())
    );
}

#[test]
fn name_alone_stands() {
    assert_eq!(
        parse_standard_release("NAME=Arch\n"),
        Some("Arch".to_string())
    );
}

#[test]
fn version_id_alone_gets_a_placeholder() {
    assert_eq!(
        parse_standard_release("VERSION_ID=\"22.04\"\n"),
        Some("Unknown OS 22.04".to_string())
    );
}

#[test]
fn escapes_collapse_in_the_winner() {
    assert_eq!(
        parse_standard_release("PRETTY_NAME=\"Foo\\nBar\"\n"),
        Some("Foo Bar".to_string())
    );
    assert_eq!(
        parse_standard_release("PRETTY_NAME=\"Say \\\"hi\\\" now\"\n"),
        Some("Say hi now".to_string())
    );
}

#[test]
fn empty_release_file_fails_to_parse() {
    assert_eq!(parse_standard_release(""), None);
    assert_eq!(parse_standard_release("COMMENT=1\n"), None);
    assert_eq!(parse_standard_release("PRETTY_NAME=\"\"\n"), None);
}

#[test]
fn legacy_description_line_wins() {
    let r = parse_legacy_release("DISTRIB_ID=Ubuntu\nDISTRIB_DESCRIPTION=\"Arch Linux\"\n");
    assert_eq!(r, Some("Arch Linux".to_string()));
}

#[test]
fn legacy_falls_back_to_the_first_line() {
    let r = parse_legacy_release("Fedora release 38 (Thirty Eight)\n");
    assert_eq!(r, Some("Fedora release 38 (Thirty Eight)".to_string()));
    assert_eq!(parse_legacy_release(""), None);
}

#[test]
fn unknown_linux_when_every_source_fails() {
    assert_eq!(get_os_info(&no_os_sources()), "Unknown Linux");
    let mut s = no_os_sources();
    s.standard_files = vec!["COMMENT=1\n".to_string()];
    s.legacy_files = vec!["".to_string()];
    assert_eq!(get_os_info(&s), "Unknown Linux");
}

#[test]
fn standard_release_beats_legacy_and_debian() {
    let mut s = no_os_sources();
    s.standard_files = vec![
        "junk\n".to_string(),
        "NAME=\"Ubuntu\"\nVERSION_ID=\"22.04\"\n".to_string(),
    ];
    s.legacy_files = vec!["Fedora release 38\n".to_string()];
    s.debian_version = Some("12.4\n".to_string());
    assert_eq!(get_os_info(&s), "Ubuntu 22.04");
}

#[test]
fn debian_version_formats_with_prefix() {
    let mut s = no_os_sources();
    s.debian_version = Some("12.4\n".to_string());
    assert_eq!(get_os_info(&s), "Debian 12.4");
}

#[test]
fn android_identity_carries_the_version() {
    let mut s = no_os_sources();
    s.android = true;
    s.android_version = Some("14".to_string());
    assert_eq!(get_os_info(&s), "Android 14");
    s.android_version = None;
    assert_eq!(get_os_info(&s), "Android");
    assert_eq!(detect_android(false, &Some("14".to_string())), None);
}

#[test]
fn property_lookup_prefers_the_helper_output() {
    let files = vec!["ro.build.version.release=13\n".to_string()];
    assert_eq!(
        get_property(&Some("14\n".to_string()), &files, "ro.build.version.release"),
        Some("14".to_string())
    );
    assert_eq!(
        get_property(&Some("  \n".to_string()), &files, "ro.build.version.release"),
        Some("13".to_string())
    );
    assert_eq!(get_property(&None, &files, "ro.missing"), None);
}

#[test]
fn prop_file_values_are_unquoted_and_trimmed() {
    let content = "ro.build.version.release= \"14\" \nro.empty=\n";
    assert_eq!(
        parse_prop(content, "ro.build.version.release"),
        Some("14".to_string())
    );
    assert_eq!(parse_prop(content, "ro.empty"), None);
    assert_eq!(parse_prop(content, "ro.absent"), None);
}
