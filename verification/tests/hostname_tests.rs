use hostfetch::hostname::{get_hostname, take_until_nul, HostnameError, HostnameSources};

fn no_tiers() -> HostnameSources {
    HostnameSources {
        system_call: None,
        proc_file: None,
        command: None,
        environment: None,
    }
}

#[test]
fn nul_terminates_the_system_call_value() {
    // Data after an embedded NUL is not part of the name.
    let mut sources = no_tiers();
    sources.system_call = Some("myhost\0garbage".to_string());
    let mut hostname = String::new();
    assert_eq!(get_hostname(&mut hostname, &sources), Ok(()));
    assert_eq!(hostname, "myhost");
}

#[test]
fn until_nul_keeps_a_clean_value_whole() {
    assert_eq!(take_until_nul("myhost"), "myhost");
    assert_eq!(take_until_nul("\0junk"), "");
    assert_eq!(take_until_nul(""), "");
}

#[test]
fn all_tiers_failing_surfaces_not_found() {
    let mut hostname = "before".to_string();
    assert_eq!(
        get_hostname(&mut hostname, &no_tiers()),
        Err(HostnameError::NotFound)
    );
    assert_eq!(hostname, "before");
}

#[test]
fn empty_or_nul_values_count_as_failures() {
    let mut sources = no_tiers();
    sources.system_call = Some("\0garbage".to_string());
    sources.proc_file = Some("\n".to_string());
    sources.command = Some("   ".to_string());
    let mut hostname = String::new();
    assert_eq!(
        get_hostname(&mut hostname, &sources),
        Err(HostnameError::NotFound)
    );
}

#[test]
fn proc_file_is_the_second_tier() {
    let mut sources = no_tiers();
    sources.proc_file = Some("host2\n".to_string());
    sources.command = Some("host3\n".to_string());
    let mut hostname = String::new();
    assert_eq!(get_hostname(&mut hostname, &sources), Ok(()));
    assert_eq!(hostname, "host2");
}

#[test]
fn helper_output_loses_its_newline() {
    let mut sources = no_tiers();
    sources.command = Some("host3\n".to_string());
    let mut hostname = String::new();
    assert_eq!(get_hostname(&mut hostname, &sources), Ok(()));
    assert_eq!(hostname, "host3");
}

#[test]
fn environment_is_the_last_tier() {
    let mut sources = no_tiers();
    sources.environment = Some("host4".to_string());
    let mut hostname = String::new();
    assert_eq!(get_hostname(&mut hostname, &sources), Ok(()));
    assert_eq!(hostname, "host4");
}
