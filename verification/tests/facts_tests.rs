use hostfetch::kernel::get_uname_data;
use hostfetch::loadavg::get_loadavg;
use hostfetch::shell::get_shell_name;
use hostfetch::size::format_size;

#[test]
fn uname_output_is_trimmed() {
    let r = get_uname_data("Linux\n", " 6.1.0-13-amd64 \n");
    assert_eq!(r.uname, "Linux");
    assert_eq!(r.kernel_version, "6.1.0-13-amd64");
}

#[test]
fn shell_is_the_last_path_component() {
    assert_eq!(get_shell_name(&Some("/usr/bin/zsh".to_string())), "zsh");
    assert_eq!(get_shell_name(&Some("bash".to_string())), "bash");
    assert_eq!(get_shell_name(&None), "unknown");
}

#[test]
fn sizes_format_against_binary_units() {
    assert_eq!(format_size(0), "0 B");
    assert_eq!(format_size(1023), "1023 B");
    assert_eq!(format_size(1024), "1 KB");
    assert_eq!(format_size(1536), "1.5 KB");
    assert_eq!(format_size(1048576), "1 MB");
    assert_eq!(format_size(1500000), "1.4 MB");
    assert_eq!(format_size(1073741824), "1 GB");
    assert_eq!(format_size(1099511627776), "1 TB");
}

#[test]
fn load_figures_print_with_two_decimals() {
    let r = get_loadavg(&Some("0.52 0.58 0.59".to_string()), &None);
    assert_eq!(r, "0.52, 0.58, 0.59");
}

#[test]
fn load_falls_back_to_the_pseudo_file() {
    let r = get_loadavg(
        &Some("only two".to_string()),
        &Some("0.00 0.01 0.05 1/123 4567\n".to_string()),
    );
    assert_eq!(r, "0.00, 0.01, 0.05");
}

#[test]
fn load_degrades_to_not_available() {
    assert_eq!(get_loadavg(&None, &None), "N/A");
    assert_eq!(get_loadavg(&Some("".to_string()), &None), "N/A");
}

#[test]
fn load_figures_round_and_pad() {
    let r = get_loadavg(&Some("2.5 1 0.126".to_string()), &None);
    assert_eq!(r, "2.50, 1.00, 0.13");
}
