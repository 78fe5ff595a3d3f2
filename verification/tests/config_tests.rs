use adm_sfa::config::{data_dir_arg, ui_locale};

fn args(a: &[&str]) -> Vec<String> {
    a.iter().map(|s| s.to_string()).collect()
}

#[test]
fn data_dir_arg_reads_the_value_after_the_option() {
    assert_eq!(data_dir_arg(&args(&["adm-sfa-web", "--data-dir", "/srv/adm"])), Some("/srv/adm".to_string()));
    assert_eq!(
        data_dir_arg(&args(&["adm-sfa-web", "-v", "--data-dir", "/a", "--data-dir", "/b"])),
        Some("/a".to_string())
    );
}

#[test]
fn data_dir_arg_ignores_a_trailing_option_and_the_program_name() {
    assert_eq!(data_dir_arg(&args(&["adm-sfa-web", "--data-dir"])), None);
    assert_eq!(data_dir_arg(&args(&["--data-dir", "x"])), None);
    assert_eq!(data_dir_arg(&args(&[])), None);
}

#[test]
fn ui_locale_defaults_to_english() {
    assert_eq!(ui_locale(None), "en");
    assert_eq!(ui_locale(Some("de".to_string())), "de");
}
