use lurge::response::{ResponseResult, ResponseValue};
use lurge::shell_commands::{
    execute_defaults_read, execute_defaults_read_cmd, execute_defaults_write,
    execute_defaults_write_cmd, get_screenshot_directory, read_defaults, trim_spaces,
    write_defaults, DefaultsReadOption, DefaultsReturnType, DefaultsWriteOption,
};
use lurge::strutil::{str_eq, str_le, str_starts_with};

#[test]
fn read_command_maps_options_to_domain_and_key() {
    assert_eq!(
        execute_defaults_read_cmd(DefaultsReadOption::CreateDesktop),
        ("com.apple.finder".to_string(), "CreateDesktop".to_string())
    );
    assert_eq!(
        execute_defaults_read_cmd(DefaultsReadOption::ShowHardDrives),
        ("com.apple.finder".to_string(), "ShowHardDrivesOnDesktop".to_string())
    );
    assert_eq!(
        execute_defaults_read_cmd(DefaultsReadOption::ScreenshotDirectory),
        ("com.apple.screencapture".to_string(), "location".to_string())
    );
    assert_eq!(
        execute_defaults_read_cmd(DefaultsReadOption::ScreenshotFormat),
        ("com.apple.screencapture".to_string(), "type".to_string())
    );
}

#[test]
fn write_command_maps_options_to_argument_lists() {
    let (domain, args) =
        execute_defaults_write_cmd(DefaultsWriteOption::ScreenshotDirectory("~/Shots".to_string()));
    assert_eq!(domain, "com.apple.screencapture");
    assert_eq!(args, vec!["location".to_string(), "~/Shots".to_string()]);

    let (domain, args) =
        execute_defaults_write_cmd(DefaultsWriteOption::ScreenshotFormat("png".to_string()));
    assert_eq!(domain, "com.apple.screencapture");
    assert_eq!(args, vec!["type".to_string(), "png".to_string()]);

    let (domain, args) = execute_defaults_write_cmd(DefaultsWriteOption::CreateDesktop(true));
    assert_eq!(domain, "com.apple.finder");
    assert_eq!(args, vec!["CreateDesktop".to_string(), "-bool".to_string(), "true".to_string()]);

    let (domain, args) = execute_defaults_write_cmd(DefaultsWriteOption::ShowHardDrives(false));
    assert_eq!(domain, "com.apple.finder");
    assert_eq!(
        args,
        vec!["ShowHardDrivesOnDesktop".to_string(), "-bool".to_string(), "false".to_string()]
    );
}

#[test]
fn read_output_one_and_true_read_as_flag_true() {
    assert!(matches!(
        execute_defaults_read(Some("1\n".to_string())),
        DefaultsReturnType::Bool(true)
    ));
    assert!(matches!(
        execute_defaults_read(Some("  true \n".to_string())),
        DefaultsReturnType::Bool(true)
    ));
}

#[test]
fn read_output_zero_and_false_read_as_flag_false() {
    assert!(matches!(
        execute_defaults_read(Some("0".to_string())),
        DefaultsReturnType::Bool(false)
    ));
    assert!(matches!(
        execute_defaults_read(Some("false\n".to_string())),
        DefaultsReturnType::Bool(false)
    ));
}

#[test]
fn read_output_other_text_reads_as_trimmed_string() {
    match execute_defaults_read(Some("  /Users/me/Desktop \n".to_string())) {
        DefaultsReturnType::String(s) => assert_eq!(s, "/Users/me/Desktop"),
        _ => panic!("expected a text value"),
    }
}

#[test]
fn read_without_output_is_an_explicit_failure() {
    match execute_defaults_read(None) {
        DefaultsReturnType::Error(m) => {
            assert_eq!(m, "Failed to execute defaults read command")
        },
        _ => panic!("expected a failure"),
    }
}

#[test]
fn write_outcome_reflects_whether_the_utility_ran() {
    assert!(matches!(execute_defaults_write(true), DefaultsReturnType::Bool(true)));
    match execute_defaults_write(false) {
        DefaultsReturnType::Error(m) => {
            assert_eq!(m, "Failed to execute defaults write command")
        },
        _ => panic!("expected a failure"),
    }
}

#[test]
fn read_defaults_wraps_outcomes_in_envelope() {
    let r = read_defaults(DefaultsReturnType::String("png".to_string()));
    assert!(r.success);
    assert_eq!(r.error, "");
    match r.result {
        ResponseValue::String(s) => assert_eq!(s, "png"),
        _ => panic!("expected a text result"),
    }

    let r = read_defaults(DefaultsReturnType::Bool(true));
    assert!(r.success);
    assert!(matches!(r.result, ResponseValue::Bool(true)));

    let r = read_defaults(DefaultsReturnType::Error("boom".to_string()));
    assert!(!r.success);
    assert_eq!(r.error, "boom");
    assert!(matches!(r.result, ResponseValue::Bool(false)));
}

#[test]
fn write_defaults_reports_failed_relaunch_as_failure() {
    // The error string is empty exactly on success, so a failed relaunch is
    // a failure outcome; the written value is still carried.
    let r = write_defaults(DefaultsReturnType::Bool(true), false);
    assert!(!r.success);
    assert_eq!(r.error, "Failed to relaunch Finder");
    assert!(matches!(r.result, ResponseValue::Bool(true)));

    let r = write_defaults(DefaultsReturnType::Bool(true), true);
    assert!(r.success);
    assert_eq!(r.error, "");

    let r = write_defaults(DefaultsReturnType::Error("no utility".to_string()), true);
    assert!(!r.success);
    assert_eq!(r.error, "no utility");
}

#[test]
fn trim_spaces_strips_both_ends_only() {
    assert_eq!(trim_spaces(" \t hello world \n"), "hello world");
    assert_eq!(trim_spaces("plain"), "plain");
    assert_eq!(trim_spaces(" \n\t "), "");
    assert_eq!(trim_spaces(""), "");
}

#[test]
fn trim_spaces_matches_unicode_whitespace() {
    // Vertical tab, no-break space and ideographic space all belong to the
    // White_Space set std's trim honors.
    assert_eq!(trim_spaces("\u{000B}1"), "1");
    assert_eq!(trim_spaces("\u{00A0}png\u{3000}"), "png");
    assert_eq!(trim_spaces("a\u{2003}b"), "a\u{2003}b");
    assert!(matches!(
        execute_defaults_read(Some("\u{000B}1".to_string())),
        DefaultsReturnType::Bool(true)
    ));
}

fn read_ok(path: &str) -> ResponseResult<ResponseValue> {
    ResponseResult {
        success: true,
        error: "".to_string(),
        result: ResponseValue::String(path.to_string()),
    }
}

#[test]
fn screenshot_directory_abbreviates_home_prefix() {
    let r = get_screenshot_directory(read_ok("/Users/me/Desktop"), Some("/Users/me".to_string()));
    assert!(r.success);
    assert_eq!(r.error, "");
    match r.result {
        ResponseValue::String(p) => assert_eq!(p, "~/Desktop"),
        _ => panic!("expected a text result"),
    }
}

#[test]
fn screenshot_directory_outside_home_is_a_failure() {
    let r = get_screenshot_directory(read_ok("/tmp/shots"), Some("/Users/me".to_string()));
    assert!(!r.success);
    assert_eq!(r.error, "Failed to get screenshot directory");

    let r = get_screenshot_directory(read_ok("/Users/me/Desktop"), None);
    assert!(!r.success);
    assert_eq!(r.error, "Failed to get screenshot directory");

    let flag = ResponseResult {
        success: true,
        error: "".to_string(),
        result: ResponseValue::Bool(true),
    };
    let r = get_screenshot_directory(flag, Some("/Users/me".to_string()));
    assert!(!r.success);
    assert_eq!(r.error, "Failed to get screenshot directory");
}

#[test]
fn screenshot_directory_passes_a_read_error_through() {
    let failed = ResponseResult {
        success: false,
        error: "Failed to execute defaults read command".to_string(),
        result: ResponseValue::Bool(false),
    };
    let r = get_screenshot_directory(failed, Some("/Users/me".to_string()));
    assert!(!r.success);
    assert_eq!(r.error, "Failed to execute defaults read command");
}

#[test]
fn string_helpers_compare_by_characters() {
    assert!(str_eq("abc", "abc"));
    assert!(!str_eq("abc", "abd"));
    assert!(!str_eq("abc", "ab"));
    assert!(str_starts_with("com.docker.backend", "com.docker"));
    assert!(!str_starts_with("com.dock", "com.docker"));
    assert!(str_starts_with("anything", ""));
    assert!(str_le("abc", "abd"));
    assert!(str_le("ab", "abc"));
    assert!(!str_le("b", "abc"));
}
