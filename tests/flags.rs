use difftw::args::{flag_token, normalize_args, parse_color_setting, validate_and_add_flags, ArgError, FlagToken};
use difftw::color::{parse_color_value, strip_color_for, ColorSetting};

fn strings(v: &[&str]) -> Vec<String> {
    v.iter().map(|s| s.to_string()).collect()
}

#[test]
fn defaults_are_put_in_front() {
    let (fwd, color) = normalize_args(strings(&["a.txt", "b.txt"]), None).unwrap();
    assert_eq!(fwd, strings(&["--color=always", "--display=inline", "a.txt", "b.txt"]));
    assert_eq!(color, ColorSetting::Auto);
}

#[test]
fn unsupported_display_is_refused() {
    let r = normalize_args(strings(&["--display=block", "a", "b"]), None);
    assert_eq!(r, Err(ArgError::UnsupportedDisplay("block".to_string())));
    assert_eq!(r.unwrap_err().message(), "difftw only supports --display=inline");
}

#[test]
fn unsupported_separate_display_is_refused() {
    let mut args = strings(&["--display", "side-by-side", "a"]);
    assert_eq!(
        validate_and_add_flags(&mut args),
        Err(ArgError::UnsupportedDisplay("side-by-side".to_string()))
    );
    assert_eq!(args, strings(&["--display", "side-by-side", "a"]));
}

#[test]
fn given_display_is_not_repeated() {
    let mut args = strings(&["--display=inline", "a"]);
    validate_and_add_flags(&mut args).unwrap();
    assert_eq!(args, strings(&["--color=always", "--display=inline", "a"]));
    let mut args = strings(&["a", "--display", "inline"]);
    validate_and_add_flags(&mut args).unwrap();
    assert_eq!(args, strings(&["--color=always", "a", "--display", "inline"]));
}

#[test]
fn display_prefix_is_not_the_flag() {
    let mut args = strings(&["--displayfoo", "a"]);
    validate_and_add_flags(&mut args).unwrap();
    assert_eq!(args, strings(&["--color=always", "--display=inline", "--displayfoo", "a"]));
}

#[test]
fn display_without_value_is_refused() {
    let mut args = strings(&["a", "--display"]);
    let e = validate_and_add_flags(&mut args).unwrap_err();
    assert_eq!(e, ArgError::MissingValue("--display".to_string()));
    assert_eq!(e.message(), "Missing value for --display");
}

#[test]
fn normalizing_twice_changes_nothing() {
    for input in [
        strings(&["a.txt", "b.txt"]),
        strings(&["--color", "never", "--display", "inline", "x"]),
        strings(&["--display=inline", "--color=auto"]),
    ] {
        let (once, _) = normalize_args(input, Some("never")).unwrap();
        let (twice, color) = normalize_args(once.clone(), Some("never")).unwrap();
        assert_eq!(twice, once);
        assert_eq!(color, ColorSetting::Always);
    }
}

#[test]
fn color_flag_is_taken_out_in_both_forms() {
    let mut args = strings(&["a", "--color=never", "b"]);
    assert_eq!(parse_color_setting(&mut args, None), Ok(ColorSetting::Never));
    assert_eq!(args, strings(&["a", "b"]));
    let mut args = strings(&["--color", "auto", "a"]);
    assert_eq!(parse_color_setting(&mut args, None), Ok(ColorSetting::Auto));
    assert_eq!(args, strings(&["a"]));
}

#[test]
fn first_color_flag_decides_and_all_are_removed() {
    let (fwd, color) =
        normalize_args(strings(&["--color=never", "a", "--color", "always"]), None).unwrap();
    assert_eq!(color, ColorSetting::Never);
    assert_eq!(fwd, strings(&["--color=always", "--display=inline", "a"]));
}

#[test]
fn color_flag_wins_over_environment() {
    let mut args = strings(&["--color=always"]);
    assert_eq!(parse_color_setting(&mut args, Some("bogus")), Ok(ColorSetting::Always));
}

#[test]
fn environment_is_used_without_flag() {
    let mut args = strings(&["a"]);
    assert_eq!(parse_color_setting(&mut args, Some("never")), Ok(ColorSetting::Never));
    assert_eq!(args, strings(&["a"]));
    assert_eq!(parse_color_setting(&mut args, None), Ok(ColorSetting::Auto));
}

#[test]
fn invalid_color_values_are_refused() {
    let mut args = strings(&["--color=sometimes", "a"]);
    let e = parse_color_setting(&mut args, None).unwrap_err();
    assert_eq!(e, ArgError::InvalidColor("sometimes".to_string()));
    assert_eq!(e.message(), "Invalid value for --color: sometimes");
    assert_eq!(args, strings(&["--color=sometimes", "a"]));

    let mut args = strings(&["a"]);
    let e = parse_color_setting(&mut args, Some("loud")).unwrap_err();
    assert_eq!(e, ArgError::InvalidColorEnv("loud".to_string()));
    assert_eq!(e.message(), "Invalid value for DFT_COLOR: loud");
}

#[test]
fn color_without_value_is_refused() {
    let mut args = strings(&["a", "--color"]);
    assert_eq!(
        parse_color_setting(&mut args, None),
        Err(ArgError::MissingValue("--color".to_string()))
    );
}

#[test]
fn colorful_is_not_the_color_flag() {
    let mut args = strings(&["--colorful"]);
    assert_eq!(parse_color_setting(&mut args, None), Ok(ColorSetting::Auto));
    assert_eq!(args, strings(&["--colorful"]));
}

#[test]
fn flag_token_shapes() {
    assert_eq!(flag_token("--color", "--color"), FlagToken::Separate);
    assert_eq!(flag_token("--color=x", "--color"), FlagToken::Joined);
    assert_eq!(flag_token("--color=", "--color"), FlagToken::Joined);
    assert_eq!(flag_token("--colorx", "--color"), FlagToken::Other);
    assert_eq!(flag_token("--col", "--color"), FlagToken::Other);
}

#[test]
fn color_values() {
    assert_eq!(parse_color_value("always"), Some(ColorSetting::Always));
    assert_eq!(parse_color_value("auto"), Some(ColorSetting::Auto));
    assert_eq!(parse_color_value("never"), Some(ColorSetting::Never));
    assert_eq!(parse_color_value("Always"), None);
    assert_eq!(parse_color_value(""), None);
}

#[test]
fn strip_decision() {
    assert!(!strip_color_for(ColorSetting::Always, false));
    assert!(strip_color_for(ColorSetting::Never, true));
    assert!(strip_color_for(ColorSetting::Auto, false));
    assert!(!strip_color_for(ColorSetting::Auto, true));
}
