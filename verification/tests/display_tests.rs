use chwp::display;
use chwp::display::SessionKind;
use chwp::resolution;
use chwp::resolution::Resolution;
use chwp::Error;

#[test]
fn get_total_resolution() {
    // GIVEN the raw output of the desktop geometry query: the pair reported
    // by the X server, followed by the separator and empty error stream that
    // the command runner appends

    // WHEN normalizing it into the canonical total resolution
    let total_resolution = display::get_total_resolution("3640, 1920\n \n ");

    // THEN it should match
    assert_eq!(total_resolution, "3640x1920");
}

#[test]
fn get_total_resolution_joins_multiple_pairs() {
    // Several comma-separated dimension pairs are concatenated with an x.
    let total = display::get_total_resolution("100, 25, 50, 25\n");
    assert_eq!(total, "100x25x50x25");
}

#[test]
fn get_info_single_monitor() {
    let info = display::get_info(vec!["1920x1080".to_string()], "1920x1080".to_string()).unwrap();
    assert_eq!(info.count, 1);
    assert_eq!(info.max_single_resolution, "1920x1080");
    assert_eq!(info.total_resolution, "1920x1080");
}

#[test]
fn get_info_max_single_ties_keep_first() {
    // Two monitors of equal area: the first-encountered one wins the tie.
    let info = display::get_info(
        vec!["1920x1080".to_string(), "1920x1080".to_string()],
        "3840x1080".to_string(),
    )
    .unwrap();
    assert_eq!(info.max_single_resolution, "1920x1080");
    assert_eq!(info.count, 2);
}

#[test]
fn get_info_max_single_equal_area_distinguishable() {
    // Equal areas with distinguishable sides: the first one is kept.
    let info = display::get_info(
        vec!["1080x1920".to_string(), "1920x1080".to_string()],
        "3000x1920".to_string(),
    )
    .unwrap();
    assert_eq!(info.max_single_resolution, "1080x1920");
}

#[test]
fn get_info_picks_largest_area() {
    let info = display::get_info(
        vec![
            "1920x1080".to_string(),
            "2560x1440".to_string(),
            "1920x1080".to_string(),
        ],
        "6400x1440".to_string(),
    )
    .unwrap();
    assert_eq!(info.max_single_resolution, "2560x1440");
}

#[test]
fn get_info_no_monitors_is_fatal() {
    let r = display::get_info(vec![], "1x1".to_string());
    assert_eq!(r.unwrap_err(), Error::NoDisplay);
}

#[test]
fn get_info_malformed_resolution_is_fatal() {
    let r = display::get_info(vec!["1920x1080".to_string(), "huh".to_string()], "1x1".to_string());
    assert_eq!(r.unwrap_err(), Error::Format);
}

#[test]
fn classify_session_recognizes_both() {
    assert_eq!(display::classify_session(Some("x11")).unwrap(), SessionKind::X11);
    assert_eq!(display::classify_session(Some("wayland")).unwrap(), SessionKind::Wayland);
}

#[test]
fn classify_session_rejects_unknown_or_absent() {
    assert_eq!(display::classify_session(Some("tty")).unwrap_err(), Error::Configuration);
    assert_eq!(display::classify_session(None).unwrap_err(), Error::Configuration);
}

#[test]
fn build_display_command_passes_through_when_var_set() {
    let cmd = display::build_display_command("xrandr", SessionKind::X11, true);
    assert_eq!(cmd, "xrandr");
}

#[test]
fn build_display_command_injects_overrides() {
    let wayland = display::build_display_command("xrandr", SessionKind::Wayland, false);
    assert_eq!(wayland, "WAYLAND_DISPLAY=:wayland-0 xrandr");
    let x11 = display::build_display_command("xrandr", SessionKind::X11, false);
    assert_eq!(x11, "DISPLAY=:0  xrandr");
}

#[test]
fn resolution_parse_format_roundtrip() {
    // Rendering and reading back gives the resolution unchanged.
    let r = Resolution { width: 1920, height: 1080 };
    assert_eq!(Resolution::parse(&r.format()).unwrap(), r);
    let small = Resolution { width: 1, height: 1 };
    assert_eq!(Resolution::parse(&small.format()).unwrap(), small);
    let big = Resolution { width: 4294967295, height: 4294967295 };
    assert_eq!(Resolution::parse(&big.format()).unwrap(), big);
}

#[test]
fn resolution_format_is_canonical() {
    let r = Resolution { width: 2560, height: 1440 };
    assert_eq!(r.format(), "2560x1440");
}

#[test]
fn resolution_parse_rejects_malformed() {
    assert_eq!(Resolution::parse("").unwrap_err(), Error::Format);
    assert_eq!(Resolution::parse("1920").unwrap_err(), Error::Format);
    assert_eq!(Resolution::parse("1920x").unwrap_err(), Error::Format);
    assert_eq!(Resolution::parse("x1080").unwrap_err(), Error::Format);
    assert_eq!(Resolution::parse("0x1080").unwrap_err(), Error::Format);
    assert_eq!(Resolution::parse("1920x0").unwrap_err(), Error::Format);
    assert_eq!(Resolution::parse("ax1080").unwrap_err(), Error::Format);
    assert_eq!(Resolution::parse("1920X1080").unwrap_err(), Error::Format);
    assert_eq!(Resolution::parse("4294967296x1").unwrap_err(), Error::Format);
}

#[test]
fn resolution_area_multiplies() {
    let r = Resolution { width: 1920, height: 1080 };
    assert_eq!(r.area(), 1920 * 1080);
}

#[test]
fn multiply_resolution_parses_and_multiplies() {
    assert_eq!(resolution::multiply_resolution("1920x1080").unwrap(), 1920 * 1080);
    assert_eq!(resolution::multiply_resolution("50x25").unwrap(), 1250);
    assert_eq!(resolution::multiply_resolution("bogus").unwrap_err(), Error::Format);
}

#[test]
fn get_width_and_height_split_tokens() {
    assert_eq!(resolution::get_width("1920x1080"), "1920");
    assert_eq!(resolution::get_height("1920x1080"), "1080");
    // Without a separator the whole string is the first token.
    assert_eq!(resolution::get_width("1920"), "1920");
    // A second separator bounds the second token.
    assert_eq!(resolution::get_height("1920x1080x77"), "1080");
}

#[test]
fn error_describe_names_each_variant() {
    assert_eq!(Error::Format.describe(), "malformed resolution string");
    assert_eq!(Error::NoDisplay.describe(), "no display detected");
    assert_eq!(
        Error::Configuration.describe(),
        "unidentifiable session or desktop environment"
    );
    assert_eq!(Error::Decode.describe(), "image data could not be decoded");
}

#[test]
fn total_resolution_query_shape() {
    assert_eq!(
        display::total_resolution_query(),
        "xprop -notype -len 16 -root _NET_DESKTOP_GEOMETRY | cut -c 25-"
    );
}
