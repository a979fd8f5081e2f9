use chwp::desktop;
use chwp::desktop::{DesktopEnvironmentKind, DispatchPlan, WallpaperArtifact};
use chwp::gnome;
use chwp::kde;
use chwp::xfce;

#[test]
fn classify_is_case_insensitive_and_trimmed() {
    // " GNOME " and "gnome-classic" both classify as Gnome.
    assert_eq!(desktop::classify_desktop(" GNOME "), DesktopEnvironmentKind::Gnome);
    assert_eq!(desktop::classify_desktop("gnome-classic"), DesktopEnvironmentKind::Gnome);
    assert_eq!(desktop::classify_desktop("ubuntu:GNOME"), DesktopEnvironmentKind::Gnome);
}

#[test]
fn classify_each_environment() {
    assert_eq!(desktop::classify_desktop("X-Cinnamon"), DesktopEnvironmentKind::Cinnamon);
    assert_eq!(desktop::classify_desktop("Deepin"), DesktopEnvironmentKind::Deepin);
    assert_eq!(desktop::classify_desktop("KDE"), DesktopEnvironmentKind::KdePlasma);
    assert_eq!(desktop::classify_desktop("plasma"), DesktopEnvironmentKind::KdePlasma);
    assert_eq!(desktop::classify_desktop("XFCE"), DesktopEnvironmentKind::Xfce);
    assert_eq!(desktop::classify_desktop("sway"), DesktopEnvironmentKind::Unknown);
    assert_eq!(desktop::classify_desktop(""), DesktopEnvironmentKind::Unknown);
}

#[test]
fn classify_first_match_wins() {
    // A name holding several markers takes the first in the fixed order.
    assert_eq!(desktop::classify_desktop("gnome-kde"), DesktopEnvironmentKind::Gnome);
    assert_eq!(desktop::classify_desktop("cinnamon-kde"), DesktopEnvironmentKind::Cinnamon);
}

#[test]
fn picture_option_maps_span_mode() {
    assert_eq!(desktop::picture_option(true), "spanned");
    assert_eq!(desktop::picture_option(false), "scaled");
}

#[test]
fn artifact_builds_file_uri() {
    let a = WallpaperArtifact::new("/home/user/.cache/chwp/1.jpg".to_string());
    assert_eq!(a.file_path, "/home/user/.cache/chwp/1.jpg");
    assert_eq!(a.file_uri, "file:///home/user/.cache/chwp/1.jpg");
}

#[test]
fn write_settings_skips_equal_value() {
    // The read-before-write check short-circuits when nothing changed.
    let r = gnome::write_settings(
        "org.gnome.desktop.background picture-uri",
        "file:///tmp/a.jpg",
        "file:///tmp/a.jpg",
    );
    assert!(r.is_none());
}

#[test]
fn write_settings_writes_different_value() {
    let r = gnome::write_settings(
        "org.gnome.desktop.background picture-uri",
        "file:///tmp/a.jpg",
        "file:///tmp/old.jpg",
    );
    assert_eq!(
        r.unwrap(),
        "gsettings set org.gnome.desktop.background picture-uri file:///tmp/a.jpg"
    );
}

#[test]
fn write_settings_twice_writes_once() {
    // Two writer passes with an unchanged wanted value: the first issues the
    // one write, the second reads the value back and issues none.
    let key = "org.gnome.desktop.background picture-options";
    let wanted = "spanned";
    let mut store = "scaled".to_string();
    let mut executed: Vec<String> = Vec::new();

    for _ in 0..2 {
        if let Some(cmd) = gnome::write_settings(key, wanted, &store) {
            executed.push(cmd);
            store = wanted.to_string();
        }
    }

    assert_eq!(executed.len(), 1);
    assert_eq!(
        executed[0],
        "gsettings set org.gnome.desktop.background picture-options spanned"
    );
}

#[test]
fn read_settings_command_shape() {
    assert_eq!(
        gnome::read_settings_command("org.gnome.desktop.background picture-uri"),
        "gsettings get org.gnome.desktop.background picture-uri"
    );
}

#[test]
fn is_settings_value_equals_compares() {
    assert!(gnome::is_settings_value_equals("'zoom'", "'zoom'"));
    assert!(!gnome::is_settings_value_equals("'zoom'", "'spanned'"));
}

#[test]
fn kde_wallpaper_command_shape() {
    let cmd = kde::set_wallpaper(&"/tmp/w.jpg".to_string());
    let expected = [
        "dbus-send --session --dest=org.kde.plasmashell --type=method_call /PlasmaShell org.kde.PlasmaShell.evaluateScript 'string:",
        "var Desktops = desktops();",
        "for (i=0;i<Desktops.length;i++) {",
        "        d = Desktops[i];",
        "        d.wallpaperPlugin = \"org.kde.image\";",
        "        d.currentConfigGroup = Array(\"Wallpaper\",",
        "                                    \"org.kde.image\",",
        "                                    \"General\");",
        "        d.writeConfig(\"Image\", \"file://", "/tmp/w.jpg", "\");",
        "        d.writeConfig(\"FillMode\", 1);",
        "}'",
    ]
    .join("");
    assert_eq!(cmd, expected);
}

#[test]
fn kde_lockscreen_command_shape() {
    let cmd = kde::set_lockscreen(&"/tmp/w.jpg".to_string());
    let expected = [
        "kwriteconfig5 --file ~/.config/kscreenlockerrc ",
        "--group Greeter ",
        "--group Wallpaper ",
        "--group org.kde.image ",
        "--group General ",
        "--key Image \"",
        "/tmp/w.jpg",
        "\"",
    ]
    .join("");
    assert_eq!(cmd, expected);
}

#[test]
fn xfce_list_channels_command_shape() {
    assert_eq!(
        xfce::list_channels_command(),
        "xfconf-query -c xfce4-desktop -l | grep \"last-image$\""
    );
}

#[test]
fn xfce_sets_every_listed_channel() {
    let commands = xfce::set_wallpaper(
        "/tmp/w.jpg",
        "/backdrop/screen0/monitor0/workspace0/last-image\n/backdrop/screen0/monitor1/workspace0/last-image",
    );
    assert_eq!(commands.len(), 2);
    assert_eq!(
        commands[0],
        "xfconf-query --channel xfce4-desktop --property /backdrop/screen0/monitor0/workspace0/last-image --set /tmp/w.jpg"
    );
    assert_eq!(
        commands[1],
        "xfconf-query --channel xfce4-desktop --property /backdrop/screen0/monitor1/workspace0/last-image --set /tmp/w.jpg"
    );
}

#[test]
fn change_wallpaper_gnome_plan() {
    let artifact = WallpaperArtifact::new("/tmp/w.jpg".to_string());
    let plan = desktop::change_wallpaper("GNOME", true, &artifact, false);
    match plan {
        DispatchPlan::SettingsWrites(pairs) => {
            let expected = vec![
                (
                    "org.gnome.desktop.background picture-uri".to_string(),
                    "file:///tmp/w.jpg".to_string(),
                ),
                (
                    "org.gnome.desktop.background picture-uri-dark".to_string(),
                    "file:///tmp/w.jpg".to_string(),
                ),
                (
                    "org.gnome.desktop.background picture-options".to_string(),
                    "spanned".to_string(),
                ),
                (
                    "org.gnome.desktop.screensaver picture-uri".to_string(),
                    "file:///tmp/w.jpg".to_string(),
                ),
                (
                    "org.gnome.desktop.screensaver picture-uri-dark".to_string(),
                    "file:///tmp/w.jpg".to_string(),
                ),
                (
                    "org.gnome.desktop.screensaver picture-options".to_string(),
                    "spanned".to_string(),
                ),
            ];
            assert_eq!(pairs, expected);
        }
        _ => panic!("expected a settings plan for GNOME"),
    }
}

#[test]
fn change_wallpaper_cinnamon_plan() {
    let artifact = WallpaperArtifact::new("/tmp/w.jpg".to_string());
    let plan = desktop::change_wallpaper("X-Cinnamon", false, &artifact, false);
    match plan {
        DispatchPlan::SettingsWrites(pairs) => {
            let expected = vec![
                (
                    "org.cinnamon.desktop.background picture-uri".to_string(),
                    "file:///tmp/w.jpg".to_string(),
                ),
                (
                    "org.cinnamon.desktop.background picture-options".to_string(),
                    "scaled".to_string(),
                ),
            ];
            assert_eq!(pairs, expected);
        }
        _ => panic!("expected a settings plan for Cinnamon"),
    }
}

#[test]
fn change_wallpaper_deepin_plan() {
    let artifact = WallpaperArtifact::new("/tmp/w.jpg".to_string());
    let plan = desktop::change_wallpaper("Deepin", false, &artifact, false);
    match plan {
        DispatchPlan::SettingsWrites(pairs) => {
            assert_eq!(pairs.len(), 4);
            assert_eq!(
                pairs[0].0,
                "com.deepin.wrap.gnome.desktop.background picture-uri"
            );
            assert_eq!(pairs[0].1, "file:///tmp/w.jpg");
            assert_eq!(
                pairs[3].0,
                "com.deepin.wrap.gnome.desktop.screensaver picture-options"
            );
            assert_eq!(pairs[3].1, "scaled");
        }
        _ => panic!("expected a settings plan for Deepin"),
    }
}

#[test]
fn change_wallpaper_plasma_plan() {
    let artifact = WallpaperArtifact::new("/tmp/w.jpg".to_string());
    let plan = desktop::change_wallpaper("KDE", false, &artifact, false);
    match plan {
        DispatchPlan::PlasmaCommands(wallpaper, lockscreen) => {
            assert_eq!(wallpaper, kde::set_wallpaper(&"/tmp/w.jpg".to_string()));
            assert_eq!(lockscreen, kde::set_lockscreen(&"/tmp/w.jpg".to_string()));
        }
        _ => panic!("expected the Plasma commands for KDE"),
    }
}

#[test]
fn change_wallpaper_xfce_plans() {
    let artifact = WallpaperArtifact::new("/tmp/w.jpg".to_string());
    let with_feh = desktop::change_wallpaper("XFCE", false, &artifact, true);
    match with_feh {
        DispatchPlan::FehCommand(cmd) => assert_eq!(cmd, "feh --bg-scale /tmp/w.jpg"),
        _ => panic!("expected the feh command when feh is installed"),
    }
    let without_feh = desktop::change_wallpaper("XFCE", false, &artifact, false);
    match without_feh {
        DispatchPlan::XfceChannelQuery(cmd) => {
            assert_eq!(cmd, "xfconf-query -c xfce4-desktop -l | grep \"last-image$\"");
        }
        _ => panic!("expected the channel query when feh is absent"),
    }
}

#[test]
fn change_wallpaper_unknown_reports() {
    let artifact = WallpaperArtifact::new("/tmp/w.jpg".to_string());
    let plan = desktop::change_wallpaper(" Sway ", false, &artifact, false);
    match plan {
        DispatchPlan::Unsupported(message) => {
            assert_eq!(message, "sway is not supported yet.");
        }
        _ => panic!("expected no writer for an unknown desktop"),
    }
}

#[test]
fn wallpaper_paths_are_rooted_in_the_cache_dir() {
    assert_eq!(desktop::wallpaper_dir_path("/home/user"), "/home/user/.cache/chwp");
    assert_eq!(
        desktop::wallpaper_file_path("/home/user", 1700000000123),
        "/home/user/.cache/chwp/1700000000123.jpg"
    );
}
