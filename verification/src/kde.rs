//! The KDE Plasma writers: one scripted call through the desktop shell sets
//! the wallpaper on every virtual desktop, one config-file key write sets the
//! lock screen. Both are fire-and-forget: Plasma exposes no read-back here.
use vstd::prelude::*;

verus! {

/// The script call that sets the wallpaper on every virtual desktop.
pub open spec fn wallpaper_command(file_path: Seq<char>) -> Seq<char> {
    "dbus-send --session --dest=org.kde.plasmashell --type=method_call /PlasmaShell org.kde.PlasmaShell.evaluateScript 'string:"@
        + "var Desktops = desktops();"@ + "for (i=0;i<Desktops.length;i++) {"@
        + "        d = Desktops[i];"@ + "        d.wallpaperPlugin = \"org.kde.image\";"@
        + "        d.currentConfigGroup = Array(\"Wallpaper\","@
        + "                                    \"org.kde.image\","@
        + "                                    \"General\");"@
        + "        d.writeConfig(\"Image\", \"file://"@ + file_path + "\");"@
        + "        d.writeConfig(\"FillMode\", 1);"@ + "}'"@
}

/// The config-file write that sets the lock-screen wallpaper.
pub open spec fn lockscreen_command(file_path: Seq<char>) -> Seq<char> {
    "kwriteconfig5 --file ~/.config/kscreenlockerrc "@ + "--group Greeter "@
        + "--group Wallpaper "@ + "--group org.kde.image "@ + "--group General "@
        + "--key Image \""@ + file_path + "\""@
}

/// Builds the desktop-shell script call for the given image path.
pub fn set_wallpaper(file_path: &String) -> (r: String)
    ensures
        r@ == wallpaper_command(file_path@),
{
    let mut r = String::new();
    r.append(
        "dbus-send --session --dest=org.kde.plasmashell --type=method_call /PlasmaShell org.kde.PlasmaShell.evaluateScript 'string:",
    );
    r.append("var Desktops = desktops();");
    r.append("for (i=0;i<Desktops.length;i++) {");
    r.append("        d = Desktops[i];");
    r.append("        d.wallpaperPlugin = \"org.kde.image\";");
    r.append("        d.currentConfigGroup = Array(\"Wallpaper\",");
    r.append("                                    \"org.kde.image\",");
    r.append("                                    \"General\");");
    r.append("        d.writeConfig(\"Image\", \"file://");
    r.append(file_path.as_str());
    r.append("\");");
    r.append("        d.writeConfig(\"FillMode\", 1);");
    r.append("}'");
    proof {
        assert(r@ =~= wallpaper_command(file_path@));
    }
    r
}

/// Builds the lock-screen config write for the given image path.
pub fn set_lockscreen(file_path: &String) -> (r: String)
    ensures
        r@ == lockscreen_command(file_path@),
{
    let mut r = String::new();
    r.append("kwriteconfig5 --file ~/.config/kscreenlockerrc ");
    r.append("--group Greeter ");
    r.append("--group Wallpaper ");
    r.append("--group org.kde.image ");
    r.append("--group General ");
    r.append("--key Image \"");
    r.append(file_path.as_str());
    r.append("\"");
    proof {
        assert(r@ =~= lockscreen_command(file_path@));
    }
    r
}

} // verus!
