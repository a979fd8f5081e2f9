//! Desktop-environment dispatch: classify the running desktop once from the
//! environment string, then select the writer that persists the wallpaper.
//! The decision layer is pure; running the selected commands is the caller's
//! business.
use vstd::prelude::*;

use crate::kde;
use crate::resolution::{dec_str, push_dec};
use crate::text::{
    contains_seq, contains_str, lemma_lower_idem, lemma_lower_trim, lemma_trim_idem, lower_seq,
    to_lower, trim_seq, trim_str,
};
use crate::xfce;

verus! {

/// The closed set of desktop environments that can be dispatched to, derived
/// once per run and immutable afterwards.
#[derive(Clone, Copy, PartialEq, Eq, Structural, Debug)]
pub enum DesktopEnvironmentKind {
    Gnome,
    Cinnamon,
    Deepin,
    KdePlasma,
    Xfce,
    Unknown,
}

/// Classification of an already lower-cased and trimmed desktop name, by
/// substring containment, first match wins.
pub open spec fn classify_core(t: Seq<char>) -> DesktopEnvironmentKind {
    if contains_seq(t, "gnome"@) {
        DesktopEnvironmentKind::Gnome
    } else if contains_seq(t, "cinnamon"@) {
        DesktopEnvironmentKind::Cinnamon
    } else if contains_seq(t, "deepin"@) {
        DesktopEnvironmentKind::Deepin
    } else if contains_seq(t, "plasma"@) || contains_seq(t, "kde"@) {
        DesktopEnvironmentKind::KdePlasma
    } else if contains_seq(t, "xfce"@) {
        DesktopEnvironmentKind::Xfce
    } else {
        DesktopEnvironmentKind::Unknown
    }
}

/// Classification of the raw desktop name: trimmed, lower-cased, then
/// matched by substring containment.
pub open spec fn classify_spec(s: Seq<char>) -> DesktopEnvironmentKind {
    classify_core(lower_seq(trim_seq(s)))
}

/// Classifies the desktop environment name, against `classify_spec`.
pub fn classify_desktop(raw: &str) -> (r: DesktopEnvironmentKind)
    ensures
        r == classify_spec(raw@),
{
    let trimmed = trim_str(raw);
    let lowered = to_lower(trimmed.as_str());
    let t = lowered.as_str();
    if contains_str(t, "gnome") {
        DesktopEnvironmentKind::Gnome
    } else if contains_str(t, "cinnamon") {
        DesktopEnvironmentKind::Cinnamon
    } else if contains_str(t, "deepin") {
        DesktopEnvironmentKind::Deepin
    } else if contains_str(t, "plasma") || contains_str(t, "kde") {
        DesktopEnvironmentKind::KdePlasma
    } else if contains_str(t, "xfce") {
        DesktopEnvironmentKind::Xfce
    } else {
        DesktopEnvironmentKind::Unknown
    }
}

/// Classification is case-insensitive: folding the name's case first changes
/// nothing.
pub proof fn lemma_classify_case_insensitive(s: Seq<char>)
    ensures
        classify_spec(lower_seq(s)) == classify_spec(s),
{
    lemma_lower_trim(s);
    lemma_lower_idem(trim_seq(s));
}

/// Classification is whitespace-trimmed: trimming the name first changes
/// nothing.
pub proof fn lemma_classify_trim_insensitive(s: Seq<char>)
    ensures
        classify_spec(trim_seq(s)) == classify_spec(s),
{
    lemma_trim_idem(s);
}

/// The picture-mode token the GNOME-family stores expect: span the monitors
/// or scale to one.
pub open spec fn picture_option_spec(span: bool) -> Seq<char> {
    if span {
        "spanned"@
    } else {
        "scaled"@
    }
}

/// The picture-mode token for the chosen span mode.
pub fn picture_option(span: bool) -> (r: &'static str)
    ensures
        r@ == picture_option_spec(span),
{
    if span {
        "spanned"
    } else {
        "scaled"
    }
}

/// The persisted image file, as a bare path and as a `file://` URI.
pub struct WallpaperArtifact {
    pub file_path: String,
    pub file_uri: String,
}

impl WallpaperArtifact {
    /// The URI is the path behind a `file://` scheme.
    pub open spec fn wf(self) -> bool {
        self.file_uri@ == "file://"@ + self.file_path@
    }

    /// Builds the artifact for a persisted file path.
    pub fn new(file_path: String) -> (a: WallpaperArtifact)
        ensures
            a.wf(),
            a.file_path == file_path,
    {
        let mut file_uri = String::new();
        file_uri.append("file://");
        file_uri.append(file_path.as_str());
        proof {
            assert(file_uri@ =~= "file://"@ + file_path@);
        }
        WallpaperArtifact { file_path, file_uri }
    }
}

/// The cache directory that holds the one wallpaper artifact, under the
/// given home directory.
pub fn wallpaper_dir_path(home: &str) -> (r: String)
    ensures
        r@ == home@ + "/.cache/chwp"@,
{
    let mut r = String::new();
    r.append(home);
    r.append("/.cache/chwp");
    proof {
        assert(r@ =~= home@ + "/.cache/chwp"@);
    }
    r
}

/// The artifact file path: the cache directory and a file named by the
/// given wall-clock millisecond token, so that no file the desktop shell
/// still holds open collides with it.
pub fn wallpaper_file_path(home: &str, millis: u64) -> (r: String)
    ensures
        r@ == home@ + "/.cache/chwp/"@ + dec_str(millis as int) + ".jpg"@,
{
    let mut r = String::new();
    r.append(home);
    r.append("/.cache/chwp/");
    push_dec(&mut r, millis);
    r.append(".jpg");
    proof {
        assert(r@ =~= home@ + "/.cache/chwp/"@ + dec_str(millis as int) + ".jpg"@);
    }
    r
}

/// The key-value pairs of a settings plan, as character sequences.
pub open spec fn pairs_view(v: Seq<(String, String)>) -> Seq<(Seq<char>, Seq<char>)> {
    v.map_values(|p: (String, String)| (p.0@, p.1@))
}

/// The settings pairs the GNOME writer visits, in order.
pub open spec fn gnome_pairs(opt: Seq<char>, uri: Seq<char>) -> Seq<(Seq<char>, Seq<char>)> {
    seq![
        ("org.gnome.desktop.background picture-uri"@, uri),
        ("org.gnome.desktop.background picture-uri-dark"@, uri),
        ("org.gnome.desktop.background picture-options"@, opt),
        ("org.gnome.desktop.screensaver picture-uri"@, uri),
        ("org.gnome.desktop.screensaver picture-uri-dark"@, uri),
        ("org.gnome.desktop.screensaver picture-options"@, opt),
    ]
}

/// The settings pairs the Cinnamon writer visits, in order.
pub open spec fn cinnamon_pairs(opt: Seq<char>, uri: Seq<char>) -> Seq<(Seq<char>, Seq<char>)> {
    seq![
        ("org.cinnamon.desktop.background picture-uri"@, uri),
        ("org.cinnamon.desktop.background picture-options"@, opt),
    ]
}

/// The settings pairs the Deepin writer visits, in order.
pub open spec fn deepin_pairs(opt: Seq<char>, uri: Seq<char>) -> Seq<(Seq<char>, Seq<char>)> {
    seq![
        ("com.deepin.wrap.gnome.desktop.background picture-uri"@, uri),
        ("com.deepin.wrap.gnome.desktop.background picture-options"@, opt),
        ("com.deepin.wrap.gnome.desktop.screensaver picture-uri"@, uri),
        ("com.deepin.wrap.gnome.desktop.screensaver picture-options"@, opt),
    ]
}

/// The GNOME settings plan: background and screensaver, light and dark.
pub fn set_gnome_wallpaper(picture_option: &str, wallpaper_file_path_fqdn: &str) -> (r: Vec<
    (String, String),
>)
    ensures
        pairs_view(r@) == gnome_pairs(picture_option@, wallpaper_file_path_fqdn@),
{
    let mut r: Vec<(String, String)> = Vec::new();
    r.push(
        (
            String::from_str("org.gnome.desktop.background picture-uri"),
            String::from_str(wallpaper_file_path_fqdn),
        ),
    );
    r.push(
        (
            String::from_str("org.gnome.desktop.background picture-uri-dark"),
            String::from_str(wallpaper_file_path_fqdn),
        ),
    );
    r.push(
        (
            String::from_str("org.gnome.desktop.background picture-options"),
            String::from_str(picture_option),
        ),
    );
    r.push(
        (
            String::from_str("org.gnome.desktop.screensaver picture-uri"),
            String::from_str(wallpaper_file_path_fqdn),
        ),
    );
    r.push(
        (
            String::from_str("org.gnome.desktop.screensaver picture-uri-dark"),
            String::from_str(wallpaper_file_path_fqdn),
        ),
    );
    r.push(
        (
            String::from_str("org.gnome.desktop.screensaver picture-options"),
            String::from_str(picture_option),
        ),
    );
    proof {
        assert(pairs_view(r@) =~= gnome_pairs(picture_option@, wallpaper_file_path_fqdn@));
    }
    r
}

/// The Cinnamon settings plan: background image and mode.
pub fn set_cinnamon_wallpaper(picture_option: &str, wallpaper_file_path_fqdn: &str) -> (r: Vec<
    (String, String),
>)
    ensures
        pairs_view(r@) == cinnamon_pairs(picture_option@, wallpaper_file_path_fqdn@),
{
    let mut r: Vec<(String, String)> = Vec::new();
    r.push(
        (
            String::from_str("org.cinnamon.desktop.background picture-uri"),
            String::from_str(wallpaper_file_path_fqdn),
        ),
    );
    r.push(
        (
            String::from_str("org.cinnamon.desktop.background picture-options"),
            String::from_str(picture_option),
        ),
    );
    proof {
        assert(pairs_view(r@) =~= cinnamon_pairs(picture_option@, wallpaper_file_path_fqdn@));
    }
    r
}

/// The Deepin settings plan: wallpaper and screensaver through the GNOME
/// wrapper keys.
pub fn set_deepin_wallpaper(picture_option: &str, wallpaper_file_path_fqdn: &str) -> (r: Vec<
    (String, String),
>)
    ensures
        pairs_view(r@) == deepin_pairs(picture_option@, wallpaper_file_path_fqdn@),
{
    let mut r: Vec<(String, String)> = Vec::new();
    r.push(
        (
            String::from_str("com.deepin.wrap.gnome.desktop.background picture-uri"),
            String::from_str(wallpaper_file_path_fqdn),
        ),
    );
    r.push(
        (
            String::from_str("com.deepin.wrap.gnome.desktop.background picture-options"),
            String::from_str(picture_option),
        ),
    );
    r.push(
        (
            String::from_str("com.deepin.wrap.gnome.desktop.screensaver picture-uri"),
            String::from_str(wallpaper_file_path_fqdn),
        ),
    );
    r.push(
        (
            String::from_str("com.deepin.wrap.gnome.desktop.screensaver picture-options"),
            String::from_str(picture_option),
        ),
    );
    proof {
        assert(pairs_view(r@) =~= deepin_pairs(picture_option@, wallpaper_file_path_fqdn@));
    }
    r
}

/// What the dispatcher decided: the writer to use and what to hand it. The
/// caller performs the commands; for the settings writers it reads each key
/// first and writes through `gnome::write_settings` only on a difference,
/// and for the channel query it feeds the listing to `xfce::set_wallpaper`.
pub enum DispatchPlan {
    /// Read-compare-write these key-value settings, in order.
    SettingsWrites(Vec<(String, String)>),
    /// Run the Plasma script call, then the lock-screen config write.
    PlasmaCommands(String, String),
    /// Set the background directly through the image viewer.
    FehCommand(String),
    /// List the wallpaper channels, then set every one of them.
    XfceChannelQuery(String),
    /// No writer exists; report the environment instead of failing.
    Unsupported(String),
}

/// The Xfce decision: the image viewer when it is installed, else one write
/// per configuration channel.
pub fn set_xfce_wallpaper(wallpaper_file_path: &str, feh_installed: bool) -> (r: DispatchPlan)
    ensures
        feh_installed ==> (r matches DispatchPlan::FehCommand(cmd) && cmd@ == "feh --bg-scale "@
            + wallpaper_file_path@),
        !feh_installed ==> (r matches DispatchPlan::XfceChannelQuery(cmd) && cmd@
            == "xfconf-query -c xfce4-desktop -l | grep \"last-image$\""@),
{
    if feh_installed {
        let mut cmd = String::new();
        cmd.append("feh --bg-scale ");
        cmd.append(wallpaper_file_path);
        proof {
            assert(cmd@ =~= "feh --bg-scale "@ + wallpaper_file_path@);
        }
        DispatchPlan::FehCommand(cmd)
    } else {
        let cmd = String::from_str(xfce::list_channels_command());
        DispatchPlan::XfceChannelQuery(cmd)
    }
}

/// Selects the wallpaper writer for the detected desktop environment and
/// builds what it needs: the settings pairs for the GNOME family, the two
/// Plasma commands, the Xfce path, or a report that the environment has no
/// writer — an unsupported desktop is not an error, only nothing to do.
pub fn change_wallpaper(
    display_manager: &str,
    span: bool,
    artifact: &WallpaperArtifact,
    feh_installed: bool,
) -> (r: DispatchPlan)
    ensures
        classify_spec(display_manager@) == DesktopEnvironmentKind::Gnome ==> (
        r matches DispatchPlan::SettingsWrites(pairs) && pairs_view(pairs@) == gnome_pairs(
            picture_option_spec(span),
            artifact.file_uri@,
        )),
        classify_spec(display_manager@) == DesktopEnvironmentKind::Cinnamon ==> (
        r matches DispatchPlan::SettingsWrites(pairs) && pairs_view(pairs@) == cinnamon_pairs(
            picture_option_spec(span),
            artifact.file_uri@,
        )),
        classify_spec(display_manager@) == DesktopEnvironmentKind::Deepin ==> (
        r matches DispatchPlan::SettingsWrites(pairs) && pairs_view(pairs@) == deepin_pairs(
            picture_option_spec(span),
            artifact.file_uri@,
        )),
        classify_spec(display_manager@) == DesktopEnvironmentKind::KdePlasma ==> (
        r matches DispatchPlan::PlasmaCommands(wallpaper, lockscreen) && wallpaper@
            == kde::wallpaper_command(artifact.file_path@) && lockscreen@ == kde::lockscreen_command(
            artifact.file_path@,
        )),
        classify_spec(display_manager@) == DesktopEnvironmentKind::Xfce ==> (feh_installed ==> (
        r matches DispatchPlan::FehCommand(cmd) && cmd@ == "feh --bg-scale "@
            + artifact.file_path@)) && (!feh_installed ==> (
        r matches DispatchPlan::XfceChannelQuery(cmd) && cmd@
            == "xfconf-query -c xfce4-desktop -l | grep \"last-image$\""@)),
        classify_spec(display_manager@) == DesktopEnvironmentKind::Unknown ==> (
        r matches DispatchPlan::Unsupported(message) && message@ == lower_seq(
            trim_seq(display_manager@),
        ) + " is not supported yet."@),
{
    let kind = classify_desktop(display_manager);
    let opt = picture_option(span);
    match kind {
        DesktopEnvironmentKind::Gnome => DispatchPlan::SettingsWrites(
            set_gnome_wallpaper(opt, artifact.file_uri.as_str()),
        ),
        DesktopEnvironmentKind::Cinnamon => DispatchPlan::SettingsWrites(
            set_cinnamon_wallpaper(opt, artifact.file_uri.as_str()),
        ),
        DesktopEnvironmentKind::Deepin => DispatchPlan::SettingsWrites(
            set_deepin_wallpaper(opt, artifact.file_uri.as_str()),
        ),
        DesktopEnvironmentKind::KdePlasma => DispatchPlan::PlasmaCommands(
            kde::set_wallpaper(&artifact.file_path),
            kde::set_lockscreen(&artifact.file_path),
        ),
        DesktopEnvironmentKind::Xfce => set_xfce_wallpaper(
            artifact.file_path.as_str(),
            feh_installed,
        ),
        DesktopEnvironmentKind::Unknown => {
            let trimmed = trim_str(display_manager);
            let mut message = to_lower(trimmed.as_str());
            message.append(" is not supported yet.");
            DispatchPlan::Unsupported(message)
        },
    }
}

} // verus!
