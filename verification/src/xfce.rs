//! The Xfce writer: every configuration channel that ends in the wallpaper
//! property gets the new image, one command per channel, because Xfce keeps
//! one property per monitor and workspace.
use vstd::prelude::*;

use crate::text::{split_seq, split_str};

verus! {

/// The query that lists the wallpaper properties of every channel.
pub fn list_channels_command() -> (r: &'static str)
    ensures
        r@ == "xfconf-query -c xfce4-desktop -l | grep \"last-image$\""@,
{
    "xfconf-query -c xfce4-desktop -l | grep \"last-image$\""
}

/// The command that sets one channel's wallpaper property.
pub open spec fn set_channel_command(channel: Seq<char>, wallpaper_path: Seq<char>) -> Seq<char> {
    "xfconf-query --channel xfce4-desktop --property "@ + channel + " --set "@ + wallpaper_path
}

/// One set-property command per line of the channel listing.
pub fn set_wallpaper(wallpaper_path: &str, channels_output: &str) -> (r: Vec<String>)
    ensures
        r@.len() == split_seq(channels_output@, '\n').len(),
        forall|i: int|
            0 <= i < r@.len() ==> (#[trigger] r@[i])@ == set_channel_command(
                split_seq(channels_output@, '\n')[i],
                wallpaper_path@,
            ),
{
    let channels = split_str(channels_output, '\n');
    let mut commands: Vec<String> = Vec::new();
    let n = channels.len();
    let mut i: usize = 0;
    while i < n
        invariant
            n == channels@.len(),
            channels.deep_view() == split_seq(channels_output@, '\n'),
            i <= n,
            commands@.len() == i,
            forall|k: int|
                0 <= k < i ==> (#[trigger] commands@[k])@ == set_channel_command(
                    split_seq(channels_output@, '\n')[k],
                    wallpaper_path@,
                ),
        decreases n - i,
    {
        let mut cmd = String::new();
        cmd.append("xfconf-query --channel xfce4-desktop --property ");
        cmd.append(channels[i].as_str());
        cmd.append(" --set ");
        cmd.append(wallpaper_path);
        proof {
            assert(channels.deep_view()[i as int] == channels@[i as int]@);
            assert(cmd@ =~= set_channel_command(
                split_seq(channels_output@, '\n')[i as int],
                wallpaper_path@,
            ));
        }
        commands.push(cmd);
        i += 1;
    }
    commands
}

} // verus!
