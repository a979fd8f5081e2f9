//! The key-value settings writer used by the GNOME-family desktops: read a
//! key, and write only when the stored value differs from the wanted one.
use vstd::prelude::*;

verus! {

/// The command that writes a settings key, when one must run: a write is
/// issued exactly when the stored value differs from the wanted one.
pub open spec fn write_action(key: Seq<char>, value: Seq<char>, current: Seq<char>) -> Option<
    Seq<char>,
> {
    if current == value {
        None
    } else {
        Some("gsettings set "@ + key + " "@ + value)
    }
}

/// The command that reads a settings key.
pub fn read_settings_command(key: &str) -> (r: String)
    ensures
        r@ == "gsettings get "@ + key@,
{
    let mut r = String::new();
    r.append("gsettings get ");
    r.append(key);
    proof {
        assert(r@ =~= "gsettings get "@ + key@);
    }
    r
}

/// Whether the stored value already equals the wanted one.
pub fn is_settings_value_equals(current: &str, value: &str) -> (r: bool)
    ensures
        r == (current@ == value@),
{
    crate::display::str_eq(current, value)
}

/// The write command for a settings key, given the value the store reported:
/// no command when the store already holds the wanted value, so that
/// re-running with unchanged inputs never writes twice.
pub fn write_settings(key: &str, value: &str, current: &str) -> (r: Option<String>)
    ensures
        match r {
            Some(cmd) => Some(cmd@) == write_action(key@, value@, current@),
            None => write_action(key@, value@, current@) is None,
        },
{
    if is_settings_value_equals(current, value) {
        None
    } else {
        let mut cmd = String::new();
        cmd.append("gsettings set ");
        cmd.append(key);
        cmd.append(" ");
        cmd.append(value);
        proof {
            assert(cmd@ =~= "gsettings set "@ + key@ + " "@ + value@);
        }
        Some(cmd)
    }
}

/// Writing is idempotent. A first write request with stored value `current`
/// issues a command exactly when `current` differs from `value`; after that
/// command runs, the store holds `value`, and a second request with the same
/// `value` issues none — two calls with an unchanged value execute exactly
/// one underlying write.
pub proof fn lemma_write_settings_idempotent(
    key: Seq<char>,
    value: Seq<char>,
    current: Seq<char>,
)
    ensures
        write_action(key, value, current) is Some <==> current != value,
        write_action(key, value, value) is None,
{
}

} // verus!
