//! The shell's own settings and the bot settings it edits.

use vstd::prelude::*;

verus! {

/// Default for settings whose absence means "on".
pub fn default_true() -> (r: bool)
    ensures
        r,
{
    true
}

/// Start-up and window behaviour of the shell.
#[derive(Clone, Copy, Debug, PartialEq, Eq, Structural)]
pub struct Settings {
    pub first_run: bool,
    pub auto_start: bool,
    pub minimize_to_tray: bool,
    pub start_minimized: bool,
    pub open_on_startup: bool,
    pub auto_start_bot: bool,
}

impl Settings {
    /// The settings used before any have been saved: a first run that
    /// minimizes to the tray and starts nothing on its own.
    pub fn first_run_defaults() -> (r: Settings)
        ensures
            r == (Settings {
                first_run: true,
                auto_start: false,
                minimize_to_tray: true,
                start_minimized: false,
                open_on_startup: false,
                auto_start_bot: false,
            }),
    {
        Settings {
            first_run: true,
            auto_start: false,
            minimize_to_tray: default_true(),
            start_minimized: false,
            open_on_startup: false,
            auto_start_bot: false,
        }
    }

    /// Whether the main window starts hidden: on the `--minimized` flag or
    /// the `start_minimized` setting.
    pub fn starts_hidden(&self, minimized_flag: bool) -> (r: bool)
        ensures
            r == (minimized_flag || self.start_minimized),
    {
        minimized_flag || self.start_minimized
    }
}

/// The command line registered to open the shell at log-in: the quoted
/// executable path, with `--minimized` when it should start hidden.
pub fn startup_command(exe_path: &str, minimized: bool) -> (r: String)
    ensures
        r@ == "\""@ + exe_path@ + "\""@ + (if minimized {
            " --minimized"@
        } else {
            ""@
        }),
{
    let mut r = String::from_str("\"");
    r.append(exe_path);
    r.append("\"");
    if minimized {
        r.append(" --minimized");
    } else {
        proof {
            reveal_strlit("");
            assert(r@ + ""@ =~= r@);
        }
    }
    r
}

/// Season names start with this prefix.
pub open spec fn season_prefix() -> Seq<char> {
    "season-"@
}

/// Why bot settings were refused.
#[derive(Clone, Copy, Debug, PartialEq, Eq, Structural)]
pub enum SettingsError {
    /// The season name does not start with `season-`.
    BadSeasonName,
}

/// Accepts a season name only when it starts with `season-`.
pub fn validate_season_name(name: &str) -> (r: Result<(), SettingsError>)
    ensures
        r is Ok <==> (name@.len() >= 7 && name@.subrange(0, 7) == season_prefix()),
        r is Err ==> r == Err::<(), SettingsError>(SettingsError::BadSeasonName),
{
    proof {
        reveal_strlit("season-");
    }
    if crate::text::starts_with(name, "season-") {
        Ok(())
    } else {
        Err(SettingsError::BadSeasonName)
    }
}

} // verus!
