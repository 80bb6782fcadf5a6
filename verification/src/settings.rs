//! Application settings and command-line arguments.

use vstd::prelude::*;
use crate::protocol::SettingsSnapshot;
use crate::text::{eq_str, str_chars};

verus! {

broadcast use vstd::string::group_string_axioms;

/// Command-line arguments of the player.
#[derive(Debug)]
pub struct Args {
    /// Directory or file to open on startup.
    pub path: Option<String>,
    /// Start in file browser mode.
    pub browse: bool,
    /// Run as a headless daemon (no terminal interface).
    pub daemon: bool,
    /// Files or directories to add to the playlist and start playing.
    pub files: Vec<String>,
}

/// Application settings (Discord Rich Presence and the system media
/// controls).
#[derive(Debug, Clone)]
pub struct Settings {
    /// Enable Discord Rich Presence integration.
    pub discord_enabled: bool,
    /// Enable the system media transport controls.
    pub smtc_enabled: bool,
}

impl Default for Settings {
    fn default() -> (r: Self)
        ensures
            r.discord_enabled,
            r.smtc_enabled,
    {
        Settings { discord_enabled: true, smtc_enabled: true }
    }
}

/// Application settings managed by the command processor.
#[derive(Debug, Clone)]
pub struct ProcessorSettings {
    pub discord_enabled: bool,
    pub smtc_enabled: bool,
    pub web_enabled: bool,
    pub web_port: u16,
    pub web_bind: String,
}

impl Default for ProcessorSettings {
    fn default() -> (r: Self)
        ensures
            r.discord_enabled,
            r.smtc_enabled,
            !r.web_enabled,
            r.web_port == 8384,
            r.web_bind@ == "127.0.0.1"@,
    {
        ProcessorSettings {
            discord_enabled: true,
            smtc_enabled: true,
            web_enabled: false,
            web_port: 8384,
            web_bind: "127.0.0.1".to_string(),
        }
    }
}

impl ProcessorSettings {
    /// The settings as sent to the clients.
    pub fn to_snapshot(&self) -> (r: SettingsSnapshot)
        ensures
            r.discord_enabled == self.discord_enabled,
            r.smtc_enabled == self.smtc_enabled,
    {
        SettingsSnapshot { discord_enabled: self.discord_enabled, smtc_enabled: self.smtc_enabled }
    }

    /// Flips the setting named `key` (`discord_enabled`, `smtc_enabled`
    /// or `web_enabled`); returns false, changing nothing, for any other
    /// key.
    pub fn toggle(&mut self, key: &str) -> (r: bool)
        ensures
            r == (key@ == "discord_enabled"@ || key@ == "smtc_enabled"@ || key@
                == "web_enabled"@),
            final(self).discord_enabled == (old(self).discord_enabled != (key@
                == "discord_enabled"@)),
            final(self).smtc_enabled == (old(self).smtc_enabled != (key@ == "smtc_enabled"@
                && key@ != "discord_enabled"@)),
            final(self).web_enabled == (old(self).web_enabled != (key@ == "web_enabled"@ && key@
                != "discord_enabled"@ && key@ != "smtc_enabled"@)),
            final(self).web_port == old(self).web_port,
            final(self).web_bind == old(self).web_bind,
    {
        let k = str_chars(key);
        if eq_str(&k, "discord_enabled") {
            self.discord_enabled = !self.discord_enabled;
            true
        } else if eq_str(&k, "smtc_enabled") {
            self.smtc_enabled = !self.smtc_enabled;
            true
        } else if eq_str(&k, "web_enabled") {
            self.web_enabled = !self.web_enabled;
            true
        } else {
            false
        }
    }
}

} // verus!
