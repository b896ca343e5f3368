//! The effective "start at login" state and its per-user override.
//!
//! The packaged system-wide entry in `/etc/xdg/autostart` is never touched:
//! it is package-owned and needs root. Autostart is disabled without root by
//! a per-user override `$XDG_CONFIG_HOME/autostart/<app-id>.desktop`
//! containing `Hidden=true`, which is what GNOME's own tools write and read.
//! The file, not a settings key, is the single source of truth. Reading and
//! writing it happens outside the library; what its presence and content
//! mean, and where it lives, is decided here.
use vstd::prelude::*;

use crate::cli::APPLICATION_ID;
use crate::storage::{join, join_path, opt_view, usable_directory};
use crate::text::{
    chars_of, lemma_line_end, line_end, line_end_exec, str_equal, string_from_range, trim,
    trim_chars,
};

verus! {

/// The content of an override that disables autostart.
pub const HIDDEN_OVERRIDE: &'static str = "[Desktop Entry]\nType=Application\nHidden=true\n";

#[derive(Clone, Copy, Debug, Eq, PartialEq, Structural)]
pub enum AutostartError {
    ConfigHome,
    Directory,
    Write,
}

pub open spec fn autostart_diagnostic(error: AutostartError) -> Seq<char> {
    match error {
        AutostartError::ConfigHome => "autostart-config-home"@,
        AutostartError::Directory => "autostart-directory"@,
        AutostartError::Write => "autostart-write"@,
    }
}

impl AutostartError {
    pub fn diagnostic(self) -> (text: &'static str)
        ensures
            text@ == autostart_diagnostic(self),
    {
        match self {
            AutostartError::ConfigHome => "autostart-config-home",
            AutostartError::Directory => "autostart-directory",
            AutostartError::Write => "autostart-write",
        }
    }
}

/// The configuration directory: `XDG_CONFIG_HOME` when usable, else
/// `HOME/.config` when `HOME` is usable.
pub open spec fn config_home_of(xdg_config_home: Option<Seq<char>>, home: Option<Seq<char>>) -> Option<
    Seq<char>,
> {
    if usable_directory(xdg_config_home) {
        xdg_config_home
    } else if usable_directory(home) {
        Some(join_path(home->0, ".config"@))
    } else {
        None
    }
}

pub fn config_home(xdg_config_home: Option<&str>, home: Option<&str>) -> (dir: Option<String>)
    ensures
        match dir {
            Some(d) => config_home_of(opt_view(xdg_config_home), opt_view(home)) == Some(d@),
            None => config_home_of(opt_view(xdg_config_home), opt_view(home)) is None,
        },
{
    if let Some(path) = xdg_config_home {
        let chars = chars_of(path);
        if chars.len() > 0 && chars[0] == '/' {
            return Some(String::from_str(path));
        }
    }
    if let Some(path) = home {
        let chars = chars_of(path);
        if chars.len() > 0 && chars[0] == '/' {
            return Some(join(path, ".config"));
        }
    }
    None
}

pub open spec fn override_path_of(config_home: Seq<char>) -> Seq<char> {
    join_path(join_path(config_home, "autostart"@), APPLICATION_ID@ + ".desktop"@)
}

/// The per-user override file under a configuration directory.
pub fn override_path(config_home: &str) -> (path: String)
    ensures
        path@ == override_path_of(config_home@),
{
    let directory = join(config_home, "autostart");
    let mut name = String::from_str(APPLICATION_ID);
    name.append(".desktop");
    join(directory.as_str(), name.as_str())
}

/// Whether some line from the one starting at `i` on is `Hidden=true`,
/// surrounding white space aside.
pub open spec fn hidden_from(s: Seq<char>, i: int) -> bool
    decreases s.len() - i, 1int,
{
    if i < 0 || i > s.len() {
        false
    } else {
        let e = line_end(s, i);
        ||| (i <= e && trim(s.subrange(i, e)) == "Hidden=true"@)
        ||| (i <= e < s.len() && hidden_from(s, e + 1))
    }
}

/// Whether the override leaves autostart on: a missing or unreadable file
/// does, and so does any content without a `Hidden=true` line, the rule
/// GNOME's own tools apply.
pub open spec fn enabled_by(content: Option<Seq<char>>) -> bool {
    match content {
        None => true,
        Some(text) => !hidden_from(text, 0),
    }
}

pub fn is_enabled(content: Option<&str>) -> (enabled: bool)
    ensures
        enabled == enabled_by(opt_view(content)),
{
    let text = match content {
        None => {
            return true;
        },
        Some(text) => text,
    };
    let chars = chars_of(text);
    let mut start: usize = 0;
    loop
        invariant
            start <= chars@.len(),
            chars@ == text@,
            opt_view(content) == Some(text@),
            hidden_from(chars@, 0) == hidden_from(chars@, start as int),
        decreases chars@.len() - start,
    {
        let end = line_end_exec(&chars, start);
        proof {
            lemma_line_end(chars@, start as int);
        }
        let line = string_from_range(&chars, start, end);
        let line_chars = chars_of(line.as_str());
        let trimmed = trim_chars(&line_chars);
        assert(hidden_from(chars@, start as int) == ((trimmed@ == "Hidden=true"@) || (end
            < chars@.len() && hidden_from(chars@, end + 1))));
        if str_equal(trimmed.as_str(), "Hidden=true") {
            return false;
        }
        if end == chars.len() {
            return true;
        }
        start = end + 1;
    }
}

} // verus!
