//! Session configuration and the start request.

use vstd::prelude::*;

verus! {

/// Default Pomodoro timing, as duration texts and a cycle count.
#[derive(Debug, Clone, PartialEq, Eq)]
pub struct PomodoroDefaults {
    pub pomodoro: String,
    pub short_break: String,
    pub long_break: String,
    pub cycles: u32,
}

/// What to block, what to exempt, and the default Pomodoro timing.
#[derive(Debug, Clone, PartialEq, Eq)]
pub struct Config {
    /// Hosts-file lines to add in block mode.
    pub block_list: Option<Vec<String>>,
    /// Executable names to terminate.
    pub app_block_list: Option<Vec<String>>,
    /// Domains exempted in whitelist mode.
    pub whitelist: Option<Vec<String>>,
    pub pomodoro_defaults: Option<PomodoroDefaults>,
}

/// A request to start a session.
#[derive(Debug, Clone, PartialEq, Eq)]
pub struct StartArgs {
    pub duration: String,
    pub task: Option<String>,
    pub slack_webhook_url: Option<String>,
    pub whitelist: bool,
    pub pomodoro: Option<String>,
    pub short_break: Option<String>,
    pub long_break: Option<String>,
    pub cycles: Option<u32>,
}

/// The entries of an optional list; an absent list has none.
pub open spec fn entries(list: Option<Vec<String>>) -> Seq<Seq<char>> {
    match list {
        Some(v) => v.deep_view(),
        None => Seq::empty(),
    }
}

/// The hosts-file lines blocked when no configuration is given.
pub open spec fn default_block_list() -> Seq<Seq<char>> {
    seq![
        "127.0.0.1 facebook.com"@,
        "127.0.0.1 www.facebook.com"@,
        "127.0.0.1 twitter.com"@,
        "127.0.0.1 www.twitter.com"@,
        "127.0.0.1 instagram.com"@,
        "127.0.0.1 www.instagram.com"@,
        "127.0.0.1 youtube.com"@,
        "127.0.0.1 www.youtube.com"@,
    ]
}

/// The applications terminated when no configuration is given.
pub open spec fn default_app_block_list() -> Seq<Seq<char>> {
    seq!["slack.exe"@, "discord.exe"@]
}

impl PomodoroDefaults {
    /// 25 minutes of work, 5 of break, 15 of long break, 4 cycles.
    pub open spec fn is_builtin(self) -> bool {
        &&& self.pomodoro@ == "25m"@
        &&& self.short_break@ == "5m"@
        &&& self.long_break@ == "15m"@
        &&& self.cycles == 4
    }

    /// The built-in timing.
    pub fn builtin() -> (d: PomodoroDefaults)
        ensures
            d.is_builtin(),
    {
        PomodoroDefaults {
            pomodoro: "25m".to_owned(),
            short_break: "5m".to_owned(),
            long_break: "15m".to_owned(),
            cycles: 4,
        }
    }
}

impl Config {
    /// The built-in configuration: eight hosts-file lines, two applications,
    /// no whitelist and the built-in Pomodoro timing.
    pub open spec fn is_builtin(self) -> bool {
        &&& self.block_list.deep_view() == Some(default_block_list())
        &&& self.app_block_list.deep_view() == Some(default_app_block_list())
        &&& self.whitelist is None
        &&& self.pomodoro_defaults matches Some(d)
        &&& d.is_builtin()
    }
}

impl Default for Config {
    fn default() -> (c: Config)
        ensures
            c.is_builtin(),
    {
        let mut block_list: Vec<String> = Vec::new();
        block_list.push("127.0.0.1 facebook.com".to_owned());
        block_list.push("127.0.0.1 www.facebook.com".to_owned());
        block_list.push("127.0.0.1 twitter.com".to_owned());
        block_list.push("127.0.0.1 www.twitter.com".to_owned());
        block_list.push("127.0.0.1 instagram.com".to_owned());
        block_list.push("127.0.0.1 www.instagram.com".to_owned());
        block_list.push("127.0.0.1 youtube.com".to_owned());
        block_list.push("127.0.0.1 www.youtube.com".to_owned());
        let mut app_block_list: Vec<String> = Vec::new();
        app_block_list.push("slack.exe".to_owned());
        app_block_list.push("discord.exe".to_owned());
        assert(block_list.deep_view() =~= default_block_list());
        assert(app_block_list.deep_view() =~= default_app_block_list());
        Config {
            block_list: Some(block_list),
            app_block_list: Some(app_block_list),
            whitelist: None,
            pomodoro_defaults: Some(PomodoroDefaults::builtin()),
        }
    }
}

/// The configuration to use: the one that was read, or the built-in one
/// where none could be read.
pub fn load_config(parsed: Option<Config>) -> (c: Config)
    ensures
        match parsed {
            Some(given) => c == given,
            None => c.is_builtin(),
        },
{
    match parsed {
        Some(given) => given,
        None => Config::default(),
    }
}

} // verus!
