//! Muting and unmuting: for each platform an ordered chain of commands, of
//! which the first that reports success wins. Muting is best effort: a
//! chain that runs out is worth a warning and no more.

use crate::platform::Platform;
use vstd::prelude::*;

verus! {

/// One way to mute or unmute: a program, its arguments, and what to say
/// when it reported success.
#[derive(Debug, Clone, PartialEq, Eq)]
pub struct AudioCommand {
    pub program: String,
    pub args: Vec<String>,
    pub note: String,
}

/// A command as plain values.
pub struct AudioCommandView {
    pub program: Seq<char>,
    pub args: Seq<Seq<char>>,
    pub note: Seq<char>,
}

impl View for AudioCommand {
    type V = AudioCommandView;

    open spec fn view(&self) -> AudioCommandView {
        AudioCommandView {
            program: self.program@,
            args: self.args.deep_view(),
            note: self.note@,
        }
    }
}

/// The views of some commands.
pub open spec fn command_views(commands: Seq<AudioCommand>) -> Seq<AudioCommandView> {
    Seq::new(commands.len(), |i: int| commands[i]@)
}

/// The key that the Windows shell is sent: volume down to mute, volume up
/// to unmute.
pub open spec fn send_keys_script(mute: bool) -> Seq<char> {
    if mute {
        "(New-Object -ComObject WScript.Shell).SendKeys([char]173)"@
    } else {
        "(New-Object -ComObject WScript.Shell).SendKeys([char]175)"@
    }
}

/// `1` to mute, `0` to unmute.
pub open spec fn switch_digit(mute: bool) -> Seq<char> {
    if mute {
        "1"@
    } else {
        "0"@
    }
}

/// What to say when `nircmd` reported success.
pub open spec fn nircmd_note(mute: bool) -> Seq<char> {
    if mute {
        "Notifications muted using nircmd (Windows)"@
    } else {
        "Notifications unmuted using nircmd (Windows)"@
    }
}

/// The `nircmd` command at one of the places where the program may lie.
pub open spec fn nircmd_command(program: Seq<char>, mute: bool) -> AudioCommandView {
    AudioCommandView {
        program,
        args: seq!["mutesysvolume"@, switch_digit(mute)],
        note: nircmd_note(mute),
    }
}

/// The chain of a platform, in the order in which it is tried. Windows:
/// the shell's volume key, then `nircmd` beside the program, under
/// `assets`, and on the path. macOS: `osascript`. Linux: `pactl`, then
/// `amixer`.
pub open spec fn chain_of(platform: Platform, mute: bool) -> Seq<AudioCommandView> {
    match platform {
        Platform::Windows => seq![
            AudioCommandView {
                program: "powershell"@,
                args: seq!["-Command"@, send_keys_script(mute)],
                note: if mute {
                    "Audio muted using user-level control (Windows)"@
                } else {
                    "Audio unmuted using user-level control (Windows)"@
                },
            },
            nircmd_command("./nircmd.exe"@, mute),
            nircmd_command("./assets/nircmd.exe"@, mute),
            nircmd_command("nircmd"@, mute),
        ],
        Platform::MacOs => seq![
            AudioCommandView {
                program: "osascript"@,
                args: seq![
                    "-e"@,
                    if mute {
                        "set volume output muted true"@
                    } else {
                        "set volume output muted false"@
                    },
                ],
                note: if mute {
                    "Notifications muted (macOS)"@
                } else {
                    "Notifications unmuted (macOS)"@
                },
            },
        ],
        Platform::Linux => seq![
            AudioCommandView {
                program: "pactl"@,
                args: seq!["set-sink-mute"@, "@DEFAULT_SINK@"@, switch_digit(mute)],
                note: if mute {
                    "Audio muted using pactl (Linux)"@
                } else {
                    "Audio unmuted using pactl (Linux)"@
                },
            },
            AudioCommandView {
                program: "amixer"@,
                args: seq![
                    "sset"@,
                    "Master"@,
                    if mute {
                        "mute"@
                    } else {
                        "unmute"@
                    },
                ],
                note: if mute {
                    "Audio muted using amixer (Linux)"@
                } else {
                    "Audio unmuted using amixer (Linux)"@
                },
            },
        ],
    }
}

/// What to say when the chain of a platform ran out.
pub open spec fn warning_of(platform: Platform, mute: bool) -> Seq<Seq<char>> {
    match platform {
        Platform::Windows => seq![
            if mute {
                "Warning: Could not mute notifications automatically. Please mute manually or install nircmd.exe."@
            } else {
                "Warning: Could not unmute notifications automatically. Please unmute manually or install nircmd.exe."@
            },
            "Download nircmd from: https://www.nirsoft.net/utils/nircmd.html"@,
        ],
        Platform::MacOs => seq![
            if mute {
                "Warning: Could not mute notifications on macOS"@
            } else {
                "Warning: Could not unmute notifications on macOS"@
            },
        ],
        Platform::Linux => seq![
            if mute {
                "Warning: Could not mute notifications (neither pactl nor amixer found)"@
            } else {
                "Warning: Could not unmute notifications (neither pactl nor amixer found)"@
            },
        ],
    }
}

/// Builds a command from its parts.
fn command(program: &str, args: Vec<String>, note: &str) -> (built: AudioCommand)
    ensures
        built@ == (AudioCommandView { program: program@, args: args.deep_view(), note: note@ }),
{
    AudioCommand { program: program.to_owned(), args, note: note.to_owned() }
}

/// A list of two arguments.
fn two_args(first: &str, second: &str) -> (args: Vec<String>)
    ensures
        args.deep_view() == seq![first@, second@],
{
    let mut args: Vec<String> = Vec::new();
    args.push(first.to_owned());
    args.push(second.to_owned());
    assert(args.deep_view() =~= seq![first@, second@]);
    args
}

/// A list of three arguments.
fn three_args(first: &str, second: &str, third: &str) -> (args: Vec<String>)
    ensures
        args.deep_view() == seq![first@, second@, third@],
{
    let mut args: Vec<String> = Vec::new();
    args.push(first.to_owned());
    args.push(second.to_owned());
    args.push(third.to_owned());
    assert(args.deep_view() =~= seq![first@, second@, third@]);
    args
}

/// The chain of commands that mutes (or unmutes) on a platform.
pub fn audio_chain(platform: Platform, mute: bool) -> (chain: Vec<AudioCommand>)
    ensures
        command_views(chain@) == chain_of(platform, mute),
{
    let digit = if mute {
        "1"
    } else {
        "0"
    };
    let mut chain: Vec<AudioCommand> = Vec::new();
    match platform {
        Platform::Windows => {
            let script = if mute {
                "(New-Object -ComObject WScript.Shell).SendKeys([char]173)"
            } else {
                "(New-Object -ComObject WScript.Shell).SendKeys([char]175)"
            };
            let shell_note = if mute {
                "Audio muted using user-level control (Windows)"
            } else {
                "Audio unmuted using user-level control (Windows)"
            };
            let note = if mute {
                "Notifications muted using nircmd (Windows)"
            } else {
                "Notifications unmuted using nircmd (Windows)"
            };
            chain.push(command("powershell", two_args("-Command", script), shell_note));
            chain.push(command("./nircmd.exe", two_args("mutesysvolume", digit), note));
            chain.push(command("./assets/nircmd.exe", two_args("mutesysvolume", digit), note));
            chain.push(command("nircmd", two_args("mutesysvolume", digit), note));
        },
        Platform::MacOs => {
            let script = if mute {
                "set volume output muted true"
            } else {
                "set volume output muted false"
            };
            let note = if mute {
                "Notifications muted (macOS)"
            } else {
                "Notifications unmuted (macOS)"
            };
            chain.push(command("osascript", two_args("-e", script), note));
        },
        Platform::Linux => {
            let pactl_note = if mute {
                "Audio muted using pactl (Linux)"
            } else {
                "Audio unmuted using pactl (Linux)"
            };
            let word = if mute {
                "mute"
            } else {
                "unmute"
            };
            let amixer_note = if mute {
                "Audio muted using amixer (Linux)"
            } else {
                "Audio unmuted using amixer (Linux)"
            };
            chain.push(
                command("pactl", three_args("set-sink-mute", "@DEFAULT_SINK@", digit), pactl_note),
            );
            chain.push(command("amixer", three_args("sset", "Master", word), amixer_note));
        },
    }
    assert(command_views(chain@) =~= chain_of(platform, mute));
    chain
}

/// The lines to print when the chain of a platform ran out.
pub fn audio_warning(platform: Platform, mute: bool) -> (lines: Vec<String>)
    ensures
        lines.deep_view() == warning_of(platform, mute),
{
    let mut lines: Vec<String> = Vec::new();
    match platform {
        Platform::Windows => {
            if mute {
                lines.push(
                    "Warning: Could not mute notifications automatically. Please mute manually or install nircmd.exe.".to_owned(),
                );
            } else {
                lines.push(
                    "Warning: Could not unmute notifications automatically. Please unmute manually or install nircmd.exe.".to_owned(),
                );
            }
            lines.push(
                "Download nircmd from: https://www.nirsoft.net/utils/nircmd.html".to_owned(),
            );
        },
        Platform::MacOs => {
            if mute {
                lines.push("Warning: Could not mute notifications on macOS".to_owned());
            } else {
                lines.push("Warning: Could not unmute notifications on macOS".to_owned());
            }
        },
        Platform::Linux => {
            if mute {
                lines.push(
                    "Warning: Could not mute notifications (neither pactl nor amixer found)".to_owned(),
                );
            } else {
                lines.push(
                    "Warning: Could not unmute notifications (neither pactl nor amixer found)".to_owned(),
                );
            }
        },
    }
    assert(lines.deep_view() =~= warning_of(platform, mute));
    lines
}

/// How far a chain of `length` commands has been tried.
#[derive(Debug, Clone, Copy, PartialEq, Eq, Structural)]
pub struct FallbackChain {
    pub length: usize,
    /// The place of the command to try next.
    pub position: usize,
    /// The place of the command that reported success, once there is one.
    pub winner: Option<usize>,
}

impl FallbackChain {
    /// The place of the command to try now: none once a command could be
    /// run or the chain has run out.
    pub open spec fn due(self) -> Option<usize> {
        if self.winner is None && self.position < self.length {
            Some(self.position)
        } else {
            None
        }
    }

    /// The chain after the command that was due did or did not report
    /// success.
    /// Success ends the chain; after a failure the next command is due.
    pub open spec fn after(self, ran: bool) -> FallbackChain {
        match self.due() {
            None => self,
            Some(at) => if ran {
                FallbackChain { winner: Some(at), ..self }
            } else {
                FallbackChain { position: (at + 1) as usize, ..self }
            },
        }
    }

    /// Whether every command was tried and none reported success: the case for
    /// the warning.
    pub open spec fn ran_out(self) -> bool {
        self.winner is None && self.position >= self.length
    }

    /// A chain of which nothing was tried yet.
    pub open spec fn fresh(length: usize) -> FallbackChain {
        FallbackChain { length, position: 0, winner: None }
    }

    /// A chain of which nothing was tried yet.
    pub fn new(length: usize) -> (chain: FallbackChain)
        ensures
            chain == FallbackChain::fresh(length),
    {
        FallbackChain { length, position: 0, winner: None }
    }

    /// The place of the command to try now.
    pub fn current(&self) -> (at: Option<usize>)
        ensures
            at == self.due(),
    {
        if self.winner.is_none() && self.position < self.length {
            Some(self.position)
        } else {
            None
        }
    }

    /// Takes in whether the command that was due reported success, and returns
    /// the place of the command to try next.
    pub fn report(&mut self, ran: bool) -> (next: Option<usize>)
        ensures
            *final(self) == old(self).after(ran),
            next == final(self).due(),
    {
        match self.current() {
            None => {},
            Some(at) => {
                if ran {
                    self.winner = Some(at);
                } else {
                    self.position = at + 1;
                }
            },
        }
        self.current()
    }

    /// Whether the chain has run out without success.
    pub fn exhausted(&self) -> (out: bool)
        ensures
            out == self.ran_out(),
    {
        self.winner.is_none() && self.position >= self.length
    }
}

/// The outcome of trying a chain on given answers: the chain after each
/// answer in turn was reported.
pub open spec fn tried(chain: FallbackChain, answers: Seq<bool>) -> FallbackChain
    decreases answers.len(),
{
    if answers.len() == 0 {
        chain
    } else {
        tried(chain, answers.drop_last()).after(answers.last())
    }
}

/// Once a command reported success, the chain is over: nothing is due, and
/// whatever is reported afterwards changes nothing.
pub proof fn lemma_first_success_ends_chain(chain: FallbackChain, later: bool)
    requires
        chain.due() is Some,
    ensures
        chain.after(true).due() is None,
        chain.after(true).winner == chain.due(),
        chain.after(true).after(later) == chain.after(true),
        !chain.after(true).ran_out(),
{
}

/// A chain runs out exactly when each of its commands was tried and none
/// reported success.
pub proof fn lemma_all_failures_run_out(length: usize, failures: Seq<bool>)
    requires
        forall|i: int| 0 <= i < failures.len() ==> !failures[i],
    ensures
        tried(FallbackChain::fresh(length), failures).length == length,
        tried(FallbackChain::fresh(length), failures).winner is None,
        failures.len() <= length ==> tried(FallbackChain::fresh(length), failures).position
            == failures.len(),
        failures.len() >= length ==> tried(FallbackChain::fresh(length), failures).position
            == length,
        tried(FallbackChain::fresh(length), failures).ran_out() <==> failures.len() >= length,
    decreases failures.len(),
{
    if failures.len() > 0 {
        let front = failures.drop_last();
        assert forall|i: int| 0 <= i < front.len() implies !front[i] by {
            assert(front[i] == failures[i]);
        }
        lemma_all_failures_run_out(length, front);
        assert(!failures.last());
    }
}

} // verus!
