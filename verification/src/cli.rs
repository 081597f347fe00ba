//! The command line: what the arguments mean, and what the commands print.

use vstd::prelude::*;

use crate::fingerprint::hex_value;
use crate::fingerprint::parse_fingerprint;
use crate::media::AudioSmokeAction;
use crate::text::append;
use crate::text::bool_text;
use crate::text::bool_wording;
use crate::text::decimal;
use crate::text::decimal_text;
use crate::text::same_text;
use crate::text::texts;
use crate::text::trim_end;
use crate::text::trimmed_end;
use crate::trust::TrustEntry;

verus! {

/// A subcommand.
#[derive(Debug, Clone, PartialEq, Eq)]
pub enum Command {
    /// Run the desktop daemon.
    Run,
    /// Print platform and configuration diagnostics.
    Doctor,
    /// Request and report the platform's permissions.
    Permissions,
    /// Try the input portal.
    PortalSmoke,
    /// Try screen capture.
    PipeWireSmoke,
    /// Try the audio backend, and one of its devices where that is asked for.
    AudioSmoke { action: Option<AudioSmokeAction> },
    /// Print what the protocol supports.
    Protocol,
    /// Print where the configuration lies.
    ConfigPath,
    /// List the trusted devices.
    Devices,
    /// Show a pairing bootstrap, and trust its device where that is accepted.
    Pair { uri: String, accept: bool },
    /// Pair with a running peer.
    PairAuto { peer: String },
    /// Print this device's pairing bootstrap for an address.
    PairingUri { addr: String },
    /// List the clipboard history.
    ClipboardHistory { json: bool },
    /// Put an item of the clipboard history back into the clipboard.
    ClipboardRestore { fingerprint: u64 },
    /// Forget the clipboard history.
    ClipboardClear,
    /// Queue files for the selected peer.
    FileSend { paths: Vec<String> },
    /// Check a simulation's configuration.
    Simulate { path: Option<String>, json_only: bool },
    /// Print the usage.
    Help,
}

/// A subcommand and the global flags.
#[derive(Debug, Clone, PartialEq, Eq)]
pub struct Invocation {
    pub command: Command,
    /// Whether to log more.
    pub debug: bool,
}

/// What a subcommand says.
pub ghost enum CommandFacts {
    Run,
    Doctor,
    Permissions,
    PortalSmoke,
    PipeWireSmoke,
    AudioSmoke { action: Option<AudioSmokeAction> },
    Protocol,
    ConfigPath,
    Devices,
    Pair { uri: Seq<char>, accept: bool },
    PairAuto { peer: Seq<char> },
    PairingUri { addr: Seq<char> },
    ClipboardHistory { json: bool },
    ClipboardRestore { fingerprint: u64 },
    ClipboardClear,
    FileSend { paths: Seq<Seq<char>> },
    Simulate { path: Option<Seq<char>>, json_only: bool },
    Help,
}

impl View for Command {
    type V = CommandFacts;

    open spec fn view(&self) -> CommandFacts {
        match *self {
            Command::Run => CommandFacts::Run,
            Command::Doctor => CommandFacts::Doctor,
            Command::Permissions => CommandFacts::Permissions,
            Command::PortalSmoke => CommandFacts::PortalSmoke,
            Command::PipeWireSmoke => CommandFacts::PipeWireSmoke,
            Command::AudioSmoke { action } => CommandFacts::AudioSmoke { action },
            Command::Protocol => CommandFacts::Protocol,
            Command::ConfigPath => CommandFacts::ConfigPath,
            Command::Devices => CommandFacts::Devices,
            Command::Pair { uri, accept } => CommandFacts::Pair { uri: uri@, accept },
            Command::PairAuto { peer } => CommandFacts::PairAuto { peer: peer@ },
            Command::PairingUri { addr } => CommandFacts::PairingUri { addr: addr@ },
            Command::ClipboardHistory { json } => CommandFacts::ClipboardHistory { json },
            Command::ClipboardRestore { fingerprint } => CommandFacts::ClipboardRestore {
                fingerprint,
            },
            Command::ClipboardClear => CommandFacts::ClipboardClear,
            Command::FileSend { paths } => CommandFacts::FileSend { paths: texts(paths@) },
            Command::Simulate { path, json_only } => CommandFacts::Simulate {
                path: match path {
                    Some(p) => Some(p@),
                    None => None,
                },
                json_only,
            },
            Command::Help => CommandFacts::Help,
        }
    }
}

/// The words that are not a flag, in their order.
pub open spec fn without(words: Seq<Seq<char>>, flag: Seq<char>) -> Seq<Seq<char>>
    decreases words.len(),
{
    if words.len() == 0 {
        words
    } else if words.last() == flag {
        without(words.drop_last(), flag)
    } else {
        without(words.drop_last(), flag).push(words.last())
    }
}

/// What the words behind `pair` say.
pub open spec fn pair_of(words: Seq<Seq<char>>) -> Result<CommandFacts, Seq<char>> {
    let uris = without(words, "--accept"@);
    if uris.len() > 1 {
        Err("pair accepts one nexkvm:// pairing uri"@)
    } else if uris.len() == 0 {
        Err("pair requires a nexkvm:// pairing uri"@)
    } else {
        Ok(CommandFacts::Pair { uri: uris[0], accept: words.contains("--accept"@) })
    }
}

/// What the words behind `simulate` say.
pub open spec fn simulate_of(words: Seq<Seq<char>>) -> Result<CommandFacts, Seq<char>> {
    let paths = without(without(words, "--simulate-json-only"@), "--json-only"@);
    if paths.len() > 1 {
        Err("simulate accepts at most one path plus optional --simulate-json-only"@)
    } else {
        Ok(
            CommandFacts::Simulate {
                path: if paths.len() == 1 {
                    Some(paths[0])
                } else {
                    None
                },
                json_only: words.contains("--simulate-json-only"@) || words.contains(
                    "--json-only"@,
                ),
            },
        )
    }
}

/// What the words behind `file-send` say.
pub open spec fn file_send_of(words: Seq<Seq<char>>) -> Result<CommandFacts, Seq<char>> {
    let paths = if words.len() > 0 && words[0] == "--"@ {
        words.drop_first()
    } else {
        words
    };
    if paths.len() == 0 {
        Err("file-send requires at least one path"@)
    } else {
        Ok(CommandFacts::FileSend { paths })
    }
}

/// What a subcommand that takes no arguments says.
pub open spec fn alone(
    command: CommandFacts,
    words: Seq<Seq<char>>,
    complaint: Seq<char>,
) -> Result<CommandFacts, Seq<char>> {
    if words.len() > 0 {
        Err(complaint)
    } else {
        Ok(command)
    }
}

/// What a command line without its global flag says.
pub open spec fn command_of(words: Seq<Seq<char>>) -> Result<CommandFacts, Seq<char>> {
    if words.len() == 0 {
        Ok(CommandFacts::Run)
    } else {
        let word = words[0];
        let rest = words.drop_first();
        if word == "doctor"@ {
            Ok(CommandFacts::Doctor)
        } else if word == "permissions"@ {
            Ok(CommandFacts::Permissions)
        } else if word == "portal-smoke"@ {
            alone(CommandFacts::PortalSmoke, rest, "portal-smoke accepts no arguments"@)
        } else if word == "pipewire-smoke"@ {
            alone(CommandFacts::PipeWireSmoke, rest, "pipewire-smoke accepts no arguments"@)
        } else if word == "audio-smoke"@ {
            alone(
                CommandFacts::AudioSmoke { action: None },
                rest,
                "audio-smoke accepts no arguments"@,
            )
        } else if word == "protocol"@ {
            Ok(CommandFacts::Protocol)
        } else if word == "config-path"@ {
            Ok(CommandFacts::ConfigPath)
        } else if word == "devices"@ {
            Ok(CommandFacts::Devices)
        } else if word == "pair"@ {
            pair_of(rest)
        } else if word == "pair-auto"@ {
            if rest.len() == 2 && rest[0] == "--peer"@ {
                Ok(CommandFacts::PairAuto { peer: rest[1] })
            } else {
                Err("pair-auto requires --peer <host:port>"@)
            }
        } else if word == "pairing-uri"@ {
            if rest.len() == 0 {
                Err("pairing-uri requires an address like 192.168.1.20:47654"@)
            } else if rest.len() > 1 {
                Err("pairing-uri accepts one address"@)
            } else {
                Ok(CommandFacts::PairingUri { addr: rest[0] })
            }
        } else if word == "clipboard-history"@ {
            if rest.len() == 0 {
                Ok(CommandFacts::ClipboardHistory { json: false })
            } else if rest.len() == 1 && rest[0] == "--json"@ {
                Ok(CommandFacts::ClipboardHistory { json: true })
            } else {
                Err("clipboard-history accepts only --json"@)
            }
        } else if word == "clipboard-restore"@ {
            if rest.len() == 1 && hex_value(rest[0]) is Some {
                Ok(CommandFacts::ClipboardRestore { fingerprint: hex_value(rest[0])->Some_0 })
            } else {
                Err("clipboard-restore requires a hexadecimal fingerprint"@)
            }
        } else if word == "clipboard-clear"@ {
            alone(CommandFacts::ClipboardClear, rest, "clipboard-clear accepts no arguments"@)
        } else if word == "file-send"@ {
            file_send_of(rest)
        } else if word == "simulate"@ {
            simulate_of(rest)
        } else if word == "help"@ || word == "--help"@ || word == "-h"@ {
            Ok(CommandFacts::Help)
        } else {
            Err(unknown_command(word))
        }
    }
}

proof fn lemma_without_joins(a: Seq<Seq<char>>, b: Seq<Seq<char>>, flag: Seq<char>)
    ensures
        without(a + b, flag) == without(a, flag) + without(b, flag),
    decreases b.len(),
{
    if b.len() == 0 {
        assert(a + b =~= a);
        assert(without(a, flag) + without(b, flag) =~= without(a, flag));
    } else {
        assert((a + b).drop_last() =~= a + b.drop_last());
        assert((a + b).last() == b.last());
        lemma_without_joins(a, b.drop_last(), flag);
        if b.last() != flag {
            assert(without(a, flag) + without(b.drop_last(), flag).push(b.last()) =~= (without(
                a,
                flag,
            ) + without(b.drop_last(), flag)).push(b.last()));
        }
    }
}

/// Where a flag stands among the words makes no difference to the other words.
pub proof fn law_flags_may_stand_anywhere(words: Seq<Seq<char>>, at: int, flag: Seq<char>)
    requires
        0 <= at <= words.len(),
    ensures
        without(words.insert(at, flag), flag) == without(words, flag),
        words.insert(at, flag).contains(flag),
{
    let before = words.take(at);
    let after = words.skip(at);
    assert(words =~= before + after);
    assert(words.insert(at, flag) =~= before.push(flag) + after);
    lemma_without_joins(before, after, flag);
    lemma_without_joins(before.push(flag), after, flag);
    assert(before.push(flag).drop_last() =~= before);
    assert(words.insert(at, flag)[at] == flag);
}

/// Where `--accept` stands behind `pair` makes no difference.
pub proof fn law_accepting_may_be_said_anywhere(words: Seq<Seq<char>>, a: int, b: int)
    requires
        0 <= a <= words.len(),
        0 <= b <= words.len(),
    ensures
        pair_of(words.insert(a, "--accept"@)) == pair_of(words.insert(b, "--accept"@)),
{
    law_flags_may_stand_anywhere(words, a, "--accept"@);
    law_flags_may_stand_anywhere(words, b, "--accept"@);
}

/// Splits a flag off: the other words, and whether it was there.
fn split_flag(words: &Vec<String>, start: usize, flag: &str) -> (r: (Vec<String>, bool))
    requires
        start <= words@.len(),
    ensures
        texts(r.0@) == without(texts(words@).skip(start as int), flag@),
        r.1 == texts(words@).skip(start as int).contains(flag@),
{
    let mut others: Vec<String> = Vec::new();
    let mut found = false;
    let mut i: usize = start;
    let ghost all = texts(words@).skip(start as int);
    assert(texts(others@) =~= without(all.take(0), flag@));
    while i < words.len()
        invariant
            start <= i <= words.len(),
            all == texts(words@).skip(start as int),
            texts(others@) == without(all.take(i - start), flag@),
            found == all.take(i - start).contains(flag@),
        decreases words.len() - i,
    {
        let ghost before = all.take(i - start);
        let ghost now = all.take(i - start + 1);
        let ghost earlier = others@;
        assert(now.drop_last() =~= before);
        assert(now.last() == words@[i as int]@);
        if same_text(&words[i], flag) {
            found = true;
            assert(now[now.len() - 1] == flag@);
        } else {
            others.push(words[i].clone());
            assert(texts(others@) =~= texts(earlier).push(words@[i as int]@));
            proof {
                if before.contains(flag@) {
                    let k = choose|k: int| 0 <= k < before.len() && before[k] == flag@;
                    assert(now[k] == flag@);
                }
                if now.contains(flag@) {
                    let k = choose|k: int| 0 <= k < now.len() && now[k] == flag@;
                    assert(before[k] == flag@);
                }
            }
        }
        i += 1;
    }
    assert(all.take(i - start) =~= all);
    (others, found)
}

/// A copy of the words from a position on.
fn words_from(words: &Vec<String>, start: usize) -> (r: Vec<String>)
    requires
        start <= words@.len(),
    ensures
        texts(r@) == texts(words@).skip(start as int),
{
    let mut r: Vec<String> = Vec::new();
    let mut i: usize = start;
    while i < words.len()
        invariant
            start <= i <= words.len(),
            r@.len() == i - start,
            forall|k: int| 0 <= k < r@.len() ==> #[trigger] r@[k]@ == words@[start + k]@,
        decreases words.len() - i,
    {
        r.push(words[i].clone());
        i += 1;
    }
    assert(texts(r@) =~= texts(words@).skip(start as int));
    r
}

fn parse_pair_args(words: &Vec<String>) -> (r: Result<Command, String>)
    requires
        words@.len() > 0,
    ensures
        match r {
            Ok(command) => pair_of(texts(words@).drop_first()) == Ok::<CommandFacts, Seq<char>>(
                command@,
            ),
            Err(m) => pair_of(texts(words@).drop_first()) == Err::<CommandFacts, Seq<char>>(m@),
        },
{
    assert(texts(words@).drop_first() =~= texts(words@).skip(1));
    let (uris, accept) = split_flag(words, 1, "--accept");
    assert(texts(uris@).len() == uris@.len());
    if uris.len() > 1 {
        Err("pair accepts one nexkvm:// pairing uri".to_owned())
    } else if uris.len() == 0 {
        Err("pair requires a nexkvm:// pairing uri".to_owned())
    } else {
        Ok(Command::Pair { uri: uris[0].clone(), accept })
    }
}

fn parse_simulate_args(words: &Vec<String>) -> (r: Result<Command, String>)
    requires
        words@.len() > 0,
    ensures
        match r {
            Ok(command) => simulate_of(texts(words@).drop_first()) == Ok::<
                CommandFacts,
                Seq<char>,
            >(command@),
            Err(m) => simulate_of(texts(words@).drop_first()) == Err::<CommandFacts, Seq<char>>(m@),
        },
{
    assert(texts(words@).drop_first() =~= texts(words@).skip(1));
    let (others, long_flag) = split_flag(words, 1, "--simulate-json-only");
    let (_, short_flag) = split_flag(words, 1, "--json-only");
    let (paths, _) = split_flag(&others, 0, "--json-only");
    assert(texts(others@).skip(0) =~= texts(others@));
    assert(texts(paths@).len() == paths@.len());
    if paths.len() > 1 {
        Err("simulate accepts at most one path plus optional --simulate-json-only".to_owned())
    } else {
        let path: Option<String> = if paths.len() == 1 {
            Some(paths[0].clone())
        } else {
            None
        };
        Ok(Command::Simulate { path, json_only: long_flag || short_flag })
    }
}

fn parse_file_send_args(words: &Vec<String>) -> (r: Result<Command, String>)
    requires
        words@.len() > 0,
    ensures
        match r {
            Ok(command) => file_send_of(texts(words@).drop_first()) == Ok::<
                CommandFacts,
                Seq<char>,
            >(command@),
            Err(m) => file_send_of(texts(words@).drop_first()) == Err::<CommandFacts, Seq<char>>(
                m@,
            ),
        },
{
    let ghost rest = texts(words@).drop_first();
    assert(rest =~= texts(words@).skip(1));
    let start: usize = if words.len() > 1 && same_text(&words[1], "--") {
        2
    } else {
        1
    };
    assert(rest.drop_first() =~= texts(words@).skip(2) || rest.len() == 0);
    let paths = words_from(words, start);
    assert(texts(paths@).len() == paths@.len());
    if paths.len() == 0 {
        Err("file-send requires at least one path".to_owned())
    } else {
        Ok(Command::FileSend { paths })
    }
}

fn parse_alone(words: &Vec<String>, command: Command, complaint: &str) -> (r: Result<
    Command,
    String,
>)
    requires
        words@.len() > 0,
    ensures
        match r {
            Ok(c) => alone(command@, texts(words@).drop_first(), complaint@) == Ok::<
                CommandFacts,
                Seq<char>,
            >(c@),
            Err(m) => alone(command@, texts(words@).drop_first(), complaint@) == Err::<
                CommandFacts,
                Seq<char>,
            >(m@),
        },
{
    if words.len() > 1 {
        Err(complaint.to_owned())
    } else {
        Ok(command)
    }
}

fn parse_command(words: &Vec<String>) -> (r: Result<Command, String>)
    ensures
        match r {
            Ok(command) => command_of(texts(words@)) == Ok::<CommandFacts, Seq<char>>(command@),
            Err(m) => command_of(texts(words@)) == Err::<CommandFacts, Seq<char>>(m@),
        },
{
    let n: usize = words.len();
    assert(texts(words@).len() == n);
    if n == 0 {
        return Ok(Command::Run);
    }
    let word: &String = &words[0];
    let ghost rest = texts(words@).drop_first();
    assert(rest.len() == n - 1);
    assert(forall|k: int| 0 <= k < rest.len() ==> #[trigger] rest[k] == words@[k + 1]@);
    if same_text(word, "doctor") {
        Ok(Command::Doctor)
    } else if same_text(word, "permissions") {
        Ok(Command::Permissions)
    } else if same_text(word, "portal-smoke") {
        parse_alone(words, Command::PortalSmoke, "portal-smoke accepts no arguments")
    } else if same_text(word, "pipewire-smoke") {
        parse_alone(words, Command::PipeWireSmoke, "pipewire-smoke accepts no arguments")
    } else if same_text(word, "audio-smoke") {
        parse_alone(
            words,
            Command::AudioSmoke { action: None },
            "audio-smoke accepts no arguments",
        )
    } else if same_text(word, "protocol") {
        Ok(Command::Protocol)
    } else if same_text(word, "config-path") {
        Ok(Command::ConfigPath)
    } else if same_text(word, "devices") {
        Ok(Command::Devices)
    } else if same_text(word, "pair") {
        parse_pair_args(words)
    } else if same_text(word, "pair-auto") {
        if n == 3 && same_text(&words[1], "--peer") {
            Ok(Command::PairAuto { peer: words[2].clone() })
        } else {
            Err("pair-auto requires --peer <host:port>".to_owned())
        }
    } else if same_text(word, "pairing-uri") {
        if n == 1 {
            Err("pairing-uri requires an address like 192.168.1.20:47654".to_owned())
        } else if n > 2 {
            Err("pairing-uri accepts one address".to_owned())
        } else {
            Ok(Command::PairingUri { addr: words[1].clone() })
        }
    } else if same_text(word, "clipboard-history") {
        if n == 1 {
            Ok(Command::ClipboardHistory { json: false })
        } else if n == 2 && same_text(&words[1], "--json") {
            Ok(Command::ClipboardHistory { json: true })
        } else {
            Err("clipboard-history accepts only --json".to_owned())
        }
    } else if same_text(word, "clipboard-restore") {
        let parsed: Option<u64> = if n == 2 {
            parse_fingerprint(&words[1])
        } else {
            None
        };
        match parsed {
            Some(fingerprint) => Ok(Command::ClipboardRestore { fingerprint }),
            None => Err("clipboard-restore requires a hexadecimal fingerprint".to_owned()),
        }
    } else if same_text(word, "clipboard-clear") {
        parse_alone(words, Command::ClipboardClear, "clipboard-clear accepts no arguments")
    } else if same_text(word, "file-send") {
        parse_file_send_args(words)
    } else if same_text(word, "simulate") {
        parse_simulate_args(words)
    } else if same_text(word, "help") || same_text(word, "--help") || same_text(word, "-h") {
        Ok(Command::Help)
    } else {
        let mut m = "unknown command `".to_owned();
        append(&mut m, word);
        append(&mut m, "`; run `nexkvm help`");
        Err(m)
    }
}

/// Parses the arguments behind the program's name. The flag `--debug` may stand
/// anywhere; what is left is a subcommand and its arguments.
pub fn parse(args: Vec<String>) -> (r: Result<Invocation, String>)
    ensures
        match r {
            Ok(invocation) => {
                &&& command_of(without(texts(args@), "--debug"@)) == Ok::<CommandFacts, Seq<char>>(
                    invocation.command@,
                )
                &&& invocation.debug == texts(args@).contains("--debug"@)
            },
            Err(m) => command_of(without(texts(args@), "--debug"@)) == Err::<
                CommandFacts,
                Seq<char>,
            >(m@),
        },
{
    let (words, debug) = split_flag(&args, 0, "--debug");
    assert(texts(args@).skip(0) =~= texts(args@));
    match parse_command(&words) {
        Ok(command) => Ok(Invocation { command, debug }),
        Err(m) => Err(m),
    }
}

/// What stands before the subcommands in the usage.
pub const HELP_HEAD: &'static str =
    "nexkvm developer CLI\n\nUSAGE:\n  nexkvm [--debug]            Run the desktop daemon\n";

/// What stands behind the subcommands in the usage.
pub const HELP_TAIL: &'static str = "\nFLAGS:\n  --debug                   Raise log verbosity to debug\n";

/// The subcommands of the usage: the word, and what stands behind it on its line.
pub open spec fn usage() -> Seq<(Seq<char>, Seq<char>)> {
    seq![
        ("devices"@, "             List trusted (paired) devices"@),
        ("pair"@, " [--accept] <uri> Decode or accept a pairing bootstrap"@),
        ("pair-auto"@, " --peer <host:port> Pair with a running peer"@),
        ("pairing-uri"@, " <addr>  Print this device's pairing bootstrap URI"@),
        ("permissions"@, "         Request/report required macOS permissions"@),
        ("portal-smoke"@, "       Test Linux Wayland portal grant/barrier/EIS flow"@),
        ("pipewire-smoke"@, "     Test Linux PipeWire screen capture"@),
        ("audio-smoke"@, "        Test Linux PipeWire audio devices"@),
        ("doctor"@, "              Print local platform/config diagnostics"@),
        ("protocol"@, "            Print protocol compatibility info"@),
        ("config-path"@, "         Print the resolved config path"@),
        ("clipboard-history"@, " [--json] List the clipboard history"@),
        ("clipboard-restore"@, " <fingerprint> Restore a clipboard history item"@),
        ("clipboard-clear"@, "     Clear the clipboard history"@),
        ("file-send"@, " [--] <path>... Queue files for the selected peer"@),
        ("simulate"@, " [--simulate-json-only] [toml] Validate a local simulation config"@),
    ]
}

/// The lines of the first subcommands.
pub open spec fn usage_lines(rows: Seq<(Seq<char>, Seq<char>)>, n: int) -> Seq<char>
    decreases n,
{
    if n <= 0 {
        Seq::empty()
    } else {
        usage_lines(rows, n - 1) + "  nexkvm "@ + rows[n - 1].0 + rows[n - 1].1 + "\n"@
    }
}

/// Whether the usage has a line for a word.
pub open spec fn shown_in_usage(word: Seq<char>) -> bool {
    exists|i: int| 0 <= i < usage().len() && (#[trigger] usage()[i]).0 == word
}

fn usage_rows() -> (rows: Vec<(&'static str, &'static str)>)
    ensures
        rows@.len() == usage().len(),
        forall|i: int|
            0 <= i < rows@.len() ==> (#[trigger] rows@[i]).0@ == usage()[i].0 && rows@[i].1@
                == usage()[i].1,
{
    let mut rows: Vec<(&'static str, &'static str)> = Vec::new();
    rows.push(("devices", "             List trusted (paired) devices"));
    rows.push(("pair", " [--accept] <uri> Decode or accept a pairing bootstrap"));
    rows.push(("pair-auto", " --peer <host:port> Pair with a running peer"));
    rows.push(("pairing-uri", " <addr>  Print this device's pairing bootstrap URI"));
    rows.push(("permissions", "         Request/report required macOS permissions"));
    rows.push(("portal-smoke", "       Test Linux Wayland portal grant/barrier/EIS flow"));
    rows.push(("pipewire-smoke", "     Test Linux PipeWire screen capture"));
    rows.push(("audio-smoke", "        Test Linux PipeWire audio devices"));
    rows.push(("doctor", "              Print local platform/config diagnostics"));
    rows.push(("protocol", "            Print protocol compatibility info"));
    rows.push(("config-path", "         Print the resolved config path"));
    rows.push(("clipboard-history", " [--json] List the clipboard history"));
    rows.push(("clipboard-restore", " <fingerprint> Restore a clipboard history item"));
    rows.push(("clipboard-clear", "     Clear the clipboard history"));
    rows.push(("file-send", " [--] <path>... Queue files for the selected peer"));
    rows.push(("simulate", " [--simulate-json-only] [toml] Validate a local simulation config"));
    rows
}

/// The usage.
pub fn help_text() -> (text: String)
    ensures
        text@ == HELP_HEAD@ + usage_lines(usage(), usage().len() as int) + HELP_TAIL@,
{
    let rows = usage_rows();
    let mut text = HELP_HEAD.to_owned();
    let mut i: usize = 0;
    assert(text@ =~= HELP_HEAD@ + usage_lines(usage(), 0));
    while i < rows.len()
        invariant
            i <= rows.len(),
            rows@.len() == usage().len(),
            forall|k: int|
                0 <= k < rows@.len() ==> (#[trigger] rows@[k]).0@ == usage()[k].0 && rows@[k].1@
                    == usage()[k].1,
            text@ == HELP_HEAD@ + usage_lines(usage(), i as int),
        decreases rows.len() - i,
    {
        append(&mut text, "  nexkvm ");
        append(&mut text, rows[i].0);
        append(&mut text, rows[i].1);
        append(&mut text, "\n");
        i += 1;
        assert(rows@[i - 1].0@ == usage()[i - 1].0);
        assert(text@ =~= HELP_HEAD@ + usage_lines(usage(), i as int));
    }
    append(&mut text, HELP_TAIL);
    text
}

/// What a command line that starts with an unknown word is answered.
pub open spec fn unknown_command(word: Seq<char>) -> Seq<char> {
    "unknown command `"@ + word + "`; run `nexkvm help`"@
}

proof fn lemma_other_complaints_differ(word: Seq<char>)
    ensures
        unknown_command(word) != "portal-smoke accepts no arguments"@,
        unknown_command(word) != "pipewire-smoke accepts no arguments"@,
        unknown_command(word) != "audio-smoke accepts no arguments"@,
        unknown_command(word) != "pair accepts one nexkvm:// pairing uri"@,
        unknown_command(word) != "pair requires a nexkvm:// pairing uri"@,
        unknown_command(word) != "pair-auto requires --peer <host:port>"@,
        unknown_command(word) != "pairing-uri requires an address like 192.168.1.20:47654"@,
        unknown_command(word) != "pairing-uri accepts one address"@,
        unknown_command(word) != "clipboard-history accepts only --json"@,
        unknown_command(word) != "clipboard-restore requires a hexadecimal fingerprint"@,
        unknown_command(word) != "clipboard-clear accepts no arguments"@,
        unknown_command(word) != "file-send requires at least one path"@,
        unknown_command(word) != "simulate accepts at most one path plus optional --simulate-json-only"@,
{
    reveal_strlit("unknown command `");
    assert(unknown_command(word)[0] == 'u');
    reveal_strlit("portal-smoke accepts no arguments");
    reveal_strlit("pipewire-smoke accepts no arguments");
    reveal_strlit("audio-smoke accepts no arguments");
    reveal_strlit("pair accepts one nexkvm:// pairing uri");
    reveal_strlit("pair requires a nexkvm:// pairing uri");
    reveal_strlit("pair-auto requires --peer <host:port>");
    reveal_strlit("pairing-uri requires an address like 192.168.1.20:47654");
    reveal_strlit("pairing-uri accepts one address");
    reveal_strlit("clipboard-history accepts only --json");
    reveal_strlit("clipboard-restore requires a hexadecimal fingerprint");
    reveal_strlit("clipboard-clear accepts no arguments");
    reveal_strlit("file-send requires at least one path");
    reveal_strlit("simulate accepts at most one path plus optional --simulate-json-only");
}

/// The usage shows exactly the words that a command line may start with, beside
/// those that ask for the usage itself: every other word is answered as an unknown
/// command, and none of these is, whatever stands behind it.
pub proof fn law_usage_shows_every_subcommand(words: Seq<Seq<char>>)
    requires
        words.len() > 0,
    ensures
        (command_of(words) == Err::<CommandFacts, Seq<char>>(unknown_command(words[0])))
            <==> !(shown_in_usage(words[0]) || words[0] == "help"@ || words[0] == "--help"@
            || words[0] == "-h"@),
{
    let word = words[0];
    lemma_other_complaints_differ(word);
    assert(usage()[0].0 == "devices"@);
    assert(usage()[1].0 == "pair"@);
    assert(usage()[2].0 == "pair-auto"@);
    assert(usage()[3].0 == "pairing-uri"@);
    assert(usage()[4].0 == "permissions"@);
    assert(usage()[5].0 == "portal-smoke"@);
    assert(usage()[6].0 == "pipewire-smoke"@);
    assert(usage()[7].0 == "audio-smoke"@);
    assert(usage()[8].0 == "doctor"@);
    assert(usage()[9].0 == "protocol"@);
    assert(usage()[10].0 == "config-path"@);
    assert(usage()[11].0 == "clipboard-history"@);
    assert(usage()[12].0 == "clipboard-restore"@);
    assert(usage()[13].0 == "clipboard-clear"@);
    assert(usage()[14].0 == "file-send"@);
    assert(usage()[15].0 == "simulate"@);
    if shown_in_usage(word) {
        let i = choose|i: int| 0 <= i < usage().len() && (#[trigger] usage()[i]).0 == word;
        assert(0 <= i < 16);
    }
}

/// A line of the list of trusted devices, with the line break before it.
pub open spec fn device_line(entry: TrustEntry) -> Seq<char> {
    "\n  "@ + entry.fingerprint@ + "  "@ + entry.display_name@ + "  (paired_at="@ + decimal(
        entry.paired_at as nat,
    ) + ")"@
}

/// The lines of the first entries.
pub open spec fn device_lines(entries: Seq<TrustEntry>, n: int) -> Seq<char>
    decreases n,
{
    if n <= 0 {
        Seq::empty()
    } else {
        device_lines(entries, n - 1) + device_line(entries[n - 1])
    }
}

/// The list of trusted devices.
pub fn format_device_list(entries: &Vec<TrustEntry>) -> (text: String)
    ensures
        text@ == (if entries@.len() == 0 {
            "no trusted devices paired"@
        } else {
            decimal(entries@.len()) + " trusted device(s):"@ + device_lines(
                entries@,
                entries@.len() as int,
            )
        }),
{
    if entries.len() == 0 {
        return "no trusted devices paired".to_owned();
    }
    let mut text = decimal_text(entries.len() as u64);
    append(&mut text, " trusted device(s):");
    let ghost head = text@;
    let mut i: usize = 0;
    assert(text@ =~= head + device_lines(entries@, 0));
    while i < entries.len()
        invariant
            i <= entries.len(),
            text@ == head + device_lines(entries@, i as int),
        decreases entries.len() - i,
    {
        let ghost before = text@;
        append(&mut text, "\n  ");
        append(&mut text, &entries[i].fingerprint);
        append(&mut text, "  ");
        append(&mut text, &entries[i].display_name);
        append(&mut text, "  (paired_at=");
        append(&mut text, &decimal_text(entries[i].paired_at));
        append(&mut text, ")");
        assert(text@ =~= before + device_line(entries@[i as int]));
        assert(text@ =~= head + device_lines(entries@, i + 1));
        i += 1;
    }
    text
}

/// A decoded pairing bootstrap, as far as it is shown.
#[derive(Debug)]
pub struct BootstrapSummary {
    pub display_name: String,
    pub addr: String,
    pub fingerprint: String,
}

/// What is shown of a pairing bootstrap: decoding it is not trusting it, so the
/// reader is asked to compare the fingerprint.
pub fn format_pairing(bootstrap: &BootstrapSummary) -> (text: String)
    ensures
        text@ == "pairing bootstrap\n  name: "@ + bootstrap.display_name@ + "\n  addr: "@
            + bootstrap.addr@ + "\n  fingerprint: "@ + bootstrap.fingerprint@
            + "\n\nConfirm this fingerprint matches the other device before accepting."@,
{
    let mut text = "pairing bootstrap\n  name: ".to_owned();
    append(&mut text, &bootstrap.display_name);
    append(&mut text, "\n  addr: ");
    append(&mut text, &bootstrap.addr);
    append(&mut text, "\n  fingerprint: ");
    append(&mut text, &bootstrap.fingerprint);
    append(&mut text, "\n\nConfirm this fingerprint matches the other device before accepting.");
    text
}

/// What is shown of a device that is now trusted.
pub fn format_pairing_accepted(entry: &TrustEntry) -> (text: String)
    ensures
        text@ == "trusted device accepted\n  name: "@ + entry.display_name@ + "\n  fingerprint: "@
            + entry.fingerprint@ + "\n  paired_at: "@ + decimal(entry.paired_at as nat),
{
    let mut text = "trusted device accepted\n  name: ".to_owned();
    append(&mut text, &entry.display_name);
    append(&mut text, "\n  fingerprint: ");
    append(&mut text, &entry.fingerprint);
    append(&mut text, "\n  paired_at: ");
    append(&mut text, &decimal_text(entry.paired_at));
    text
}

/// One native integration and whether it can be used, by their labels.
#[derive(Debug)]
pub struct IntegrationAvailability {
    pub integration: String,
    pub status: String,
}

/// The platform's integrations.
#[derive(Debug)]
pub struct NativeIntegrationReport {
    pub os: String,
    pub integrations: Vec<IntegrationAvailability>,
}

/// The lines of the first integrations.
pub open spec fn integration_lines(entries: Seq<IntegrationAvailability>, n: int) -> Seq<char>
    decreases n,
{
    if n <= 0 {
        Seq::empty()
    } else {
        integration_lines(entries, n - 1) + "  "@ + entries[n - 1].integration@ + ": "@
            + entries[n - 1].status@ + "\n"@
    }
}

/// The platform's integrations, without white space at the end.
pub fn format_native_integrations(report: &NativeIntegrationReport) -> (text: String)
    ensures
        text@ == trimmed_end(
            "native integrations: "@ + report.os@ + "\n"@ + integration_lines(
                report.integrations@,
                report.integrations@.len() as int,
            ),
        ),
{
    let mut text = "native integrations: ".to_owned();
    append(&mut text, &report.os);
    append(&mut text, "\n");
    let ghost head = text@;
    let mut i: usize = 0;
    let n: usize = report.integrations.len();
    assert(text@ =~= head + integration_lines(report.integrations@, 0));
    while i < n
        invariant
            n == report.integrations@.len(),
            i <= n,
            text@ == head + integration_lines(report.integrations@, i as int),
        decreases n - i,
    {
        append(&mut text, "  ");
        append(&mut text, &report.integrations[i].integration);
        append(&mut text, ": ");
        append(&mut text, &report.integrations[i].status);
        append(&mut text, "\n");
        assert(text@ =~= head + integration_lines(report.integrations@, i + 1));
        i += 1;
    }
    trim_end(&text)
}

/// The report on macOS's input permission, before its end is trimmed.
pub open spec fn macos_report(
    accessibility: Seq<char>,
    can_capture_input: bool,
    can_inject_input: bool,
    next_step: Option<Seq<char>>,
) -> Seq<char> {
    "macOS input accessibility: "@ + accessibility + "\n"@ + "  capture ready: "@ + bool_wording(
        can_capture_input,
    ) + "\n"@ + "  inject ready: "@ + bool_wording(can_inject_input) + "\n"@
        + "  settings: System Settings > Privacy & Security > Accessibility\n"@ + (match next_step {
        Some(step) => "  next step: "@ + step + "\n"@,
        None => Seq::empty(),
    }) + (if can_capture_input && can_inject_input {
        Seq::empty()
    } else {
        "  after granting permission: restart nexkvm after granting permission\n"@
    })
}

/// The report on macOS's input permission.
pub fn format_macos_input_report(
    accessibility: &str,
    can_capture_input: bool,
    can_inject_input: bool,
    next_step: Option<&str>,
) -> (text: String)
    ensures
        text@ == trimmed_end(
            macos_report(
                accessibility@,
                can_capture_input,
                can_inject_input,
                match next_step {
                    Some(step) => Some(step@),
                    None => None,
                },
            ),
        ),
{
    let mut text = "macOS input accessibility: ".to_owned();
    append(&mut text, accessibility);
    append(&mut text, "\n");
    append(&mut text, "  capture ready: ");
    append(&mut text, bool_text(can_capture_input));
    append(&mut text, "\n");
    append(&mut text, "  inject ready: ");
    append(&mut text, bool_text(can_inject_input));
    append(&mut text, "\n");
    append(&mut text, "  settings: System Settings > Privacy & Security > Accessibility\n");
    if let Some(step) = next_step {
        append(&mut text, "  next step: ");
        append(&mut text, step);
        append(&mut text, "\n");
    }
    if !can_capture_input || !can_inject_input {
        append(
            &mut text,
            "  after granting permission: restart nexkvm after granting permission\n",
        );
    }
    assert(text@ =~= macos_report(
        accessibility@,
        can_capture_input,
        can_inject_input,
        match next_step {
            Some(step) => Some(step@),
            None => None,
        },
    ));
    trim_end(&text)
}

/// A choice and what stands for none.
pub open spec fn chosen(choice: Option<&str>, none: Seq<char>) -> Seq<char> {
    match choice {
        Some(text) => text@,
        None => none,
    }
}

/// What the diagnostics say of the input runtime, in lines.
pub fn format_input_alpha_runtime(
    role: &str,
    active_peer: Option<&str>,
    edge: &str,
    emergency_stop_keycode: u32,
    remote_focus_timeout_millis: u64,
    connect_addr: Option<&str>,
    clipboard_sync: bool,
) -> (text: String)
    ensures
        text@ == "input role: "@ + role@ + "\nactive peer: "@ + chosen(active_peer, "auto"@)
            + "\nhandoff edge: "@ + edge@ + "\nemergency stop key: "@ + decimal(
            emergency_stop_keycode as nat,
        ) + "\nremote focus timeout: "@ + decimal(remote_focus_timeout_millis as nat)
            + " ms\nconnect address: "@ + chosen(connect_addr, "disabled"@)
            + "\nclipboard sync: "@ + bool_wording(clipboard_sync),
{
    let mut text = "input role: ".to_owned();
    append(&mut text, role);
    append(&mut text, "\nactive peer: ");
    append(
        &mut text,
        match active_peer {
            Some(peer) => peer,
            None => "auto",
        },
    );
    append(&mut text, "\nhandoff edge: ");
    append(&mut text, edge);
    append(&mut text, "\nemergency stop key: ");
    append(&mut text, &decimal_text(emergency_stop_keycode as u64));
    append(&mut text, "\nremote focus timeout: ");
    append(&mut text, &decimal_text(remote_focus_timeout_millis));
    append(&mut text, " ms\nconnect address: ");
    append(
        &mut text,
        match connect_addr {
            Some(addr) => addr,
            None => "disabled",
        },
    );
    append(&mut text, "\nclipboard sync: ");
    append(&mut text, bool_text(clipboard_sync));
    text
}

/// Whether a word is another one than a flag.
pub open spec fn other_than(flag: Seq<char>) -> spec_fn(Seq<char>) -> bool {
    |word: Seq<char>| word != flag
}

proof fn lemma_without_filters(words: Seq<Seq<char>>, flag: Seq<char>)
    ensures
        without(words, flag) == words.filter(other_than(flag)),
    decreases words.len(),
{
    reveal(Seq::filter);
    if words.len() > 0 {
        lemma_without_filters(words.drop_last(), flag);
    }
}

/// Taking a flag out leaves every other word, in its order.
pub proof fn law_other_words_stay(words: Seq<Seq<char>>, flag: Seq<char>)
    ensures
        without(words, flag) == words.filter(other_than(flag)),
{
    lemma_without_filters(words, flag);
}

/// To pair takes one word beside the flag to accept, wherever it stands; that word is
/// what is paired with.
pub proof fn law_pairing_takes_one_uri(words: Seq<Seq<char>>)
    ensures
        ({
            let uris = words.filter(other_than("--accept"@));
            &&& pair_of(words) is Ok <==> uris.len() == 1
            &&& uris.len() == 1 ==> pair_of(words) == Ok::<CommandFacts, Seq<char>>(
                CommandFacts::Pair { uri: uris[0], accept: words.contains("--accept"@) },
            )
        }),
{
    lemma_without_filters(words, "--accept"@);
}

/// To simulate takes a path or none beside the flags for JSON alone, wherever they
/// stand.
pub proof fn law_simulating_takes_one_path_or_none(words: Seq<Seq<char>>)
    ensures
        ({
            let paths = words.filter(other_than("--simulate-json-only"@)).filter(
                other_than("--json-only"@),
            );
            let json_only = words.contains("--simulate-json-only"@) || words.contains(
                "--json-only"@,
            );
            &&& simulate_of(words) is Ok <==> paths.len() <= 1
            &&& paths.len() == 1 ==> simulate_of(words) == Ok::<CommandFacts, Seq<char>>(
                CommandFacts::Simulate { path: Some(paths[0]), json_only },
            )
            &&& paths.len() == 0 ==> simulate_of(words) == Ok::<CommandFacts, Seq<char>>(
                CommandFacts::Simulate { path: None, json_only },
            )
        }),
{
    lemma_without_filters(words, "--simulate-json-only"@);
    lemma_without_filters(without(words, "--simulate-json-only"@), "--json-only"@);
}

/// Every word behind the command is a path to send, in its order, but for two dashes
/// that stand first; behind those a path may look like a flag.
pub proof fn law_every_path_is_sent(paths: Seq<Seq<char>>)
    ensures
        paths.len() > 0 ==> file_send_of(seq!["--"@] + paths) == Ok::<CommandFacts, Seq<char>>(
            CommandFacts::FileSend { paths },
        ),
        paths.len() > 0 && paths[0] != "--"@ ==> file_send_of(paths) == Ok::<
            CommandFacts,
            Seq<char>,
        >(CommandFacts::FileSend { paths }),
        file_send_of(Seq::empty()) is Err,
        file_send_of(seq!["--"@]) is Err,
{
    assert((seq!["--"@] + paths).drop_first() =~= paths);
    assert(seq!["--"@].drop_first().len() == 0);
}

proof fn lemma_words_differ()
    ensures
        "doctor"@ != "--help"@,
        "pair"@ != "help"@,
        "protocol"@ != "simulate"@,
        "pair-auto"@ != "file-send"@,
        "clipboard-history"@ != "clipboard-restore"@,
        "permissions"@ != "pairing-uri"@,
        "permissions"@ != "audio-smoke"@,
        "permissions"@ != "config-path"@,
        "pairing-uri"@ != "audio-smoke"@,
        "pairing-uri"@ != "config-path"@,
        "audio-smoke"@ != "config-path"@,
        "doctor"@.len() == 6,
        "permissions"@.len() == 11,
        "portal-smoke"@.len() == 12,
        "pipewire-smoke"@.len() == 14,
        "audio-smoke"@.len() == 11,
        "protocol"@.len() == 8,
        "config-path"@.len() == 11,
        "devices"@.len() == 7,
        "pair"@.len() == 4,
        "pair-auto"@.len() == 9,
        "pairing-uri"@.len() == 11,
        "clipboard-history"@.len() == 17,
        "clipboard-restore"@.len() == 17,
        "clipboard-clear"@.len() == 15,
        "file-send"@.len() == 9,
        "simulate"@.len() == 8,
        "help"@.len() == 4,
        "--help"@.len() == 6,
        "-h"@.len() == 2,
{
    reveal_strlit("doctor");
    reveal_strlit("permissions");
    reveal_strlit("portal-smoke");
    reveal_strlit("pipewire-smoke");
    reveal_strlit("audio-smoke");
    reveal_strlit("protocol");
    reveal_strlit("config-path");
    reveal_strlit("devices");
    reveal_strlit("pair");
    reveal_strlit("pair-auto");
    reveal_strlit("pairing-uri");
    reveal_strlit("clipboard-history");
    reveal_strlit("clipboard-restore");
    reveal_strlit("clipboard-clear");
    reveal_strlit("file-send");
    reveal_strlit("simulate");
    reveal_strlit("help");
    reveal_strlit("--help");
    reveal_strlit("-h");
    assert("doctor"@[0] != "--help"@[0]);
    assert("pair"@[0] != "help"@[0]);
    assert("protocol"@[0] != "simulate"@[0]);
    assert("pair-auto"@[0] != "file-send"@[0]);
    assert("clipboard-history"@[10] != "clipboard-restore"@[10]);
    assert("permissions"@[1] != "pairing-uri"@[1]);
    assert("permissions"@[0] != "audio-smoke"@[0]);
    assert("permissions"@[0] != "config-path"@[0]);
    assert("pairing-uri"@[0] != "audio-smoke"@[0]);
    assert("pairing-uri"@[0] != "config-path"@[0]);
    assert("audio-smoke"@[0] != "config-path"@[0]);
}

/// Some commands do what they say whatever follows them, and others only where nothing
/// does.
pub proof fn law_commands_stand_for_themselves(rest: Seq<Seq<char>>)
    ensures
        command_of(seq!["doctor"@] + rest) == Ok::<CommandFacts, Seq<char>>(CommandFacts::Doctor),
        command_of(seq!["permissions"@] + rest) == Ok::<CommandFacts, Seq<char>>(
            CommandFacts::Permissions,
        ),
        command_of(seq!["protocol"@] + rest) == Ok::<CommandFacts, Seq<char>>(
            CommandFacts::Protocol,
        ),
        command_of(seq!["config-path"@] + rest) == Ok::<CommandFacts, Seq<char>>(
            CommandFacts::ConfigPath,
        ),
        command_of(seq!["devices"@] + rest) == Ok::<CommandFacts, Seq<char>>(CommandFacts::Devices),
        command_of(seq!["help"@] + rest) == Ok::<CommandFacts, Seq<char>>(CommandFacts::Help),
        command_of(seq!["--help"@] + rest) == Ok::<CommandFacts, Seq<char>>(CommandFacts::Help),
        command_of(seq!["-h"@] + rest) == Ok::<CommandFacts, Seq<char>>(CommandFacts::Help),
        command_of(seq!["portal-smoke"@] + rest) is Ok <==> rest.len() == 0,
        command_of(seq!["pipewire-smoke"@] + rest) is Ok <==> rest.len() == 0,
        command_of(seq!["audio-smoke"@] + rest) is Ok <==> rest.len() == 0,
        command_of(seq!["clipboard-clear"@] + rest) is Ok <==> rest.len() == 0,
        rest.len() == 0 ==> {
            &&& command_of(seq!["portal-smoke"@] + rest) == Ok::<CommandFacts, Seq<char>>(
                CommandFacts::PortalSmoke,
            )
            &&& command_of(seq!["pipewire-smoke"@] + rest) == Ok::<CommandFacts, Seq<char>>(
                CommandFacts::PipeWireSmoke,
            )
            &&& command_of(seq!["audio-smoke"@] + rest) == Ok::<CommandFacts, Seq<char>>(
                CommandFacts::AudioSmoke { action: None },
            )
            &&& command_of(seq!["clipboard-clear"@] + rest) == Ok::<CommandFacts, Seq<char>>(
                CommandFacts::ClipboardClear,
            )
        },
        command_of(Seq::empty()) == Ok::<CommandFacts, Seq<char>>(CommandFacts::Run),
{
    lemma_words_differ();
    assert((seq!["portal-smoke"@] + rest).drop_first() =~= rest);
    assert((seq!["pipewire-smoke"@] + rest).drop_first() =~= rest);
    assert((seq!["audio-smoke"@] + rest).drop_first() =~= rest);
    assert((seq!["clipboard-clear"@] + rest).drop_first() =~= rest);
}

/// The other commands take what follows them: a peer behind its flag, one address, a
/// fingerprint, a flag for JSON, the paths to send, or what pairing and simulating
/// take. Where anything else follows them they are refused.
pub proof fn law_commands_take_their_arguments(rest: Seq<Seq<char>>)
    ensures
        command_of(seq!["pair-auto"@] + rest) is Ok <==> rest.len() == 2 && rest[0] == "--peer"@,
        rest.len() == 2 && rest[0] == "--peer"@ ==> command_of(seq!["pair-auto"@] + rest) == Ok::<
            CommandFacts,
            Seq<char>,
        >(CommandFacts::PairAuto { peer: rest[1] }),
        command_of(seq!["pairing-uri"@] + rest) is Ok <==> rest.len() == 1,
        rest.len() == 1 ==> command_of(seq!["pairing-uri"@] + rest) == Ok::<
            CommandFacts,
            Seq<char>,
        >(CommandFacts::PairingUri { addr: rest[0] }),
        command_of(seq!["clipboard-history"@] + rest) is Ok <==> rest.len() == 0 || (rest.len() == 1
            && rest[0] == "--json"@),
        rest.len() == 0 ==> command_of(seq!["clipboard-history"@] + rest) == Ok::<
            CommandFacts,
            Seq<char>,
        >(CommandFacts::ClipboardHistory { json: false }),
        rest.len() == 1 && rest[0] == "--json"@ ==> command_of(seq!["clipboard-history"@] + rest)
            == Ok::<CommandFacts, Seq<char>>(CommandFacts::ClipboardHistory { json: true }),
        command_of(seq!["clipboard-restore"@] + rest) is Ok <==> rest.len() == 1 && hex_value(
            rest[0],
        ) is Some,
        rest.len() == 1 && hex_value(rest[0]) is Some ==> command_of(
            seq!["clipboard-restore"@] + rest,
        ) == Ok::<CommandFacts, Seq<char>>(
            CommandFacts::ClipboardRestore { fingerprint: hex_value(rest[0])->Some_0 },
        ),
        command_of(seq!["pair"@] + rest) == pair_of(rest),
        command_of(seq!["file-send"@] + rest) == file_send_of(rest),
        command_of(seq!["simulate"@] + rest) == simulate_of(rest),
{
    lemma_words_differ();
    assert((seq!["pair-auto"@] + rest).drop_first() =~= rest);
    assert((seq!["pairing-uri"@] + rest).drop_first() =~= rest);
    assert((seq!["clipboard-history"@] + rest).drop_first() =~= rest);
    assert((seq!["clipboard-restore"@] + rest).drop_first() =~= rest);
    assert((seq!["pair"@] + rest).drop_first() =~= rest);
    assert((seq!["file-send"@] + rest).drop_first() =~= rest);
    assert((seq!["simulate"@] + rest).drop_first() =~= rest);
}

proof fn lemma_lines_flatten(lines: Seq<Seq<char>>)
    ensures
        lines.len() == 0 ==> lines.flatten() == Seq::<char>::empty(),
        lines.len() > 0 ==> lines.flatten() == lines.drop_last().flatten() + lines.last(),
{
    lines.lemma_flatten_and_flatten_alt_are_equivalent();
    if lines.len() > 0 {
        lines.drop_last().lemma_flatten_and_flatten_alt_are_equivalent();
    }
}

/// Every trusted device has its line, in its place: its fingerprint, its name and the
/// time at which it was paired.
pub proof fn law_every_device_has_its_line(entries: Seq<TrustEntry>)
    ensures
        device_lines(entries, entries.len() as int) == entries.map_values(
            |entry: TrustEntry|
                "\n  "@ + entry.fingerprint@ + "  "@ + entry.display_name@ + "  (paired_at="@
                    + decimal(entry.paired_at as nat) + ")"@,
        ).flatten(),
{
    lemma_device_lines(entries, entries.len() as int);
    assert(entries.take(entries.len() as int) =~= entries);
}

proof fn lemma_device_lines(entries: Seq<TrustEntry>, n: int)
    requires
        0 <= n <= entries.len(),
    ensures
        device_lines(entries, n) == entries.take(n).map_values(
            |entry: TrustEntry|
                "\n  "@ + entry.fingerprint@ + "  "@ + entry.display_name@ + "  (paired_at="@
                    + decimal(entry.paired_at as nat) + ")"@,
        ).flatten(),
    decreases n,
{
    let line = |entry: TrustEntry|
        "\n  "@ + entry.fingerprint@ + "  "@ + entry.display_name@ + "  (paired_at="@ + decimal(
            entry.paired_at as nat,
        ) + ")"@;
    let lines = entries.take(n).map_values(line);
    lemma_lines_flatten(lines);
    if n > 0 {
        lemma_device_lines(entries, n - 1);
        assert(lines.drop_last() =~= entries.take(n - 1).map_values(line));
        assert(lines.last() == line(entries[n - 1]));
    }
}

/// Every integration has its line, in its place: its name and how it stands.
pub proof fn law_every_integration_has_its_line(entries: Seq<IntegrationAvailability>)
    ensures
        integration_lines(entries, entries.len() as int) == entries.map_values(
            |entry: IntegrationAvailability|
                "  "@ + entry.integration@ + ": "@ + entry.status@ + "\n"@,
        ).flatten(),
{
    lemma_integration_lines(entries, entries.len() as int);
    assert(entries.take(entries.len() as int) =~= entries);
}

proof fn lemma_integration_lines(entries: Seq<IntegrationAvailability>, n: int)
    requires
        0 <= n <= entries.len(),
    ensures
        integration_lines(entries, n) == entries.take(n).map_values(
            |entry: IntegrationAvailability|
                "  "@ + entry.integration@ + ": "@ + entry.status@ + "\n"@,
        ).flatten(),
    decreases n,
{
    let line = |entry: IntegrationAvailability|
        "  "@ + entry.integration@ + ": "@ + entry.status@ + "\n"@;
    let lines = entries.take(n).map_values(line);
    lemma_lines_flatten(lines);
    if n > 0 {
        lemma_integration_lines(entries, n - 1);
        assert(lines.drop_last() =~= entries.take(n - 1).map_values(line));
        let last = entries[n - 1];
        assert(lines.last() == line(last));
        let before = integration_lines(entries, n - 1);
        assert(before + "  "@ + last.integration@ + ": "@ + last.status@ + "\n"@ =~= before + (
        "  "@ + last.integration@ + ": "@ + last.status@ + "\n"@));
    }
}

/// Every row of the usage has its line, in its place: the command and what it does.
pub proof fn law_every_command_has_its_line(rows: Seq<(Seq<char>, Seq<char>)>)
    ensures
        usage_lines(rows, rows.len() as int) == rows.map_values(
            |row: (Seq<char>, Seq<char>)| "  nexkvm "@ + row.0 + row.1 + "\n"@,
        ).flatten(),
{
    lemma_usage_lines(rows, rows.len() as int);
    assert(rows.take(rows.len() as int) =~= rows);
}

proof fn lemma_usage_lines(rows: Seq<(Seq<char>, Seq<char>)>, n: int)
    requires
        0 <= n <= rows.len(),
    ensures
        usage_lines(rows, n) == rows.take(n).map_values(
            |row: (Seq<char>, Seq<char>)| "  nexkvm "@ + row.0 + row.1 + "\n"@,
        ).flatten(),
    decreases n,
{
    let line = |row: (Seq<char>, Seq<char>)| "  nexkvm "@ + row.0 + row.1 + "\n"@;
    let lines = rows.take(n).map_values(line);
    lemma_lines_flatten(lines);
    if n > 0 {
        lemma_usage_lines(rows, n - 1);
        assert(lines.drop_last() =~= rows.take(n - 1).map_values(line));
        let last = rows[n - 1];
        assert(lines.last() == line(last));
        let before = usage_lines(rows, n - 1);
        assert(before + "  nexkvm "@ + last.0 + last.1 + "\n"@ =~= before + ("  nexkvm "@ + last.0
            + last.1 + "\n"@));
    }
}

/// A report asks for a restart exactly where input can not be both captured and
/// injected, and gives the next step where there is one.
pub proof fn law_reports_ask_for_what_is_missing(
    accessibility: Seq<char>,
    capture: bool,
    inject: bool,
    step: Seq<char>,
)
    ensures
        ({
            let head = "macOS input accessibility: "@ + accessibility + "\n"@
                + "  capture ready: "@ + bool_wording(capture) + "\n"@ + "  inject ready: "@
                + bool_wording(inject) + "\n"@
                + "  settings: System Settings > Privacy & Security > Accessibility\n"@;
            let restart =
                "  after granting permission: restart nexkvm after granting permission\n"@;
            let next = "  next step: "@ + step + "\n"@;
            &&& capture && inject ==> macos_report(accessibility, capture, inject, None) == head
                && macos_report(accessibility, capture, inject, Some(step)) == head + next
            &&& !(capture && inject) ==> macos_report(accessibility, capture, inject, None) == head
                + restart && macos_report(accessibility, capture, inject, Some(step)) == head + next
                + restart
        }),
{
    let head = "macOS input accessibility: "@ + accessibility + "\n"@ + "  capture ready: "@
        + bool_wording(capture) + "\n"@ + "  inject ready: "@ + bool_wording(inject) + "\n"@
        + "  settings: System Settings > Privacy & Security > Accessibility\n"@;
    let next = "  next step: "@ + step + "\n"@;
    let empty = Seq::<char>::empty();
    let restart = "  after granting permission: restart nexkvm after granting permission\n"@;
    assert(head + empty + empty =~= head);
    assert(head + next + empty =~= head + next);
    assert(head + empty + restart =~= head + restart);
}

} // verus!
