//! The control panel: what its buttons and the programs that it runs do to it.

use vstd::prelude::*;

use crate::feedback::PairingGenerationFeedback;
use crate::notifications::opened_feed;
use crate::notifications::Feed;
use crate::notifications::NotificationUrgency;
use crate::outside::utf8_lossy;
use crate::outside::utf8_lossy_of;
use crate::sharing::ClipboardHistoryEntry;
use crate::sharing::HistoryViewError;
use crate::text::append;
use crate::text::concat;
use crate::text::decimal;
use crate::text::decimal_text;
use crate::text::to_chars;
use crate::text::trim;
use crate::text::trimmed;

verus! {

/// How many file transfers may be under way at once.
pub const MAX_PENDING_FILE_SENDS: usize = 4;

/// A page of the panel.
#[derive(Clone, Copy, PartialEq, Eq, Structural, Debug)]
pub enum Section {
    Overview,
    Settings,
    Sharing,
    Pairing,
    Notifications,
}

/// The title of a page.
pub fn section_title(section: Section) -> (title: &'static str)
    ensures
        title@ == (match section {
            Section::Overview => "Overview"@,
            Section::Settings => "Settings"@,
            Section::Sharing => "Sharing"@,
            Section::Pairing => "Pairing & Output"@,
            Section::Notifications => "Notifications"@,
        }),
{
    match section {
        Section::Overview => "Overview",
        Section::Settings => "Settings",
        Section::Sharing => "Sharing",
        Section::Pairing => "Pairing & Output",
        Section::Notifications => "Notifications",
    }
}

/// How changed settings reach the daemon.
#[derive(Clone, Copy, PartialEq, Eq, Structural, Debug)]
pub enum RuntimeApplyAction {
    RestartOwned,
    RestartRequired,
}

/// Only a daemon that the panel has started is restarted by it.
pub fn runtime_apply_action(daemon_owned_by_gui: bool) -> (action: RuntimeApplyAction)
    ensures
        action == (if daemon_owned_by_gui {
            RuntimeApplyAction::RestartOwned
        } else {
            RuntimeApplyAction::RestartRequired
        }),
{
    if daemon_owned_by_gui {
        RuntimeApplyAction::RestartOwned
    } else {
        RuntimeApplyAction::RestartRequired
    }
}

/// How a command that was run ended.
#[derive(Debug)]
pub enum CommandEnd {
    /// It succeeded.
    Succeeded,
    /// It exited otherwise, with this status.
    Exited(String),
    /// It could not be run, or not be watched, for this reason.
    Broken(String),
}

/// What is said of a command's end.
pub open spec fn end_wording(
    end: CommandEnd,
    success: Seq<char>,
    exited: Seq<char>,
    broken: Seq<char>,
) -> Seq<char> {
    match end {
        CommandEnd::Succeeded => success,
        CommandEnd::Exited(status) => exited + status@,
        CommandEnd::Broken(error) => broken + error@,
    }
}

/// The control panel.
pub struct ControlPanel {
    pub feed: Feed,
    pub section: Section,
    /// Why the configuration could not be loaded. As long as there is a reason,
    /// nothing is saved.
    pub config_load_error: Option<String>,
    /// Whether a daemon that the panel has started runs.
    pub daemon_owned: bool,
    pub runtime_restart_required: bool,
    pub command_output: String,
    pub clipboard_history: Vec<ClipboardHistoryEntry>,
    pub clipboard_history_loaded: bool,
    pub clipboard_clear_armed: bool,
    /// The number of paths of each file transfer under way.
    pub pending_file_sends: Vec<usize>,
}

/// What a configuration that cannot be loaded is reported as.
pub fn load_failure(path: &str, error: &str) -> (m: String)
    ensures
        m@ == "Failed to load "@ + path@ + ": "@ + error@
            + ". Saving is disabled until the file is repaired or removed and the GUI is restarted."@,
{
    let mut m = "Failed to load ".to_owned();
    append(&mut m, path);
    append(&mut m, ": ");
    append(&mut m, error);
    append(
        &mut m,
        ". Saving is disabled until the file is repaired or removed and the GUI is restarted.",
    );
    m
}

impl ControlPanel {
    /// Whether everything but the feed is as it was.
    pub open spec fn only_feed_changed(self, before: ControlPanel) -> bool {
        &&& self.section == before.section
        &&& self.config_load_error == before.config_load_error
        &&& self.daemon_owned == before.daemon_owned
        &&& self.runtime_restart_required == before.runtime_restart_required
        &&& self.command_output == before.command_output
        &&& self.clipboard_history == before.clipboard_history
        &&& self.clipboard_history_loaded == before.clipboard_history_loaded
        &&& self.clipboard_clear_armed == before.clipboard_clear_armed
        &&& self.pending_file_sends == before.pending_file_sends
    }

    /// Opens the panel. A configuration that could not be loaded is told at once.
    pub fn open(config_load_error: Option<String>) -> (panel: Self)
        ensures
            panel.config_load_error == config_load_error,
            panel.feed@ == (match config_load_error {
                None => opened_feed(),
                Some(error) => opened_feed().told(
                    NotificationUrgency::High,
                    "Configuration load failed"@,
                    error@,
                ),
            }),
            panel.section == Section::Overview,
            !panel.daemon_owned,
            !panel.runtime_restart_required,
            panel.command_output@.len() == 0,
            panel.clipboard_history@.len() == 0,
            !panel.clipboard_history_loaded,
            !panel.clipboard_clear_armed,
            panel.pending_file_sends@.len() == 0,
    {
        let mut feed = Feed::open();
        if let Some(error) = &config_load_error {
            feed.set_status(NotificationUrgency::High, "Configuration load failed", error);
        }
        let command_output = String::new();
        assert(command_output@ == Seq::<char>::empty());
        ControlPanel {
            feed,
            section: Section::Overview,
            config_load_error,
            daemon_owned: false,
            runtime_restart_required: false,
            command_output,
            clipboard_history: Vec::new(),
            clipboard_history_loaded: false,
            clipboard_clear_armed: false,
            pending_file_sends: Vec::new(),
        }
    }

    /// Whether the settings may be saved. They may not where the configuration
    /// could not be loaded: what the file holds is not overwritten.
    pub fn may_save(&mut self) -> (may: bool)
        ensures
            may == (old(self).config_load_error is None),
            final(self).only_feed_changed(*old(self)),
            final(self).feed@ == (match old(self).config_load_error {
                None => old(self).feed@,
                Some(error) => old(self).feed@.told(
                    NotificationUrgency::High,
                    "Settings save blocked"@,
                    error@,
                ),
            }),
    {
        match &self.config_load_error {
            None => true,
            Some(error) => {
                self.feed.set_status(NotificationUrgency::High, "Settings save blocked", error);
                false
            },
        }
    }

    /// Takes the failure to save the settings.
    pub fn on_save_failed(&mut self, error: &str)
        ensures
            final(self).only_feed_changed(*old(self)),
            final(self).feed@ == old(self).feed@.told(
                NotificationUrgency::High,
                "Settings save failed"@,
                "Save failed: "@ + error@,
            ),
    {
        let body = concat("Save failed: ", error);
        self.feed.set_status(NotificationUrgency::High, "Settings save failed", &body);
    }

    /// Takes sharing settings that cannot be kept as they are: they are not saved.
    pub fn on_sharing_refused(&mut self, error: &str)
        ensures
            final(self).only_feed_changed(*old(self)),
            final(self).feed@ == old(self).feed@.told(
                NotificationUrgency::High,
                "Sharing settings invalid"@,
                error@,
            ),
    {
        self.feed.set_status(NotificationUrgency::High, "Sharing settings invalid", error);
    }

    /// Decides how a change reaches the daemon. Where the panel does not own it,
    /// the user is told to restart it.
    pub fn apply_runtime_change(&mut self, reason: &str) -> (action: RuntimeApplyAction)
        ensures
            action == (if old(self).daemon_owned {
                RuntimeApplyAction::RestartOwned
            } else {
                RuntimeApplyAction::RestartRequired
            }),
            old(self).daemon_owned ==> *final(self) == *old(self),
            !old(self).daemon_owned ==> {
                &&& final(self).runtime_restart_required
                &&& (ControlPanel { runtime_restart_required: true, ..*old(self) })
                    .only_feed_changed(*final(self))
                &&& final(self).feed@ == old(self).feed@.told(
                    NotificationUrgency::Normal,
                    "Daemon restart required"@,
                    reason@
                        + ". Start or restart the daemon before relying on the new runtime settings."@,
                )
            },
    {
        let action = runtime_apply_action(self.daemon_owned);
        match action {
            RuntimeApplyAction::RestartOwned => {},
            RuntimeApplyAction::RestartRequired => {
                self.runtime_restart_required = true;
                let body = concat(
                    reason,
                    ". Start or restart the daemon before relying on the new runtime settings.",
                );
                self.feed.set_status(
                    NotificationUrgency::Normal,
                    "Daemon restart required",
                    &body,
                );
            },
        }
        action
    }

    /// Takes the failure to stop the owned daemon for a restart: it stays owned.
    pub fn on_restart_failed(&mut self, reason: &str, error: &str)
        ensures
            final(self).runtime_restart_required,
            final(self).daemon_owned,
            (ControlPanel {
                runtime_restart_required: true,
                daemon_owned: true,
                ..*old(self)
            }).only_feed_changed(*final(self)),
            final(self).feed@ == old(self).feed@.told(
                NotificationUrgency::High,
                "Daemon restart failed"@,
                reason@ + ", but the GUI-owned daemon could not stop: "@ + error@,
            ),
    {
        self.daemon_owned = true;
        self.runtime_restart_required = true;
        let mut body = concat(reason, ", but the GUI-owned daemon could not stop: ");
        append(&mut body, error);
        self.feed.set_status(NotificationUrgency::High, "Daemon restart failed", &body);
    }

    /// Takes the stop of the owned daemon for a restart: until another one is started
    /// the panel owns none.
    pub fn on_stopped_for_restart(&mut self)
        ensures
            !final(self).daemon_owned,
            (ControlPanel { daemon_owned: false, ..*old(self) }).only_feed_changed(*final(self)),
            final(self).feed == old(self).feed,
    {
        self.daemon_owned = false;
    }

    /// Takes the restart of the owned daemon.
    pub fn on_restarted(&mut self, reason: &str)
        ensures
            !final(self).runtime_restart_required,
            (ControlPanel { runtime_restart_required: false, ..*old(self) }).only_feed_changed(
                *final(self),
            ),
            final(self).feed@ == old(self).feed@.told(
                NotificationUrgency::Normal,
                "Daemon restarted"@,
                reason@ + "; the GUI-owned daemon restarted with the new runtime state"@,
            ),
    {
        self.runtime_restart_required = false;
        let body = concat(
            reason,
            "; the GUI-owned daemon restarted with the new runtime state",
        );
        self.feed.set_status(NotificationUrgency::Normal, "Daemon restarted", &body);
    }

    /// Takes what generating a pairing URI gave. Gives the URI to show: none is left
    /// from before where there is no new one. What went wrong is also shown as the
    /// command's output.
    pub fn on_pairing_uri(&mut self, feedback: PairingGenerationFeedback) -> (uri: String)
        ensures
            uri@ == (match feedback.uri {
                Some(text) => text@,
                None => Seq::<char>::empty(),
            }),
            feedback.urgency == NotificationUrgency::High ==> final(self).command_output@
                == feedback.detail@,
            feedback.urgency != NotificationUrgency::High ==> final(self).command_output
                == old(self).command_output,
            (ControlPanel {
                command_output: final(self).command_output,
                ..*old(self)
            }).only_feed_changed(*final(self)),
            final(self).feed@ == old(self).feed@.told(
                feedback.urgency,
                feedback.title@,
                feedback.detail@,
            ),
    {
        self.feed.set_status(feedback.urgency, feedback.title, &feedback.detail);
        if feedback.urgency == NotificationUrgency::High {
            self.command_output = feedback.detail;
        }
        match feedback.uri {
            Some(text) => text,
            None => String::new(),
        }
    }

    /// Takes the failure to run the command that generates a pairing URI.
    pub fn on_pairing_uri_failed(&mut self, error: &str)
        ensures
            final(self).only_feed_changed(*old(self)),
            final(self).feed@ == old(self).feed@.told(
                NotificationUrgency::High,
                "Pairing URI failed"@,
                "Pairing URI failed: "@ + error@,
            ),
    {
        let body = concat("Pairing URI failed: ", error);
        self.feed.set_status(NotificationUrgency::High, "Pairing URI failed", &body);
    }

    /// Whether a daemon may be started: not where the panel already runs one.
    pub fn may_start(&mut self) -> (may: bool)
        ensures
            may == !old(self).daemon_owned,
            final(self).only_feed_changed(*old(self)),
            final(self).feed@ == (if old(self).daemon_owned {
                old(self).feed@.told(
                    NotificationUrgency::Low,
                    "Daemon already running"@,
                    "Daemon already started from this window"@,
                )
            } else {
                old(self).feed@
            }),
    {
        if self.daemon_owned {
            self.feed.set_status(
                NotificationUrgency::Low,
                "Daemon already running",
                "Daemon already started from this window",
            );
            false
        } else {
            true
        }
    }

    /// Whether the port leaves room for a daemon. A port in use is no reason to
    /// end whoever uses it.
    pub fn check_port(&mut self, listen_port: u16, available: bool) -> (may: bool)
        ensures
            may == available,
            final(self).only_feed_changed(*old(self)),
            final(self).feed@ == (if available {
                old(self).feed@
            } else {
                old(self).feed@.told(
                    NotificationUrgency::Normal,
                    "Daemon already running"@,
                    "Port "@ + decimal(listen_port as nat)
                        + " is already in use; NexKVM will not terminate an unowned process"@,
                )
            }),
    {
        if !available {
            let mut body = concat("Port ", &decimal_text(listen_port as u64));
            append(
                &mut body,
                " is already in use; NexKVM will not terminate an unowned process",
            );
            self.feed.set_status(NotificationUrgency::Normal, "Daemon already running", &body);
        }
        available
    }

    /// Takes the failure to open the daemon's log.
    pub fn on_log_failed(&mut self, error: &str)
        ensures
            final(self).only_feed_changed(*old(self)),
            final(self).feed@ == old(self).feed@.told(
                NotificationUrgency::High,
                "Daemon log failed"@,
                "Failed to open daemon log: "@ + error@,
            ),
    {
        let body = concat("Failed to open daemon log: ", error);
        self.feed.set_status(NotificationUrgency::High, "Daemon log failed", &body);
    }

    /// Takes the start of a daemon, or the failure to start it.
    pub fn on_start(&mut self, started: Result<(), String>, log_path: &str)
        ensures
            match started {
                Ok(_) => {
                    &&& final(self).daemon_owned
                    &&& !final(self).runtime_restart_required
                    &&& (ControlPanel {
                        daemon_owned: true,
                        runtime_restart_required: false,
                        ..*old(self)
                    }).only_feed_changed(*final(self))
                    &&& final(self).feed@ == old(self).feed@.told(
                        NotificationUrgency::Normal,
                        "Daemon started"@,
                        "Daemon started; log "@ + log_path@,
                    )
                },
                Err(error) => {
                    &&& final(self).only_feed_changed(*old(self))
                    &&& final(self).feed@ == old(self).feed@.told(
                        NotificationUrgency::High,
                        "Daemon start failed"@,
                        "Failed to start daemon: "@ + error@,
                    )
                },
            },
    {
        match started {
            Ok(_) => {
                self.daemon_owned = true;
                self.runtime_restart_required = false;
                let body = concat("Daemon started; log ", log_path);
                self.feed.set_status(NotificationUrgency::Normal, "Daemon started", &body);
            },
            Err(error) => {
                let body = concat("Failed to start daemon: ", &error);
                self.feed.set_status(NotificationUrgency::High, "Daemon start failed", &body);
            },
        }
    }

    /// Stops the daemon. `stopped` is how stopping it went, where the panel owned
    /// one; a daemon of somebody else is left alone.
    pub fn on_stop(&mut self, stopped: Option<Result<(), String>>)
        ensures
            stopped is Some ==> !final(self).daemon_owned && (ControlPanel {
                daemon_owned: false,
                ..*old(self)
            }).only_feed_changed(*final(self)),
            stopped is None ==> final(self).only_feed_changed(*old(self)),
            final(self).feed@ == (match stopped {
                Some(Ok(_)) => old(self).feed@.told(
                    NotificationUrgency::Normal,
                    "Daemon stopped"@,
                    "Daemon stopped gracefully"@,
                ),
                Some(Err(error)) => old(self).feed@.told(
                    NotificationUrgency::High,
                    "Daemon stop failed"@,
                    "Could not stop this window's daemon: "@ + error@,
                ),
                None => old(self).feed@.told(
                    NotificationUrgency::Low,
                    "Daemon not owned"@,
                    "No daemon started by this window; no process was terminated"@,
                ),
            }),
    {
        match stopped {
            Some(Ok(_)) => {
                self.daemon_owned = false;
                self.feed.set_status(
                    NotificationUrgency::Normal,
                    "Daemon stopped",
                    "Daemon stopped gracefully",
                );
            },
            Some(Err(error)) => {
                self.daemon_owned = false;
                let body = concat("Could not stop this window's daemon: ", &error);
                self.feed.set_status(NotificationUrgency::High, "Daemon stop failed", &body);
            },
            None => {
                self.feed.set_status(
                    NotificationUrgency::Low,
                    "Daemon not owned",
                    "No daemon started by this window; no process was terminated",
                );
            },
        }
    }

    /// Takes the end of the owned daemon: its log is shown.
    pub fn on_daemon_exit(&mut self, status: &str, log_tail: String)
        ensures
            !final(self).daemon_owned,
            final(self).section == Section::Pairing,
            final(self).command_output == log_tail,
            (ControlPanel {
                daemon_owned: false,
                section: Section::Pairing,
                command_output: log_tail,
                ..*old(self)
            }).only_feed_changed(*final(self)),
            final(self).feed@ == old(self).feed@.told(
                NotificationUrgency::High,
                "Daemon exited"@,
                "Daemon exited: "@ + status@,
            ),
    {
        self.daemon_owned = false;
        let body = concat("Daemon exited: ", status);
        self.feed.set_status(NotificationUrgency::High, "Daemon exited", &body);
        self.command_output = log_tail;
        self.section = Section::Pairing;
    }

    /// Takes a command's output: its error output is shown where there is any.
    pub fn on_command_output(
        &mut self,
        success: bool,
        stdout: &[u8],
        stderr: &[u8],
        status: &str,
    )
        ensures
            final(self).command_output@ == (if trimmed(utf8_lossy_of(stderr@)).len() == 0 {
                utf8_lossy_of(stdout@)
            } else {
                utf8_lossy_of(stdout@) + "\n"@ + utf8_lossy_of(stderr@)
            }),
            (ControlPanel {
                command_output: final(self).command_output,
                ..*old(self)
            }).only_feed_changed(*final(self)),
            final(self).feed@ == old(self).feed@.told(
                if success {
                    NotificationUrgency::Normal
                } else {
                    NotificationUrgency::High
                },
                "Command finished"@,
                "Command exited: "@ + status@,
            ),
    {
        let mut output = utf8_lossy(stdout);
        let errors = utf8_lossy(stderr);
        if to_chars(&trim(&errors)).len() > 0 {
            append(&mut output, "\n");
            append(&mut output, &errors);
        }
        self.command_output = output;
        let body = concat("Command exited: ", status);
        self.feed.set_status(
            if success {
                NotificationUrgency::Normal
            } else {
                NotificationUrgency::High
            },
            "Command finished",
            &body,
        );
    }

    /// Takes the failure to run a command.
    pub fn on_command_failed(&mut self, error: &str)
        ensures
            final(self).only_feed_changed(*old(self)),
            final(self).feed@ == old(self).feed@.told(
                NotificationUrgency::High,
                "Command failed"@,
                "Command failed: "@ + error@,
            ),
    {
        let body = concat("Command failed: ", error);
        self.feed.set_status(NotificationUrgency::High, "Command failed", &body);
    }

    /// Takes a history that was read: it is shown, or called malformed.
    pub fn on_history(&mut self, entries: Result<Vec<ClipboardHistoryEntry>, HistoryViewError>)
        ensures
            match entries {
                Ok(list) => {
                    &&& final(self).clipboard_history == list
                    &&& final(self).clipboard_history_loaded
                    &&& !final(self).clipboard_clear_armed
                    &&& (ControlPanel {
                        clipboard_history: list,
                        clipboard_history_loaded: true,
                        clipboard_clear_armed: false,
                        ..*old(self)
                    }).only_feed_changed(*final(self))
                    &&& final(self).feed@ == old(self).feed@.told(
                        NotificationUrgency::Normal,
                        "Clipboard history refreshed"@,
                        "Loaded "@ + decimal(list@.len()) + " clipboard history entries"@,
                    )
                },
                Err(_) => {
                    &&& final(self).only_feed_changed(*old(self))
                    &&& final(self).feed@ == old(self).feed@.told(
                        NotificationUrgency::High,
                        "Clipboard history unavailable"@,
                        "The clipboard-history command returned malformed JSON"@,
                    )
                },
            },
    {
        match entries {
            Ok(list) => {
                let mut body = concat("Loaded ", &decimal_text(list.len() as u64));
                append(&mut body, " clipboard history entries");
                self.clipboard_history = list;
                self.clipboard_history_loaded = true;
                self.clipboard_clear_armed = false;
                self.feed.set_status(
                    NotificationUrgency::Normal,
                    "Clipboard history refreshed",
                    &body,
                );
            },
            Err(_) => {
                self.feed.set_status(
                    NotificationUrgency::High,
                    "Clipboard history unavailable",
                    "The clipboard-history command returned malformed JSON",
                );
            },
        }
    }

    /// Takes the failure of the history command.
    pub fn on_history_failed(&mut self, end: &CommandEnd)
        ensures
            final(self).only_feed_changed(*old(self)),
            final(self).feed@ == (if *end is Succeeded {
                old(self).feed@
            } else {
                old(self).feed@.told(
                    NotificationUrgency::High,
                    "Clipboard history failed"@,
                    end_wording(
                        *end,
                        ""@,
                        "Clipboard history command exited: "@,
                        "Could not start clipboard history command: "@,
                    ),
                )
            }),
    {
        match end {
            CommandEnd::Succeeded => {},
            CommandEnd::Exited(status) => {
                let body = concat("Clipboard history command exited: ", status);
                self.feed.set_status(NotificationUrgency::High, "Clipboard history failed", &body);
            },
            CommandEnd::Broken(error) => {
                let body = concat("Could not start clipboard history command: ", error);
                self.feed.set_status(NotificationUrgency::High, "Clipboard history failed", &body);
            },
        }
    }

    /// Takes the refusal of a fingerprint that is none.
    pub fn on_restore_rejected(&mut self, error: &str)
        ensures
            final(self).only_feed_changed(*old(self)),
            final(self).feed@ == old(self).feed@.told(
                NotificationUrgency::High,
                "Clipboard restore rejected"@,
                error@,
            ),
    {
        self.feed.set_status(NotificationUrgency::High, "Clipboard restore rejected", error);
    }

    /// Takes the end of the restore command.
    pub fn on_restored(&mut self, end: &CommandEnd)
        ensures
            final(self).only_feed_changed(*old(self)),
            final(self).feed@ == old(self).feed@.told(
                if *end is Succeeded {
                    NotificationUrgency::Normal
                } else {
                    NotificationUrgency::High
                },
                if *end is Succeeded {
                    "Clipboard restored"@
                } else {
                    "Clipboard restore failed"@
                },
                end_wording(
                    *end,
                    "The selected clipboard history entry is active"@,
                    "Clipboard restore command exited: "@,
                    "Could not start clipboard restore command: "@,
                ),
            ),
    {
        match end {
            CommandEnd::Succeeded => {
                self.feed.set_status(
                    NotificationUrgency::Normal,
                    "Clipboard restored",
                    "The selected clipboard history entry is active",
                );
            },
            CommandEnd::Exited(status) => {
                let body = concat("Clipboard restore command exited: ", status);
                self.feed.set_status(NotificationUrgency::High, "Clipboard restore failed", &body);
            },
            CommandEnd::Broken(error) => {
                let body = concat("Could not start clipboard restore command: ", error);
                self.feed.set_status(NotificationUrgency::High, "Clipboard restore failed", &body);
            },
        }
    }

    /// Clearing the history was asked for: the first time it is only armed, and once
    /// armed it goes ahead.
    pub fn on_clear_requested(&mut self) -> (clear: bool)
        ensures
            clear == old(self).clipboard_clear_armed,
            *final(self) == (ControlPanel { clipboard_clear_armed: true, ..*old(self) }),
    {
        let armed = self.clipboard_clear_armed;
        self.clipboard_clear_armed = true;
        armed
    }

    /// Clearing the history was called off.
    pub fn on_clear_cancelled(&mut self)
        ensures
            *final(self) == (ControlPanel { clipboard_clear_armed: false, ..*old(self) }),
    {
        self.clipboard_clear_armed = false;
    }

    /// Takes the end of the clear command. Where it succeeded, what is pinned
    /// stays; clearing is disarmed in any case.
    pub fn on_cleared(&mut self, end: &CommandEnd)
        ensures
            !final(self).clipboard_clear_armed,
            *end is Succeeded ==> final(self).clipboard_history@ == old(
                self,
            ).clipboard_history@.filter(|e: ClipboardHistoryEntry| e.pinned)
                && final(self).clipboard_history_loaded,
            !(*end is Succeeded) ==> final(self).clipboard_history == old(self).clipboard_history
                && final(self).clipboard_history_loaded == old(self).clipboard_history_loaded,
            (ControlPanel {
                clipboard_clear_armed: false,
                clipboard_history: final(self).clipboard_history,
                clipboard_history_loaded: final(self).clipboard_history_loaded,
                ..*old(self)
            }).only_feed_changed(*final(self)),
            final(self).feed@ == old(self).feed@.told(
                if *end is Succeeded {
                    NotificationUrgency::Normal
                } else {
                    NotificationUrgency::High
                },
                if *end is Succeeded {
                    "Clipboard history cleared"@
                } else {
                    "Clipboard clear failed"@
                },
                end_wording(
                    *end,
                    "Unpinned clipboard history entries were cleared"@,
                    "Clipboard clear command exited: "@,
                    "Could not start clipboard clear command: "@,
                ),
            ),
    {
        self.clipboard_clear_armed = false;
        match end {
            CommandEnd::Succeeded => {
                keep_pinned(&mut self.clipboard_history);
                self.clipboard_history_loaded = true;
                self.feed.set_status(
                    NotificationUrgency::Normal,
                    "Clipboard history cleared",
                    "Unpinned clipboard history entries were cleared",
                );
            },
            CommandEnd::Exited(status) => {
                let body = concat("Clipboard clear command exited: ", status);
                self.feed.set_status(NotificationUrgency::High, "Clipboard clear failed", &body);
            },
            CommandEnd::Broken(error) => {
                let body = concat("Could not start clipboard clear command: ", error);
                self.feed.set_status(NotificationUrgency::High, "Clipboard clear failed", &body);
            },
        }
    }

    /// Whether dropped files may be sent now.
    pub fn may_drop(&mut self, file_transfer_enabled: bool) -> (may: bool)
        ensures
            may == (old(self).section == Section::Sharing && file_transfer_enabled && old(
                self,
            ).pending_file_sends@.len() < MAX_PENDING_FILE_SENDS),
            final(self).only_feed_changed(*old(self)),
            final(self).feed@ == (if old(self).section != Section::Sharing {
                old(self).feed@.told(
                    NotificationUrgency::Low,
                    "File drop ignored"@,
                    "Open Sharing before dropping local files"@,
                )
            } else if !file_transfer_enabled {
                old(self).feed@.told(
                    NotificationUrgency::High,
                    "File transfer disabled"@,
                    "Enable file transfer and save the Sharing settings first"@,
                )
            } else if old(self).pending_file_sends@.len() >= MAX_PENDING_FILE_SENDS {
                old(self).feed@.told(
                    NotificationUrgency::High,
                    "File transfer busy"@,
                    "Wait for an active file transfer command to finish"@,
                )
            } else {
                old(self).feed@
            }),
    {
        if self.section != Section::Sharing {
            self.feed.set_status(
                NotificationUrgency::Low,
                "File drop ignored",
                "Open Sharing before dropping local files",
            );
            return false;
        }
        if !file_transfer_enabled {
            self.feed.set_status(
                NotificationUrgency::High,
                "File transfer disabled",
                "Enable file transfer and save the Sharing settings first",
            );
            return false;
        }
        if self.pending_file_sends.len() >= MAX_PENDING_FILE_SENDS {
            self.feed.set_status(
                NotificationUrgency::High,
                "File transfer busy",
                "Wait for an active file transfer command to finish",
            );
            return false;
        }
        true
    }

    /// Takes the refusal of a drop.
    pub fn on_drop_rejected(&mut self, error: crate::sharing::DropError)
        ensures
            final(self).only_feed_changed(*old(self)),
            final(self).feed@ == old(self).feed@.told(
                NotificationUrgency::High,
                "File drop rejected"@,
                error.wording(),
            ),
    {
        self.feed.set_status(NotificationUrgency::High, "File drop rejected", error.message());
    }

    /// Takes the start of a file transfer, or the failure to start it.
    pub fn on_send(&mut self, started: Result<(), String>, file_count: usize)
        ensures
            match started {
                Ok(_) => {
                    &&& final(self).pending_file_sends@ == old(self).pending_file_sends@.push(
                        file_count,
                    )
                    &&& (ControlPanel {
                        pending_file_sends: final(self).pending_file_sends,
                        ..*old(self)
                    }).only_feed_changed(*final(self))
                    &&& final(self).feed@ == old(self).feed@.told(
                        NotificationUrgency::Normal,
                        "Preparing file transfer"@,
                        "Validating and queueing "@ + decimal(file_count as nat)
                            + " local path(s)"@,
                    )
                },
                Err(error) => {
                    &&& final(self).only_feed_changed(*old(self))
                    &&& final(self).feed@ == old(self).feed@.told(
                        NotificationUrgency::High,
                        "File transfer failed"@,
                        "Could not start file transfer command: "@ + error@,
                    )
                },
            },
    {
        match started {
            Ok(_) => {
                self.pending_file_sends.push(file_count);
                let mut body = concat(
                    "Validating and queueing ",
                    &decimal_text(file_count as u64),
                );
                append(&mut body, " local path(s)");
                self.feed.set_status(
                    NotificationUrgency::Normal,
                    "Preparing file transfer",
                    &body,
                );
            },
            Err(error) => {
                let body = concat("Could not start file transfer command: ", &error);
                self.feed.set_status(NotificationUrgency::High, "File transfer failed", &body);
            },
        }
    }

    /// Takes the end of a file transfer under way.
    pub fn on_send_finished(&mut self, index: usize, end: &CommandEnd)
        requires
            index < old(self).pending_file_sends@.len(),
        ensures
            final(self).pending_file_sends@ == old(self).pending_file_sends@.remove(index as int),
            (ControlPanel {
                pending_file_sends: final(self).pending_file_sends,
                ..*old(self)
            }).only_feed_changed(*final(self)),
            final(self).feed@ == old(self).feed@.told(
                if *end is Succeeded {
                    NotificationUrgency::Normal
                } else {
                    NotificationUrgency::High
                },
                if *end is Succeeded {
                    "File transfer queued"@
                } else {
                    "File transfer failed"@
                },
                end_wording(
                    *end,
                    "Queued "@ + decimal(old(self).pending_file_sends@[index as int] as nat)
                        + " local path(s) for the selected peer"@,
                    "File transfer command exited: "@,
                    "Could not monitor file transfer command: "@,
                ),
            ),
    {
        let count: usize = self.pending_file_sends.remove(index);
        match end {
            CommandEnd::Succeeded => {
                let mut body = concat("Queued ", &decimal_text(count as u64));
                append(&mut body, " local path(s) for the selected peer");
                self.feed.set_status(NotificationUrgency::Normal, "File transfer queued", &body);
            },
            CommandEnd::Exited(status) => {
                let body = concat("File transfer command exited: ", status);
                self.feed.set_status(NotificationUrgency::High, "File transfer failed", &body);
            },
            CommandEnd::Broken(error) => {
                let body = concat("Could not monitor file transfer command: ", error);
                self.feed.set_status(NotificationUrgency::High, "File transfer failed", &body);
            },
        }
    }
}

/// Keeps the pinned entries, in their order.
fn keep_pinned(entries: &mut Vec<ClipboardHistoryEntry>)
    ensures
        final(entries)@ == old(entries)@.filter(|e: ClipboardHistoryEntry| e.pinned),
{
    let ghost all = entries@;
    let ghost pinned = |e: ClipboardHistoryEntry| e.pinned;
    let mut rest: Vec<ClipboardHistoryEntry> = Vec::new();
    std::mem::swap(entries, &mut rest);
    let mut kept: Vec<ClipboardHistoryEntry> = Vec::new();
    let mut left: usize = rest.len();
    proof {
        assert(all.skip(left as int) =~= Seq::empty());
        reveal(Seq::filter);
    }
    while left > 0
        invariant
            left == rest@.len(),
            left <= all.len(),
            rest@ == all.take(left as int),
            pinned == (|e: ClipboardHistoryEntry| e.pinned),
            kept@.reverse() == all.skip(left as int).filter(pinned),
        decreases left,
    {
        let ghost before = kept@;
        match rest.pop() {
            Some(entry) => {
                proof {
                    let tail = all.skip(left as int);
                    assert(all.skip(left - 1) =~= seq![entry] + tail);
                    Seq::filter_distributes_over_add(seq![entry], tail, pinned);
                    reveal(Seq::filter);
                    reveal_with_fuel(Seq::filter, 3);
                    assert(seq![entry].drop_last() =~= Seq::empty());
                    assert(seq![entry].filter(pinned) =~= if entry.pinned {
                        seq![entry]
                    } else {
                        Seq::empty()
                    });
                }
                if entry.pinned {
                    kept.push(entry);
                    assert(kept@.reverse() =~= seq![entry] + before.reverse());
                } else {
                    assert(Seq::<ClipboardHistoryEntry>::empty() + before.reverse()
                        =~= before.reverse());
                }
            },
            None => {},
        }
        left -= 1;
        assert(rest@ =~= all.take(left as int));
    }
    assert(all.skip(0) =~= all);
    let ghost backwards = kept@;
    let mut forwards: Vec<ClipboardHistoryEntry> = Vec::new();
    let mut n: usize = kept.len();
    while n > 0
        invariant
            n == kept@.len(),
            n <= backwards.len(),
            kept@ == backwards.take(n as int),
            forwards@ == backwards.reverse().take(backwards.len() - n),
        decreases n,
    {
        match kept.pop() {
            Some(entry) => {
                forwards.push(entry);
            },
            None => {},
        }
        n -= 1;
        assert(kept@ =~= backwards.take(n as int));
        assert(forwards@ =~= backwards.reverse().take(backwards.len() - n));
    }
    assert(forwards@ =~= backwards.reverse());
    *entries = forwards;
}

/// A panel of which only the feed changed is the same in everything else.
pub proof fn law_nothing_but_the_feed_changes(before: ControlPanel, after: ControlPanel)
    ensures
        after.only_feed_changed(before) <==> after == (ControlPanel { feed: after.feed, ..before }),
{
}

/// A command that ended well is reported in the words for that, and every other end in
/// the words for it together with what went wrong.
pub proof fn law_ends_are_told_apart(
    detail: String,
    success: Seq<char>,
    exited: Seq<char>,
    broken: Seq<char>,
)
    ensures
        end_wording(CommandEnd::Succeeded, success, exited, broken) == success,
        end_wording(CommandEnd::Exited(detail), success, exited, broken) == exited + detail@,
        end_wording(CommandEnd::Broken(detail), success, exited, broken) == broken + detail@,
{
}

} // verus!
