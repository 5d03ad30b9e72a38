//! The session: one run of the game from launch to restoration.
//!
//! A session is a state machine. The host tells it what happened (an
//! [`Event`]) and is told what to do next (a list of [`Command`]s); the
//! session keeps the status line and the console on the way. It performs
//! nothing itself.

use crate::config::Account;
use crate::console::{appended, shown_lines, ConsoleLog, Stamped};
use crate::resolution::Resolution;
use crate::text::{decimal, push_decimal};
use crate::types::AppState;
use vstd::prelude::*;
use vstd::string::*;

verus! {

/// How far a session in progress has come.
#[derive(Debug, Clone, Copy, PartialEq, Eq, Structural)]
pub enum Stage {
    /// The settings files are being edited and the launcher started.
    Launching,
    /// The launcher runs; the game's process is not up yet.
    AwaitingStart,
    /// The game's process is up; the display is being switched.
    Switching,
    /// The game runs at the session's resolution.
    Running,
    /// The game has gone; display and settings files are being put back.
    Restoring,
}

/// The settings files that a session edits.
#[derive(Debug, Clone)]
pub enum AccountScope {
    /// The files of every account that was found.
    AllAccounts { paths: Vec<String> },
    /// The file of one account.
    Account { name: String, path: String },
    /// One account was asked for, and none is selected.
    NoAccount,
}

impl AccountScope {
    /// Whether the scope is that of every account.
    pub open spec fn covers_all(self) -> bool {
        self is AllAccounts
    }

    /// The settings files in the scope.
    pub open spec fn paths(self) -> Seq<Seq<char>> {
        match self {
            AccountScope::AllAccounts { paths } => paths.deep_view(),
            AccountScope::Account { name, path } => seq![path@],
            AccountScope::NoAccount => Seq::empty(),
        }
    }

    /// The scope that the host's settings ask for: every account with the
    /// settings files found, or the account selected from those found, if
    /// one is.
    pub fn select(
        apply_to_all_accounts: bool,
        config_paths: Vec<String>,
        accounts: &Vec<Account>,
        selected: usize,
    ) -> (scope: AccountScope)
        ensures
            scope == if apply_to_all_accounts {
                AccountScope::AllAccounts { paths: config_paths }
            } else if selected < accounts@.len() {
                AccountScope::Account {
                    name: accounts@[selected as int].name,
                    path: accounts@[selected as int].config_path,
                }
            } else {
                AccountScope::NoAccount
            },
    {
        if apply_to_all_accounts {
            AccountScope::AllAccounts { paths: config_paths }
        } else if selected < accounts.len() {
            AccountScope::Account {
                name: accounts[selected].name.clone(),
                path: accounts[selected].config_path.clone(),
            }
        } else {
            AccountScope::NoAccount
        }
    }

    /// What the console says of the scope when a session starts.
    pub open spec fn announcement(self) -> Seq<Seq<char>> {
        match self {
            AccountScope::AllAccounts { paths } => seq![
                "Modifying "@ + decimal(paths@.len()) + " account configs"@,
            ],
            AccountScope::Account { name, path } => seq!["Modifying config for account: "@ + name@],
            AccountScope::NoAccount => Seq::empty(),
        }
    }
}

/// What the host reports to the session.
#[derive(Debug, Clone)]
pub enum Event {
    /// The user asks for a launch at `target`; `original` is the display's
    /// resolution now, where it could be read.
    Trigger { target: Resolution, original: Option<Resolution>, scope: AccountScope },
    /// The launcher was started.
    Launched,
    /// The launcher could not be started.
    LaunchFailed { reason: String },
    /// The game's process is up.
    ProcessStarted,
    /// The display was asked for the session's resolution, and took it or not.
    ResolutionApplied { ok: bool },
    /// The game's process is gone.
    ProcessExited,
    /// Display and settings files have been put back.
    Restored,
    /// The host is closing.
    Shutdown,
}

/// What the session asks of the host.
#[derive(Debug, Clone)]
pub enum Command {
    /// Bring each of the settings files into its stretched form.
    PatchConfigs { paths: Vec<String>, target: Resolution },
    /// Start the game's launcher, and report `Launched` or `LaunchFailed`.
    Launch,
    /// Wait until the game's process is up, and report `ProcessStarted`.
    AwaitStart,
    /// Switch the display, and report `ResolutionApplied` where the session
    /// is switching.
    SetResolution { resolution: Resolution },
    /// Wait until the game's process is gone, and report `ProcessExited`.
    AwaitExit,
    /// Bring each of the settings files into its native form.
    RevertConfigs { paths: Vec<String> },
}

/// A command as contracts speak of it.
pub enum CommandView {
    PatchConfigs { paths: Seq<Seq<char>>, target: Resolution },
    Launch,
    AwaitStart,
    SetResolution { resolution: Resolution },
    AwaitExit,
    RevertConfigs { paths: Seq<Seq<char>> },
}

impl DeepView for Command {
    type V = CommandView;

    open spec fn deep_view(&self) -> CommandView {
        match self {
            Command::PatchConfigs { paths, target } => CommandView::PatchConfigs {
                paths: paths.deep_view(),
                target: *target,
            },
            Command::Launch => CommandView::Launch,
            Command::AwaitStart => CommandView::AwaitStart,
            Command::SetResolution { resolution } => CommandView::SetResolution {
                resolution: *resolution,
            },
            Command::AwaitExit => CommandView::AwaitExit,
            Command::RevertConfigs { paths } => CommandView::RevertConfigs {
                paths: paths.deep_view(),
            },
        }
    }
}

/// A session in progress as contracts speak of it.
pub struct ActiveModel {
    pub stage: Stage,
    /// The resolution to play at.
    pub target: Resolution,
    /// The display's resolution before the session, where it was read.
    pub original: Option<Resolution>,
    /// Whether the session is for every account, rather than for one.
    pub all_accounts: bool,
    /// The settings files that the session edits.
    pub paths: Seq<Seq<char>>,
}

/// A session as contracts speak of it.
pub struct SessionModel {
    /// The session in progress, if there is one.
    pub active: Option<ActiveModel>,
    /// The status line.
    pub status: Seq<char>,
}

/// A resolution as the console writes it.
pub open spec fn size_text(r: Resolution) -> Seq<char> {
    decimal(r.width as nat) + "x"@ + decimal(r.height as nat)
}

/// The status line while nothing is in progress.
pub open spec fn ready_status() -> Seq<char> {
    "Ready. Configure settings and launch Valorant"@
}

impl SessionModel {
    /// What a host sees of the session. While the launcher is being started
    /// the session still shows as idle, and while display and files are put
    /// back it still shows as running.
    pub open spec fn app_state(self) -> AppState {
        match self.active {
            None => AppState::Idle,
            Some(a) => match a.stage {
                Stage::Launching => AppState::Idle,
                Stage::AwaitingStart | Stage::Switching => AppState::WaitingForValorant,
                Stage::Running | Stage::Restoring => AppState::Running,
            },
        }
    }

    /// Whether the session acts on `event`. It ignores every other event.
    pub open spec fn accepts(self, event: Event) -> bool {
        match event {
            Event::Trigger { .. } => self.active is None,
            Event::Launched | Event::LaunchFailed { .. } => self.active matches Some(a) && a.stage
                == Stage::Launching,
            Event::ProcessStarted => self.active matches Some(a) && a.stage == Stage::AwaitingStart,
            Event::ResolutionApplied { .. } => self.active matches Some(a) && a.stage
                == Stage::Switching,
            Event::ProcessExited => self.active matches Some(a) && a.stage == Stage::Running,
            Event::Restored => self.active matches Some(a) && a.stage == Stage::Restoring,
            Event::Shutdown => self.active matches Some(a) && (a.stage == Stage::Running || a.stage
                == Stage::Restoring),
        }
    }

    /// The session in progress brought to `stage`.
    pub open spec fn at_stage(self, stage: Stage) -> SessionModel {
        SessionModel {
            active: Some(ActiveModel { stage, ..self.active->0 }),
            status: self.status,
        }
    }

    /// The session after `event`.
    pub open spec fn next(self, event: Event) -> SessionModel {
        if !self.accepts(event) {
            self
        } else {
            match event {
                Event::Trigger { target, original, scope } => SessionModel {
                    active: Some(
                        ActiveModel {
                            stage: Stage::Launching,
                            target,
                            original,
                            all_accounts: scope.covers_all(),
                            paths: scope.paths(),
                        },
                    ),
                    status: self.status,
                },
                Event::Launched => SessionModel {
                    status: "Valorant is launching..."@,
                    ..self.at_stage(Stage::AwaitingStart)
                },
                Event::LaunchFailed { reason } => SessionModel {
                    active: None,
                    status: "Failed to launch Valorant: "@ + reason@,
                },
                Event::ProcessStarted => self.at_stage(Stage::Switching),
                Event::ResolutionApplied { ok } => self.at_stage(Stage::Running),
                Event::ProcessExited => self.at_stage(Stage::Restoring),
                Event::Restored => SessionModel { active: None, status: ready_status() },
                Event::Shutdown => SessionModel { active: None, status: self.status },
            }
        }
    }

    /// What puts display and settings files back: the display goes to the
    /// resolution it had before the session, where that is known, and every
    /// settings file of the session goes to its native form.
    pub open spec fn restore_commands(self) -> Seq<CommandView> {
        let a = self.active->0;
        let display = match a.original {
            Some(resolution) => seq![CommandView::SetResolution { resolution }],
            None => Seq::empty(),
        };
        display + seq![CommandView::RevertConfigs { paths: a.paths }]
    }

    /// What the host is to do after `event`.
    pub open spec fn commands_for(self, event: Event) -> Seq<CommandView> {
        if !self.accepts(event) {
            Seq::empty()
        } else {
            match event {
                Event::Trigger { target, original, scope } => seq![
                    CommandView::PatchConfigs { paths: scope.paths(), target },
                    CommandView::Launch,
                ],
                Event::Launched => seq![CommandView::AwaitStart],
                Event::LaunchFailed { reason } => Seq::empty(),
                Event::ProcessStarted => seq![
                    CommandView::SetResolution { resolution: self.active->0.target },
                ],
                Event::ResolutionApplied { ok } => seq![CommandView::AwaitExit],
                Event::ProcessExited => self.restore_commands(),
                Event::Restored => Seq::empty(),
                Event::Shutdown => self.restore_commands(),
            }
        }
    }

    /// What the console is told after `event`.
    pub open spec fn messages_for(self, event: Event) -> Seq<Seq<char>> {
        if !self.accepts(event) {
            Seq::empty()
        } else {
            match event {
                Event::Trigger { target, original, scope } => seq![
                    "Starting with resolution "@ + size_text(target),
                ] + scope.announcement() + seq!["Launching Valorant..."@],
                Event::Launched => seq!["Waiting for Valorant process..."@],
                Event::LaunchFailed { reason } => seq!["Launch failed: "@ + reason@],
                Event::ProcessStarted => seq!["Valorant detected! Changing resolution..."@],
                Event::ResolutionApplied { ok } => if ok {
                    seq!["Resolution changed to "@ + size_text(self.active->0.target)]
                } else {
                    seq!["Failed to change resolution"@]
                },
                Event::ProcessExited => seq!["Valorant closed. Restoring settings..."@] + (
                match self.active->0.original {
                    Some(r) => seq!["Resolution restored to "@ + size_text(r)],
                    None => Seq::empty(),
                }),
                Event::Restored => seq!["Settings restored. Ready for next launch."@],
                Event::Shutdown => Seq::empty(),
            }
        }
    }
}

/// While a session shows as waiting or running, a trigger is ignored: the
/// session stays as it is, the host is asked for nothing and the console is
/// told nothing. The same holds while the launcher is being started.
pub proof fn lemma_trigger_is_ignored_unless_idle(
    m: SessionModel,
    target: Resolution,
    original: Option<Resolution>,
    scope: AccountScope,
)
    requires
        m.app_state() != AppState::Idle || m.active is Some,
    ensures
        m.next(Event::Trigger { target, original, scope }) == m,
        m.commands_for(Event::Trigger { target, original, scope }) == Seq::<CommandView>::empty(),
        m.messages_for(Event::Trigger { target, original, scope }) == Seq::<Seq<char>>::empty(),
{
}

/// When the host closes while the session shows as running, the session
/// ends, and the host is asked to put the display back to the resolution it
/// had before the session, where that is known, and then to bring every
/// settings file of the session into its native form. Whether the game's
/// process is still up plays no part.
pub proof fn lemma_shutdown_while_running_restores(m: SessionModel)
    requires
        m.app_state() == AppState::Running,
    ensures
        m.next(Event::Shutdown).active is None,
        m.next(Event::Shutdown).app_state() == AppState::Idle,
        m.commands_for(Event::Shutdown) == match m.active->0.original {
            Some(resolution) => seq![
                CommandView::SetResolution { resolution },
                CommandView::RevertConfigs { paths: m.active->0.paths },
            ],
            None => seq![CommandView::RevertConfigs { paths: m.active->0.paths }],
        },
{
    let a = m.active->0;
    match a.original {
        Some(resolution) => {
            assert(m.restore_commands() =~= seq![
                CommandView::SetResolution { resolution },
                CommandView::RevertConfigs { paths: a.paths },
            ]);
        },
        None => {
            assert(m.restore_commands() =~= seq![CommandView::RevertConfigs { paths: a.paths }]);
        },
    }
}

/// When the host closes while the session does not show as running, nothing
/// happens.
pub proof fn lemma_shutdown_otherwise_does_nothing(m: SessionModel)
    requires
        m.app_state() != AppState::Running,
    ensures
        m.next(Event::Shutdown) == m,
        m.commands_for(Event::Shutdown) == Seq::<CommandView>::empty(),
{
}

/// The state that a host may see after `state`, if it is not `state` again.
pub open spec fn successor(state: AppState) -> AppState {
    match state {
        AppState::Idle => AppState::WaitingForValorant,
        AppState::WaitingForValorant => AppState::Running,
        AppState::Running => AppState::Idle,
    }
}

/// The states that a host sees follow each other in one order only: idle,
/// waiting, running, and idle again. No event skips a state or goes back.
pub proof fn lemma_states_follow_in_order(m: SessionModel, event: Event)
    ensures
        m.next(event).app_state() == m.app_state() || m.next(event).app_state() == successor(
            m.app_state(),
        ),
{
}

/// The events of an undisturbed run, after the trigger.
pub open spec fn run_after_trigger(m: SessionModel, switched: bool) -> SessionModel {
    m.next(Event::Launched).next(Event::ProcessStarted).next(
        Event::ResolutionApplied { ok: switched },
    ).next(Event::ProcessExited).next(Event::Restored)
}

/// A session that is triggered while nothing is in progress, and whose
/// launcher starts, comes back to idle once the game has come and gone,
/// whether or not the display took the resolution. On the way the host is
/// asked to switch the display to the session's resolution, and at the end
/// to put back exactly what the session changed: the display's earlier
/// resolution and the settings files that were edited at the start.
pub proof fn lemma_session_runs_to_idle(
    m: SessionModel,
    target: Resolution,
    original: Option<Resolution>,
    scope: AccountScope,
    switched: bool,
)
    requires
        m.active is None,
    ensures
        ({
            let trigger = Event::Trigger { target, original, scope };
            let launching = m.next(trigger);
            let waiting = launching.next(Event::Launched);
            let switching = waiting.next(Event::ProcessStarted);
            let running = switching.next(Event::ResolutionApplied { ok: switched });
            let restoring = running.next(Event::ProcessExited);
            &&& m.commands_for(trigger)[0] == (CommandView::PatchConfigs {
                paths: scope.paths(),
                target,
            })
            &&& waiting.app_state() == AppState::WaitingForValorant
            &&& waiting.commands_for(Event::ProcessStarted) == seq![
                CommandView::SetResolution { resolution: target },
            ]
            &&& running.app_state() == AppState::Running
            &&& running.commands_for(Event::ProcessExited).last() == (CommandView::RevertConfigs {
                paths: scope.paths(),
            })
            &&& original matches Some(resolution) ==> running.commands_for(Event::ProcessExited)[0]
                == (CommandView::SetResolution { resolution })
            &&& run_after_trigger(launching, switched) == (SessionModel {
                active: None,
                status: ready_status(),
            })
        }),
{
}

/// Where the launcher cannot be started, the session is idle again at once,
/// the status line says why, and the host is asked for nothing: the settings
/// files stay as they were edited.
pub proof fn lemma_failed_launch_leaves_idle(
    m: SessionModel,
    target: Resolution,
    original: Option<Resolution>,
    scope: AccountScope,
    reason: String,
)
    requires
        m.active is None,
    ensures
        ({
            let launching = m.next(Event::Trigger { target, original, scope });
            &&& launching.app_state() == AppState::Idle
            &&& launching.next(Event::LaunchFailed { reason }).active is None
            &&& launching.next(Event::LaunchFailed { reason }).status
                == "Failed to launch Valorant: "@ + reason@
            &&& launching.commands_for(Event::LaunchFailed { reason }) == Seq::<
                CommandView,
            >::empty()
        }),
{
}

/// A copy of the given paths.
fn clone_paths(paths: &Vec<String>) -> (out: Vec<String>)
    ensures
        out.deep_view() == paths.deep_view(),
{
    let mut out: Vec<String> = Vec::new();
    let mut i: usize = 0;
    while i < paths.len()
        invariant
            i <= paths.len(),
            out@.len() == i,
            forall|k: int| 0 <= k < i ==> (#[trigger] out@[k])@ == paths@[k]@,
        decreases paths.len() - i,
    {
        out.push(paths[i].clone());
        i += 1;
    }
    proof {
        assert(out.deep_view() =~= paths.deep_view());
    }
    out
}

/// `prefix` followed by the resolution as the console writes it.
fn with_size_text(prefix: &str, r: Resolution) -> (out: String)
    ensures
        out@ == prefix@ + size_text(r),
{
    let mut out = String::from_str(prefix);
    push_decimal(&mut out, r.width as u64);
    out.append("x");
    push_decimal(&mut out, r.height as u64);
    proof {
        assert(out@ =~= prefix@ + size_text(r));
    }
    out
}

/// `prefix` followed by `rest`.
fn joined(prefix: &str, rest: &str) -> (out: String)
    ensures
        out@ == prefix@ + rest@,
{
    let mut out = String::from_str(prefix);
    out.append(rest);
    out
}

/// A session in progress.
struct Active {
    stage: Stage,
    target: Resolution,
    original: Option<Resolution>,
    all_accounts: bool,
    paths: Vec<String>,
}

/// The session of a host: at most one run of the game at a time, with the
/// status line and the console.
pub struct Session {
    active: Option<Active>,
    status: String,
    console: ConsoleLog,
}

impl View for Session {
    type V = SessionModel;

    closed spec fn view(&self) -> SessionModel {
        SessionModel {
            active: match self.active {
                None => None,
                Some(a) => Some(
                    ActiveModel {
                        stage: a.stage,
                        target: a.target,
                        original: a.original,
                        all_accounts: a.all_accounts,
                        paths: a.paths.deep_view(),
                    },
                ),
            },
            status: self.status@,
        }
    }
}

impl Session {
    /// The entries of the console, oldest first, each as its stamp and its
    /// message.
    pub closed spec fn entries(&self) -> Seq<Stamped> {
        self.console@
    }

    /// A session with nothing in progress and an empty console.
    pub fn new() -> (s: Session)
        ensures
            s@ == (SessionModel { active: None, status: ready_status() }),
            s.entries() == Seq::<Stamped>::empty(),
    {
        Session {
            active: None,
            status: String::from_str("Ready. Configure settings and launch Valorant"),
            console: ConsoleLog::new(),
        }
    }

    /// What the host shows of the session.
    pub fn current_state(&self) -> (state: AppState)
        ensures
            state == self@.app_state(),
    {
        match &self.active {
            None => AppState::Idle,
            Some(a) => match a.stage {
                Stage::Launching => AppState::Idle,
                Stage::AwaitingStart => AppState::WaitingForValorant,
                Stage::Switching => AppState::WaitingForValorant,
                Stage::Running => AppState::Running,
                Stage::Restoring => AppState::Running,
            },
        }
    }

    /// The stage of the session in progress.
    pub fn stage(&self) -> (stage: Option<Stage>)
        ensures
            stage == match self@.active {
                Some(a) => Some(a.stage),
                None => None,
            },
    {
        match &self.active {
            None => None,
            Some(a) => Some(a.stage),
        }
    }

    /// Whether a launch may be triggered: nothing is in progress.
    pub fn can_launch(&self) -> (b: bool)
        ensures
            b == (self@.active is None),
    {
        self.active.is_none()
    }

    /// The status line.
    pub fn status_message(&self) -> (status: String)
        ensures
            status@ == self@.status,
    {
        self.status.clone()
    }

    /// The resolution of the session in progress.
    pub fn target(&self) -> (target: Option<Resolution>)
        ensures
            target == match self@.active {
                Some(a) => Some(a.target),
                None => None,
            },
    {
        match &self.active {
            None => None,
            Some(a) => Some(a.target),
        }
    }

    /// The display's resolution before the session in progress, where it was
    /// read.
    pub fn original_resolution(&self) -> (original: Option<Resolution>)
        ensures
            original == match self@.active {
                Some(a) => a.original,
                None => None,
            },
    {
        match &self.active {
            None => None,
            Some(a) => a.original,
        }
    }

    /// Whether the session in progress is for every account, rather than
    /// for one.
    pub fn applies_to_all_accounts(&self) -> (all: bool)
        ensures
            all == (self@.active matches Some(a) && a.all_accounts),
    {
        match &self.active {
            None => false,
            Some(a) => a.all_accounts,
        }
    }

    /// The settings files of the session in progress.
    pub fn config_paths(&self) -> (paths: Vec<String>)
        ensures
            paths.deep_view() == match self@.active {
                Some(a) => a.paths,
                None => Seq::empty(),
            },
    {
        match &self.active {
            None => {
                let paths: Vec<String> = Vec::new();
                proof {
                    assert(paths.deep_view() =~= Seq::<Seq<char>>::empty());
                }
                paths
            },
            Some(a) => clone_paths(&a.paths),
        }
    }

    /// The console as it is shown, oldest line first.
    pub fn console_log(&self) -> (lines: Vec<String>)
        ensures
            lines.deep_view() == shown_lines(self.entries()),
            lines@.len() <= crate::console::LOG_CAPACITY,
    {
        let n = self.console.len();
        let lines = self.console.lines();
        proof {
            assert(lines.deep_view().len() == lines@.len());
        }
        lines
    }

    /// Adds a line of the host's own to the console.
    pub fn log(&mut self, message: String)
        ensures
            final(self)@ == old(self)@,
            appended(old(self).entries(), final(self).entries(), seq![message@]),
    {
        let mut messages: Vec<String> = Vec::new();
        messages.push(message);
        proof {
            assert(messages.deep_view() =~= seq![message@]);
        }
        self.console.log_all(&messages);
    }

    /// Empties the console.
    pub fn clear_console(&mut self)
        ensures
            final(self)@ == old(self)@,
            final(self).entries() == Seq::<Stamped>::empty(),
    {
        self.console.clear();
    }

    /// Whether the session in progress is at `stage`.
    fn is_at(&self, stage: Stage) -> (b: bool)
        ensures
            b == (self@.active matches Some(a) && a.stage == stage),
    {
        match &self.active {
            None => false,
            Some(a) => a.stage == stage,
        }
    }

    /// Brings the session in progress to `stage`.
    fn advance(&mut self, stage: Stage)
        requires
            old(self)@.active is Some,
        ensures
            final(self)@ == old(self)@.at_stage(stage),
            final(self).entries() == old(self).entries(),
    {
        match self.active.take() {
            Some(a) => {
                self.active = Some(
                    Active {
                        stage,
                        target: a.target,
                        original: a.original,
                        all_accounts: a.all_accounts,
                        paths: a.paths,
                    },
                );
            },
            None => {},
        }
    }

    /// The commands that put display and settings files back.
    fn restoration(&self) -> (commands: Vec<Command>)
        requires
            self@.active is Some,
        ensures
            commands.deep_view() == self@.restore_commands(),
    {
        let mut commands: Vec<Command> = Vec::new();
        match &self.active {
            Some(a) => {
                match a.original {
                    Some(resolution) => {
                        commands.push(Command::SetResolution { resolution });
                    },
                    None => {},
                }
                commands.push(Command::RevertConfigs { paths: clone_paths(&a.paths) });
            },
            None => {},
        }
        proof {
            assert(commands.deep_view() =~= self@.restore_commands());
        }
        commands
    }

    /// Takes the next step of the state machine: the session moves on as
    /// `event` asks, the console is told, and the host gets its commands. An
    /// event that does not fit the session's stage changes nothing and asks
    /// for nothing.
    pub fn step(&mut self, event: Event) -> (commands: Vec<Command>)
        ensures
            final(self)@ == old(self)@.next(event),
            commands.deep_view() == old(self)@.commands_for(event),
            appended(old(self).entries(), final(self).entries(), old(self)@.messages_for(event)),
    {
        let mut commands: Vec<Command> = Vec::new();
        let mut messages: Vec<String> = Vec::new();
        let ghost before = self@;
        match event {
            Event::Trigger { target, original, scope } => {
                if self.active.is_none() {
                    messages.push(with_size_text("Starting with resolution ", target));
                    let (all_accounts, paths) = match scope {
                        AccountScope::AllAccounts { paths } => {
                            let mut line = String::from_str("Modifying ");
                            push_decimal(&mut line, paths.len() as u64);
                            line.append(" account configs");
                            messages.push(line);
                            (true, paths)
                        },
                        AccountScope::Account { name, path } => {
                            messages.push(joined("Modifying config for account: ", name.as_str()));
                            let mut paths: Vec<String> = Vec::new();
                            paths.push(path);
                            (false, paths)
                        },
                        AccountScope::NoAccount => (false, Vec::new()),
                    };
                    messages.push(String::from_str("Launching Valorant..."));
                    commands.push(Command::PatchConfigs { paths: clone_paths(&paths), target });
                    commands.push(Command::Launch);
                    proof {
                        assert(paths.deep_view() =~= scope.paths());
                    }
                    self.active = Some(
                        Active { stage: Stage::Launching, target, original, all_accounts, paths },
                    );
                }
            },
            Event::Launched => {
                if self.is_at(Stage::Launching) {
                    self.advance(Stage::AwaitingStart);
                    self.status = String::from_str("Valorant is launching...");
                    messages.push(String::from_str("Waiting for Valorant process..."));
                    commands.push(Command::AwaitStart);
                }
            },
            Event::LaunchFailed { reason } => {
                if self.is_at(Stage::Launching) {
                    self.active = None;
                    self.status = joined("Failed to launch Valorant: ", reason.as_str());
                    messages.push(joined("Launch failed: ", reason.as_str()));
                }
            },
            Event::ProcessStarted => {
                if self.is_at(Stage::AwaitingStart) {
                    match self.target() {
                        Some(resolution) => {
                            commands.push(Command::SetResolution { resolution });
                        },
                        None => {},
                    }
                    self.advance(Stage::Switching);
                    messages.push(String::from_str("Valorant detected! Changing resolution..."));
                }
            },
            Event::ResolutionApplied { ok } => {
                if self.is_at(Stage::Switching) {
                    match self.target() {
                        Some(resolution) => {
                            if ok {
                                messages.push(with_size_text("Resolution changed to ", resolution));
                            } else {
                                messages.push(String::from_str("Failed to change resolution"));
                            }
                        },
                        None => {},
                    }
                    self.advance(Stage::Running);
                    commands.push(Command::AwaitExit);
                }
            },
            Event::ProcessExited => {
                if self.is_at(Stage::Running) {
                    messages.push(String::from_str("Valorant closed. Restoring settings..."));
                    match self.original_resolution() {
                        Some(resolution) => {
                            messages.push(with_size_text("Resolution restored to ", resolution));
                        },
                        None => {},
                    }
                    commands = self.restoration();
                    self.advance(Stage::Restoring);
                }
            },
            Event::Restored => {
                if self.is_at(Stage::Restoring) {
                    self.active = None;
                    self.status = String::from_str("Ready. Configure settings and launch Valorant");
                    messages.push(String::from_str("Settings restored. Ready for next launch."));
                }
            },
            Event::Shutdown => {
                if self.is_at(Stage::Running) || self.is_at(Stage::Restoring) {
                    commands = self.restoration();
                    self.active = None;
                }
            },
        }
        proof {
            assert(self@ == before.next(event));
            assert(commands.deep_view() =~= before.commands_for(event));
            assert(messages.deep_view() =~= before.messages_for(event));
        }
        self.console.log_all(&messages);
        commands
    }

    /// Asks for a launch at `target`. `original` is the display's resolution
    /// now, where it could be read. While a session is in progress the call
    /// changes nothing and asks for nothing.
    pub fn start_session(
        &mut self,
        target: Resolution,
        original: Option<Resolution>,
        scope: AccountScope,
    ) -> (commands: Vec<Command>)
        ensures
            final(self)@ == old(self)@.next(Event::Trigger { target, original, scope }),
            commands.deep_view() == old(self)@.commands_for(
                Event::Trigger { target, original, scope },
            ),
            appended(
                old(self).entries(),
                final(self).entries(),
                old(self)@.messages_for(Event::Trigger { target, original, scope }),
            ),
    {
        self.step(Event::Trigger { target, original, scope })
    }

    /// Tells the session that the host is closing. While the game runs, the
    /// host gets the commands that put display and settings files back, and
    /// the session ends; otherwise the call changes nothing and asks for
    /// nothing.
    pub fn shutdown_hook(&mut self) -> (commands: Vec<Command>)
        ensures
            final(self)@ == old(self)@.next(Event::Shutdown),
            commands.deep_view() == old(self)@.commands_for(Event::Shutdown),
            final(self).entries() == old(self).entries(),
    {
        let ghost held = self.entries();
        let commands = self.step(Event::Shutdown);
        proof {
            crate::console::lemma_appended_nothing(held, self.entries());
        }
        commands
    }
}

} // verus!
