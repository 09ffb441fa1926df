//! The replication engine's state machine. Each method is one transition;
//! the caller performs the network work it asks for and reports back.
use vstd::prelude::*;
use crate::settings::{is_local_mode, is_valid_sync_url, valid_sync_url, RemoteTarget, SyncSettings};
use crate::task::copy_text;

verus! {

#[derive(PartialEq, Eq, Structural, Debug, Clone, Copy)]
pub enum SyncStatus {
    Idle,
    Connecting,
    Syncing,
    /// Idle between two cycles.
    Paused,
    Error,
    Disabled,
}

/// The snapshot that observers are shown.
#[derive(Clone, Debug)]
pub struct SyncState {
    pub status: SyncStatus,
    pub last_synced: Option<i64>,
    pub error: Option<String>,
    pub sync_mode: Option<String>,
}

impl SyncState {
    /// A field-for-field copy.
    pub fn duplicate(&self) -> (r: SyncState)
        ensures
            r == *self,
    {
        SyncState {
            status: self.status,
            last_synced: self.last_synced,
            error: copy_text(&self.error),
            sync_mode: copy_text(&self.sync_mode),
        }
    }
}

impl Default for SyncState {
    /// Disabled, in local mode, never synced.
    fn default() -> (r: SyncState)
        ensures
            r.status == SyncStatus::Disabled,
            r.last_synced.is_none(),
            r.error.is_none(),
            r.sync_mode matches Some(m) && m@ == "local"@,
    {
        SyncState {
            status: SyncStatus::Disabled,
            last_synced: None,
            error: None,
            sync_mode: Some(String::from_str("local")),
        }
    }
}

/// What `start_sync` asks of its caller.
pub enum StartDecision {
    /// Local-only mode: no session, no network call.
    LocalOnly,
    /// Replication is on but the sync URL is missing or unusable: nothing
    /// changes.
    InvalidUrl,
    /// A session is running already; nothing to do.
    AlreadyRunning,
    /// Run a new session with this number against this remote.
    Launch { session: u64, target: RemoteTarget },
}

/// The engine: the observable state, the running flag, and the number of the
/// current session. A session's loop goes on only while the flag is set and
/// its number is current, so a loop left over from before a `stop_sync` never
/// runs beside a new one.
pub struct SyncManager {
    state: SyncState,
    running: bool,
    session: u64,
}

pub open spec fn next_session(s: u64) -> u64 {
    if s == u64::MAX {
        0
    } else {
        (s + 1) as u64
    }
}

impl SyncManager {
    pub closed spec fn state(&self) -> SyncState {
        self.state
    }

    pub closed spec fn running(&self) -> bool {
        self.running
    }

    pub closed spec fn session(&self) -> u64 {
        self.session
    }

    /// The engine after `start_sync` with `settings`.
    pub closed spec fn started(self, settings: SyncSettings) -> SyncManager {
        if is_local_mode(settings.sync_mode@) {
            SyncManager {
                state: SyncState {
                    status: SyncStatus::Disabled,
                    last_synced: None,
                    error: None,
                    sync_mode: Some(settings.sync_mode),
                },
                ..self
            }
        } else if !is_valid_sync_url(settings.sync_url@) || self.running {
            self
        } else {
            SyncManager {
                state: SyncState {
                    status: SyncStatus::Connecting,
                    last_synced: None,
                    error: None,
                    sync_mode: Some(settings.sync_mode),
                },
                running: true,
                session: next_session(self.session),
            }
        }
    }

    /// The engine after `stop_sync`.
    pub closed spec fn stopped(self) -> SyncManager {
        SyncManager {
            state: SyncState {
                status: SyncStatus::Paused,
                last_synced: self.state.last_synced,
                error: None,
                sync_mode: self.state.sync_mode,
            },
            running: false,
            session: self.session,
        }
    }

    /// Whether the loop of session `s` may go on.
    pub open spec fn is_current(&self, s: u64) -> bool {
        self.running() && self.session() == s
    }

    /// Disabled, not running.
    pub fn new() -> (r: SyncManager)
        ensures
            r.state().status == SyncStatus::Disabled,
            r.state().last_synced.is_none(),
            r.state().error.is_none(),
            r.state().sync_mode matches Some(m) && m@ == "local"@,
            !r.running(),
            r.session() == 0,
    {
        SyncManager { state: SyncState::default(), running: false, session: 0 }
    }

    /// The current snapshot.
    pub fn get_state(&self) -> (r: SyncState)
        ensures
            r == self.state(),
    {
        self.state.duplicate()
    }

    /// Whether a session is running.
    pub fn is_running(&self) -> (r: bool)
        ensures
            r == self.running(),
    {
        self.running
    }

    fn sync_url_unusable(&self, settings: &SyncSettings) -> (r: bool)
        ensures
            r == !is_valid_sync_url(settings.sync_url@),
    {
        !valid_sync_url(settings.sync_url.as_str())
    }

    /// Local-only settings disable the engine at once. Without a usable sync URL
    /// the start is refused and nothing changes. Otherwise a running
    /// session is left alone, or a new one is started in `Connecting`.
    pub fn start_sync(&mut self, settings: &SyncSettings) -> (r: StartDecision)
        ensures
            *final(self) == old(self).started(*settings),
            is_local_mode(settings.sync_mode@) ==> {
                &&& r is LocalOnly
                &&& final(self).state() == (SyncState {
                    status: SyncStatus::Disabled,
                    last_synced: None,
                    error: None,
                    sync_mode: Some(settings.sync_mode),
                })
                &&& final(self).running() == old(self).running()
                &&& final(self).session() == old(self).session()
            },
            !is_local_mode(settings.sync_mode@) && !is_valid_sync_url(settings.sync_url@) ==> {
                &&& r is InvalidUrl
                &&& *final(self) == *old(self)
            },
            !is_local_mode(settings.sync_mode@) && is_valid_sync_url(settings.sync_url@) && old(self).running() ==> {
                &&& r is AlreadyRunning
                &&& *final(self) == *old(self)
            },
            !is_local_mode(settings.sync_mode@) && is_valid_sync_url(settings.sync_url@) && !old(self).running() ==> {
                &&& r matches StartDecision::Launch { session, target }
                &&& session == next_session(old(self).session())
                &&& target.db_url@ == crate::settings::normalized_url(settings.sync_url@) + "/"@
                    + settings.sync_db_name@
                &&& final(self).running()
                &&& final(self).session() == session
                &&& final(self).state() == (SyncState {
                    status: SyncStatus::Connecting,
                    last_synced: None,
                    error: None,
                    sync_mode: Some(settings.sync_mode),
                })
            },
    {
        if !settings.is_sync_enabled() {
            self.state = SyncState {
                status: SyncStatus::Disabled,
                last_synced: None,
                error: None,
                sync_mode: Some(settings.sync_mode.clone()),
            };
            return StartDecision::LocalOnly;
        }
        if self.sync_url_unusable(settings) {
            return StartDecision::InvalidUrl;
        }
        if self.running {
            return StartDecision::AlreadyRunning;
        }
        let session = if self.session == u64::MAX {
            0
        } else {
            self.session + 1
        };
        self.running = true;
        self.session = session;
        self.state = SyncState {
            status: SyncStatus::Connecting,
            last_synced: None,
            error: None,
            sync_mode: Some(settings.sync_mode.clone()),
        };
        StartDecision::Launch { session, target: settings.remote_target() }
    }

    /// The outcome of making sure that the remote collection exists. A
    /// failure ends the session in `Error` and clears the running flag, so a
    /// later start can retry. Returns whether the session goes on.
    pub fn remote_checked(&mut self, session: u64, outcome: Result<(), String>) -> (r: bool)
        ensures
            !old(self).is_current(session) ==> !r && *final(self) == *old(self),
            old(self).is_current(session) && outcome.is_ok() ==> r && *final(self) == *old(self),
            old(self).is_current(session) ==> (outcome matches Err(e) ==> {
                &&& !r
                &&& !final(self).running()
                &&& final(self).session() == old(self).session()
                &&& final(self).state() == (SyncState {
                    status: SyncStatus::Error,
                    last_synced: None,
                    error: Some(e),
                    sync_mode: old(self).state().sync_mode,
                })
            }),
    {
        if !(self.running && self.session == session) {
            return false;
        }
        match outcome {
            Ok(()) => true,
            Err(e) => {
                let mode = copy_text(&self.state.sync_mode);
                self.state = SyncState {
                    status: SyncStatus::Error,
                    last_synced: None,
                    error: Some(e),
                    sync_mode: mode,
                };
                self.running = false;
                false
            },
        }
    }

    /// The top of a cycle: a current session moves to `Syncing` and goes on;
    /// any other stops here.
    pub fn begin_cycle(&mut self, session: u64) -> (r: bool)
        ensures
            r == old(self).is_current(session),
            !r ==> *final(self) == *old(self),
            r ==> {
                &&& final(self).running() == old(self).running()
                &&& final(self).session() == old(self).session()
                &&& final(self).state() == (SyncState {
                    status: SyncStatus::Syncing,
                    last_synced: old(self).state().last_synced,
                    error: None,
                    sync_mode: old(self).state().sync_mode,
                })
            },
    {
        if !(self.running && self.session == session) {
            return false;
        }
        let mode = copy_text(&self.state.sync_mode);
        self.state = SyncState {
            status: SyncStatus::Syncing,
            last_synced: self.state.last_synced,
            error: None,
            sync_mode: mode,
        };
        true
    }

    /// The outcome of one push-then-pull cycle at time `now`. Success moves
    /// to `Paused` with `last_synced = now`; failure to `Error` with the
    /// message, and the session goes on. Returns whether the tasks changed,
    /// so that observers are told.
    pub fn finish_cycle(&mut self, session: u64, outcome: Result<(), String>, now: i64) -> (r: bool)
        ensures
            !old(self).is_current(session) ==> !r && *final(self) == *old(self),
            old(self).is_current(session) ==> {
                &&& r == outcome.is_ok()
                &&& final(self).running() == old(self).running()
                &&& final(self).session() == old(self).session()
                &&& outcome.is_ok() ==> final(self).state() == (SyncState {
                    status: SyncStatus::Paused,
                    last_synced: Some(now),
                    error: None,
                    sync_mode: old(self).state().sync_mode,
                })
                &&& outcome matches Err(e) ==> final(self).state() == (SyncState {
                    status: SyncStatus::Error,
                    last_synced: old(self).state().last_synced,
                    error: Some(e),
                    sync_mode: old(self).state().sync_mode,
                })
            },
    {
        if !(self.running && self.session == session) {
            return false;
        }
        let mode = copy_text(&self.state.sync_mode);
        match outcome {
            Ok(()) => {
                self.state = SyncState {
                    status: SyncStatus::Paused,
                    last_synced: Some(now),
                    error: None,
                    sync_mode: mode,
                };
                true
            },
            Err(e) => {
                self.state = SyncState {
                    status: SyncStatus::Error,
                    last_synced: self.state.last_synced,
                    error: Some(e),
                    sync_mode: mode,
                };
                false
            },
        }
    }

    /// Clears the running flag and moves to `Paused`, keeping the last sync
    /// time and the mode. A loop in flight notices at its next cycle.
    pub fn stop_sync(&mut self)
        ensures
            *final(self) == old(self).stopped(),
            !final(self).running(),
            final(self).session() == old(self).session(),
            final(self).state() == (SyncState {
                status: SyncStatus::Paused,
                last_synced: old(self).state().last_synced,
                error: None,
                sync_mode: old(self).state().sync_mode,
            }),
    {
        let mode = copy_text(&self.state.sync_mode);
        self.running = false;
        self.state = SyncState {
            status: SyncStatus::Paused,
            last_synced: self.state.last_synced,
            error: None,
            sync_mode: mode,
        };
    }
}

/// Starting is single-flight: once a session runs, another start leaves the
/// engine as it is, and only one session number is current at a time.
pub proof fn law_start_single_flight(m: SyncManager, settings: SyncSettings, s1: u64, s2: u64)
    requires
        !is_local_mode(settings.sync_mode@),
        is_valid_sync_url(settings.sync_url@),
    ensures
        m.started(settings).running(),
        m.started(settings).started(settings) == m.started(settings),
        m.is_current(s1) && m.is_current(s2) ==> s1 == s2,
{
}

/// After a stop the loop of the old session stops at its next check, and a
/// start that follows runs a fresh session.
pub proof fn law_restart_is_fresh(m: SyncManager, settings: SyncSettings, s: u64)
    requires
        !is_local_mode(settings.sync_mode@),
        is_valid_sync_url(settings.sync_url@),
        m.is_current(s),
    ensures
        !m.stopped().is_current(s),
        m.stopped().started(settings).is_current(next_session(s)),
        !m.stopped().started(settings).is_current(s),
{
}

/// Local-only settings always leave the engine disabled with no session
/// started.
pub proof fn law_local_only_disables(m: SyncManager, settings: SyncSettings)
    requires
        is_local_mode(settings.sync_mode@),
    ensures
        m.started(settings).state().status == SyncStatus::Disabled,
        m.started(settings).running() == m.running(),
        m.started(settings).session() == m.session(),
{
}

} // verus!
