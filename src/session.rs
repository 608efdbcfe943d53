//! The session registry: directory, bridge and terminal of each session.
use vstd::prelude::*;
use crate::table::Table;

verus! {

/// What the registry knows of one session.
#[derive(Clone, Debug)]
pub struct SessionRuntime {
    pub project_dir: String,
    pub bridge_live: bool,
    pub terminal_id: Option<String>,
}

impl SessionRuntime {
    pub fn new(project_dir: String) -> (r: Self)
        ensures
            r.project_dir == project_dir,
            !r.bridge_live,
            r.terminal_id is None,
    {
        SessionRuntime { project_dir, bridge_live: false, terminal_id: None }
    }
}

/// What a start request asks of the caller.
#[derive(Clone, Copy, Debug, PartialEq, Eq, Structural)]
pub enum StartAction {
    /// The bridge already runs in that directory: nothing to do.
    KeepRunning,
    /// Start a bridge, first stopping the one that runs, if `stop_previous`.
    Launch { stop_previous: bool },
}

/// What a stop request asks of the caller.
#[derive(Clone, Debug)]
pub struct StopAction {
    pub stop_bridge: bool,
    pub close_terminal: Option<String>,
}

/// Sessions by id, each with its directory, whether a bridge runs for it,
/// and its terminal.
pub struct SessionRegistry {
    pub sessions: Table<SessionRuntime>,
}

/// What starting session `id` in directory `dir` does: the session's
/// directory becomes `dir`; where its bridge already runs there nothing else
/// happens, else a bridge is to be launched (stopping the running one) and
/// the session counts as without a bridge until it is.
pub open spec fn start_effect(
    before: Map<Seq<char>, SessionRuntime>,
    after: Map<Seq<char>, SessionRuntime>,
    id: Seq<char>,
    dir: Seq<char>,
    action: StartAction,
) -> bool {
    let live = before.contains_key(id) && before[id].bridge_live;
    let same_dir = before.contains_key(id) && before[id].project_dir@ == dir;
    &&& after.contains_key(id)
    &&& after[id].project_dir@ == dir
    &&& after.remove(id) == before.remove(id)
    &&& after[id].terminal_id == (if before.contains_key(id) {
        before[id].terminal_id
    } else {
        None
    })
    &&& if live && same_dir {
        action == StartAction::KeepRunning && after[id].bridge_live
    } else {
        action == (StartAction::Launch { stop_previous: live }) && !after[id].bridge_live
    }
}

impl SessionRegistry {
    pub open spec fn wf(&self) -> bool {
        self.sessions.wf()
    }

    pub fn new() -> (r: Self)
        ensures
            r.wf(),
            r.sessions@ == Map::<Seq<char>, SessionRuntime>::empty(),
    {
        SessionRegistry { sessions: Table::new() }
    }

    /// Asks to start session `id` in the resolved directory `dir`.
    pub fn start(&mut self, id: &str, dir: &str) -> (action: StartAction)
        requires
            old(self).wf(),
        ensures
            final(self).wf(),
            start_effect(old(self).sessions@, final(self).sessions@, id@, dir@, action),
    {
        let key = id.to_string();
        let mut entry = match self.sessions.remove(id) {
            Some(e) => e,
            None => SessionRuntime::new(dir.to_string()),
        };
        let same_dir = entry.project_dir == dir.to_string();
        let already = entry.bridge_live && same_dir;
        entry.project_dir = dir.to_string();
        let action = if already {
            StartAction::KeepRunning
        } else {
            let stop_previous = entry.bridge_live;
            entry.bridge_live = false;
            StartAction::Launch { stop_previous }
        };
        self.sessions.insert(key, entry);
        proof {
            assert(self.sessions@.remove(id@) =~= old(self).sessions@.remove(id@));
        }
        action
    }

    /// Records whether a bridge now runs for session `id`.
    pub fn set_bridge_live(&mut self, id: &str, live: bool)
        requires
            old(self).wf(),
        ensures
            final(self).wf(),
            final(self).sessions@.remove(id@) == old(self).sessions@.remove(id@),
            old(self).sessions@.contains_key(id@) ==> final(self).sessions@.contains_key(id@)
                && final(self).sessions@[id@].bridge_live == live
                && final(self).sessions@[id@].project_dir == old(self).sessions@[id@].project_dir
                && final(self).sessions@[id@].terminal_id == old(self).sessions@[id@].terminal_id,
            !old(self).sessions@.contains_key(id@) ==> final(self).sessions@ == old(self).sessions@,
    {
        match self.sessions.remove(id) {
            Some(mut e) => {
                e.bridge_live = live;
                self.sessions.insert(id.to_string(), e);
                proof {
                    assert(self.sessions@.remove(id@) =~= old(self).sessions@.remove(id@));
                }
            },
            None => {
                assert(old(self).sessions@.remove(id@) =~= old(self).sessions@);
            },
        }
    }

    /// The directory of a session, if the session is known.
    pub fn project_dir(&self, id: &str) -> (r: Option<String>)
        requires
            self.wf(),
        ensures
            r is Some <==> self.sessions@.contains_key(id@),
            r matches Some(d) ==> d == self.sessions@[id@].project_dir,
    {
        match self.sessions.get(id) {
            Some(e) => Some(e.project_dir.clone()),
            None => None,
        }
    }

    /// Where a message for session `id` goes: an unknown session is an
    /// error; a known one without a bridge names the directory to start one
    /// in first.
    pub fn send_target(&self, id: &str) -> (r: Result<Option<String>, String>)
        requires
            self.wf(),
        ensures
            !self.sessions@.contains_key(id@) ==> (r matches Err(e) && e@ == "Codex session not initialized"@),
            self.sessions@.contains_key(id@) ==> (r matches Ok(start) && (start is None
                <==> self.sessions@[id@].bridge_live) && (start matches Some(d) ==> d
                == self.sessions@[id@].project_dir)),
    {
        match self.sessions.get(id) {
            Some(e) => {
                if e.bridge_live {
                    Ok(None)
                } else {
                    Ok(Some(e.project_dir.clone()))
                }
            },
            None => Err("Codex session not initialized".to_string()),
        }
    }

    /// Whether session `id` has a running bridge to talk to, or why not.
    pub fn require_bridge(&self, id: &str) -> (r: Result<(), String>)
        requires
            self.wf(),
        ensures
            !self.sessions@.contains_key(id@) ==> (r matches Err(e) && e@ == "Codex session not initialized"@),
            self.sessions@.contains_key(id@) && !self.sessions@[id@].bridge_live ==> (r matches Err(e)
                && e@ == "Codex bridge not initialized. Please ensure a project is open."@),
            r is Ok <==> self.sessions@.contains_key(id@) && self.sessions@[id@].bridge_live,
    {
        match self.sessions.get(id) {
            Some(e) => {
                if e.bridge_live {
                    Ok(())
                } else {
                    Err("Codex bridge not initialized. Please ensure a project is open.".to_string())
                }
            },
            None => Err("Codex session not initialized".to_string()),
        }
    }

    /// The directory to restart session `id` in: the last one it had.
    pub fn restart_dir(&self, id: &str) -> (r: Result<String, String>)
        requires
            self.wf(),
        ensures
            !self.sessions@.contains_key(id@) ==> (r matches Err(e) && e@ == "Codex session not initialized"@),
            self.sessions@.contains_key(id@) ==> (r matches Ok(d) && d == self.sessions@[id@].project_dir),
    {
        match self.sessions.get(id) {
            Some(e) => Ok(e.project_dir.clone()),
            None => Err("Codex session not initialized".to_string()),
        }
    }

    /// Stops session `id`: its bridge and terminal are to be released; the
    /// session and its directory stay.
    pub fn stop(&mut self, id: &str) -> (r: StopAction)
        requires
            old(self).wf(),
        ensures
            final(self).wf(),
            final(self).sessions@.remove(id@) == old(self).sessions@.remove(id@),
            old(self).sessions@.contains_key(id@) ==> {
                &&& final(self).sessions@.contains_key(id@)
                &&& !final(self).sessions@[id@].bridge_live
                &&& final(self).sessions@[id@].terminal_id is None
                &&& final(self).sessions@[id@].project_dir == old(self).sessions@[id@].project_dir
                &&& r.stop_bridge == old(self).sessions@[id@].bridge_live
                &&& r.close_terminal == old(self).sessions@[id@].terminal_id
            },
            !old(self).sessions@.contains_key(id@) ==> final(self).sessions@ == old(self).sessions@
                && !r.stop_bridge && r.close_terminal is None,
    {
        match self.sessions.remove(id) {
            Some(mut e) => {
                let action = StopAction { stop_bridge: e.bridge_live, close_terminal: e.terminal_id };
                e.bridge_live = false;
                e.terminal_id = None;
                self.sessions.insert(id.to_string(), e);
                proof {
                    assert(self.sessions@.remove(id@) =~= old(self).sessions@.remove(id@));
                }
                action
            },
            None => {
                assert(old(self).sessions@.remove(id@) =~= old(self).sessions@);
                StopAction { stop_bridge: false, close_terminal: None }
            },
        }
    }

    /// Records terminal `terminal` as session `id`'s, where the session is
    /// known, and gives the directory a new terminal starts in: the one asked
    /// for, else the session's, unless that is empty.
    pub fn attach_terminal(&mut self, id: &str, terminal: &str, requested_dir: Option<String>) -> (r: Option<String>)
        requires
            old(self).wf(),
        ensures
            final(self).wf(),
            final(self).sessions@.remove(id@) == old(self).sessions@.remove(id@),
            old(self).sessions@.contains_key(id@) ==> {
                &&& final(self).sessions@.contains_key(id@)
                &&& final(self).sessions@[id@].terminal_id matches Some(t) && t@ == terminal@
                &&& final(self).sessions@[id@].project_dir == old(self).sessions@[id@].project_dir
                &&& final(self).sessions@[id@].bridge_live == old(self).sessions@[id@].bridge_live
                &&& r == (if requested_dir is Some {
                    requested_dir
                } else if old(self).sessions@[id@].project_dir@.len() == 0 {
                    None
                } else {
                    Some(old(self).sessions@[id@].project_dir)
                })
            },
            !old(self).sessions@.contains_key(id@) ==> final(self).sessions@ == old(self).sessions@
                && r == requested_dir,
    {
        match self.sessions.remove(id) {
            Some(mut e) => {
                e.terminal_id = Some(terminal.to_string());
                let dir = match requested_dir {
                    Some(d) => Some(d),
                    None => if e.project_dir.as_str().is_empty() {
                        None
                    } else {
                        Some(e.project_dir.clone())
                    },
                };
                self.sessions.insert(id.to_string(), e);
                proof {
                    assert(self.sessions@.remove(id@) =~= old(self).sessions@.remove(id@));
                }
                dir
            },
            None => {
                assert(old(self).sessions@.remove(id@) =~= old(self).sessions@);
                requested_dir
            },
        }
    }

    /// Forgets terminal `terminal` of session `id` where it is the session's.
    pub fn detach_terminal(&mut self, id: &str, terminal: &str)
        requires
            old(self).wf(),
        ensures
            final(self).wf(),
            final(self).sessions@.remove(id@) == old(self).sessions@.remove(id@),
            old(self).sessions@.contains_key(id@) ==> {
                let e = old(self).sessions@[id@];
                &&& final(self).sessions@.contains_key(id@)
                &&& final(self).sessions@[id@].project_dir == e.project_dir
                &&& final(self).sessions@[id@].bridge_live == e.bridge_live
                &&& final(self).sessions@[id@].terminal_id == (if e.terminal_id matches Some(t) && t@
                    == terminal@ {
                    None
                } else {
                    e.terminal_id
                })
            },
            !old(self).sessions@.contains_key(id@) ==> final(self).sessions@ == old(self).sessions@,
    {
        match self.sessions.remove(id) {
            Some(mut e) => {
                let matches_terminal = match &e.terminal_id {
                    Some(t) => t.as_str().to_string() == terminal.to_string(),
                    None => false,
                };
                if matches_terminal {
                    e.terminal_id = None;
                }
                self.sessions.insert(id.to_string(), e);
                proof {
                    assert(self.sessions@.remove(id@) =~= old(self).sessions@.remove(id@));
                }
            },
            None => {
                assert(old(self).sessions@.remove(id@) =~= old(self).sessions@);
            },
        }
    }

    /// The terminal of session `id`, if it has one.
    pub fn terminal_id(&self, id: &str) -> (r: Option<String>)
        requires
            self.wf(),
        ensures
            self.sessions@.contains_key(id@) ==> r == self.sessions@[id@].terminal_id,
            !self.sessions@.contains_key(id@) ==> r is None,
    {
        match self.sessions.get(id) {
            Some(e) => e.terminal_id.clone(),
            None => None,
        }
    }
}

/// Starting a session again in the directory where its bridge already runs
/// launches nothing and changes nothing; starting it in another directory
/// stops the running bridge and launches exactly one new one.
pub proof fn lemma_start_idempotent(
    before: Map<Seq<char>, SessionRuntime>,
    after: Map<Seq<char>, SessionRuntime>,
    id: Seq<char>,
    dir: Seq<char>,
    action: StartAction,
)
    requires
        before.contains_key(id),
        before[id].bridge_live,
        start_effect(before, after, id, dir, action),
    ensures
        before[id].project_dir@ == dir ==> action == StartAction::KeepRunning && after[id].bridge_live
            && after[id].project_dir@ == before[id].project_dir@ && after[id].terminal_id
            == before[id].terminal_id && after.remove(id) == before.remove(id),
        before[id].project_dir@ != dir ==> action == (StartAction::Launch { stop_previous: true }),
{
}

} // verus!
