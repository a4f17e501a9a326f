//! The session state machine: at most one session is active at a time, and
//! closing or switching a session folds its elapsed wall-clock seconds into
//! the ledger.
//!
//! Every transition takes the current wall-clock reading as an argument, so
//! the arithmetic it performs is fully determined by its inputs; only the
//! caller reads the clock. `start` on an already active session performs the
//! implicit end-then-start switch (the alternative policy, failing outright
//! with an already-active error, is deliberately not taken: one command
//! always yields one resulting state).
use vstd::prelude::*;

use crate::ledger::get_or_zero;
use crate::ledger::keys_after_add;
use crate::ledger::Ledger;
use crate::ErrorKind;

verus! {

/// The active session: the project it charges and the wall-clock second it
/// started at.
pub struct Session {
    pub key: String,
    pub start: u64,
}

/// The mathematical value of a session.
pub struct SessionView {
    pub key: Seq<char>,
    pub start: int,
}

impl View for Session {
    type V = SessionView;

    open spec fn view(&self) -> SessionView {
        SessionView { key: self.key@, start: self.start as int }
    }
}

impl Session {
    /// A session for `key` starting at the current wall-clock reading.
    pub fn new(key: String) -> (r: Session)
        ensures
            r.key@ == key@,
    {
        Session { key, start: crate::time::now() }
    }
}

/// The whole record the tracker persists: the ledger of accumulated
/// seconds, and the active session if one exists.
pub struct Data {
    pub hours: Ledger,
    pub session: Option<Session>,
}

/// The mathematical value of a record.
pub struct DataView {
    pub hours: Map<Seq<char>, int>,
    pub session: Option<SessionView>,
}

impl View for Data {
    type V = DataView;

    open spec fn view(&self) -> DataView {
        DataView {
            hours: self.hours@,
            session: match self.session {
                Some(s) => Some(s@),
                None => None,
            },
        }
    }
}

/// The ledger after a session on `key` that ran from `start` to `now` is
/// folded in: the key gains the elapsed seconds.
pub open spec fn spec_close(
    hours: Map<Seq<char>, int>,
    key: Seq<char>,
    start: int,
    now: int,
) -> Map<Seq<char>, int> {
    hours.insert(key, get_or_zero(hours, key) + (now - start))
}

/// The record after `end` at `now`: an active session is folded into the
/// ledger and cleared; an idle record is left as it is.
pub open spec fn spec_end(d: DataView, now: int) -> DataView {
    match d.session {
        Some(s) => DataView { hours: spec_close(d.hours, s.key, s.start, now), session: None },
        None => d,
    }
}

/// The record after starting `project` at `now` from an idle record.
pub open spec fn spec_start_idle(d: DataView, project: Seq<char>, now: int) -> DataView {
    DataView { hours: d.hours, session: Some(SessionView { key: project, start: now }) }
}

/// The record after `start` at `now`: any active session is first ended,
/// then `project` becomes the active session.
pub open spec fn spec_start(d: DataView, project: Seq<char>, now: int) -> DataView {
    spec_start_idle(spec_end(d, now), project, now)
}

/// What `end` reports: the key of the session that was closed and the
/// accumulated seconds the key holds afterwards.
pub struct SessionEnd {
    pub key: String,
    pub total: i64,
}

/// What `status` reports of the active session: its key, the seconds
/// already stored for it, the seconds elapsed since it started, and their
/// sum.
pub struct SessionStatus {
    pub key: String,
    pub stored: i64,
    pub elapsed: i64,
    pub total: i64,
}

impl Data {
    /// Well-formed: the ledger holds each key at most once.
    pub open spec fn wf(&self) -> bool {
        self.hours.wf()
    }

    /// The machine limits under which a session can be folded into the
    /// ledger at `now`: the session did not start in the future, and the
    /// elapsed seconds and the new accumulated seconds fit in 64 bits. An
    /// idle record has nothing to fold.
    pub open spec fn can_close(&self, now: u64) -> bool {
        match self@.session {
            Some(s) => s.start <= now && now - s.start <= i64::MAX && i64::MIN <= get_or_zero(
                self@.hours,
                s.key,
            ) + (now - s.start) <= i64::MAX,
            None => true,
        }
    }

    /// A fresh record: an empty ledger and no session.
    pub fn new() -> (r: Data)
        ensures
            r.wf(),
            r@.hours == Map::<Seq<char>, int>::empty(),
            r@.session is None,
            r.hours.keys() == Seq::<Seq<char>>::empty(),
    {
        Data { hours: Ledger::new(), session: None }
    }

    /// Ends the active session at wall-clock second `now`: the elapsed
    /// seconds are added to the session's key and the record becomes idle.
    /// From an idle record it fails with `NoActiveSession` and changes
    /// nothing.
    pub fn end(&mut self, now: u64) -> (r: Result<SessionEnd, ErrorKind>)
        requires
            old(self).wf(),
            old(self).can_close(now),
        ensures
            final(self).wf(),
            r is Ok <==> old(self)@.session is Some,
            match old(self)@.session {
                Some(s) => r matches Ok(e) && e.key@ == s.key && e.total == get_or_zero(
                    old(self)@.hours,
                    s.key,
                ) + (now - s.start) && final(self)@ == spec_end(old(self)@, now as int)
                    && final(self).hours.keys() == keys_after_add(
                    old(self).hours.keys(),
                    old(self)@.hours,
                    s.key,
                ),
                None => r matches Err(e) && e == ErrorKind::NoActiveSession && *final(self)
                    == *old(self),
            },
    {
        let (key, start) = match &self.session {
            None => {
                return Err(ErrorKind::NoActiveSession);
            }
            Some(s) => (s.key.clone(), s.start),
        };
        let elapsed = (now - start) as i64;
        let stored = self.hours.get(&key);
        let total = stored + elapsed;
        self.hours.add(key.clone(), elapsed);
        self.session = None;
        Ok(SessionEnd { key, total })
    }

    /// Starts a session on `project` at wall-clock second `now`. An active
    /// session is first ended exactly as `end` would, and what that end
    /// reported is returned; from an idle record the ledger is untouched
    /// and nothing is reported.
    pub fn start(&mut self, project: String, now: u64) -> (r: Option<SessionEnd>)
        requires
            old(self).wf(),
            old(self).can_close(now),
        ensures
            final(self).wf(),
            final(self)@ == spec_start(old(self)@, project@, now as int),
            r is Some <==> old(self)@.session is Some,
            match old(self)@.session {
                Some(s) => r matches Some(e) && e.key@ == s.key && e.total == get_or_zero(
                    old(self)@.hours,
                    s.key,
                ) + (now - s.start) && final(self).hours.keys() == keys_after_add(
                    old(self).hours.keys(),
                    old(self)@.hours,
                    s.key,
                ),
                None => r is None && final(self).hours.keys() == old(self).hours.keys(),
            },
    {
        let ended = match self.end(now) {
            Ok(e) => Some(e),
            Err(_) => None,
        };
        self.session = Some(Session { key: project, start: now });
        ended
    }

    /// Reports the active session without changing anything: the seconds
    /// already stored for its key, the seconds elapsed since it started,
    /// and their sum. From an idle record it fails with `NoActiveSession`.
    pub fn status(&self, now: u64) -> (r: Result<SessionStatus, ErrorKind>)
        requires
            self.wf(),
            self.can_close(now),
        ensures
            r is Ok <==> self@.session is Some,
            match self@.session {
                Some(s) => r matches Ok(v) && v.key@ == s.key && v.stored == get_or_zero(
                    self@.hours,
                    s.key,
                ) && v.elapsed == now - s.start && v.total == v.stored + v.elapsed,
                None => r matches Err(e) && e == ErrorKind::NoActiveSession,
            },
    {
        match &self.session {
            None => Err(ErrorKind::NoActiveSession),
            Some(s) => {
                let stored = self.hours.get(&s.key);
                let elapsed = (now - s.start) as i64;
                Ok(
                    SessionStatus {
                        key: s.key.clone(),
                        stored,
                        elapsed,
                        total: stored + elapsed,
                    },
                )
            }
        }
    }
}

/// Starting a session and ending it with no time elapsed leaves every
/// key's accumulated seconds as it was: the started key is charged exactly
/// zero seconds, and no other key is touched.
pub proof fn lemma_start_end_elapsed_zero(
    d: DataView,
    project: Seq<char>,
    now: int,
    key: Seq<char>,
)
    requires
        d.session is None,
    ensures
        get_or_zero(spec_end(spec_start(d, project, now), now).hours, key) == get_or_zero(
            d.hours,
            key,
        ),
{
}

/// Switching is ending then starting: from a record with an active
/// session, `start` on a new project yields exactly the record that `end`
/// followed by `start` yields, the ledger included.
pub proof fn lemma_switch_is_end_then_start(d: DataView, project: Seq<char>, now: int)
    requires
        d.session is Some,
    ensures
        spec_start(d, project, now) == spec_start(spec_end(d, now), project, now),
{
}

} // verus!
