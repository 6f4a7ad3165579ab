//! Running the expect rules of sessions: a poll, the rules that expired, the lines to match and the
//! answers.

use crate::automation::{are_its_rules, is_answered, is_polled, is_rid_of, lines_left, opt_lines, AutomationSession, PollStart};
use crate::scrub::SecretBytes;
use crate::terminal::notebook::{AttachedView, NotebookView, TerminalNotebook};
use vstd::prelude::*;

verus! {

broadcast use vstd::std_specs::hash::group_hash_axioms;

impl NotebookView {
    /// The notebook with something else about the automation of a session.
    pub open spec fn with_automation(self, id: u128, session: AutomationSession) -> NotebookView {
        NotebookView {
            attached: AttachedView {
                automation: self.attached.automation.insert(id, session),
                ..self.attached
            },
            ..self
        }
    }
}

impl TerminalNotebook {
    /// The automation of a session, for those who compile its patterns and time its rules.
    pub fn automation_session(&self, session_id: u128) -> (r: Option<&AutomationSession>)
        ensures
            match r {
                Some(session) => self@.attached.automation.contains_key(session_id) && *session
                    == self@.attached.automation[session_id],
                None => !self@.attached.automation.contains_key(session_id),
            },
    {
        self.attached.automation_sessions.get(&session_id)
    }

    fn put_automation(&mut self, session_id: u128, session: AutomationSession)
        ensures
            final(self)@ == old(self)@.with_automation(session_id, session),
    {
        self.attached.automation_sessions.insert(session_id, session);
        assert(self@ =~= old(self)@.with_automation(session_id, session));
    }

    /// Counts a poll of a session's terminal and says what it starts with. `None` without automation.
    pub fn begin_automation_poll(&mut self, session_id: u128) -> (r: Option<PollStart>)
        ensures
            match r {
                Some(start) => {
                    &&& old(self)@.attached.automation.contains_key(session_id)
                    &&& exists|after: AutomationSession| #[trigger]
                        is_polled(old(self)@.attached.automation[session_id], after, start)
                            && final(self)@ == old(self)@.with_automation(session_id, after)
                },
                None => !old(self)@.attached.automation.contains_key(session_id) && final(self)@
                    == old(self)@,
            },
    {
        let ghost before = self@;
        match self.attached.automation_sessions.remove(&session_id) {
            Some(session) => {
                let mut session = session;
                let start = session.begin_poll();
                self.put_automation(session_id, session);
                assert(self@ =~= before.with_automation(session_id, session));
                Some(start)
            },
            None => {
                assert(self@ =~= before);
                None
            },
        }
    }

    /// Takes rules of a session that have expired out. Says whether rules are left; `None` without
    /// automation.
    pub fn remove_expired_automation(&mut self, session_id: u128, expired: &Vec<u128>) -> (r: Option<
        bool,
    >)
        ensures
            match r {
                Some(left) => {
                    &&& old(self)@.attached.automation.contains_key(session_id)
                    &&& exists|after: AutomationSession| #[trigger]
                        is_rid_of(old(self)@.attached.automation[session_id], after, expired@)
                            && final(self)@ == old(self)@.with_automation(session_id, after) && left
                            == (after.rules@.len() > 0)
                },
                None => !old(self)@.attached.automation.contains_key(session_id) && final(self)@
                    == old(self)@,
            },
    {
        let ghost before = self@;
        match self.attached.automation_sessions.remove(&session_id) {
            Some(session) => {
                let mut session = session;
                let left = session.remove_expired(expired);
                self.put_automation(session_id, session);
                assert(self@ =~= before.with_automation(session_id, session));
                Some(left)
            },
            None => {
                assert(self@ =~= before);
                None
            },
        }
    }

    /// The lines of a session's terminal that its rules are matched against. `None` without
    /// automation, and where the terminal shows what it showed before.
    pub fn automation_lines(&self, session_id: u128, content: &str) -> (r: Option<Vec<String>>)
        ensures
            opt_lines(r) == (if self@.attached.automation.contains_key(session_id) {
                lines_left(self@.attached.automation[session_id], content@)
            } else {
                None
            }),
    {
        match self.automation_session(session_id) {
            Some(session) => session.lines_to_match(content),
            None => None,
        }
    }

    /// Takes the matches of one look at a session's terminal: `matched` holds, line by line, the place
    /// of the rule that the line matched. Returns what to send, in order; `None` without automation.
    pub fn take_automation_matches(
        &mut self,
        session_id: u128,
        content: &str,
        matched: &Vec<Option<usize>>,
    ) -> (r: Option<Vec<SecretBytes>>)
        requires
            old(self)@.attached.automation.contains_key(session_id) ==> are_its_rules(
                old(self)@.attached.automation[session_id],
                matched@,
            ),
        ensures
            match r {
                Some(sent) => {
                    &&& old(self)@.attached.automation.contains_key(session_id)
                    &&& exists|after: AutomationSession| #[trigger]
                        is_answered(
                            old(self)@.attached.automation[session_id],
                            after,
                            content@,
                            matched@,
                            sent@,
                        ) && final(self)@ == old(self)@.with_automation(session_id, after)
                },
                None => !old(self)@.attached.automation.contains_key(session_id) && final(self)@
                    == old(self)@,
            },
    {
        let ghost before = self@;
        match self.attached.automation_sessions.remove(&session_id) {
            Some(session) => {
                let mut session = session;
                let sent = session.take_matches(content, matched);
                let ghost after = session;
                self.put_automation(session_id, session);
                assert(self@ =~= before.with_automation(session_id, after));
                let r = Some(sent);
                assert(is_answered(
                    old(self)@.attached.automation[session_id],
                    after,
                    content@,
                    matched@,
                    r->0@,
                ));
                assert(old(self)@.attached.automation.contains_key(session_id));
                r
            },
            None => {
                assert(self@ =~= before);
                None
            },
        }
    }
}

/// Running the rules of one session touches neither another session's rules nor where any session is.
pub proof fn law_automation_stays_with_its_session(
    v: NotebookView,
    id: u128,
    other: u128,
    session: AutomationSession,
)
    requires
        v.placed(),
        other != id,
    ensures
        v.with_automation(id, session).placed(),
        v.with_automation(id, session).attached.automation.contains_key(other)
            == v.attached.automation.contains_key(other),
        v.with_automation(id, session).attached.automation[other] == v.attached.automation[other],
{
}

/// A session that has ended, or that is made ready to be connected again, has no rules any more.
pub proof fn law_automation_goes_with_its_session(v: NotebookView, id: u128)
    ensures
        !v.ended(id).attached.automation.contains_key(id),
        !v.ready_to_reconnect(id).attached.automation.contains_key(id),
{
}

/// What changes about the automation of a session is noted under its id, and nothing else changes.
pub proof fn law_only_the_automation_changes(v: NotebookView, id: u128, session: AutomationSession)
    ensures
        ({
            let w = v.with_automation(id, session);
            &&& w.attached.automation == v.attached.automation.insert(id, session)
            &&& w == (NotebookView { attached: w.attached, ..v })
            &&& w.attached == (AttachedView {
                automation: w.attached.automation,
                ..v.attached
            })
        }),
{
}

} // verus!
