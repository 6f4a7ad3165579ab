//! Expect-like automation of a terminal: rules that answer text the terminal shows.
//!
//! Regular expressions and variables are the program's; a session keeps the rules, decides when the
//! terminal is looked at, which answers are sent and which rules are used up.

use crate::scrub::{guard_bytes, scrub_text, SecretBytes};
use crate::text::{self, lines_of, trimmed, views};
use std::collections::HashMap;
use vstd::prelude::*;
use vstd::utf8::encode_utf8;

verus! {

broadcast use vstd::std_specs::hash::group_hash_axioms;

/// A pattern and the answer to it.
pub struct ExpectRule {
    pub id: u128,
    pub pattern: String,
    pub response: String,
    pub priority: i32,
    pub timeout_ms: Option<u32>,
    pub enabled: bool,
    pub one_shot: bool,
}

/// What the pattern compiler and the variables say of a rule.
pub struct RuleCheck {
    /// Whether the pattern is a regular expression.
    pub pattern_valid: bool,
    /// The response template with its variables filled in, `None` where that failed.
    pub substituted: Option<String>,
}

/// The character an escape sequence stands for, by its second character.
pub open spec fn escape_of(c: char) -> Option<char> {
    if c == 'n' {
        Some('\n')
    } else if c == 'r' {
        Some('\r')
    } else if c == 't' {
        Some('\t')
    } else if c == '\\' {
        Some('\\')
    } else {
        None
    }
}

/// `s` with its escape sequences expanded; a backslash that starts none stays.
pub open spec fn unescaped(s: Seq<char>) -> Seq<char>
    decreases s.len(),
{
    if s.len() == 0 {
        Seq::empty()
    } else if s[0] == '\\' && s.len() > 1 && escape_of(s[1]) is Some {
        seq![escape_of(s[1])->0] + unescaped(s.skip(2))
    } else {
        seq![s[0]] + unescaped(s.skip(1))
    }
}

/// Text without a backslash is left alone.
pub proof fn law_plain_text_needs_no_unescaping(s: Seq<char>)
    requires
        forall|i: int| 0 <= i < s.len() ==> s[i] != '\\',
    ensures
        unescaped(s) == s,
    decreases s.len(),
{
    if s.len() > 0 {
        law_plain_text_needs_no_unescaping(s.skip(1));
        assert(seq![s[0]] + s.skip(1) =~= s);
    }
}

/// Whether a rule is used: it is enabled, its pattern compiles and its response could be filled in.
pub open spec fn is_prepared(rule: ExpectRule, check: RuleCheck) -> bool {
    rule.enabled && check.pattern_valid && check.substituted is Some
}

/// Whether `p` is `rule` with its response replaced by the one filled in.
pub open spec fn is_resolved(p: ExpectRule, rule: ExpectRule, check: RuleCheck) -> bool {
    &&& p.id == rule.id
    &&& p.pattern@ == rule.pattern@
    &&& p.response@ == check.substituted->0@
    &&& p.priority == rule.priority
    &&& p.timeout_ms == rule.timeout_ms
    &&& p.enabled
    &&& p.one_shot == rule.one_shot
}

/// Whether `prepared` holds the rules in use among the first `n`, in order, resolved.
pub open spec fn are_resolved(
    prepared: Seq<ExpectRule>,
    rules: Seq<ExpectRule>,
    checks: Seq<RuleCheck>,
    n: int,
) -> bool
    decreases n,
{
    if n <= 0 {
        prepared.len() == 0
    } else if is_prepared(rules[n - 1], checks[n - 1]) {
        &&& prepared.len() > 0
        &&& is_resolved(prepared.last(), rules[n - 1], checks[n - 1])
        &&& are_resolved(prepared.drop_last(), rules, checks, n - 1)
    } else {
        are_resolved(prepared, rules, checks, n - 1)
    }
}

/// The templates of the responses, as variables are filled into them: with their escape sequences
/// expanded, so that what a variable holds is not taken for one.
pub open spec fn templates_of(rules: Seq<ExpectRule>) -> Seq<Seq<char>> {
    Seq::new(rules.len(), |i: int| unescaped(rules[i].response@))
}

/// Lists the templates of the responses.
pub fn response_templates(rules: &Vec<ExpectRule>) -> (r: Vec<String>)
    ensures
        views(r@) == templates_of(rules@),
{
    let mut templates: Vec<String> = Vec::new();
    let mut i: usize = 0;
    while i < rules.len()
        invariant
            i <= rules@.len(),
            templates@.len() == i,
            forall|j: int| 0 <= j < i ==> (#[trigger] templates@[j])@ == unescaped(rules@[j].response@),
        decreases rules@.len() - i,
    {
        templates.push(AutomationSession::process_escapes(&rules[i].response));
        i += 1;
    }
    assert(views(templates@) =~= templates_of(rules@));
    templates
}

/// Makes a list of rules ready for a session.
///
/// `checks` speaks of the rules one by one; a response is filled in after its escapes were
/// expanded by [`AutomationSession::process_escapes`], so that a backslash which a variable brings
/// in is sent as it is. The responses are taken over, so that no other copy of them is left; those of
/// rules that are not used are scrubbed.
pub fn prepare_rules_from_config(rules: &Vec<ExpectRule>, checks: Vec<RuleCheck>) -> (r: Vec<
    ExpectRule,
>)
    requires
        rules@.len() == checks@.len(),
    ensures
        are_resolved(r@, rules@, checks@, rules@.len() as int),
{
    let ghost given = checks@;
    let mut checks = checks;
    let mut prepared: Vec<ExpectRule> = Vec::new();
    let mut i: usize = 0;
    while i < rules.len()
        invariant
            i <= rules@.len() == given.len(),
            checks@.len() == given.len(),
            forall|j: int| i <= j < given.len() ==> checks@[j] == given[j],
            are_resolved(prepared@, rules@, given, i as int),
        decreases rules@.len() - i,
    {
        let rule = &rules[i];
        let mut check = RuleCheck { pattern_valid: false, substituted: None };
        std::mem::swap(&mut checks[i], &mut check);
        assert(check == given[i as int]);
        if let Some(response) = check.substituted {
            if rule.enabled && check.pattern_valid {
                let ghost before = prepared@;
                prepared.push(
                    ExpectRule {
                        id: rule.id,
                        pattern: rule.pattern.clone(),
                        response,
                        priority: rule.priority,
                        timeout_ms: rule.timeout_ms,
                        enabled: true,
                        one_shot: rule.one_shot,
                    },
                );
                assert(prepared@.drop_last() =~= before);
            } else {
                let mut unused = response;
                scrub_text(&mut unused);
            }
        }
        i += 1;
    }
    prepared
}

/// Every rule handed out is one of the rules given, and no disabled or invalid rule is among them.
pub proof fn law_dropped_rules_stay_dropped(
    prepared: Seq<ExpectRule>,
    rules: Seq<ExpectRule>,
    checks: Seq<RuleCheck>,
    n: int,
    k: int,
)
    requires
        0 <= n <= rules.len() == checks.len(),
        are_resolved(prepared, rules, checks, n),
        0 <= k < prepared.len(),
    ensures
        exists|i: int|
            0 <= i < n && is_prepared(rules[i], checks[i]) && #[trigger] is_resolved(
                prepared[k],
                rules[i],
                checks[i],
            ),
    decreases n,
{
    if n > 0 {
        if is_prepared(rules[n - 1], checks[n - 1]) {
            if k == prepared.len() - 1 {
                assert(is_resolved(prepared[k], rules[n - 1], checks[n - 1]));
            } else {
                law_dropped_rules_stay_dropped(prepared.drop_last(), rules, checks, n - 1, k);
                assert(prepared.drop_last()[k] == prepared[k]);
            }
        } else {
            law_dropped_rules_stay_dropped(prepared, rules, checks, n - 1, k);
        }
    }
}

/// Whether a rule with this id is among them.
pub open spec fn has_rule(rules: Seq<ExpectRule>, id: u128) -> bool {
    exists|i: int| 0 <= i < rules.len() && #[trigger] rules[i].id == id
}

/// Whether a rule with this id is among the rules at some places.
pub open spec fn has_answered(rules: Seq<ExpectRule>, places: Seq<usize>, id: u128) -> bool {
    exists|k: int| 0 <= k < places.len() && rules[(#[trigger] places[k]) as int].id == id
}

/// The places of the rules that matched in the first `n` lines, each id once, in the order of their
/// first match.
pub open spec fn distinct_hits(rules: Seq<ExpectRule>, matched: Seq<Option<usize>>, n: int) -> Seq<usize>
    decreases n,
{
    if n <= 0 {
        Seq::empty()
    } else {
        let before = distinct_hits(rules, matched, n - 1);
        match matched[n - 1] {
            Some(p) if !has_answered(rules, before, rules[p as int].id) => before.push(p),
            _ => before,
        }
    }
}

/// The ids of the one-shot rules among the first `n` hits.
pub open spec fn used_up(rules: Seq<ExpectRule>, hits: Seq<usize>, n: int) -> Seq<u128>
    decreases n,
{
    if n <= 0 {
        Seq::empty()
    } else if rules[hits[n - 1] as int].one_shot {
        used_up(rules, hits, n - 1).push(rules[hits[n - 1] as int].id)
    } else {
        used_up(rules, hits, n - 1)
    }
}

/// The rules whose id is not in `gone`.
pub open spec fn without_ids(rules: Seq<ExpectRule>, gone: Seq<u128>) -> Seq<ExpectRule> {
    rules.filter(|r: ExpectRule| !gone.contains(r.id))
}

/// The lines that are matched against the rules: all that hold more than whitespace.
pub open spec fn visible_lines(lines: Seq<Seq<char>>) -> Seq<Seq<char>> {
    lines.filter(|l: Seq<char>| trimmed(l).len() > 0)
}

fn holds(v: &Vec<u128>, id: u128) -> (r: bool)
    ensures
        r == v@.contains(id),
{
    let mut i: usize = 0;
    while i < v.len()
        invariant
            i <= v@.len(),
            forall|j: int| 0 <= j < i ==> v@[j] != id,
        decreases v@.len() - i,
    {
        if v[i] == id {
            assert(v@[i as int] == id);
            return true;
        }
        i += 1;
    }
    false
}

/// Takes the rules with the ids in `gone` out and scrubs their responses.
fn remove_rules(rules: &mut Vec<ExpectRule>, gone: &Vec<u128>)
    ensures
        final(rules)@ == without_ids(old(rules)@, gone@),
{
    let ghost all = rules@;
    let ghost keep = |r: ExpectRule| !gone@.contains(r.id);
    let ghost mut seen: int = 0;
    let mut i: usize = 0;
    assert(all.take(0).filter(keep) =~= Seq::empty()) by {
        reveal(Seq::filter);
    }
    assert(all.skip(0) =~= all);
    while i < rules.len()
        invariant
            0 <= seen <= all.len(),
            keep == (|r: ExpectRule| !gone@.contains(r.id)),
            i == all.take(seen).filter(keep).len(),
            rules@ == all.take(seen).filter(keep) + all.skip(seen),
        decreases all.len() - seen,
    {
        let ghost kept = all.take(seen).filter(keep);
        assert(rules@[i as int] == all[seen]);
        assert(all.take(seen + 1).filter(keep) == if keep(all[seen]) {
            kept.push(all[seen])
        } else {
            kept
        }) by {
            assert(all.take(seen + 1) =~= all.take(seen).push(all[seen]));
            all.take(seen).lemma_filter_push(all[seen], keep);
        }
        if holds(gone, rules[i].id) {
            let mut rule = rules.remove(i);
            scrub_text(&mut rule.response);
            assert(rules@ =~= kept + all.skip(seen + 1));
        } else {
            i += 1;
            assert(rules@ =~= kept.push(all[seen]) + all.skip(seen + 1));
        }
        proof {
            seen = seen + 1;
        }
    }
    assert(seen == all.len());
    assert(all.take(seen) =~= all);
    assert(rules@ =~= without_ids(all, gone@));
}

/// What a poll of the terminal starts with.
#[derive(Clone, Copy, Debug, PartialEq, Eq, Structural)]
pub enum PollStart {
    /// No rule is left.
    Idle,
    /// Ask which rules have expired, then read the terminal.
    CheckExpiry,
    /// Read the terminal.
    Read,
}

/// How many polls lie between two looks for expired rules.
pub const EXPIRY_POLLS: u32 = 50;

/// The automation of one terminal.
pub struct AutomationSession {
    /// The rules that can still match. Whoever matches them goes by their priorities.
    pub rules: Vec<ExpectRule>,
    /// When each rule was created, in milliseconds.
    pub created_at: HashMap<u128, u64>,
    /// What the terminal showed when it was last looked at.
    pub last_content: String,
    /// How often the terminal was polled.
    pub poll_count: u32,
}

/// The creation times of a list of rules that were all created at `now`.
pub open spec fn created_of(rules: Seq<ExpectRule>, now: u64) -> Map<u128, u64> {
    Map::new(|id: u128| has_rule(rules, id), |id: u128| now)
}

/// A poll of a session: it is counted while there are rules, and every so many polls the rules that
/// have expired are asked for. The count starts over when it can go no further.
pub open spec fn is_polled(before: AutomationSession, after: AutomationSession, start: PollStart) -> bool {
    &&& after.rules@ == before.rules@
    &&& after.created_at@ == before.created_at@
    &&& after.last_content@ == before.last_content@
    &&& if before.rules@.len() == 0 {
        after.poll_count == before.poll_count && start == PollStart::Idle
    } else {
        &&& after.poll_count == (if before.poll_count == u32::MAX {
            0
        } else {
            before.poll_count + 1
        })
        &&& start == (if after.poll_count as nat % EXPIRY_POLLS as nat == 0 {
            PollStart::CheckExpiry
        } else {
            PollStart::Read
        })
    }
}

/// A session without the rules in `expired`, and without the times of rules that are not there.
pub open spec fn is_rid_of(before: AutomationSession, after: AutomationSession, expired: Seq<u128>) -> bool {
    &&& after.rules@ == without_ids(before.rules@, expired)
    &&& after.created_at@ == (if after.rules@.len() < before.rules@.len() {
        before.created_at@.restrict(Set::new(|id: u128| has_rule(after.rules@, id)))
    } else {
        before.created_at@
    })
    &&& after.last_content@ == before.last_content@
    &&& after.poll_count == before.poll_count
}

/// Whether every match is one of the session's rules, by its place among them.
pub open spec fn are_its_rules(session: AutomationSession, matched: Seq<Option<usize>>) -> bool {
    forall|i: int|
        0 <= i < matched.len() && (#[trigger] matched[i]) is Some ==> matched[i]->0
            < session.rules@.len()
}

/// A session that has answered what the terminal shows: each rule that matched is answered once, in
/// the order of the first matches, and the one-shot rules among them are used up.
pub open spec fn is_answered(
    before: AutomationSession,
    after: AutomationSession,
    content: Seq<char>,
    matched: Seq<Option<usize>>,
    sent: Seq<SecretBytes>,
) -> bool {
    let hits = distinct_hits(before.rules@, matched, matched.len() as int);
    let gone = used_up(before.rules@, hits, hits.len() as int);
    &&& sent.len() == hits.len()
    &&& forall|k: int|
        0 <= k < sent.len() ==> (#[trigger] sent[k])@ == encode_utf8(
            before.rules@[hits[k] as int].response@,
        )
    &&& after.rules@ == without_ids(before.rules@, gone)
    &&& after.created_at@ == before.created_at@.remove_keys(gone.to_set())
    &&& after.last_content@ == content
    &&& after.poll_count == before.poll_count
}

/// The lines that are matched, `None` where the terminal shows what it showed before.
pub open spec fn lines_left(session: AutomationSession, content: Seq<char>) -> Option<Seq<Seq<char>>> {
    if content == session.last_content@ {
        None
    } else {
        Some(visible_lines(lines_of(content)))
    }
}

/// The view of an optional list of lines.
pub open spec fn opt_lines(lines: Option<Vec<String>>) -> Option<Seq<Seq<char>>> {
    match lines {
        Some(v) => Some(views(v@)),
        None => None,
    }
}

impl AutomationSession {
    /// Starts a session. `compiled` says whether the patterns could be compiled; where they could
    /// not, no rule is active.
    pub fn new(rules: Vec<ExpectRule>, compiled: bool, now_ms: u64) -> (r: Self)
        ensures
            r.rules@ == (if compiled {
                rules@
            } else {
                Seq::empty()
            }),
            r.created_at@ == created_of(rules@, now_ms),
            r.last_content@.len() == 0,
            r.poll_count == 0,
    {
        let mut created_at: HashMap<u128, u64> = HashMap::new();
        let mut i: usize = 0;
        assert(created_at@ =~= created_of(rules@.take(0), now_ms));
        while i < rules.len()
            invariant
                i <= rules@.len(),
                created_at@ == created_of(rules@.take(i as int), now_ms),
            decreases rules@.len() - i,
        {
            created_at.insert(rules[i].id, now_ms);
            let ghost before = rules@.take(i as int);
            let ghost after = rules@.take(i + 1);
            assert forall|id: u128| has_rule(after, id) <==> has_rule(before, id) || id
                == rules@[i as int].id by {
                if has_rule(before, id) {
                    let j = choose|j: int| 0 <= j < before.len() && before[j].id == id;
                    assert(after[j].id == id);
                }
                if id == rules@[i as int].id {
                    assert(after[i as int].id == id);
                }
                if has_rule(after, id) {
                    let j = choose|j: int| 0 <= j < after.len() && after[j].id == id;
                    if j < i {
                        assert(before[j].id == id);
                    }
                }
            }
            assert(created_at@ =~= created_of(after, now_ms));
            i += 1;
        }
        assert(rules@.take(i as int) =~= rules@);
        let rules = if compiled {
            rules
        } else {
            let mut rules = rules;
            scrub_all(&mut rules);
            rules
        };
        AutomationSession { rules, created_at, last_content: String::new(), poll_count: 0 }
    }

    /// Returns the number of remaining rules.
    pub fn remaining_triggers(&self) -> (r: usize)
        ensures
            r == self.rules@.len(),
    {
        self.rules.len()
    }

    /// Returns whether all rules have been processed, which is when polling ends.
    pub fn is_complete(&self) -> (r: bool)
        ensures
            r == (self.rules@.len() == 0),
    {
        self.rules.len() == 0
    }

    /// Expands the escape sequences of a response.
    pub fn process_escapes(s: &str) -> (r: String)
        ensures
            r@ == unescaped(s@),
    {
        let v = text::chars_of(s);
        let mut r = String::new();
        let mut i: usize = 0;
        assert(s@.skip(0) =~= s@);
        while i < v.len()
            invariant
                i <= v@.len(),
                v@ == s@,
                unescaped(s@) == r@ + unescaped(s@.skip(i as int)),
            decreases v@.len() - i,
        {
            let ghost rest = s@.skip(i as int);
            let ghost before = r@;
            let c = v[i];
            let mut expanded: Option<char> = None;
            if c == '\\' && i + 1 < v.len() {
                let e = v[i + 1];
                if e == 'n' {
                    expanded = Some('\n');
                } else if e == 'r' {
                    expanded = Some('\r');
                } else if e == 't' {
                    expanded = Some('\t');
                } else if e == '\\' {
                    expanded = Some('\\');
                }
            }
            match expanded {
                Some(e) => {
                    assert(rest.skip(2) =~= s@.skip(i + 2));
                    r.push(e);
                    i += 2;
                },
                None => {
                    assert(rest.skip(1) =~= s@.skip(i + 1));
                    r.push(c);
                    i += 1;
                },
            }
            assert(before + unescaped(rest) =~= r@ + unescaped(s@.skip(i as int)));
        }
        assert(r@ + unescaped(s@.skip(i as int)) =~= r@);
        r
    }

    /// Counts a poll and says what it starts with.
    pub fn begin_poll(&mut self) -> (r: PollStart)
        ensures
            is_polled(*old(self), *final(self), r),
    {
        if self.rules.len() == 0 {
            return PollStart::Idle;
        }
        self.poll_count = self.poll_count.wrapping_add(1);
        if self.poll_count % EXPIRY_POLLS == 0 {
            PollStart::CheckExpiry
        } else {
            PollStart::Read
        }
    }

    /// Takes expired rules out, with the times of all rules that are no longer there.
    ///
    /// Returns whether rules are left, so that the terminal is read.
    pub fn remove_expired(&mut self, expired: &Vec<u128>) -> (r: bool)
        ensures
            is_rid_of(*old(self), *final(self), expired@),
            r == (final(self).rules@.len() > 0),
    {
        let count: usize = self.rules.len();
        remove_rules(&mut self.rules, expired);
        if self.rules.len() < count {
            let mut active: HashMap<u128, u64> = HashMap::new();
            let ghost all = self.created_at@;
            let mut i: usize = 0;
            assert(active@ =~= all.restrict(
                Set::new(|id: u128| has_rule(self.rules@.take(0), id)),
            ));
            while i < self.rules.len()
                invariant
                    i <= self.rules@.len(),
                    all == self.created_at@,
                    active@ == all.restrict(
                        Set::new(|id: u128| has_rule(self.rules@.take(i as int), id)),
                    ),
                decreases self.rules@.len() - i,
            {
                let id: u128 = self.rules[i].id;
                let ghost before = self.rules@.take(i as int);
                let ghost after = self.rules@.take(i + 1);
                assert forall|k: u128| has_rule(after, k) <==> has_rule(before, k) || k == id by {
                    if has_rule(before, k) {
                        let j = choose|j: int| 0 <= j < before.len() && before[j].id == k;
                        assert(after[j].id == k);
                    }
                    if k == id {
                        assert(after[i as int].id == k);
                    }
                    if has_rule(after, k) {
                        let j = choose|j: int| 0 <= j < after.len() && after[j].id == k;
                        if j < i {
                            assert(before[j].id == k);
                        }
                    }
                }
                if let Some(at) = self.created_at.get(&id) {
                    active.insert(id, *at);
                }
                assert(active@ =~= all.restrict(Set::new(|k: u128| has_rule(after, k))));
                i += 1;
            }
            assert(self.rules@.take(i as int) =~= self.rules@);
            self.created_at = active;
        }
        self.rules.len() > 0
    }

    /// The lines to match, `None` where the terminal shows what it showed before.
    pub fn lines_to_match(&self, content: &str) -> (r: Option<Vec<String>>)
        ensures
            opt_lines(r) == lines_left(*self, content@),
    {
        if text::same(content, &self.last_content) {
            return None;
        }
        let all = text::lines(content);
        let ghost spec_lines = lines_of(content@);
        let ghost visible = |l: Seq<char>| trimmed(l).len() > 0;
        let mut lines: Vec<String> = Vec::new();
        let mut i: usize = 0;
        assert(views(lines@) =~= spec_lines.take(0).filter(visible)) by {
            reveal(Seq::filter);
        }
        while i < all.len()
            invariant
                i <= all@.len() == spec_lines.len(),
                views(all@) == spec_lines,
                visible == (|l: Seq<char>| trimmed(l).len() > 0),
                views(lines@) == spec_lines.take(i as int).filter(visible),
            decreases all@.len() - i,
        {
            proof {
                assert(views(all@)[i as int] == spec_lines[i as int]);
                assert(spec_lines.take(i + 1) =~= spec_lines.take(i as int).push(
                    spec_lines[i as int],
                ));
                spec_lines.take(i as int).lemma_filter_push(spec_lines[i as int], visible);
            }
            if !text::trim(&all[i]).is_empty() {
                text::push_string(&mut lines, all[i].clone());
            }
            i += 1;
        }
        assert(spec_lines.take(i as int) =~= spec_lines);
        assert(views(lines@) =~= visible_lines(spec_lines));
        Some(lines)
    }

    /// Takes the matches of one look at the terminal: `matched` holds, line by line, the place of the
    /// rule that the line matched.
    ///
    /// Returns what to send, in order: the response of each rule that matched, once. One-shot
    /// rules among them are used up.
    pub fn take_matches(&mut self, content: &str, matched: &Vec<Option<usize>>) -> (r: Vec<SecretBytes>)
        requires
            are_its_rules(*old(self), matched@),
        ensures
            is_answered(*old(self), *final(self), content@, matched@, r@),
    {
        let ghost rules0 = self.rules@;
        let ghost created0 = self.created_at@;
        self.last_content = content.to_owned();
        let hits = collect_hits(&self.rules, matched);
        let mut sent: Vec<SecretBytes> = Vec::new();
        let mut gone: Vec<u128> = Vec::new();
        let mut i: usize = 0;
        while i < hits.len()
            invariant
                i <= hits@.len(),
                self.rules@ == rules0,
                forall|k: int| 0 <= k < hits@.len() ==> (#[trigger] hits@[k]) < rules0.len(),
                sent@.len() == i,
                forall|k: int|
                    0 <= k < i ==> (#[trigger] sent@[k])@ == encode_utf8(
                        rules0[hits@[k] as int].response@,
                    ),
                gone@ == used_up(rules0, hits@, i as int),
            decreases hits@.len() - i,
        {
            let k: usize = hits[i];
            sent.push(guard_bytes(self.rules[k].response.as_str().as_bytes_vec()));
            if self.rules[k].one_shot {
                gone.push(self.rules[k].id);
            }
            i += 1;
        }
        remove_rules(&mut self.rules, &gone);
        let mut j: usize = 0;
        assert(created0.remove_keys(gone@.take(0).to_set()) =~= created0);
        assert(self.created_at@ == created0);
        while j < gone.len()
            invariant
                j <= gone@.len(),
                self.created_at@ == created0.remove_keys(gone@.take(j as int).to_set()),
                self.rules@ == without_ids(rules0, gone@),
                self.last_content@ == content@,
                self.poll_count == old(self).poll_count,
            decreases gone@.len() - j,
        {
            self.created_at.remove(&gone[j]);
            let ghost before = gone@.take(j as int);
            let ghost after = gone@.take(j + 1);
            assert forall|k: u128| after.contains(k) <==> before.contains(k) || k
                == gone@[j as int] by {
                if before.contains(k) {
                    let x = choose|x: int| 0 <= x < before.len() && before[x] == k;
                    assert(after[x] == k);
                }
                if k == gone@[j as int] {
                    assert(after[j as int] == k);
                }
                if after.contains(k) {
                    let x = choose|x: int| 0 <= x < after.len() && after[x] == k;
                    if x < j {
                        assert(before[x] == k);
                    }
                }
            }
            assert(self.created_at@ =~= created0.remove_keys(after.to_set()));
            j += 1;
        }
        assert(gone@.take(j as int) =~= gone@);
        sent
    }

    /// Scrubs the responses that were never sent, when the session ends.
    pub fn scrub_responses(&mut self)
        ensures
            final(self).rules@.len() == 0,
            final(self).created_at@ == old(self).created_at@,
            final(self).last_content@ == old(self).last_content@,
            final(self).poll_count == old(self).poll_count,
    {
        scrub_all(&mut self.rules);
    }
}

/// Scrubs and drops all rules.
fn scrub_all(rules: &mut Vec<ExpectRule>)
    ensures
        final(rules)@ == Seq::<ExpectRule>::empty(),
{
    while rules.len() > 0
        invariant
            true,
        decreases rules@.len(),
    {
        if let Some(rule) = rules.pop() {
            let mut rule = rule;
            scrub_text(&mut rule.response);
        }
    }
    assert(rules@ =~= Seq::empty());
}

fn is_answered_already(rules: &Vec<ExpectRule>, hits: &Vec<usize>, id: u128) -> (r: bool)
    requires
        forall|k: int| 0 <= k < hits@.len() ==> (#[trigger] hits@[k]) < rules@.len(),
    ensures
        r == has_answered(rules@, hits@, id),
{
    let mut i: usize = 0;
    while i < hits.len()
        invariant
            i <= hits@.len(),
            forall|k: int| 0 <= k < hits@.len() ==> (#[trigger] hits@[k]) < rules@.len(),
            forall|k: int| 0 <= k < i ==> rules@[(#[trigger] hits@[k]) as int].id != id,
        decreases hits@.len() - i,
    {
        if rules[hits[i]].id == id {
            assert(rules@[hits@[i as int] as int].id == id);
            return true;
        }
        i += 1;
    }
    false
}

fn collect_hits(rules: &Vec<ExpectRule>, matched: &Vec<Option<usize>>) -> (r: Vec<usize>)
    requires
        forall|i: int|
            0 <= i < matched@.len() && (#[trigger] matched@[i]) is Some ==> matched@[i]->0
                < rules@.len(),
    ensures
        r@ == distinct_hits(rules@, matched@, matched@.len() as int),
        forall|k: int| 0 <= k < r@.len() ==> (#[trigger] r@[k]) < rules@.len(),
{
    let mut hits: Vec<usize> = Vec::new();
    let mut i: usize = 0;
    while i < matched.len()
        invariant
            i <= matched@.len(),
            forall|j: int|
                0 <= j < matched@.len() && (#[trigger] matched@[j]) is Some ==> matched@[j]->0
                    < rules@.len(),
            hits@ == distinct_hits(rules@, matched@, i as int),
            forall|k: int| 0 <= k < hits@.len() ==> (#[trigger] hits@[k]) < rules@.len(),
        decreases matched@.len() - i,
    {
        assert(matched@[i as int] is Some ==> matched@[i as int]->0 < rules@.len());
        if let Some(place) = matched[i] {
            if !is_answered_already(rules, &hits, rules[place].id) {
                hits.push(place);
            }
        }
        i += 1;
    }
    hits
}

/// No rule answers twice in one look at the terminal, and every rule that matched answers: of rules
/// with one id, the one that matched first.
pub proof fn law_a_rule_answers_once(rules: Seq<ExpectRule>, matched: Seq<Option<usize>>, n: int)
    requires
        0 <= n <= matched.len(),
    ensures
        ({
            let hits = distinct_hits(rules, matched, n);
            &&& forall|j: int, k: int|
                0 <= j < k < hits.len() ==> rules[(#[trigger] hits[j]) as int].id
                    != rules[(#[trigger] hits[k]) as int].id
            &&& forall|i: int|
                0 <= i < n && (#[trigger] matched[i]) is Some ==> has_answered(
                    rules,
                    hits,
                    rules[matched[i]->0 as int].id,
                )
        }),
    decreases n,
{
    if n > 0 {
        law_a_rule_answers_once(rules, matched, n - 1);
        let before = distinct_hits(rules, matched, n - 1);
        let after = distinct_hits(rules, matched, n);
        assert forall|i: int| 0 <= i < n && (#[trigger] matched[i]) is Some implies has_answered(
            rules,
            after,
            rules[matched[i]->0 as int].id,
        ) by {
            let id = rules[matched[i]->0 as int].id;
            if has_answered(rules, before, id) {
                let k = choose|k: int|
                    0 <= k < before.len() && rules[(#[trigger] before[k]) as int].id == id;
                assert(rules[after[k] as int].id == id);
            } else {
                assert(i == n - 1);
                assert(rules[after[before.len() as int] as int].id == id);
            }
        }
        assert forall|j: int, k: int| 0 <= j < k < after.len() implies rules[(
        #[trigger] after[j]) as int].id != rules[(#[trigger] after[k]) as int].id by {
            assert(after[j] == before[j]);
            if k < before.len() {
                assert(after[k] == before[k]);
            }
        }
    }
}

/// A rule stays exactly as long as no one-shot rule of its id has answered.
pub proof fn law_one_shot_rules_are_used_up(
    rules: Seq<ExpectRule>,
    hits: Seq<usize>,
    i: int,
)
    requires
        0 <= i < rules.len(),
    ensures
        without_ids(rules, used_up(rules, hits, hits.len() as int)).contains(rules[i]) <==> !(exists|
            k: int,
        |
            0 <= k < hits.len() && rules[(#[trigger] hits[k]) as int].one_shot && rules[hits[k] as int].id
                == rules[i].id),
{
    let gone = used_up(rules, hits, hits.len() as int);
    lemma_used_up(rules, hits, hits.len() as int, rules[i].id);
    let keep = |r: ExpectRule| !gone.contains(r.id);
    broadcast use vstd::seq_lib::group_filter_ensures;

    let kept = rules.filter(keep);
    if kept.contains(rules[i]) {
        let x = choose|x: int| 0 <= x < kept.len() && kept[x] == rules[i];
        assert(keep(kept[x]));
    } else {
        assert(!keep(rules[i]));
    }
}

proof fn lemma_used_up(rules: Seq<ExpectRule>, hits: Seq<usize>, n: int, id: u128)
    requires
        0 <= n <= hits.len(),
    ensures
        used_up(rules, hits, n).contains(id) <==> exists|k: int|
            0 <= k < n && rules[(#[trigger] hits[k]) as int].one_shot && rules[hits[k] as int].id == id,
    decreases n,
{
    if n > 0 {
        lemma_used_up(rules, hits, n - 1, id);
        let before = used_up(rules, hits, n - 1);
        let after = used_up(rules, hits, n);
        if before.contains(id) {
            let x = choose|x: int| 0 <= x < before.len() && before[x] == id;
            assert(after[x] == id);
        }
        if after.contains(id) {
            let x = choose|x: int| 0 <= x < after.len() && after[x] == id;
            if x < before.len() {
                assert(before[x] == id);
            }
        }
        if rules[hits[n - 1] as int].one_shot && rules[hits[n - 1] as int].id == id {
            assert(after[before.len() as int] == id);
        }
    }
}

/// Escapes are expanded one by one: each of the four gives its character and leaves what follows to
/// be expanded by itself; any other character, and a backslash that starts no escape, is kept.
pub proof fn law_escapes_are_expanded_one_by_one(c: char, t: Seq<char>)
    ensures
        unescaped(seq!['\\', 'n'] + t) == seq!['\n'] + unescaped(t),
        unescaped(seq!['\\', 'r'] + t) == seq!['\r'] + unescaped(t),
        unescaped(seq!['\\', 't'] + t) == seq!['\t'] + unescaped(t),
        unescaped(seq!['\\', '\\'] + t) == seq!['\\'] + unescaped(t),
        c != '\\' ==> unescaped(seq![c] + t) == seq![c] + unescaped(t),
        c != 'n' && c != 'r' && c != 't' && c != '\\' ==> unescaped(seq!['\\', c] + t) == seq![
            '\\',
            c,
        ] + unescaped(t),
        unescaped(seq!['\\']) == seq!['\\'],
        unescaped(Seq::empty()) == Seq::<char>::empty(),
{
    reveal_with_fuel(unescaped, 3);
    assert((seq!['\\', 'n'] + t).skip(2) =~= t);
    assert((seq!['\\', 'r'] + t).skip(2) =~= t);
    assert((seq!['\\', 't'] + t).skip(2) =~= t);
    assert((seq!['\\', '\\'] + t).skip(2) =~= t);
    assert((seq![c] + t).skip(1) =~= t);
    let s = seq!['\\', c] + t;
    if c != 'n' && c != 'r' && c != 't' && c != '\\' {
        assert(s.skip(1) =~= seq![c] + t);
        assert((seq![c] + t).skip(1) =~= t);
        assert(unescaped(s) =~= seq!['\\'] + (seq![c] + unescaped(t)));
    }
    assert(seq!['\\'].skip(1) =~= Seq::empty());
    assert(unescaped(seq!['\\']) =~= seq!['\\']);
}

/// How a character is written in a response.
pub open spec fn written(c: char) -> Seq<char> {
    if c == '\n' {
        seq!['\\', 'n']
    } else if c == '\r' {
        seq!['\\', 'r']
    } else if c == '\t' {
        seq!['\\', 't']
    } else if c == '\\' {
        seq!['\\', '\\']
    } else {
        seq![c]
    }
}

/// How a text is written in a response: its line breaks, tabs and backslashes as escapes.
pub open spec fn written_text(s: Seq<char>) -> Seq<char>
    decreases s.len(),
{
    if s.len() == 0 {
        Seq::empty()
    } else {
        written(s[0]) + written_text(s.skip(1))
    }
}

/// Any text can be sent: expanding what was written with escapes gives it back.
pub proof fn law_escapes_write_any_text(s: Seq<char>, template: &str, r: String)
    requires
        template@ == written_text(s),
        call_ensures(AutomationSession::process_escapes, (template,), r),
    ensures
        r@ == s,
{
    lemma_written_text(s);
}

proof fn lemma_written_text(s: Seq<char>)
    ensures
        unescaped(written_text(s)) == s,
    decreases s.len(),
{
    if s.len() > 0 {
        let t = s.skip(1);
        lemma_written_text(t);
        law_escapes_are_expanded_one_by_one(s[0], written_text(t));
        assert(seq![s[0]] + t =~= s);
    } else {
        law_escapes_are_expanded_one_by_one('a', s);
        assert(s =~= Seq::empty());
    }
}

/// Expanding two escapes in a row is expanding each: a call on the rest of a template gives the rest
/// of the response.
pub proof fn law_response_continues_behind_an_escape(
    c: char,
    s: &str,
    t: &str,
    whole: String,
    rest: String,
)
    requires
        s@ == written(c) + t@,
        call_ensures(AutomationSession::process_escapes, (s,), whole),
        call_ensures(AutomationSession::process_escapes, (t,), rest),
    ensures
        whole@ == seq![c] + rest@,
{
    law_escapes_are_expanded_one_by_one(c, t@);
}

/// The templates are the responses, each expanded by itself.
pub proof fn law_each_template_is_expanded_by_itself(
    rules: &Vec<ExpectRule>,
    r: Vec<String>,
    i: int,
    response: &str,
    expanded: String,
)
    requires
        call_ensures(response_templates, (rules,), r),
        0 <= i < rules@.len(),
        response@ == rules@[i].response@,
        call_ensures(AutomationSession::process_escapes, (response,), expanded),
    ensures
        r@.len() == rules@.len(),
        r@[i]@ == expanded@,
{
    assert(views(r@).len() == r@.len());
    assert(views(r@)[i] == templates_of(rules@)[i]);
}

/// The rules that are used are exactly those that are enabled, whose pattern compiles and whose
/// response could be filled in: they come in their order, each with everything it was given but the
/// response, which is the one filled in.
pub proof fn law_usable_rules_are_used(
    rules: &Vec<ExpectRule>,
    checks: Vec<RuleCheck>,
    r: Vec<ExpectRule>,
) -> (places: Seq<int>)
    requires
        rules@.len() == checks@.len(),
        call_ensures(prepare_rules_from_config, (rules, checks), r),
    ensures
        places.len() == r@.len(),
        forall|j: int, k: int| 0 <= j < k < places.len() ==> #[trigger] places[j] < #[trigger] places[k],
        forall|k: int|
            0 <= k < places.len() ==> {
                let p = #[trigger] places[k];
                &&& 0 <= p < rules@.len()
                &&& rules@[p].enabled
                &&& checks@[p].pattern_valid
                &&& checks@[p].substituted is Some
                &&& r@[k].response@ == checks@[p].substituted->0@
                &&& r@[k].id == rules@[p].id
                &&& r@[k].pattern@ == rules@[p].pattern@
                &&& r@[k].priority == rules@[p].priority
                &&& r@[k].timeout_ms == rules@[p].timeout_ms
                &&& r@[k].one_shot == rules@[p].one_shot
                &&& r@[k].enabled
            },
        forall|i: int|
            0 <= i < rules@.len() && (#[trigger] rules@[i]).enabled && checks@[i].pattern_valid
                && checks@[i].substituted is Some ==> places.contains(i),
{
    lemma_places(r@, rules@, checks@, rules@.len() as int)
}

/// Where the rules that are used stand among those configured.
pub proof fn lemma_places(
    prepared: Seq<ExpectRule>,
    rules: Seq<ExpectRule>,
    checks: Seq<RuleCheck>,
    n: int,
) -> (places: Seq<int>)
    requires
        0 <= n <= rules.len() == checks.len(),
        are_resolved(prepared, rules, checks, n),
    ensures
        places.len() == prepared.len(),
        forall|j: int, k: int| 0 <= j < k < places.len() ==> #[trigger] places[j] < #[trigger] places[k],
        forall|k: int|
            0 <= k < places.len() ==> {
                let p = #[trigger] places[k];
                &&& 0 <= p < n
                &&& is_prepared(rules[p], checks[p])
                &&& is_resolved(prepared[k], rules[p], checks[p])
            },
        forall|i: int|
            0 <= i < n && is_prepared(#[trigger] rules[i], checks[i]) ==> places.contains(i),
    decreases n,
{
    if n <= 0 {
        Seq::empty()
    } else if is_prepared(rules[n - 1], checks[n - 1]) {
        let before = lemma_places(prepared.drop_last(), rules, checks, n - 1);
        let places = before.push(n - 1);
        assert forall|k: int| 0 <= k < places.len() implies {
            let p = #[trigger] places[k];
            &&& 0 <= p < n
            &&& is_prepared(rules[p], checks[p])
            &&& is_resolved(prepared[k], rules[p], checks[p])
        } by {
            if k < before.len() {
                assert(places[k] == before[k]);
                assert(prepared.drop_last()[k] == prepared[k]);
            }
        }
        assert forall|i: int| 0 <= i < n && is_prepared(
            #[trigger] rules[i],
            checks[i],
        ) implies places.contains(i) by {
            if i < n - 1 {
                let k = choose|k: int| 0 <= k < before.len() && before[k] == i;
                assert(places[k] == i);
            } else {
                assert(places[before.len() as int] == i);
            }
        }
        assert forall|j: int, k: int| 0 <= j < k < places.len() implies #[trigger] places[j]
            < #[trigger] places[k] by {
            assert(places[j] == before[j]);
            if k < before.len() {
                assert(places[k] == before[k]);
            }
        }
        places
    } else {
        lemma_places(prepared, rules, checks, n - 1)
    }
}

/// A session starts with all its rules and with the same time for each of them; where the patterns
/// did not compile, none is active.
pub proof fn law_session_starts_with_its_rules(
    rules: Vec<ExpectRule>,
    compiled: bool,
    now_ms: u64,
    r: AutomationSession,
    i: int,
)
    requires
        call_ensures(AutomationSession::new, (rules, compiled, now_ms), r),
        0 <= i < rules@.len(),
    ensures
        compiled ==> r.rules@ == rules@,
        !compiled ==> r.rules@.len() == 0,
        r.created_at@.contains_key(rules@[i].id),
        r.created_at@[rules@[i].id] == now_ms,
        forall|id: u128| #[trigger]
            r.created_at@.contains_key(id) ==> exists|k: int|
                0 <= k < rules@.len() && (#[trigger] rules@[k]).id == id,
{
    assert(rules@[i].id == rules@[i].id);
    assert(has_rule(rules@, rules@[i].id));
}

/// A session is polled while it has rules, and only then; each poll counts, every fiftieth one asks
/// for expired rules, and none changes a rule.
pub proof fn law_every_fiftieth_poll_looks_for_expired_rules(
    before: AutomationSession,
    after: AutomationSession,
    start: PollStart,
)
    requires
        is_polled(before, after, start),
    ensures
        start == PollStart::Idle <==> before.rules@.len() == 0,
        start == PollStart::CheckExpiry <==> before.rules@.len() > 0 && after.poll_count % 50 == 0,
        before.rules@.len() > 0 && before.poll_count < u32::MAX ==> after.poll_count
            == before.poll_count + 1,
        before.rules@.len() > 0 && before.poll_count == u32::MAX ==> after.poll_count == 0,
        before.rules@.len() == 0 ==> after.poll_count == before.poll_count,
        after.rules@ == before.rules@,
        after.created_at@ == before.created_at@,
        after.last_content@ == before.last_content@,
{
}

/// A rule that has expired goes, and no other: the others stay, in their order, with their times.
pub proof fn law_only_expired_rules_go(
    before: AutomationSession,
    after: AutomationSession,
    expired: Seq<u128>,
    i: int,
)
    requires
        is_rid_of(before, after, expired),
        0 <= i < before.rules@.len(),
    ensures
        after.rules@.contains(before.rules@[i]) <==> !expired.contains(before.rules@[i].id),
        forall|k: int|
            0 <= k < after.rules@.len() ==> before.rules@.contains(#[trigger] after.rules@[k])
                && !expired.contains(after.rules@[k].id),
        !expired.contains(before.rules@[i].id) && before.created_at@.contains_key(before.rules@[i].id)
            ==> after.created_at@.contains_key(before.rules@[i].id)
            && after.created_at@[before.rules@[i].id] == before.created_at@[before.rules@[i].id],
        expired.contains(before.rules@[i].id) ==> !after.created_at@.contains_key(
            before.rules@[i].id,
        ),
        after.last_content@ == before.last_content@,
        after.poll_count == before.poll_count,
{
    let keep = |r: ExpectRule| !expired.contains(r.id);
    broadcast use vstd::seq_lib::group_filter_ensures;

    let kept = before.rules@.filter(keep);
    let rule = before.rules@[i];
    assert(before.rules@.contains(rule));
    if kept.contains(rule) {
        let x = choose|x: int| 0 <= x < kept.len() && kept[x] == rule;
        assert(keep(kept[x]));
        assert(has_rule(kept, rule.id)) by {
            assert(kept[x].id == rule.id);
        }
    } else {
        assert(!keep(rule));
        assert(kept.len() < before.rules@.len()) by {
            lemma_filter_drops(before.rules@, keep, i);
        }
        if has_rule(kept, rule.id) {
            let k = choose|k: int| 0 <= k < kept.len() && kept[k].id == rule.id;
            assert(keep(kept[k]));
        }
    }
    assert forall|k: int| 0 <= k < after.rules@.len() implies before.rules@.contains(
        #[trigger] after.rules@[k],
    ) && !expired.contains(after.rules@[k].id) by {
        assert(keep(kept[k]));
        lemma_filter_source(before.rules@, keep, k);
    }
}

/// What a filter leaves was there.
pub proof fn lemma_filter_source<A>(s: Seq<A>, keep: spec_fn(A) -> bool, k: int)
    requires
        0 <= k < s.filter(keep).len(),
    ensures
        s.contains(s.filter(keep)[k]),
    decreases s.len(),
{
    reveal(Seq::filter);
    if s.len() > 0 {
        let rest = s.drop_last();
        if k < rest.filter(keep).len() {
            lemma_filter_source(rest, keep, k);
            let i = choose|i: int| 0 <= i < rest.len() && rest[i] == rest.filter(keep)[k];
            assert(s[i] == s.filter(keep)[k]);
        } else {
            assert(s[s.len() - 1] == s.filter(keep)[k]);
        }
    }
}

proof fn lemma_filter_drops(s: Seq<ExpectRule>, keep: spec_fn(ExpectRule) -> bool, i: int)
    requires
        0 <= i < s.len(),
        !keep(s[i]),
    ensures
        s.filter(keep).len() < s.len(),
    decreases s.len(),
{
    let last = s.last();
    let rest = s.drop_last();
    assert(s =~= rest.push(last));
    rest.lemma_filter_push(last, keep);
    rest.lemma_filter_len(keep);
    if i < rest.len() {
        lemma_filter_drops(rest, keep, i);
    }
}

/// A terminal that shows what it showed before is not matched again; otherwise every line that shows
/// more than whitespace is, and no other.
pub proof fn law_new_text_is_matched_line_by_line(
    session: &AutomationSession,
    content: &str,
    r: Option<Vec<String>>,
    line: Seq<char>,
)
    requires
        call_ensures(AutomationSession::lines_to_match, (session, content), r),
    ensures
        r is None <==> content@ == session.last_content@,
        r matches Some(lines) ==> (views(lines@).contains(line) <==> lines_of(content@).contains(line)
            && exists|i: int| 0 <= i < line.len() && !text::is_space(#[trigger] line[i])),
{
    if let Some(lines) = r {
        let keep = |l: Seq<char>| trimmed(l).len() > 0;
        let all = lines_of(content@);
        broadcast use vstd::seq_lib::group_filter_ensures;

        assert(opt_lines(r) == Some(visible_lines(all)));
        assert(views(lines@) == all.filter(keep));
        text::lemma_trimmed(line);
        if all.filter(keep).contains(line) {
            let k = choose|k: int| 0 <= k < all.filter(keep).len() && all.filter(keep)[k] == line;
            assert(keep(all.filter(keep)[k]));
            lemma_filter_source(all, keep, k);
        }
        if all.contains(line) && keep(line) {
            let k = choose|k: int| 0 <= k < all.len() && all[k] == line;
            assert(keep(all[k]));
            assert(all.filter(keep).contains(line));
        }
    }
}

/// Whether line `i` is the first one that a rule with its rule's id matched.
pub open spec fn is_first_match(
    rules: Seq<ExpectRule>,
    matched: Seq<Option<usize>>,
    i: int,
) -> bool {
    &&& 0 <= i < matched.len()
    &&& matched[i] is Some
    &&& forall|j: int|
        0 <= j < i && (#[trigger] matched[j]) is Some ==> rules[matched[j]->0 as int].id
            != rules[matched[i]->0 as int].id
}

/// What is sent is the response of the rule of each first match, in the order of the lines, and
/// nothing else. A rule is gone afterwards exactly where a one-shot rule of its id has answered.
pub proof fn law_first_matches_are_answered(
    before: AutomationSession,
    after: AutomationSession,
    content: Seq<char>,
    matched: Seq<Option<usize>>,
    sent: Seq<SecretBytes>,
    i: int,
) -> (lines: Seq<int>)
    requires
        are_its_rules(before, matched),
        is_answered(before, after, content, matched, sent),
        0 <= i < before.rules@.len(),
    ensures
        lines.len() == sent.len(),
        forall|j: int, k: int| 0 <= j < k < lines.len() ==> #[trigger] lines[j] < #[trigger] lines[k],
        forall|k: int|
            0 <= k < lines.len() ==> is_first_match(before.rules@, matched, #[trigger] lines[k])
                && sent[k]@ == encode_utf8(
                before.rules@[matched[lines[k]]->0 as int].response@,
            ),
        forall|l: int| is_first_match(before.rules@, matched, l) ==> #[trigger] lines.contains(l),
        after.rules@.contains(before.rules@[i]) <==> !(exists|l: int| #[trigger]
            is_first_match(before.rules@, matched, l) && before.rules@[matched[l]->0 as int].one_shot
                && before.rules@[matched[l]->0 as int].id == before.rules@[i].id),
        after.last_content@ == content,
        after.poll_count == before.poll_count,
{
    let rules = before.rules@;
    let n = matched.len() as int;
    let hits = distinct_hits(rules, matched, n);
    let lines = lemma_first_matches(rules, matched, n);
    law_one_shot_rules_are_used_up(rules, hits, i);
    let gone = exists|k: int|
        0 <= k < hits.len() && rules[(#[trigger] hits[k]) as int].one_shot && rules[hits[k] as int].id
            == rules[i].id;
    if gone {
        let k = choose|k: int|
            0 <= k < hits.len() && rules[(#[trigger] hits[k]) as int].one_shot && rules[hits[k] as int].id
                == rules[i].id;
        assert(is_first_match(rules, matched, lines[k]));
        assert(rules[matched[lines[k]]->0 as int].one_shot);
    }
    if exists|l: int| #[trigger]
        is_first_match(rules, matched, l) && rules[matched[l]->0 as int].one_shot
            && rules[matched[l]->0 as int].id == rules[i].id {
        let l = choose|l: int| #[trigger]
            is_first_match(rules, matched, l) && rules[matched[l]->0 as int].one_shot
                && rules[matched[l]->0 as int].id == rules[i].id;
        assert(lines.contains(l));
        let k = choose|k: int| 0 <= k < lines.len() && lines[k] == l;
        assert(hits[k] == matched[lines[k]]->0);
    }
    lines
}

proof fn lemma_first_matches(
    rules: Seq<ExpectRule>,
    matched: Seq<Option<usize>>,
    n: int,
) -> (lines: Seq<int>)
    requires
        0 <= n <= matched.len(),
    ensures
        lines.len() == distinct_hits(rules, matched, n).len(),
        forall|j: int, k: int| 0 <= j < k < lines.len() ==> #[trigger] lines[j] < #[trigger] lines[k],
        forall|k: int|
            0 <= k < lines.len() ==> (#[trigger] lines[k]) < n && is_first_match(
                rules,
                matched,
                lines[k],
            ) && distinct_hits(rules, matched, n)[k] == matched[lines[k]]->0,
        forall|l: int| l < n && is_first_match(rules, matched, l) ==> #[trigger] lines.contains(l),
    decreases n,
{
    if n <= 0 {
        Seq::empty()
    } else {
        let before = lemma_first_matches(rules, matched, n - 1);
        let hits = distinct_hits(rules, matched, n - 1);
        let id = rules[matched[n - 1]->0 as int].id;
        law_a_rule_answers_once(rules, matched, n - 1);
        let lines = if matched[n - 1] is Some && !has_answered(rules, hits, id) {
            let lines = before.push(n - 1);
            assert forall|j: int| 0 <= j < n - 1 && (#[trigger] matched[j])
                is Some implies rules[matched[j]->0 as int].id != id by {
                assert(has_answered(rules, hits, rules[matched[j]->0 as int].id));
            }
            assert(is_first_match(rules, matched, n - 1));
            assert forall|k: int| 0 <= k < lines.len() implies (#[trigger] lines[k]) < n
                && is_first_match(rules, matched, lines[k]) && distinct_hits(rules, matched, n)[k]
                == matched[lines[k]]->0 by {
                if k < before.len() {
                    assert(lines[k] == before[k]);
                }
            }
            assert forall|j: int, k: int| 0 <= j < k < lines.len() implies #[trigger] lines[j]
                < #[trigger] lines[k] by {
                assert(lines[j] == before[j]);
                if k < before.len() {
                    assert(lines[k] == before[k]);
                }
            }
            lines
        } else {
            if matched[n - 1] is Some {
                let k = choose|k: int|
                    0 <= k < hits.len() && rules[(#[trigger] hits[k]) as int].id == id;
                let j = before[k];
                assert(matched[j] is Some);
                assert(!is_first_match(rules, matched, n - 1));
            }
            before
        };
        assert forall|l: int| l < n && is_first_match(rules, matched, l) implies #[trigger] lines.contains(
            l,
        ) by {
            if l < n - 1 {
                assert(before.contains(l));
                let k = choose|k: int| 0 <= k < before.len() && before[k] == l;
                assert(lines[k] == l);
            } else {
                assert(lines[lines.len() - 1] == l);
            }
        }
        lines
    }
}

} // verus!
