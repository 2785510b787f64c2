//! The worker-side conversation state machine: lifecycle state, invocation
//! counters and the bounded chat log.
//!
//! One invocation is one turn: the requester's line and the worker's line
//! are appended together, and once the log exceeds its cap the oldest
//! entries are evicted from the front.  Because entries only ever enter in
//! pairs and the cap is even, eviction never splits a turn; the lemma
//! [`lemma_bounded_log`] states this for whole histories of turns.

use vstd::prelude::*;
use vstd::math::min;
use vstd::string::StringExecFns;

use crate::errors::SorcererError;
use crate::text::views_of;

verus! {

/// The most entries the chat log may hold.
pub const CHAT_LOG_CAP: usize = 100;

/// The lifecycle of a worker: `Casting` while an invocation runs, back to
/// `Idle` on success, `Error` on failure.  `Error` is not terminal: the
/// next successful invocation returns the worker to `Idle`.
#[derive(PartialEq, Eq, Structural, Clone, Copy, Debug)]
pub enum LifecycleState {
    Idle,
    Casting,
    Error,
}

/// The name a worker reports for its state.
pub open spec fn spec_state_name(s: LifecycleState) -> Seq<char> {
    match s {
        LifecycleState::Idle => "idle"@,
        LifecycleState::Casting => "casting"@,
        LifecycleState::Error => "error"@,
    }
}

/// The log after the cap is enforced: the oldest entries beyond the cap
/// are dropped from the front.
pub open spec fn evict_v(s: Seq<Seq<char>>) -> Seq<Seq<char>> {
    if s.len() > CHAT_LOG_CAP {
        s.skip(s.len() - CHAT_LOG_CAP)
    } else {
        s
    }
}

/// The log after one successful turn `(requester line, worker line)`.
pub open spec fn turn_step(log: Seq<Seq<char>>, t: (Seq<char>, Seq<char>)) -> Seq<Seq<char>> {
    evict_v(log + seq![t.0, t.1])
}

/// The log after a history of successful turns, starting empty.
pub open spec fn log_after(turns: Seq<(Seq<char>, Seq<char>)>) -> Seq<Seq<char>>
    decreases turns.len(),
{
    if turns.len() == 0 {
        Seq::empty()
    } else {
        turn_step(log_after(turns.drop_last()), turns.last())
    }
}

/// Every line of a history of turns, in order, without any eviction.
pub open spec fn flatten_turns(turns: Seq<(Seq<char>, Seq<char>)>) -> Seq<Seq<char>>
    decreases turns.len(),
{
    if turns.len() == 0 {
        Seq::empty()
    } else {
        flatten_turns(turns.drop_last()) + seq![turns.last().0, turns.last().1]
    }
}

/// After `N` consecutive successful turns the log holds exactly
/// `min(2 N, 100)` entries, and those entries are the most recent whole
/// turns: eviction only ever removes entries in whole-turn pairs.
pub proof fn lemma_bounded_log(turns: Seq<(Seq<char>, Seq<char>)>)
    ensures
        flatten_turns(turns).len() == 2 * turns.len(),
        log_after(turns).len() == min(2 * turns.len() as int, CHAT_LOG_CAP as int),
        log_after(turns) == flatten_turns(turns).skip(
            flatten_turns(turns).len() - min(2 * turns.len() as int, CHAT_LOG_CAP as int),
        ),
    decreases turns.len(),
{
    if turns.len() == 0 {
        assert(flatten_turns(turns).skip(0) =~= flatten_turns(turns));
    } else {
        let n = turns.len() as int;
        let prev_t = turns.drop_last();
        let t = turns.last();
        lemma_bounded_log(prev_t);
        let prev = log_after(prev_t);
        let flat_prev = flatten_turns(prev_t);
        let flat = flatten_turns(turns);
        assert(flat == flat_prev + seq![t.0, t.1]);
        if 2 * n <= CHAT_LOG_CAP as int {
            assert(prev == flat_prev.skip(0));
            assert(flat_prev.skip(0) =~= flat_prev);
            assert(log_after(turns) == prev + seq![t.0, t.1]);
            assert(flat.skip(0) =~= flat);
        } else {
            assert(prev.len() == CHAT_LOG_CAP as int);
            let k = flat_prev.len() - CHAT_LOG_CAP as int;
            assert(prev == flat_prev.skip(k));
            assert(prev + seq![t.0, t.1] =~= flat.skip(k)) by {
                assert(flat_prev.skip(k) + seq![t.0, t.1] =~= (flat_prev + seq![t.0, t.1]).skip(
                    k,
                ));
            }
            assert(log_after(turns) == (flat.skip(k)).skip(2));
            assert((flat.skip(k)).skip(2) =~= flat.skip(k + 2));
        }
    }
}

/// What one worker knows about itself between invocations.
pub struct ApprenticeState {
    /// The worker's own name.
    pub name: String,
    pub state: LifecycleState,
    /// How many invocations have completed successfully.
    pub spells_cast: i32,
    /// The timestamp of the last successful invocation.
    pub last_spell_time: Option<String>,
    /// The bounded conversation log, oldest entry first.
    pub chat_history: Vec<String>,
    /// Whether replies are interpreted as command batches.
    pub agent_mode: bool,
    /// The system prompt sent upstream in autonomous mode.
    pub system_prompt: Option<String>,
}

/// What an invocation hands back over RPC.
pub struct SpellResponse {
    pub spell_id: String,
    pub result: String,
    pub success: bool,
    pub error: String,
}

impl SpellResponse {
    /// The reply for an invocation that produced `result`.
    pub fn succeeded(spell_id: String, result: String) -> (r: SpellResponse)
        ensures
            r.spell_id == spell_id,
            r.result == result,
            r.success,
            r.error@ == Seq::<char>::empty(),
    {
        SpellResponse { spell_id, result, success: true, error: String::new() }
    }

    /// The reply for an invocation whose upstream call failed.
    pub fn failed(spell_id: String, error: String) -> (r: SpellResponse)
        ensures
            r.spell_id == spell_id,
            r.result@ == Seq::<char>::empty(),
            !r.success,
            r.error == error,
    {
        SpellResponse { spell_id, result: String::new(), success: false, error }
    }
}

/// How the orchestrator reads an invocation reply: the result text on
/// success, and the worker's reported error otherwise.
pub fn spell_verdict(resp: SpellResponse) -> (r: Result<String, SorcererError>)
    ensures
        resp.success ==> r == Ok::<String, SorcererError>(resp.result),
        !resp.success ==> (r matches Err(SorcererError::UpstreamCallFailed(d)) && d
            == resp.error),
{
    if resp.success {
        Ok(resp.result)
    } else {
        Err(SorcererError::UpstreamCallFailed(resp.error))
    }
}

/// What a status query reports: a pure read of the worker state.
pub struct StatusReport {
    pub apprentice_name: String,
    pub state: String,
    pub last_spell_time: String,
}

/// The acknowledgement a termination request returns before the process
/// goes away.
pub struct KillReport {
    pub success: bool,
    pub message: String,
}

/// Builds the termination acknowledgement; scheduling the actual process
/// exit is the caller's business.
pub fn kill_ack(reason: &str) -> (r: KillReport)
    ensures
        r.success,
        r.message@ == "Fading away into the ether... ("@ + reason@ + ")"@,
{
    let mut m = String::from_str("Fading away into the ether... (");
    m.append(reason);
    m.append(")");
    KillReport { success: true, message: m }
}

impl ApprenticeState {
    /// The chat log stays within its cap and holds only whole turns.
    pub open spec fn wf(self) -> bool {
        self.chat_history@.len() <= CHAT_LOG_CAP && self.chat_history@.len() % 2 == 0
    }

    /// A fresh worker: idle, with an empty log.
    pub fn new(name: String, agent_mode: bool, system_prompt: Option<String>) -> (r:
        ApprenticeState)
        ensures
            r.name == name,
            r.state == LifecycleState::Idle,
            r.spells_cast == 0,
            r.last_spell_time is None,
            r.chat_history@.len() == 0,
            r.agent_mode == agent_mode,
            r.system_prompt == system_prompt,
            r.wf(),
    {
        ApprenticeState {
            name,
            state: LifecycleState::Idle,
            spells_cast: 0,
            last_spell_time: None,
            chat_history: Vec::new(),
            agent_mode,
            system_prompt,
        }
    }

    /// Marks the worker busy for the invocation now starting; nothing else
    /// changes.
    pub fn begin_cast(&mut self)
        ensures
            final(self).state == LifecycleState::Casting,
            final(self).name == old(self).name,
            final(self).spells_cast == old(self).spells_cast,
            final(self).last_spell_time == old(self).last_spell_time,
            final(self).chat_history == old(self).chat_history,
            final(self).agent_mode == old(self).agent_mode,
            final(self).system_prompt == old(self).system_prompt,
    {
        self.state = LifecycleState::Casting;
    }

    /// Records a successful invocation: one whole turn enters the log, the
    /// log is trimmed to its cap from the front, the counter and timestamp
    /// advance, and the worker is idle again.  The turn holds the raw
    /// upstream reply, not any rendered command report.
    pub fn record_success(&mut self, incantation: &str, response: &str, timestamp: String)
        requires
            old(self).spells_cast < i32::MAX,
            old(self).wf(),
        ensures
            final(self).state == LifecycleState::Idle,
            final(self).spells_cast == old(self).spells_cast + 1,
            final(self).last_spell_time == Some(timestamp),
            final(self).name == old(self).name,
            final(self).agent_mode == old(self).agent_mode,
            final(self).system_prompt == old(self).system_prompt,
            views_of(final(self).chat_history@) == turn_step(
                views_of(old(self).chat_history@),
                ("Sorcerer: "@ + incantation@, old(self).name@ + ": "@ + response@),
            ),
            final(self).wf(),
    {
        self.state = LifecycleState::Idle;
        self.spells_cast = self.spells_cast + 1;
        self.last_spell_time = Some(timestamp);
        let mut line1 = String::from_str("Sorcerer: ");
        line1.append(incantation);
        let mut line2 = self.name.clone();
        line2.append(": ");
        line2.append(response);
        self.chat_history.push(line1);
        self.chat_history.push(line2);
        let ghost full = self.chat_history@;
        assert(full.skip(0) =~= full);
        while self.chat_history.len() > CHAT_LOG_CAP
            invariant
                self.chat_history@.len() <= full.len(),
                self.chat_history@ == full.skip(full.len() - self.chat_history@.len()),
                full.len() <= CHAT_LOG_CAP + 2,
                full.len() > CHAT_LOG_CAP ==> self.chat_history@.len() >= CHAT_LOG_CAP,
                full.len() <= CHAT_LOG_CAP ==> self.chat_history@.len() == full.len(),
                self.state == LifecycleState::Idle,
                self.spells_cast == old(self).spells_cast + 1,
                self.last_spell_time == Some(timestamp),
                self.name == old(self).name,
                self.agent_mode == old(self).agent_mode,
                self.system_prompt == old(self).system_prompt,
            decreases self.chat_history@.len(),
        {
            self.chat_history.remove(0);
            proof {
                let l = self.chat_history@.len() as int;
                assert(full.skip(full.len() - (l + 1)).remove(0) =~= full.skip(full.len() - l));
            }
        }
        proof {
            let old_views = views_of(old(self).chat_history@);
            let pair = ("Sorcerer: "@ + incantation@, old(self).name@ + ": "@ + response@);
            assert(views_of(full) =~= old_views + seq![pair.0, pair.1]);
            let k = full.len() - self.chat_history@.len();
            assert(views_of(self.chat_history@) =~= views_of(full).skip(k as int));
            if full.len() > CHAT_LOG_CAP {
                assert(self.chat_history@.len() == CHAT_LOG_CAP);
            } else {
                assert(k == 0);
                assert(views_of(full).skip(0) =~= views_of(full));
            }
        }
    }

    /// Records a failed invocation: the worker enters the error state and
    /// the chat log is left exactly as it was.
    pub fn record_failure(&mut self)
        ensures
            final(self).state == LifecycleState::Error,
            final(self).name == old(self).name,
            final(self).spells_cast == old(self).spells_cast,
            final(self).last_spell_time == old(self).last_spell_time,
            final(self).chat_history == old(self).chat_history,
            final(self).agent_mode == old(self).agent_mode,
            final(self).system_prompt == old(self).system_prompt,
    {
        self.state = LifecycleState::Error;
    }

    /// Reports name, lifecycle state and last invocation time; a pure
    /// read.
    pub fn get_status(&self) -> (r: StatusReport)
        ensures
            r.apprentice_name@ == self.name@,
            r.state@ == spec_state_name(self.state),
            r.last_spell_time@ == match self.last_spell_time {
                Some(ref t) => t@,
                None => Seq::<char>::empty(),
            },
    {
        let state = match self.state {
            LifecycleState::Idle => String::from_str("idle"),
            LifecycleState::Casting => String::from_str("casting"),
            LifecycleState::Error => String::from_str("error"),
        };
        let last = match &self.last_spell_time {
            Some(t) => t.clone(),
            None => String::new(),
        };
        StatusReport { apprentice_name: self.name.clone(), state, last_spell_time: last }
    }

    /// The last `lines` log entries; the whole log when `lines` is zero or
    /// larger than the log.  Never mutates state and never fails.
    pub fn get_chat_history(&self, lines: usize) -> (r: Vec<String>)
        ensures
            (lines == 0 || lines >= self.chat_history@.len()) ==> r@ == self.chat_history@,
            (0 < lines < self.chat_history@.len()) ==> r@ == self.chat_history@.skip(
                self.chat_history@.len() - lines,
            ),
    {
        let len = self.chat_history.len();
        let start: usize = if lines == 0 || lines >= len {
            0
        } else {
            len - lines
        };
        let mut out: Vec<String> = Vec::new();
        let mut i: usize = start;
        while i < len
            invariant
                start <= i <= len,
                len == self.chat_history@.len(),
                out@ == self.chat_history@.subrange(start as int, i as int),
            decreases len - i,
        {
            out.push(self.chat_history[i].clone());
            proof {
                assert(out@ =~= self.chat_history@.subrange(start as int, i + 1));
            }
            i = i + 1;
        }
        proof {
            if start == 0 {
                assert(self.chat_history@.subrange(0, len as int) =~= self.chat_history@);
            } else {
                assert(self.chat_history@.subrange(start as int, len as int)
                    =~= self.chat_history@.skip(start as int));
            }
        }
        out
    }
}

} // verus!
