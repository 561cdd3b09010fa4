use vstd::prelude::*;

use crate::conversation::{Conversation, Message, Role};
use crate::error::MyError;
use crate::inference::{chat_body_of, Ollama};
use crate::tools::{check_call, first_tool, has_tool, args_valid, is_first_tool, Function, FunctionCall, ToolCall};

verus! {

/// How many replies in a row may ask for tools before a turn gives up.
pub const DEFAULT_MAX_TOOL_ROUNDS: u64 = 5;

/// Where a turn stands after the model's reply.
#[derive(Debug)]
pub enum TurnStep {
    /// The reply asked for no tool: this is the turn's answer.
    Finished(String),
    /// The reply asked for this many tools; run them, record their
    /// results, and ask the model again.
    RunTools(usize),
}

/// The rounds used after one more reply that asks for tools: `None` where
/// the bound forbids another round.
pub open spec fn next_round(rounds: nat, max: nat) -> Option<nat> {
    if rounds < max {
        Some(rounds + 1)
    } else {
        None
    }
}

/// The rounds used after `n` replies in a row that all ask for tools, or
/// `None` where the turn has given up on the way.
pub open spec fn after_tool_replies(rounds: nat, max: nat, n: nat) -> Option<nat>
    decreases n,
{
    if n == 0 {
        Some(rounds)
    } else {
        match next_round(rounds, max) {
            Some(r) => after_tool_replies(r, max, (n - 1) as nat),
            None => None,
        }
    }
}

/// One turn without tools: the user's message and then the assistant's
/// answer were appended, and nothing before them changed.
pub open spec fn plain_turn(before: Seq<Message>, after: Seq<Message>) -> bool {
    &&& after.len() == before.len() + 2
    &&& after.subrange(0, before.len() as int) == before
    &&& after[before.len() as int].role == Role::User
    &&& after[before.len() as int + 1].role == Role::Assistant
    &&& after[before.len() as int + 1].tool_calls@.len() == 0
}

/// One chat session: a service, the registered tools, the transcript and
/// the tool-call rounds used in the current turn.
pub struct ChatBot {
    pub mind: Ollama,
    pub conversation: Conversation,
    pub tools: Vec<Function>,
    pub max_tool_rounds: u64,
    pub tool_rounds: u64,
    /// Where the latest assistant reply stands in the transcript.
    pub last_reply: usize,
}

impl ChatBot {
    pub open spec fn well_formed(&self) -> bool {
        self.conversation.well_formed() && self.tool_rounds <= self.max_tool_rounds
    }

    /// A session with an empty transcript and the default bound on tool
    /// rounds.
    pub fn new(ollama: Ollama, tools: Vec<Function>) -> (r: ChatBot)
        ensures
            r.well_formed(),
            r.conversation@.len() == 0,
            r.mind == ollama,
            r.tools@ == tools@,
            r.max_tool_rounds == DEFAULT_MAX_TOOL_ROUNDS,
            r.tool_rounds == 0,
    {
        ChatBot {
            mind: ollama,
            conversation: Conversation::new(),
            tools,
            max_tool_rounds: DEFAULT_MAX_TOOL_ROUNDS,
            tool_rounds: 0,
            last_reply: 0,
        }
    }

    /// The same session with another bound on tool rounds per turn.
    pub fn with_tool_limit(self, max: u64) -> (r: ChatBot)
        requires
            self.well_formed(),
        ensures
            r.well_formed(),
            r.conversation@ == self.conversation@,
            r.tools@ == self.tools@,
            r.mind == self.mind,
            r.max_tool_rounds == max,
            r.tool_rounds == 0,
    {
        ChatBot { max_tool_rounds: max, tool_rounds: 0, ..self }
    }

    /// Opens a turn: the user's text joins the transcript.
    pub fn start_turn(&mut self, user_text: String)
        requires
            old(self).well_formed(),
        ensures
            final(self).well_formed(),
            final(self).conversation@ == old(self).conversation@.push(
                final(self).conversation@.last(),
            ),
            final(self).conversation@.last().role == Role::User,
            final(self).conversation@.last().content@ == user_text@,
            final(self).conversation@.last().tool_calls@.len() == 0,
            final(self).tool_rounds == 0,
            final(self).max_tool_rounds == old(self).max_tool_rounds,
            final(self).tools@ == old(self).tools@,
            final(self).mind == old(self).mind,
            final(self).last_reply == old(self).last_reply,
    {
        let m = Message::user(user_text);
        self.conversation.append(m);
        self.tool_rounds = 0;
    }

    /// The body of the chat request for the transcript as it stands.
    pub fn chat_request(&self) -> (r: String)
        ensures
            r@ == chat_body_of(self.mind.model@, self.conversation@),
    {
        self.mind.chat_body(self.conversation.all())
    }

    /// Takes the model's reply into the transcript and decides the next
    /// step: the answer where the reply asks for no tool, another round of
    /// tools while the bound allows one, and otherwise the end of the turn.
    pub fn receive_reply(&mut self, content: String, tool_calls: Vec<ToolCall>) -> (r: Result<
        TurnStep,
        MyError,
    >)
        requires
            old(self).well_formed(),
        ensures
            final(self).well_formed(),
            final(self).conversation@ == old(self).conversation@.push(
                final(self).conversation@.last(),
            ),
            final(self).conversation@.last().role == Role::Assistant,
            final(self).conversation@.last().content@ == content@,
            final(self).conversation@.last().tool_calls@ == tool_calls@,
            final(self).max_tool_rounds == old(self).max_tool_rounds,
            final(self).tools@ == old(self).tools@,
            final(self).mind == old(self).mind,
            final(self).last_reply == old(self).conversation@.len(),
            tool_calls@.len() == 0 ==> final(self).tool_rounds == old(self).tool_rounds && (r matches Ok(
                TurnStep::Finished(a),
            ) && a@ == content@),
            tool_calls@.len() > 0 ==> match next_round(
                old(self).tool_rounds as nat,
                old(self).max_tool_rounds as nat,
            ) {
                Some(n) => final(self).tool_rounds == n && r == Ok::<TurnStep, MyError>(
                    TurnStep::RunTools(tool_calls@.len() as usize),
                ),
                None => final(self).tool_rounds == old(self).tool_rounds && r == Err::<
                    TurnStep,
                    MyError,
                >(MyError::ToolLoopExceeded { limit: old(self).max_tool_rounds }),
            },
    {
        let count = tool_calls.len();
        let answer = content.clone();
        let m = Message::assistant(content, tool_calls);
        self.last_reply = self.conversation.len();
        self.conversation.append(m);
        if count == 0 {
            Ok(TurnStep::Finished(answer))
        } else if self.tool_rounds < self.max_tool_rounds {
            self.tool_rounds = self.tool_rounds + 1;
            Ok(TurnStep::RunTools(count))
        } else {
            Err(MyError::ToolLoopExceeded { limit: self.max_tool_rounds })
        }
    }

    /// Adds the texts that a similarity search found as system messages, in
    /// their order, before the model is asked; a failed search adds nothing.
    pub fn add_retrieved_context(&mut self, found: Result<Vec<String>, MyError>)
        requires
            old(self).well_formed(),
        ensures
            final(self).well_formed(),
            final(self).tool_rounds == old(self).tool_rounds,
            final(self).max_tool_rounds == old(self).max_tool_rounds,
            final(self).tools@ == old(self).tools@,
            final(self).mind == old(self).mind,
            final(self).last_reply == old(self).last_reply,
            found is Err ==> final(self).conversation@ == old(self).conversation@,
            found matches Ok(texts) ==> final(self).conversation@.len() == old(
                self,
            ).conversation@.len() + texts@.len() && final(self).conversation@.subrange(
                0,
                old(self).conversation@.len() as int,
            ) == old(self).conversation@ && forall|k: int|
                0 <= k < texts@.len() ==> (#[trigger] final(self).conversation@[old(
                    self,
                ).conversation@.len() + k]).role == Role::System && final(self).conversation@[old(
                    self,
                ).conversation@.len() + k].content@ == texts@[k]@,
    {
        let texts = match found {
            Ok(t) => t,
            Err(_) => return,
        };
        let ghost start = self.conversation@;
        let mut i: usize = 0;
        while i < texts.len()
            invariant
                self.well_formed(),
                i <= texts@.len(),
                self.tool_rounds == old(self).tool_rounds,
                self.max_tool_rounds == old(self).max_tool_rounds,
                self.tools@ == old(self).tools@,
                self.mind == old(self).mind,
                self.last_reply == old(self).last_reply,
                start == old(self).conversation@,
                self.conversation@.len() == start.len() + i,
                self.conversation@.subrange(0, start.len() as int) == start,
                forall|k: int|
                    0 <= k < i ==> (#[trigger] self.conversation@[start.len() + k]).role == Role::System
                        && self.conversation@[start.len() + k].content@ == texts@[k]@,
            decreases texts@.len() - i,
        {
            let ghost before = self.conversation@;
            self.conversation.append(Message::system(texts[i].clone()));
            proof {
                assert(self.conversation@.subrange(0, start.len() as int) =~= before.subrange(
                    0,
                    start.len() as int,
                ));
                assert forall|k: int| 0 <= k < i + 1 implies (#[trigger] self.conversation@[start.len()
                    + k]).role == Role::System && self.conversation@[start.len() + k].content@
                    == texts@[k]@ by {
                    if k < i {
                        assert(self.conversation@[start.len() + k] == before[start.len() + k]);
                    }
                }
            }
            i += 1;
        }
    }

    /// The verdict on the `k`-th tool call of the latest reply: the index of
    /// the registered tool to run, or why it may not run.
    pub fn check_pending_call(&self, k: usize) -> (r: Result<usize, MyError>)
        requires
            self.last_reply < self.conversation@.len(),
            k < self.conversation@[self.last_reply as int].tool_calls@.len(),
        ensures
            ({
                let c = self.conversation@[self.last_reply as int].tool_calls@[k as int].spec_call();
                match r {
                    Ok(i) => is_first_tool(self.tools@, c.name@, i as int) && args_valid(
                        self.tools@[i as int].parameters@,
                        c.arguments@,
                    ),
                    Err(MyError::UnknownTool(n)) => !has_tool(self.tools@, c.name@) && n@ == c.name@,
                    Err(MyError::Argument(_)) => has_tool(self.tools@, c.name@) && !args_valid(
                        self.tools@[first_tool(self.tools@, c.name@)].parameters@,
                        c.arguments@,
                    ),
                    Err(_) => false,
                }
            }),
    {
        let reply = &self.conversation.all()[self.last_reply];
        check_call(&self.tools, reply.tool_calls[k].call())
    }

    /// The `k`-th tool call of the latest reply.
    pub fn pending_call(&self, k: usize) -> (r: &FunctionCall)
        requires
            self.last_reply < self.conversation@.len(),
            k < self.conversation@[self.last_reply as int].tool_calls@.len(),
        ensures
            *r == self.conversation@[self.last_reply as int].tool_calls@[k as int].spec_call(),
    {
        self.conversation.all()[self.last_reply].tool_calls[k].call()
    }

    /// Records what a tool's handler returned: its output, or its failure
    /// as an execution error.
    pub fn record_handler_result(&mut self, result: Result<String, String>)
        requires
            old(self).well_formed(),
        ensures
            final(self).well_formed(),
            final(self).conversation@ == old(self).conversation@.push(
                final(self).conversation@.last(),
            ),
            final(self).conversation@.last().role == Role::Tool,
            final(self).conversation@.last().tool_calls@.len() == 0,
            result matches Ok(s) ==> final(self).conversation@.last().content@ == s@,
            result matches Err(s) ==> final(self).conversation@.last().content@ == MyError::Execution(
                s,
            ).spec_message(),
            final(self).tool_rounds == old(self).tool_rounds,
            final(self).max_tool_rounds == old(self).max_tool_rounds,
            final(self).tools@ == old(self).tools@,
            final(self).mind == old(self).mind,
            final(self).last_reply == old(self).last_reply,
    {
        let outcome = match result {
            Ok(s) => Ok(s),
            Err(s) => Err(MyError::Execution(s)),
        };
        self.record_tool_outcome(outcome);
    }

    /// Records what a tool call came to as a tool message: the tool's
    /// output, or the failure, so that the model can react to it.
    pub fn record_tool_outcome(&mut self, outcome: Result<String, MyError>)
        requires
            old(self).well_formed(),
        ensures
            final(self).well_formed(),
            final(self).conversation@ == old(self).conversation@.push(
                final(self).conversation@.last(),
            ),
            final(self).conversation@.last().role == Role::Tool,
            final(self).conversation@.last().tool_calls@.len() == 0,
            outcome matches Ok(s) ==> final(self).conversation@.last().content@ == s@,
            outcome matches Err(e) ==> final(self).conversation@.last().content@ == e.spec_message(),
            final(self).tool_rounds == old(self).tool_rounds,
            final(self).max_tool_rounds == old(self).max_tool_rounds,
            final(self).tools@ == old(self).tools@,
            final(self).mind == old(self).mind,
            final(self).last_reply == old(self).last_reply,
    {
        let text = match outcome {
            Ok(s) => s,
            Err(e) => e.message(),
        };
        self.conversation.append(Message::tool(text));
    }
}

/// A user message followed by an answer without tool calls makes one plain
/// turn.
pub proof fn lemma_plain_turn(before: Seq<Message>, mid: Seq<Message>, after: Seq<Message>)
    requires
        mid == before.push(mid.last()),
        mid.last().role == Role::User,
        after == mid.push(after.last()),
        after.last().role == Role::Assistant,
        after.last().tool_calls@.len() == 0,
    ensures
        plain_turn(before, after),
{
    assert(after.subrange(0, before.len() as int) =~= before);
}

/// A chain of plain turns from an empty start: `2 i` messages after turn
/// `i`, user and assistant in turn, earlier transcripts kept at the front.
proof fn lemma_plain_turn_chain(ts: Seq<Seq<Message>>)
    requires
        ts.len() >= 1,
        ts[0].len() == 0,
        forall|i: int| 0 <= i < ts.len() - 1 ==> plain_turn(#[trigger] ts[i], ts[i + 1]),
    ensures
        forall|i: int| 0 <= i < ts.len() ==> (#[trigger] ts[i]).len() == 2 * i,
        forall|k: int|
            0 <= k < ts.last().len() ==> (#[trigger] ts.last()[k]).role == (if k % 2 == 0 {
                Role::User
            } else {
                Role::Assistant
            }),
        forall|i: int, j: int|
            0 <= i <= j < ts.len() ==> (#[trigger] ts[j]).subrange(0, ts[i].len() as int) == (
            #[trigger] ts[i]),
    decreases ts.len(),
{
    if ts.len() > 1 {
        let init = ts.drop_last();
        assert forall|i: int| 0 <= i < init.len() - 1 implies plain_turn(#[trigger] init[i], init[i + 1]) by {
            assert(plain_turn(ts[i], ts[i + 1]));
        }
        lemma_plain_turn_chain(init);
        let n = ts.len() - 1;
        let prev = ts[n - 1];
        let cur = ts[n];
        assert(plain_turn(ts[n - 1], ts[n]));
        assert(init.last() == prev);
        assert forall|i: int| 0 <= i < ts.len() implies (#[trigger] ts[i]).len() == 2 * i by {
            if i < n {
                assert(ts[i] == init[i]);
            }
        }
        assert forall|k: int| 0 <= k < cur.len() implies (#[trigger] cur[k]).role == (if k % 2 == 0 {
            Role::User
        } else {
            Role::Assistant
        }) by {
            if k < prev.len() {
                assert(cur[k] == cur.subrange(0, prev.len() as int)[k]);
                assert(prev[k] == init.last()[k]);
            } else {
                assert(prev.len() == 2 * (n - 1));
            }
        }
        assert forall|i: int, j: int| 0 <= i <= j < ts.len() implies (#[trigger] ts[j]).subrange(
            0,
            ts[i].len() as int,
        ) == (#[trigger] ts[i]) by {
            if j < n {
                assert(ts[j] == init[j] && ts[i] == init[i]);
            } else if i == n {
                assert(cur.subrange(0, cur.len() as int) =~= cur);
            } else {
                assert(ts[i] == init[i]);
                assert(init[n - 1].subrange(0, init[i].len() as int) == init[i]);
                assert(ts[i].len() <= prev.len()) by {
                    assert(ts[i].len() == 2 * i);
                    assert(prev.len() == 2 * (n - 1));
                }
                assert(cur.subrange(0, ts[i].len() as int) =~= cur.subrange(0, prev.len() as int).subrange(
                    0,
                    ts[i].len() as int,
                ));
            }
        }
    }
}

/// The transcript only grows at its end. Take `n` turns from an empty
/// transcript: in turn `i`, `start_turn` takes `ts[i]` to `mids[i]` and
/// `receive_reply`, with a reply that asks for no tool, takes `mids[i]` to
/// `ts[i + 1]`. After them the transcript holds exactly `2 n` messages:
/// at `2 k` the user message of turn `k`, at `2 k + 1` its answer, and
/// every earlier transcript stands unchanged at its front.
pub proof fn lemma_plain_turns_alternate(ts: Seq<Seq<Message>>, mids: Seq<Seq<Message>>)
    requires
        ts.len() == mids.len() + 1,
        ts[0].len() == 0,
        forall|i: int|
            0 <= i < mids.len() ==> #[trigger] mids[i] == ts[i].push(mids[i].last())
                && mids[i].last().role == Role::User,
        forall|i: int|
            0 <= i < mids.len() ==> #[trigger] ts[i + 1] == mids[i].push(ts[i + 1].last())
                && ts[i + 1].last().role == Role::Assistant && ts[i + 1].last().tool_calls@.len() == 0,
    ensures
        ts.last().len() == 2 * mids.len(),
        forall|k: int|
            0 <= k < mids.len() ==> ts.last()[2 * k] == (#[trigger] mids[k]).last() && ts.last()[2
                * k + 1] == ts[k + 1].last(),
        forall|k: int|
            0 <= k < ts.last().len() ==> (#[trigger] ts.last()[k]).role == (if k % 2 == 0 {
                Role::User
            } else {
                Role::Assistant
            }),
        forall|i: int, j: int|
            0 <= i <= j < ts.len() ==> (#[trigger] ts[j]).subrange(0, ts[i].len() as int) == (
            #[trigger] ts[i]),
{
    assert forall|i: int| 0 <= i < ts.len() - 1 implies plain_turn(#[trigger] ts[i], ts[i + 1]) by {
        assert(mids[i] == ts[i].push(mids[i].last()));
        assert(ts[i + 1] == mids[i].push(ts[i + 1].last()));
        lemma_plain_turn(ts[i], mids[i], ts[i + 1]);
    }
    lemma_plain_turn_chain(ts);
    assert(ts.last() == ts[mids.len() as int]);
    assert forall|k: int| 0 <= k < mids.len() implies ts.last()[2 * k] == (#[trigger] mids[k]).last()
        && ts.last()[2 * k + 1] == ts[k + 1].last() by {
        let n = mids.len() as int;
        assert(mids[k] == ts[k].push(mids[k].last()));
        assert(ts[k + 1] == mids[k].push(ts[k + 1].last()));
        assert(ts[k].len() == 2 * k);
        assert(ts[k + 1].len() == 2 * (k + 1));
        assert(ts[n].subrange(0, ts[k + 1].len() as int) == ts[k + 1]);
        assert(ts[n][2 * k] == ts[n].subrange(0, ts[k + 1].len() as int)[2 * k]);
        assert(ts[n][2 * k + 1] == ts[n].subrange(0, ts[k + 1].len() as int)[2 * k + 1]);
        assert(ts[k + 1][2 * k] == mids[k][2 * k]);
    }
}

/// A turn whose every reply asks for tools ends, with the loop bound
/// exceeded, at the reply after the last allowed round: the rounds before it
/// all go ahead, one at a time.
pub proof fn lemma_tool_loop_bounded(max: nat)
    ensures
        forall|n: nat| n <= max ==> #[trigger] after_tool_replies(0, max, n) == Some(n),
        forall|n: nat| n > max ==> #[trigger] after_tool_replies(0, max, n) is None,
{
    assert forall|n: nat| n <= max implies #[trigger] after_tool_replies(0, max, n) == Some(n) by {
        lemma_rounds_go_ahead(0, max, n);
    }
    assert forall|n: nat| n > max implies #[trigger] after_tool_replies(0, max, n) is None by {
        lemma_rounds_go_ahead(0, max, max);
        lemma_rounds_run_out(0, max, n);
    }
}

proof fn lemma_rounds_go_ahead(rounds: nat, max: nat, n: nat)
    requires
        rounds + n <= max,
    ensures
        after_tool_replies(rounds, max, n) == Some(rounds + n),
    decreases n,
{
    if n > 0 {
        lemma_rounds_go_ahead(rounds + 1, max, (n - 1) as nat);
    }
}

proof fn lemma_rounds_run_out(rounds: nat, max: nat, n: nat)
    requires
        rounds <= max,
        rounds + n > max,
    ensures
        after_tool_replies(rounds, max, n) is None,
    decreases n,
{
    if rounds < max {
        lemma_rounds_run_out(rounds + 1, max, (n - 1) as nat);
    }
}

} // verus!
