//! One node's generator: the sequential state machine owning the
//! node's last observed timestamp and per-millisecond sequence,
//! producing identifiers on demand and detecting clock regression and
//! overflow; and the decision rule of the bounded-retry policy around
//! it.

use std::time::{SystemTime, UNIX_EPOCH};
use vstd::prelude::*;

use crate::snowflake::{
    lemma_pack_increases, pack_spec, Counter, CounterError, NodeId, Snowflake, Timestamp,
    TimestampError, MAX_NODE_ID, MAX_SEQUENCE, MAX_TIMESTAMP_MS,
};

verus! {

/// A generation attempt failed. The kinds are distinguishable by tag
/// so that callers and the retry policy can tell the one transient
/// condition from the fatal ones.
#[derive(Clone, Copy, PartialEq, Eq, Structural, Debug)]
pub enum NodeError {
    /// The clock was observed behind the generator's last recorded
    /// timestamp; never retried automatically.
    ClockRegression,
    /// Elapsed time since the epoch is outside the timestamp field's
    /// range (the clock stands before the epoch, or the 41 bits are
    /// exhausted): fatal for this node under the current epoch.
    Timestamp(TimestampError),
    /// The per-millisecond sequence space is exhausted: transient, and
    /// the one kind eligible for automatic retry.
    Counter(CounterError),
    /// The retry policy used up its whole attempt budget on sequence
    /// overflows.
    RetriesExhausted,
}

impl From<CounterError> for NodeError {
    fn from(error: CounterError) -> (r: Self) {
        NodeError::Counter(error)
    }
}

impl vstd::std_specs::convert::FromSpecImpl<CounterError> for NodeError {
    open spec fn obeys_from_spec() -> bool {
        true
    }

    open spec fn from_spec(error: CounterError) -> Self {
        NodeError::Counter(error)
    }
}

impl From<TimestampError> for NodeError {
    fn from(error: TimestampError) -> (r: Self) {
        NodeError::Timestamp(error)
    }
}

impl vstd::std_specs::convert::FromSpecImpl<TimestampError> for NodeError {
    open spec fn obeys_from_spec() -> bool {
        true
    }

    open spec fn from_spec(error: TimestampError) -> Self {
        NodeError::Timestamp(error)
    }
}

/// One node's generator state: identity and epoch immutable, the last
/// observed timestamp and the sequence within it owned exclusively by
/// this value.
pub struct Node {
    id: NodeId,
    epoch: u128,
    counter: Counter,
    last_timestamp: Timestamp,
}

/// Whether a generation step at epoch-relative time `now` succeeds
/// from a generator whose last observed timestamp is `last` with
/// sequence `ctr`.
pub open spec fn gen_ok(last: int, ctr: int, now: int) -> bool {
    &&& last <= now < MAX_TIMESTAMP_MS
    &&& (now > last || ctr + 1 < MAX_SEQUENCE)
}

/// The generator's last timestamp after a step at `now`: advanced on
/// success, untouched on failure.
pub open spec fn gen_post_last(last: int, ctr: int, now: int) -> int {
    if gen_ok(last, ctr, now) {
        now
    } else {
        last
    }
}

/// The generator's sequence after a step at `now`: stepped within the
/// same millisecond, reset on a fresh one, untouched on failure.
pub open spec fn gen_post_ctr(last: int, ctr: int, now: int) -> int {
    if gen_ok(last, ctr, now) {
        if now == last {
            ctr + 1
        } else {
            0
        }
    } else {
        ctr
    }
}

/// The outcome of a generation step at `now`: the packed identifier
/// on success, and on failure exactly the kind that the condition
/// calls for.
pub open spec fn gen_outcome(last: int, ctr: int, node: int, now: int) -> Result<int, NodeError> {
    if now < last {
        Err(NodeError::ClockRegression)
    } else if now >= MAX_TIMESTAMP_MS {
        Err(NodeError::Timestamp(TimestampError))
    } else if now == last && ctr + 1 >= MAX_SEQUENCE {
        Err(NodeError::Counter(CounterError))
    } else {
        Ok(pack_spec(gen_post_last(last, ctr, now), node, gen_post_ctr(last, ctr, now)))
    }
}

/// The outcome with the packed value drawn out of the snowflake.
pub open spec fn outcome_of(r: Result<Snowflake, NodeError>) -> Result<int, NodeError> {
    match r {
        Ok(s) => Ok(s.id as int),
        Err(e) => Err(e),
    }
}

/// The full effect of one generation step at `now`: how the
/// generator's numbers move and what comes back.
pub open spec fn gen_step(pre: Node, post: Node, r: Result<Snowflake, NodeError>, now: int) -> bool {
    &&& outcome_of(r) == gen_outcome(pre.last_val(), pre.ctr_val(), pre.node_val(), now)
    &&& post.last_val() == gen_post_last(pre.last_val(), pre.ctr_val(), now)
    &&& post.ctr_val() == gen_post_ctr(pre.last_val(), pre.ctr_val(), now)
    &&& post.node_val() == pre.node_val()
    &&& post.epoch_val() == pre.epoch_val()
}

impl Node {
    /// The node's identity as a plain integer.
    pub closed spec fn node_val(self) -> int {
        self.id.val()
    }

    /// The configured epoch, in milliseconds since the UNIX epoch.
    pub closed spec fn epoch_val(self) -> int {
        self.epoch as int
    }

    /// The last observed epoch-relative timestamp, in milliseconds.
    pub closed spec fn last_val(self) -> int {
        self.last_timestamp.ms_val()
    }

    /// The sequence used within the last observed millisecond.
    pub closed spec fn ctr_val(self) -> int {
        self.counter.val()
    }

    /// A fresh generator: last timestamp at the epoch's zero point,
    /// sequence at zero.
    pub fn new(id: NodeId, epoch: u128) -> (r: Self)
        ensures
            r.node_val() == id.val(),
            r.epoch_val() == epoch,
            r.last_val() == 0,
            r.ctr_val() == 0,
    {
        Self {
            id,
            epoch,
            counter: Counter::default(),
            last_timestamp: Timestamp::default(),
        }
    }

    /// One step of the generator's state machine at the epoch-relative
    /// time `now`, exact in every branch: regression and overflow are
    /// reported without touching the state, a fresh millisecond resets
    /// the sequence, the same millisecond steps it.
    pub fn generate_at(&mut self, now: i64) -> (r: Result<Snowflake, NodeError>)
        ensures
            gen_step(*old(self), *final(self), r, now as int),
            r is Ok <==> gen_ok(old(self).last_val(), old(self).ctr_val(), now as int),
            (r == Err::<Snowflake, NodeError>(NodeError::ClockRegression)) <==> now < old(self).last_val(),
            r is Err ==> *final(self) == *old(self),
            r matches Ok(s) ==> s.id == pack_spec(
                final(self).last_val(),
                final(self).node_val(),
                final(self).ctr_val(),
            ) && s.id > pack_spec(
                old(self).last_val(),
                old(self).node_val(),
                old(self).ctr_val(),
            ),
    {
        proof {
            use_type_invariant(&self.last_timestamp);
            use_type_invariant(&self.counter);
            use_type_invariant(&self.id);
        }
        let last = self.last_timestamp.millis();
        if now < last {
            return Err(NodeError::ClockRegression);
        }
        let timestamp = match Timestamp::new(now) {
            Ok(t) => t,
            Err(e) => {
                return Err(NodeError::Timestamp(e));
            }
        };
        if now == last {
            match self.counter.increment() {
                Ok(()) => {}
                Err(e) => {
                    return Err(NodeError::Counter(e));
                }
            }
        } else {
            self.last_timestamp = timestamp;
            self.counter.reset();
        }
        proof {
            lemma_generated_id_increases(
                old(self).last_val(),
                old(self).ctr_val(),
                old(self).node_val(),
                now as int,
            );
        }
        Ok(Snowflake::new(self.last_timestamp, self.id, self.counter))
    }

    /// One generation request against the wall clock: reads the time
    /// once and steps the state machine with it. Which reading comes
    /// back is outside this crate's control, so the contract states
    /// what holds of every outcome: either the step taken is the state
    /// machine's step at some epoch-relative instant, or the reading
    /// was unusable (clock unavailable or before the configured epoch)
    /// and the attempt failed as a timestamp fault with the state
    /// untouched.
    pub fn snowflake(&mut self) -> (r: Result<Snowflake, NodeError>)
        ensures
            final(self).node_val() == old(self).node_val(),
            final(self).epoch_val() == old(self).epoch_val(),
            (exists|now: int| gen_step(*old(self), *final(self), r, now))
                || (r == Err::<Snowflake, NodeError>(NodeError::Timestamp(TimestampError))
                    && *final(self) == *old(self)),
            r != Err::<Snowflake, NodeError>(NodeError::RetriesExhausted),
            final(self).last_val() >= old(self).last_val(),
            r matches Ok(s) ==> s.id == pack_spec(
                final(self).last_val(),
                final(self).node_val(),
                final(self).ctr_val(),
            ) && s.id > pack_spec(
                old(self).last_val(),
                old(self).node_val(),
                old(self).ctr_val(),
            ),
    {
        let ms = match unix_now_ms() {
            Some(ms) => ms,
            None => {
                return Err(NodeError::Timestamp(TimestampError));
            }
        };
        if ms < self.epoch {
            return Err(NodeError::Timestamp(TimestampError));
        }
        let diff: u128 = ms - self.epoch;
        if diff >= MAX_TIMESTAMP_MS as u128 {
            proof {
                use_type_invariant(&self.last_timestamp);
                assert(gen_step(*self, *self, Err(NodeError::Timestamp(TimestampError)), diff as int));
            }
            return Err(NodeError::Timestamp(TimestampError));
        }
        let r = self.generate_at(diff as i64);
        proof {
            assert(gen_step(*old(self), *final(self), r, diff as i64 as int));
        }
        r
    }
}

/// Relies on std's `SystemTime`: one reading of `SystemTime::now()`,
/// turned into whole milliseconds since `UNIX_EPOCH` by
/// `duration_since` and `Duration::as_millis`; `None` when the clock
/// stands before 1970, as `duration_since` documents. Nothing is
/// assumed of the value: callers must handle every reading.
#[verifier::external_body]
fn unix_now_ms() -> (r: Option<u128>) {
    SystemTime::now()
        .duration_since(UNIX_EPOCH)
        .ok()
        .map(|d| d.as_millis())
}

/// What the retry policy does after one attempt.
#[derive(Clone, Copy, Debug)]
pub enum RetryStep {
    /// The policy is done: this outcome goes back to the caller.
    Finish(Result<Snowflake, NodeError>),
    /// The attempt hit sequence overflow with budget left: suspend for
    /// the configured delay, then try again.
    Backoff,
}

/// One decision of the bounded-retry policy, from the outcome of an
/// attempt and the number of attempts still allowed. Only sequence
/// overflow is ever retried; with no budget left it becomes
/// `RetriesExhausted`; every other outcome goes straight back.
pub fn retry_decision(outcome: Result<Snowflake, NodeError>, attempts_left: usize) -> (r: RetryStep)
    ensures
        (outcome matches Err(e) && e is Counter && attempts_left > 0) ==> r is Backoff,
        (outcome matches Err(e) && e is Counter && attempts_left == 0)
            ==> r == RetryStep::Finish(Err::<Snowflake, NodeError>(NodeError::RetriesExhausted)),
        !(outcome matches Err(e) && e is Counter) ==> r == RetryStep::Finish(outcome),
{
    match outcome {
        Err(NodeError::Counter(_)) => {
            if attempts_left > 0 {
                RetryStep::Backoff
            } else {
                RetryStep::Finish(Err(NodeError::RetriesExhausted))
            }
        }
        _ => RetryStep::Finish(outcome),
    }
}

/// Law: whenever a generation step succeeds, the identifier it hands
/// out is strictly greater than the value packed from the generator's
/// previous (timestamp, sequence) pair.
pub proof fn lemma_generated_id_increases(last: int, ctr: int, node: int, now: int)
    requires
        0 <= last < MAX_TIMESTAMP_MS,
        0 <= ctr < MAX_SEQUENCE,
        0 <= node < MAX_NODE_ID,
        gen_outcome(last, ctr, node, now) is Ok,
    ensures
        gen_outcome(last, ctr, node, now)->Ok_0 > pack_spec(last, node, ctr),
{
    if now == last {
        lemma_pack_increases(last, node, ctr, last, ctr + 1);
    } else {
        lemma_pack_increases(last, node, ctr, now, 0);
    }
}

/// Law: two generators with distinct identities never hand out the
/// same identifier, whatever their states and clocks: the node field
/// keeps every node's identifiers disjoint from every other's.
pub proof fn lemma_distinct_nodes_never_collide(
    last1: int, ctr1: int, node1: int, now1: int,
    last2: int, ctr2: int, node2: int, now2: int,
)
    requires
        0 <= last1 < MAX_TIMESTAMP_MS,
        0 <= ctr1 < MAX_SEQUENCE,
        0 <= node1 < MAX_NODE_ID,
        0 <= last2 < MAX_TIMESTAMP_MS,
        0 <= ctr2 < MAX_SEQUENCE,
        0 <= node2 < MAX_NODE_ID,
        node1 != node2,
        gen_outcome(last1, ctr1, node1, now1) is Ok,
        gen_outcome(last2, ctr2, node2, now2) is Ok,
    ensures
        gen_outcome(last1, ctr1, node1, now1)->Ok_0 != gen_outcome(last2, ctr2, node2, now2)->Ok_0,
{
    let l1 = gen_post_last(last1, ctr1, now1);
    let c1 = gen_post_ctr(last1, ctr1, now1);
    let l2 = gen_post_last(last2, ctr2, now2);
    let c2 = gen_post_ctr(last2, ctr2, now2);
    if pack_spec(l1, node1, c1) == pack_spec(l2, node2, c2) {
        crate::snowflake::lemma_pack_injective(l1, node1, c1, l2, node2, c2);
    }
}

/// Law: two successful generation steps in a row on one node hand out
/// strictly increasing identifiers, whether or not the clock moved
/// between them.
pub proof fn lemma_successive_ids_increase(last: int, ctr: int, node: int, now1: int, now2: int)
    requires
        0 <= last < MAX_TIMESTAMP_MS,
        0 <= ctr < MAX_SEQUENCE,
        0 <= node < MAX_NODE_ID,
        gen_outcome(last, ctr, node, now1) is Ok,
        gen_outcome(
            gen_post_last(last, ctr, now1),
            gen_post_ctr(last, ctr, now1),
            node,
            now2,
        ) is Ok,
    ensures
        gen_outcome(gen_post_last(last, ctr, now1), gen_post_ctr(last, ctr, now1), node, now2)->Ok_0
            > gen_outcome(last, ctr, node, now1)->Ok_0,
{
    let l1 = gen_post_last(last, ctr, now1);
    let c1 = gen_post_ctr(last, ctr, now1);
    lemma_generated_id_increases(l1, c1, node, now2);
}

/// The outcomes of a whole run of generation steps at the given
/// instants, in order.
pub open spec fn run_outcomes(last: int, ctr: int, node: int, nows: Seq<int>) -> Seq<
    Result<int, NodeError>,
>
    decreases nows.len(),
{
    if nows.len() == 0 {
        Seq::empty()
    } else {
        seq![gen_outcome(last, ctr, node, nows[0])] + run_outcomes(
            gen_post_last(last, ctr, nows[0]),
            gen_post_ctr(last, ctr, nows[0]),
            node,
            nows.drop_first(),
        )
    }
}

/// Law: over any run of generation steps on one node — same
/// millisecond or not, with failed attempts in between or not — the
/// identifiers of the successful steps strictly increase in
/// generation order, and every one of them lies above the value
/// packed from the starting state.
pub proof fn lemma_run_ids_increase(last: int, ctr: int, node: int, nows: Seq<int>)
    requires
        0 <= last < MAX_TIMESTAMP_MS,
        0 <= ctr < MAX_SEQUENCE,
        0 <= node < MAX_NODE_ID,
    ensures
        run_outcomes(last, ctr, node, nows).len() == nows.len(),
        forall|k: int|
            0 <= k < nows.len() && (#[trigger] run_outcomes(last, ctr, node, nows)[k]) is Ok
                ==> run_outcomes(last, ctr, node, nows)[k]->Ok_0 > pack_spec(last, node, ctr),
        forall|i: int, j: int|
            0 <= i < j < nows.len() && (#[trigger] run_outcomes(last, ctr, node, nows)[i]) is Ok
                && (#[trigger] run_outcomes(last, ctr, node, nows)[j]) is Ok
                ==> run_outcomes(last, ctr, node, nows)[j]->Ok_0 > run_outcomes(
                last,
                ctr,
                node,
                nows,
            )[i]->Ok_0,
    decreases nows.len(),
{
    if nows.len() > 0 {
        let n0 = nows[0];
        let o0 = gen_outcome(last, ctr, node, n0);
        let l1 = gen_post_last(last, ctr, n0);
        let c1 = gen_post_ctr(last, ctr, n0);
        let rest = nows.drop_first();
        let outs = run_outcomes(last, ctr, node, nows);
        let rest_outs = run_outcomes(l1, c1, node, rest);
        assert(outs == seq![o0] + rest_outs);
        assert(outs[0] == o0);
        assert(forall|k: int| 1 <= k < outs.len() ==> outs[k] == rest_outs[k - 1]);
        if o0 is Ok {
            lemma_generated_id_increases(last, ctr, node, n0);
            assert(o0->Ok_0 == pack_spec(l1, node, c1));
            assert(pack_spec(l1, node, c1) > pack_spec(last, node, ctr));
        } else {
            assert(l1 == last && c1 == ctr);
        }
        lemma_run_ids_increase(l1, c1, node, rest);
    }
}

} // verus!
