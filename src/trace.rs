//! Runs of the dispatcher over sequences of events, and the laws they obey.

use vstd::prelude::*;
use crate::dispatch::{Action, DispatchRequest, Dispatcher, Event, Phase};

verus! {

/// Whether every event of `evs` is expected in the state it arrives in.
pub open spec fn runs_ok(d: Dispatcher, evs: Seq<Event>) -> bool
    decreases evs.len(),
{
    evs.len() == 0 || (d.expects_event(evs[0]) && runs_ok(d.next(evs[0]).0, evs.drop_first()))
}

/// The state after the events of `evs`.
pub open spec fn run(d: Dispatcher, evs: Seq<Event>) -> Dispatcher
    decreases evs.len(),
{
    if evs.len() == 0 {
        d
    } else {
        run(d.next(evs[0]).0, evs.drop_first())
    }
}

/// The actions returned for the events of `evs`, in order.
pub open spec fn actions_of(d: Dispatcher, evs: Seq<Event>) -> Seq<Action>
    decreases evs.len(),
{
    if evs.len() == 0 {
        Seq::empty()
    } else {
        seq![d.next(evs[0]).1] + actions_of(d.next(evs[0]).0, evs.drop_first())
    }
}

/// The request in hand, as a sequence of zero or one.
pub open spec fn pending(d: Dispatcher) -> Seq<DispatchRequest> {
    match d.current {
        Some(r) => seq![r],
        None => Seq::empty(),
    }
}

/// The request that event `e` finishes with, if it finishes one.
pub open spec fn completed(d: Dispatcher, e: Event) -> Seq<DispatchRequest> {
    if d.phase != Phase::Idle && d.next(e).0.phase == Phase::Idle {
        pending(d)
    } else {
        Seq::empty()
    }
}

/// The requests finished with (confirmed, or dropped as reverted) during
/// the events of `evs`, in order.
pub open spec fn finished_of(d: Dispatcher, evs: Seq<Event>) -> Seq<DispatchRequest>
    decreases evs.len(),
{
    if evs.len() == 0 {
        Seq::empty()
    } else {
        completed(d, evs[0]) + finished_of(d.next(evs[0]).0, evs.drop_first())
    }
}

/// The requests that `evs` delivers from the channel, in order.
pub open spec fn received_of(evs: Seq<Event>) -> Seq<DispatchRequest>
    decreases evs.len(),
{
    if evs.len() == 0 {
        Seq::empty()
    } else {
        match evs[0] {
            Event::Received(r) => seq![r] + received_of(evs.drop_first()),
            _ => received_of(evs.drop_first()),
        }
    }
}

proof fn lemma_fifo_general(d: Dispatcher, evs: Seq<Event>)
    requires
        d.wf(),
        runs_ok(d, evs),
    ensures
        finished_of(d, evs) + pending(run(d, evs)) == pending(d) + received_of(evs),
    decreases evs.len(),
{
    if evs.len() == 0 {
        assert(finished_of(d, evs) + pending(d) =~= pending(d) + received_of(evs));
    } else {
        let e = evs[0];
        let d2 = d.next(e).0;
        let rest = evs.drop_first();
        crate::dispatch::lemma_next_wf(d, e);
        lemma_fifo_general(d2, rest);
        let head: Seq<DispatchRequest> = match e {
            Event::Received(r) => seq![r],
            _ => Seq::empty(),
        };
        assert(received_of(evs) == head + received_of(rest));
        assert(completed(d, e) + pending(d2) == pending(d) + head);
        assert(finished_of(d, evs) == completed(d, e) + finished_of(d2, rest));
        assert(run(d, evs) == run(d2, rest));
        assert(finished_of(d, evs) + pending(run(d, evs)) =~= completed(d, e) + (finished_of(d2, rest)
            + pending(run(d2, rest))));
        assert(pending(d) + received_of(evs) =~= (pending(d) + head) + received_of(rest));
        assert(completed(d, e) + (pending(d2) + received_of(rest)) =~= (completed(d, e) + pending(d2))
            + received_of(rest));
    }
}

/// Requests are dispatched in the order they leave the channel, one at a
/// time: starting with no request in hand, the requests finished with so
/// far, followed by the one in hand, are exactly the requests received.
pub proof fn lemma_fifo(d: Dispatcher, evs: Seq<Event>)
    requires
        d.wf(),
        d.phase == Phase::Idle,
        runs_ok(d, evs),
    ensures
        finished_of(d, evs) + pending(run(d, evs)) == received_of(evs),
{
    lemma_fifo_general(d, evs);
    assert(pending(d) + received_of(evs) =~= received_of(evs));
}

/// Runs compose: running `a` then `b` is running `a + b`.
pub proof fn lemma_run_append(d: Dispatcher, a: Seq<Event>, b: Seq<Event>)
    ensures
        runs_ok(d, a + b) == (runs_ok(d, a) && runs_ok(run(d, a), b)),
        run(d, a + b) == run(run(d, a), b),
        actions_of(d, a + b) == actions_of(d, a) + actions_of(run(d, a), b),
    decreases a.len(),
{
    if a.len() == 0 {
        assert(a + b =~= b);
        assert(actions_of(d, a) + actions_of(d, b) =~= actions_of(d, b));
    } else {
        let d2 = d.next(a[0]).0;
        assert((a + b)[0] == a[0]);
        assert((a + b).drop_first() =~= a.drop_first() + b);
        lemma_run_append(d2, a.drop_first(), b);
        assert(actions_of(d, a + b) =~= seq![d.next(a[0]).1] + (actions_of(d2, a.drop_first())
            + actions_of(run(d2, a.drop_first()), b)));
    }
}

/// `n` rounds of a transient submission failure followed by the end of the
/// backoff wait.
pub open spec fn transient_rounds(n: nat) -> Seq<Event>
    decreases n,
{
    if n == 0 {
        Seq::empty()
    } else {
        transient_rounds((n - 1) as nat) + seq![Event::SubmitTransient, Event::BackoffElapsed]
    }
}

/// The number of actions in `acts` that `p` picks.
pub open spec fn tally(acts: Seq<Action>, p: spec_fn(Action) -> bool) -> nat
    decreases acts.len(),
{
    if acts.len() == 0 {
        0
    } else {
        tally(acts.drop_last(), p) + if p(acts.last()) {
            1nat
        } else {
            0nat
        }
    }
}

/// Tallies add up over concatenation.
pub proof fn lemma_tally_append(a: Seq<Action>, b: Seq<Action>, p: spec_fn(Action) -> bool)
    ensures
        tally(a + b, p) == tally(a, p) + tally(b, p),
    decreases b.len(),
{
    if b.len() == 0 {
        assert(a + b =~= a);
    } else {
        assert((a + b).drop_last() =~= a + b.drop_last());
        assert((a + b).last() == b.last());
        lemma_tally_append(a, b.drop_last(), p);
    }
}

proof fn lemma_tally_two(x: Action, y: Action, p: spec_fn(Action) -> bool)
    ensures
        tally(seq![x], p) == (if p(x) { 1nat } else { 0nat }),
        tally(seq![x, y], p) == (if p(x) { 1nat } else { 0nat }) + (if p(y) { 1nat } else { 0nat }),
{
    assert(seq![x].drop_last() =~= Seq::<Action>::empty());
    assert(tally(Seq::<Action>::empty(), p) == 0);
    assert(seq![x].last() == x);
    assert(tally(seq![x], p) == (if p(x) { 1nat } else { 0nat }));
    assert(seq![x, y].drop_last() =~= seq![x]);
    assert(seq![x, y].last() == y);
}

/// Picks the submissions among actions.
pub open spec fn is_submit() -> spec_fn(Action) -> bool {
    |a: Action| a is Submit
}

/// Picks the waits for confirmation, one per accepted submission.
pub open spec fn is_confirmation_wait() -> spec_fn(Action) -> bool {
    |a: Action| a is AwaitConfirmation
}

/// Picks the ends of the loop.
pub open spec fn is_stop() -> spec_fn(Action) -> bool {
    |a: Action| a is Stop
}

proof fn lemma_one_event(d: Dispatcher, e: Event)
    ensures
        runs_ok(d, seq![e]) == d.expects_event(e),
        run(d, seq![e]) == d.next(e).0,
        actions_of(d, seq![e]) == seq![d.next(e).1],
        finished_of(d, seq![e]) == completed(d, e),
{
    let t = seq![e];
    let d1 = d.next(e).0;
    let rest = t.drop_first();
    assert(rest =~= Seq::<Event>::empty());
    assert(runs_ok(d1, rest));
    assert(run(d1, rest) == d1);
    assert(actions_of(d1, rest) == Seq::<Action>::empty());
    assert(finished_of(d1, rest) == Seq::<DispatchRequest>::empty());
    assert(actions_of(d, t) =~= seq![d.next(e).1]);
    assert(finished_of(d, t) =~= completed(d, e));
}

proof fn lemma_two_events(d: Dispatcher, e1: Event, e2: Event)
    ensures
        runs_ok(d, seq![e1, e2]) == (d.expects_event(e1) && d.next(e1).0.expects_event(e2)),
        run(d, seq![e1, e2]) == d.next(e1).0.next(e2).0,
        actions_of(d, seq![e1, e2]) == seq![d.next(e1).1, d.next(e1).0.next(e2).1],
        finished_of(d, seq![e1, e2]) == completed(d, e1) + completed(d.next(e1).0, e2),
{
    let t = seq![e1, e2];
    let d1 = d.next(e1).0;
    assert(t.drop_first() =~= seq![e2]);
    lemma_one_event(d1, e2);
    assert(actions_of(d, t) =~= seq![d.next(e1).1, d1.next(e2).1]);
}

proof fn lemma_transient_rounds(s: Dispatcher, n: nat)
    requires
        s.wf(),
        s.phase == Phase::Submitting,
        s.attempts + n <= s.policy.max_attempts,
    ensures
        runs_ok(s, transient_rounds(n)),
        run(s, transient_rounds(n)) == (Dispatcher { attempts: (s.attempts + n) as u32, ..s }),
        tally(actions_of(s, transient_rounds(n)), is_submit()) == n,
        tally(actions_of(s, transient_rounds(n)), is_confirmation_wait()) == 0,
        tally(actions_of(s, transient_rounds(n)), is_stop()) == 0,
    decreases n,
{
    if n == 0 {
        assert(transient_rounds(0) =~= Seq::<Event>::empty());
        assert(actions_of(s, transient_rounds(0)) =~= Seq::<Action>::empty());
        assert(run(s, transient_rounds(0)) =~= (Dispatcher { attempts: (s.attempts + n) as u32, ..s }));
    } else {
        let m = (n - 1) as nat;
        lemma_transient_rounds(s, m);
        let s1 = run(s, transient_rounds(m));
        let two = seq![Event::SubmitTransient, Event::BackoffElapsed];
        lemma_run_append(s, transient_rounds(m), two);
        lemma_two_events(s1, Event::SubmitTransient, Event::BackoffElapsed);
        let tail = actions_of(s1, two);
        let head = actions_of(s, transient_rounds(m));
        assert(run(s, transient_rounds(n)) =~= (Dispatcher { attempts: (s.attempts + n) as u32, ..s }));
        lemma_tally_append(head, tail, is_submit());
        lemma_tally_append(head, tail, is_confirmation_wait());
        lemma_tally_append(head, tail, is_stop());
        lemma_tally_two(tail[0], tail[1], is_submit());
        lemma_tally_two(tail[0], tail[1], is_confirmation_wait());
        lemma_tally_two(tail[0], tail[1], is_stop());
        assert(tail =~= seq![tail[0], tail[1]]);
        assert(tally(tail, is_submit()) == 1);
        assert(tally(tail, is_confirmation_wait()) == 0);
        assert(tally(tail, is_stop()) == 0);
    }
}

/// A request whose submission fails `n` times for a transient reason, with
/// `n` below the retry budget, and then succeeds, is submitted `n + 1` times,
/// is accepted exactly once, and leaves the loop running, waiting for its
/// confirmation.
pub proof fn lemma_retry_bound(d: Dispatcher, r: DispatchRequest, n: nat)
    requires
        d.wf(),
        d.phase == Phase::Idle,
        n < d.policy.max_attempts,
    ensures
        ({
            let evs = seq![Event::Received(r)] + transient_rounds(n) + seq![Event::SubmitAccepted];
            &&& runs_ok(d, evs)
            &&& run(d, evs).phase == Phase::Confirming
            &&& run(d, evs).current == Some(r)
            &&& run(d, evs).attempts == n + 1
            &&& tally(actions_of(d, evs), is_submit()) == n + 1
            &&& tally(actions_of(d, evs), is_confirmation_wait()) == 1
            &&& tally(actions_of(d, evs), is_stop()) == 0
        }),
{
    let first = seq![Event::Received(r)];
    let last = seq![Event::SubmitAccepted];
    let rounds = transient_rounds(n);
    let s1 = d.next(Event::Received(r)).0;
    crate::dispatch::lemma_next_wf(d, Event::Received(r));
    lemma_one_event(d, Event::Received(r));
    lemma_transient_rounds(s1, n);
    let s2 = run(s1, rounds);
    lemma_one_event(s2, Event::SubmitAccepted);
    lemma_run_append(d, first, rounds);
    lemma_run_append(d, first + rounds, last);
    let a1 = actions_of(d, first);
    let a2 = actions_of(s1, rounds);
    let a3 = actions_of(s2, last);
    assert(actions_of(d, first + rounds + last) == a1 + a2 + a3);
    lemma_tally_append(a1, a2, is_submit());
    lemma_tally_append(a1 + a2, a3, is_submit());
    lemma_tally_append(a1, a2, is_confirmation_wait());
    lemma_tally_append(a1 + a2, a3, is_confirmation_wait());
    lemma_tally_append(a1, a2, is_stop());
    lemma_tally_append(a1 + a2, a3, is_stop());
    lemma_tally_two(a1[0], a3[0], is_submit());
    lemma_tally_two(a3[0], a1[0], is_submit());
    lemma_tally_two(a1[0], a3[0], is_confirmation_wait());
    lemma_tally_two(a3[0], a1[0], is_confirmation_wait());
    lemma_tally_two(a1[0], a3[0], is_stop());
    lemma_tally_two(a3[0], a1[0], is_stop());
    assert(a1 =~= seq![a1[0]]);
    assert(a3 =~= seq![a3[0]]);
    assert(tally(a1, is_submit()) == 1);
    assert(tally(a3, is_submit()) == 0);
    assert(tally(a1, is_confirmation_wait()) == 0);
    assert(tally(a3, is_confirmation_wait()) == 1);
    assert(tally(a1, is_stop()) == 0);
    assert(tally(a3, is_stop()) == 0);
}

/// A request that reverts, at submission or on chain, ends neither the loop
/// nor the processing of the queue: the dispatcher goes back to the channel,
/// and the next request received is submitted.
pub proof fn lemma_revert_isolation(d: Dispatcher, e: Event, r: DispatchRequest)
    requires
        d.wf(),
        (e is SubmitReverted && d.phase == Phase::Submitting) || (e is ExecutionReverted && (d.phase
            == Phase::Confirming || d.phase == Phase::Rechecking)),
    ensures
        ({
            let evs = seq![e, Event::Received(r)];
            &&& runs_ok(d, evs)
            &&& actions_of(d, evs) == seq![Action::AwaitRequest, Action::Submit { attempt: 1, fee_level: 0 }]
            &&& run(d, evs).phase == Phase::Submitting
            &&& run(d, evs).current == Some(r)
            &&& finished_of(d, evs) == pending(d)
        }),
{
    lemma_two_events(d, e, Event::Received(r));
    assert(completed(d, e) + Seq::<DispatchRequest>::empty() =~= pending(d));
}

} // verus!
