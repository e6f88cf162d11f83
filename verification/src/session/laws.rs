//! What holds of every run of a session.

use vstd::prelude::*;

use crate::errors::TransportError;
use crate::session::spec_step;
use crate::session::Action;
use crate::session::Event;
use crate::session::SessionView;
use crate::session::StreamState;

verus! {

/// The session after a sequence of events, and what was to be done after
/// each of them.
pub open spec fn spec_run(s: SessionView, events: Seq<Event>) -> (SessionView, Seq<Action>)
    decreases events.len(),
{
    if events.len() == 0 {
        (s, Seq::empty())
    } else {
        let (before, actions) = spec_run(s, events.drop_last());
        let (after, action) = spec_step(before, events.last());
        (after, actions.push(action))
    }
}

/// The server that an action sends an attempt to, if it is an attempt.
pub open spec fn target(action: Action) -> Option<usize> {
    match action {
        Action::Connect { server, .. } => Some(server),
        Action::Recover { server } => Some(server),
        _ => None,
    }
}

/// A step keeps a session well-formed and never changes the list or the
/// policy.
pub proof fn lemma_step_preserves(s: SessionView, e: Event)
    requires
        s.wf(),
    ensures
        spec_step(s, e).0.wf(),
        spec_step(s, e).0.retry == s.retry,
        spec_step(s, e).0.context.servers == s.context.servers,
{
    assert((s.context.cursor + 1) % s.context.servers < s.context.servers) by (nonlinear_arith)
        requires
            s.context.servers > 0,
    ;
}

/// Rotation: every attempt to connect goes to the server under the cursor
/// and moves the cursor on by one, round the list; nothing else moves it.
pub proof fn lemma_cursor_advances(s: SessionView, e: Event)
    requires
        s.wf(),
    ensures
        match target(spec_step(s, e).1) {
            Some(server) => server == s.context.cursor && spec_step(s, e).0.context.cursor == (
            s.context.cursor + 1) % s.context.servers,
            None => spec_step(s, e).0.context.cursor == s.context.cursor,
        },
{
}

/// A closed session stays closed whatever happens, and asks for nothing:
/// no attempt, and so no timer.
pub proof fn lemma_closed_is_final(s: SessionView, events: Seq<Event>)
    requires
        s.state == StreamState::Closed,
    ensures
        spec_run(s, events).0 == s,
        forall|i: int| 0 <= i < events.len() ==> spec_run(s, events).1[i] == Action::Idle,
        spec_run(s, events).1.len() == events.len(),
    decreases events.len(),
{
    if events.len() > 0 {
        lemma_closed_is_final(s, events.drop_last());
    }
}

/// Cancellation: dropping or closing a stream in any state ends it, and
/// nothing that happens afterwards asks for an attempt or anything else.
pub proof fn lemma_drop_cancels(s: SessionView, later: Seq<Event>)
    ensures
        spec_step(s, Event::Dropped).0.state == StreamState::Closed,
        spec_step(s, Event::Close).0.state == StreamState::Closed,
        target(spec_step(s, Event::Dropped).1) is None,
        target(spec_step(s, Event::Close).1) is None,
        forall|i: int|
            0 <= i < later.len() ==> spec_run(spec_step(s, Event::Dropped).0, later).1[i]
                == Action::Idle,
        forall|i: int|
            0 <= i < later.len() ==> spec_run(spec_step(s, Event::Close).0, later).1[i]
                == Action::Idle,
{
    lemma_closed_is_final(spec_step(s, Event::Dropped).0, later);
    lemma_closed_is_final(spec_step(s, Event::Close).0, later);
}

/// The events of a stream that is started and then refused `failures`
/// times in a row.
pub open spec fn refusals(failures: nat, kind: TransportError) -> Seq<Event> {
    Seq::new(
        failures + 1,
        |i: int|
            if i == 0 {
                Event::Start
            } else {
                Event::Refused(kind)
            },
    )
}

/// Server rotation: a disconnected session that is started and then refused
/// again and again, under the retry limit, sends its attempts to the servers
/// in the order of the list, beginning at the cursor and going round.
pub proof fn lemma_rotation(s: SessionView, failures: nat, kind: TransportError)
    requires
        s.wf(),
        s.state == StreamState::Disconnected,
        s.context.attempts == 0,
        failures < u32::MAX,
        s.retry.max_attempts matches Some(limit) ==> failures < limit,
    ensures
        ({
            let (end, actions) = spec_run(s, refusals(failures, kind));
            &&& actions.len() == failures + 1
            &&& forall|i: int|
                0 <= i <= failures ==> target(#[trigger] actions[i]) == Some(
                    ((s.context.cursor as int + i) % (s.context.servers as int)) as usize,
                )
            &&& end.state == StreamState::Connecting
            &&& end.context.attempts == failures
            &&& end.context.cursor == (s.context.cursor as int + failures + 1) % (s.context.servers as int)
            &&& end.context.servers == s.context.servers
            &&& end.retry == s.retry
        }),
    decreases failures,
{
    let n = s.context.servers as int;
    let c = s.context.cursor as int;
    let events = refusals(failures, kind);
    if failures == 0 {
        assert(events.drop_last() =~= Seq::<Event>::empty());
        assert(events.last() == Event::Start);
        assert(c % n == c) by (nonlinear_arith)
            requires
                0 <= c < n,
        ;
        assert(spec_run(s, events.drop_last()) == (s, Seq::<Action>::empty()));
        let (end, actions) = spec_run(s, events);
        assert(actions =~= seq![Action::Connect { server: c as usize, delay_ms: 0 }]);
        assert(target(actions[0]) == Some(c as usize));
    } else {
        let fewer = (failures - 1) as nat;
        assert(events.drop_last() =~= refusals(fewer, kind));
        assert(events.last() == Event::Refused(kind));
        lemma_rotation(s, fewer, kind);
        let (before, actions) = spec_run(s, refusals(fewer, kind));
        let (after, action) = spec_step(before, Event::Refused(kind));
        assert(before.context.cursor == (c + failures) % n);
        assert(((c + failures) % n + 1) % n == (c + failures + 1) % n) by (nonlinear_arith)
            requires
                n > 0,
                c >= 0,
                failures >= 0,
        ;
        assert(target(action) == Some(((c + failures) % n) as usize));
        let all = actions.push(action);
        assert(spec_run(s, events) == (after, all));
        assert(after.state == StreamState::Connecting);
        assert(after.context.attempts == failures);
        assert(after.context.cursor == (c + failures + 1) % n);
        assert forall|i: int| 0 <= i <= failures implies target(#[trigger] all[i]) == Some(
            ((c + i) % n) as usize,
        ) by {
            if i < failures {
                assert(all[i] == actions[i]);
            }
        }
    }
}

} // verus!
