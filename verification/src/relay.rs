//! The relay state machine: what each event of a running session causes.
//!
//! A session bridges one duplex transport and one TCP connection to the
//! target. The host polls both sides fairly, hands each observed event to
//! [`step`], performs the returned actions in order, and stops as soon as
//! the state is [`RelayState::Closed`]; no event is handed in after that.
//! The spec-level [`relay_outputs`] gives the actions of a whole session,
//! and the lemmas below state the session-wide guarantees: the response
//! marker goes out exactly once, a target end-of-input produces exactly one
//! clean close and nothing after it, and a transport close stops all
//! forwarding at once.

use vstd::prelude::*;

verus! {

/// Why the transport is being closed; fixes the close code and reason text.
#[derive(Clone, Copy, Debug, PartialEq, Eq, Structural)]
pub enum CloseReason {
    /// The target reached end of input: a clean session end.
    TargetClosed,
    /// The handshake could not be decoded.
    InvalidRequest,
    /// The handshake named a command this endpoint does not run.
    UnsupportedCommand,
}

impl CloseReason {
    /// Transport close code for this reason: 1000 for a clean target end,
    /// 1003 for every rejected handshake, so that a malformed request and a
    /// wrong identity are indistinguishable to the client.
    pub open spec fn spec_code(self) -> u16 {
        match self {
            CloseReason::TargetClosed => 1000,
            CloseReason::InvalidRequest => 1003,
            CloseReason::UnsupportedCommand => 1003,
        }
    }

    /// Close code sent on the transport.
    pub fn code(self) -> (r: u16)
        ensures
            r == self.spec_code(),
    {
        match self {
            CloseReason::TargetClosed => 1000,
            CloseReason::InvalidRequest => 1003,
            CloseReason::UnsupportedCommand => 1003,
        }
    }

    /// Reason text sent with the close.
    pub fn text(self) -> (r: &'static str)
        ensures
            self is TargetClosed ==> r@ == "target closed"@,
            self is InvalidRequest ==> r@ == "invalid request"@,
            self is UnsupportedCommand ==> r@ == "unsupported command"@,
    {
        match self {
            CloseReason::TargetClosed => "target closed",
            CloseReason::InvalidRequest => "invalid request",
            CloseReason::UnsupportedCommand => "unsupported command",
        }
    }
}

/// Session state of the relay loop.
#[derive(Clone, Copy, Debug, PartialEq, Eq, Structural)]
pub enum RelayState {
    /// No target bytes have been forwarded yet; the one-time response
    /// marker is still owed before the first outbound chunk.
    AwaitingFirstChunk,
    /// The marker went out; all further bytes are forwarded verbatim.
    Streaming,
    /// The session is over; no event is handled past this state.
    Closed,
}

/// One event of a running session, as the host observes it on either side.
#[derive(Debug)]
pub enum RelayEvent {
    /// The target read returned these bytes; never empty, an empty read is
    /// [`RelayEvent::TargetEof`].
    TargetChunk(Vec<u8>),
    /// The target read returned zero bytes: end of input.
    TargetEof,
    /// The target read failed; fatal to the session.
    TargetFailed,
    /// The transport delivered a binary message.
    TransportBinary(Vec<u8>),
    /// The transport delivered a non-binary or empty message; ignored.
    TransportIgnored,
    /// The transport delivered a close event.
    TransportClosed,
    /// The transport stream failed; fatal to the session.
    TransportFailed,
}

/// Mathematical form of a [`RelayEvent`].
#[verifier::ext_equal]
pub enum EventModel {
    TargetChunk(Seq<u8>),
    TargetEof,
    TargetFailed,
    TransportBinary(Seq<u8>),
    TransportIgnored,
    TransportClosed,
    TransportFailed,
}

impl View for RelayEvent {
    type V = EventModel;

    open spec fn view(&self) -> EventModel {
        match self {
            RelayEvent::TargetChunk(b) => EventModel::TargetChunk(b@),
            RelayEvent::TargetEof => EventModel::TargetEof,
            RelayEvent::TargetFailed => EventModel::TargetFailed,
            RelayEvent::TransportBinary(b) => EventModel::TransportBinary(b@),
            RelayEvent::TransportIgnored => EventModel::TransportIgnored,
            RelayEvent::TransportClosed => EventModel::TransportClosed,
            RelayEvent::TransportFailed => EventModel::TransportFailed,
        }
    }
}

/// One thing the host must do on the session's two sides.
#[derive(Debug)]
pub enum RelayAction {
    /// Send the fixed 2-byte response marker on the transport.
    SendMarker,
    /// Send these bytes as one binary transport message.
    SendTransport(Vec<u8>),
    /// Close the transport with the code and text of the reason.
    SendClose(CloseReason),
    /// Write these bytes to the target connection.
    WriteTarget(Vec<u8>),
}

/// Mathematical form of a [`RelayAction`].
#[verifier::ext_equal]
pub enum ActionModel {
    SendMarker,
    SendTransport(Seq<u8>),
    SendClose(CloseReason),
    WriteTarget(Seq<u8>),
}

impl View for RelayAction {
    type V = ActionModel;

    open spec fn view(&self) -> ActionModel {
        match self {
            RelayAction::SendMarker => ActionModel::SendMarker,
            RelayAction::SendTransport(b) => ActionModel::SendTransport(b@),
            RelayAction::SendClose(r) => ActionModel::SendClose(*r),
            RelayAction::WriteTarget(b) => ActionModel::WriteTarget(b@),
        }
    }
}

impl DeepView for RelayAction {
    type V = ActionModel;

    open spec fn deep_view(&self) -> ActionModel {
        self.view()
    }
}

/// The relay transition: the state after one event and the actions it
/// causes, in the order the host must perform them.
pub open spec fn spec_step(s: RelayState, e: EventModel) -> (RelayState, Seq<ActionModel>) {
    match e {
        EventModel::TargetChunk(b) => if s is AwaitingFirstChunk {
            (
                RelayState::Streaming,
                seq![ActionModel::SendMarker, ActionModel::SendTransport(b)],
            )
        } else {
            (s, seq![ActionModel::SendTransport(b)])
        },
        EventModel::TargetEof => (
            RelayState::Closed,
            seq![ActionModel::SendClose(CloseReason::TargetClosed)],
        ),
        EventModel::TargetFailed => (RelayState::Closed, Seq::<ActionModel>::empty()),
        EventModel::TransportBinary(b) => (s, seq![ActionModel::WriteTarget(b)]),
        EventModel::TransportIgnored => (s, Seq::<ActionModel>::empty()),
        EventModel::TransportClosed => (RelayState::Closed, Seq::<ActionModel>::empty()),
        EventModel::TransportFailed => (RelayState::Closed, Seq::<ActionModel>::empty()),
    }
}

/// Handles one session event: returns the next state and the actions to
/// perform, exactly as [`spec_step`] states them.
pub fn step(state: RelayState, event: RelayEvent) -> (r: (RelayState, Vec<RelayAction>))
    ensures
        r.0 == spec_step(state, event@).0,
        r.1.deep_view() == spec_step(state, event@).1,
{
    let mut acts: Vec<RelayAction> = Vec::new();
    let next: RelayState = match event {
        RelayEvent::TargetChunk(b) => {
            if state == RelayState::AwaitingFirstChunk {
                acts.push(RelayAction::SendMarker);
                acts.push(RelayAction::SendTransport(b));
                RelayState::Streaming
            } else {
                acts.push(RelayAction::SendTransport(b));
                state
            }
        },
        RelayEvent::TargetEof => {
            acts.push(RelayAction::SendClose(CloseReason::TargetClosed));
            RelayState::Closed
        },
        RelayEvent::TargetFailed => RelayState::Closed,
        RelayEvent::TransportBinary(b) => {
            acts.push(RelayAction::WriteTarget(b));
            state
        },
        RelayEvent::TransportIgnored => state,
        RelayEvent::TransportClosed => RelayState::Closed,
        RelayEvent::TransportFailed => RelayState::Closed,
    };
    proof {
        assert(acts.deep_view() =~= spec_step(state, event@).1);
    }
    (next, acts)
}

/// Actions to perform after the target connection opens, before the event
/// loop: flush the inline handshake payload to the target, if any.
pub fn setup_actions(payload: Vec<u8>) -> (r: Vec<RelayAction>)
    ensures
        payload@.len() > 0 ==> r.deep_view() == seq![ActionModel::WriteTarget(payload@)],
        payload@.len() == 0 ==> r.deep_view() == Seq::<ActionModel>::empty(),
{
    let mut acts: Vec<RelayAction> = Vec::new();
    if payload.len() > 0 {
        let ghost p = payload@;
        acts.push(RelayAction::WriteTarget(payload));
        proof {
            assert(acts.deep_view() =~= seq![ActionModel::WriteTarget(p)]);
        }
    } else {
        proof {
            assert(acts.deep_view() =~= Seq::<ActionModel>::empty());
        }
    }
    acts
}

/// State of a session after the relay has handled these events in order,
/// stopping at the first that closes it.
pub open spec fn run_state(s: RelayState, evs: Seq<EventModel>) -> RelayState
    decreases evs.len(),
{
    if evs.len() == 0 || s is Closed {
        s
    } else {
        run_state(spec_step(s, evs[0]).0, evs.drop_first())
    }
}

/// All actions of a session that handles these events in order from state
/// `s`, stopping at the first that closes it.
pub open spec fn run_outputs(s: RelayState, evs: Seq<EventModel>) -> Seq<ActionModel>
    decreases evs.len(),
{
    if evs.len() == 0 || s is Closed {
        Seq::<ActionModel>::empty()
    } else {
        spec_step(s, evs[0]).1 + run_outputs(spec_step(s, evs[0]).0, evs.drop_first())
    }
}

/// Actions of a whole session, which starts awaiting the first chunk.
pub open spec fn relay_outputs(evs: Seq<EventModel>) -> Seq<ActionModel> {
    run_outputs(RelayState::AwaitingFirstChunk, evs)
}

/// How many actions of the sequence satisfy `p`.
pub open spec fn count_matching(acts: Seq<ActionModel>, p: spec_fn(ActionModel) -> bool) -> int
    decreases acts.len(),
{
    if acts.len() == 0 {
        0
    } else {
        (if p(acts[0]) {
            1int
        } else {
            0int
        }) + count_matching(acts.drop_first(), p)
    }
}

/// How many response markers the actions contain.
pub open spec fn count_markers(acts: Seq<ActionModel>) -> int {
    count_matching(acts, |a: ActionModel| a is SendMarker)
}

/// How many transport closes the actions contain.
pub open spec fn count_closes(acts: Seq<ActionModel>) -> int {
    count_matching(acts, |a: ActionModel| a is SendClose)
}

/// Counting distributes over concatenation.
pub proof fn lemma_count_matching_add(
    a: Seq<ActionModel>,
    b: Seq<ActionModel>,
    p: spec_fn(ActionModel) -> bool,
)
    ensures
        count_matching(a + b, p) == count_matching(a, p) + count_matching(b, p),
    decreases a.len(),
{
    if a.len() == 0 {
        assert(a + b =~= b);
    } else {
        assert((a + b).drop_first() =~= a.drop_first() + b);
        lemma_count_matching_add(a.drop_first(), b, p);
    }
}

/// Counts are never negative.
pub proof fn lemma_count_matching_nonneg(acts: Seq<ActionModel>, p: spec_fn(ActionModel) -> bool)
    ensures
        count_matching(acts, p) >= 0,
    decreases acts.len(),
{
    if acts.len() > 0 {
        lemma_count_matching_nonneg(acts.drop_first(), p);
    }
}

proof fn lemma_count_one(a: ActionModel, p: spec_fn(ActionModel) -> bool)
    ensures
        count_matching(seq![a], p) == if p(a) {
            1int
        } else {
            0int
        },
{
    assert(seq![a].drop_first() =~= Seq::<ActionModel>::empty());
    assert(count_matching(Seq::<ActionModel>::empty(), p) == 0);
    assert(seq![a].len() == 1 && seq![a][0] == a);
    assert(count_matching(seq![a], p) == (if p(a) {
        1int
    } else {
        0int
    }) + count_matching(seq![a].drop_first(), p));
}

proof fn lemma_count_two(a: ActionModel, b: ActionModel, p: spec_fn(ActionModel) -> bool)
    ensures
        count_matching(seq![a, b], p) == (if p(a) {
            1int
        } else {
            0int
        }) + (if p(b) {
            1int
        } else {
            0int
        }),
{
    assert(seq![a, b].drop_first() =~= seq![b]);
    lemma_count_one(b, p);
}

/// A run splits at any index: its outputs are those of the prefix followed
/// by those of the rest, run from the state the prefix reached.
pub proof fn lemma_run_decompose(s: RelayState, evs: Seq<EventModel>, i: int)
    requires
        0 <= i <= evs.len(),
    ensures
        run_state(s, evs) == run_state(run_state(s, evs.take(i)), evs.skip(i)),
        run_outputs(s, evs) == run_outputs(s, evs.take(i)) + run_outputs(
            run_state(s, evs.take(i)),
            evs.skip(i),
        ),
    decreases i,
{
    if i == 0 {
        assert(evs.take(0) =~= Seq::<EventModel>::empty());
        assert(evs.skip(0) =~= evs);
        assert(run_outputs(s, evs.take(0)) + run_outputs(s, evs) =~= run_outputs(s, evs));
    } else if s is Closed {
        assert(run_outputs(s, evs.take(i)) + run_outputs(run_state(s, evs.take(i)), evs.skip(i))
            =~= run_outputs(s, evs));
    } else {
        let s1 = spec_step(s, evs[0]).0;
        let acts = spec_step(s, evs[0]).1;
        lemma_run_decompose(s1, evs.drop_first(), i - 1);
        assert(evs.drop_first().take(i - 1) =~= evs.take(i).drop_first());
        assert(evs.drop_first().skip(i - 1) =~= evs.skip(i));
        assert(evs.take(i)[0] == evs[0]);
        assert(run_outputs(s, evs) =~= run_outputs(s, evs.take(i)) + run_outputs(
            run_state(s, evs.take(i)),
            evs.skip(i),
        ));
    }
}

/// The marker count of a run follows the state: none is owed once the
/// session is past its first chunk, and a session emits at most one.
pub proof fn lemma_marker_count_tracks_state(s: RelayState, evs: Seq<EventModel>)
    ensures
        !(s is AwaitingFirstChunk) ==> !(run_state(s, evs) is AwaitingFirstChunk),
        !(s is AwaitingFirstChunk) ==> count_markers(run_outputs(s, evs)) == 0,
        s is AwaitingFirstChunk && run_state(s, evs) is AwaitingFirstChunk ==> count_markers(
            run_outputs(s, evs),
        ) == 0,
        s is AwaitingFirstChunk ==> count_markers(run_outputs(s, evs)) <= 1,
        s is AwaitingFirstChunk && run_state(s, evs) is Streaming ==> count_markers(
            run_outputs(s, evs),
        ) == 1,
    decreases evs.len(),
{
    let p = |a: ActionModel| a is SendMarker;
    if evs.len() == 0 || s is Closed {
    } else {
        let s1 = spec_step(s, evs[0]).0;
        let acts = spec_step(s, evs[0]).1;
        lemma_marker_count_tracks_state(s1, evs.drop_first());
        lemma_count_matching_add(acts, run_outputs(s1, evs.drop_first()), p);
        lemma_count_matching_nonneg(run_outputs(s1, evs.drop_first()), p);
        match evs[0] {
            EventModel::TargetChunk(b) => {
                if s is AwaitingFirstChunk {
                    lemma_count_two(ActionModel::SendMarker, ActionModel::SendTransport(b), p);
                } else {
                    lemma_count_one(ActionModel::SendTransport(b), p);
                }
            },
            EventModel::TargetEof => {
                lemma_count_one(ActionModel::SendClose(CloseReason::TargetClosed), p);
            },
            EventModel::TransportBinary(b) => {
                lemma_count_one(ActionModel::WriteTarget(b), p);
            },
            _ => {},
        }
    }
}

/// No session ever sends the response marker twice.
pub proof fn lemma_marker_at_most_once(evs: Seq<EventModel>)
    ensures
        count_markers(relay_outputs(evs)) <= 1,
{
    lemma_marker_count_tracks_state(RelayState::AwaitingFirstChunk, evs);
}

/// The response marker is sent exactly once in every session in which the
/// target produced a chunk while the session was still open — whether the
/// target's response arrived in that one read or in many.
pub proof fn lemma_marker_exactly_once(evs: Seq<EventModel>, i: int)
    requires
        0 <= i < evs.len(),
        !(run_state(RelayState::AwaitingFirstChunk, evs.take(i)) is Closed),
        evs[i] is TargetChunk,
    ensures
        count_markers(relay_outputs(evs)) == 1,
{
    let p = |a: ActionModel| a is SendMarker;
    let s0 = RelayState::AwaitingFirstChunk;
    let si = run_state(s0, evs.take(i));
    let rest = evs.skip(i);
    lemma_run_decompose(s0, evs, i);
    lemma_marker_count_tracks_state(s0, evs.take(i));
    lemma_count_matching_add(run_outputs(s0, evs.take(i)), run_outputs(si, rest), p);
    assert(rest[0] == evs[i]);
    let s2 = spec_step(si, rest[0]).0;
    let acts = spec_step(si, rest[0]).1;
    lemma_count_matching_add(acts, run_outputs(s2, rest.drop_first()), p);
    lemma_marker_count_tracks_state(s2, rest.drop_first());
    match rest[0] {
        EventModel::TargetChunk(b) => {
            if si is AwaitingFirstChunk {
                lemma_count_two(ActionModel::SendMarker, ActionModel::SendTransport(b), p);
            } else {
                lemma_count_one(ActionModel::SendTransport(b), p);
            }
        },
        _ => {},
    }
}

/// A session that has seen only target chunks is still open and has sent
/// no close.
proof fn lemma_chunks_keep_open(s: RelayState, evs: Seq<EventModel>)
    requires
        !(s is Closed),
        forall|j: int| 0 <= j < evs.len() ==> evs[j] is TargetChunk,
    ensures
        !(run_state(s, evs) is Closed),
        count_closes(run_outputs(s, evs)) == 0,
    decreases evs.len(),
{
    let p = |a: ActionModel| a is SendClose;
    if evs.len() == 0 {
    } else {
        let s1 = spec_step(s, evs[0]).0;
        let acts = spec_step(s, evs[0]).1;
        assert(evs[0] is TargetChunk);
        match evs[0] {
            EventModel::TargetChunk(b) => {
                if s is AwaitingFirstChunk {
                    lemma_count_two(ActionModel::SendMarker, ActionModel::SendTransport(b), p);
                } else {
                    lemma_count_one(ActionModel::SendTransport(b), p);
                }
            },
            _ => {},
        }
        assert(forall|j: int|
            0 <= j < evs.drop_first().len() ==> evs.drop_first()[j] is TargetChunk);
        lemma_chunks_keep_open(s1, evs.drop_first());
        lemma_count_matching_add(acts, run_outputs(s1, evs.drop_first()), p);
    }
}

/// A target end-of-input after any number of prior chunks produces exactly
/// one close — the clean code — as the very last action: nothing further
/// is sent on the transport in that session.
pub proof fn lemma_target_eof_closes_once(evs: Seq<EventModel>, i: int)
    requires
        0 <= i < evs.len(),
        forall|j: int| 0 <= j < i ==> evs[j] is TargetChunk,
        evs[i] is TargetEof,
    ensures
        relay_outputs(evs) == relay_outputs(evs.take(i)) + seq![
            ActionModel::SendClose(CloseReason::TargetClosed),
        ],
        count_closes(relay_outputs(evs)) == 1,
{
    let p = |a: ActionModel| a is SendClose;
    let s0 = RelayState::AwaitingFirstChunk;
    lemma_run_decompose(s0, evs, i);
    assert(forall|j: int| 0 <= j < evs.take(i).len() ==> evs.take(i)[j] is TargetChunk);
    lemma_chunks_keep_open(s0, evs.take(i));
    let si = run_state(s0, evs.take(i));
    let rest = evs.skip(i);
    assert(rest[0] == evs[i]);
    let s2 = spec_step(si, rest[0]).0;
    let acts = spec_step(si, rest[0]).1;
    assert(run_outputs(si, rest) == acts + run_outputs(s2, rest.drop_first()));
    assert(run_outputs(s2, rest.drop_first()) =~= Seq::<ActionModel>::empty());
    assert(run_outputs(si, rest) =~= seq![ActionModel::SendClose(CloseReason::TargetClosed)]);
    lemma_count_matching_add(run_outputs(s0, evs.take(i)), run_outputs(si, rest), p);
    lemma_count_one(ActionModel::SendClose(CloseReason::TargetClosed), p);
}

/// A transport close received while the session is open stops everything
/// at once: the session's actions are exactly those before the close, the
/// state is closed right after it, and no later event — in particular no
/// later target read — contributes anything.
pub proof fn lemma_transport_close_stops(evs: Seq<EventModel>, i: int)
    requires
        0 <= i < evs.len(),
        !(run_state(RelayState::AwaitingFirstChunk, evs.take(i)) is Closed),
        evs[i] is TransportClosed,
    ensures
        relay_outputs(evs) == relay_outputs(evs.take(i)),
        run_state(RelayState::AwaitingFirstChunk, evs.take(i + 1)) is Closed,
{
    let s0 = RelayState::AwaitingFirstChunk;
    let si = run_state(s0, evs.take(i));
    let rest = evs.skip(i);
    lemma_run_decompose(s0, evs, i);
    assert(rest[0] == evs[i]);
    let s2 = spec_step(si, rest[0]).0;
    let acts = spec_step(si, rest[0]).1;
    assert(run_outputs(si, rest) == acts + run_outputs(s2, rest.drop_first()));
    assert(run_outputs(s2, rest.drop_first()) =~= Seq::<ActionModel>::empty());
    assert(run_outputs(si, rest) =~= Seq::<ActionModel>::empty());
    assert(relay_outputs(evs) =~= relay_outputs(evs.take(i)));
    lemma_run_decompose(s0, evs.take(i + 1), i);
    assert(evs.take(i + 1).take(i) =~= evs.take(i));
    assert(evs.take(i + 1).skip(i) =~= seq![evs[i]]);
    assert(seq![evs[i]].drop_first() =~= Seq::<EventModel>::empty());
    assert(seq![evs[i]][0] == evs[i]);
    assert(run_state(si, seq![evs[i]]) == run_state(
        spec_step(si, evs[i]).0,
        seq![evs[i]].drop_first(),
    ));
    assert(spec_step(si, evs[i]).0 is Closed);
}

} // verus!
