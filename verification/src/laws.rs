//! What holds of every node, proved over the state machine of
//! [`crate::model`].

use crate::assoc::{
    has_key, lemma_map_size, lemma_position_unique, lemma_put, lemma_without, position, put,
    without, Entries,
};
use crate::model::{
    closed, greeting_for, greeting_text, run, step, tick_actions, ActionView, Direction,
    DisconnectReason, EventView, NodeState,
};
use crate::protocol::{Greeting, PROTOCOL};
use crate::tracker::lemma_learn;
use vstd::prelude::*;

verus! {

/// Every step keeps the state well-formed and the node's identifier.
pub proof fn lemma_step_keeps_wf(s: NodeState, event: EventView)
    requires
        s.wf(),
    ensures
        step(s, event).0.wf(),
        step(s, event).0.local == s.local,
{
    match event {
        EventView::ConnectionEstablished { peer, address, direction } => {
            lemma_put(s.outbound, peer, address);
            lemma_put(s.inbound, peer, address);
        },
        EventView::ConnectionClosed { peer } => {
            lemma_without(s.outbound, peer);
            lemma_without(s.inbound, peer);
        },
        EventView::ResponseReceived { peer, response } => {
            lemma_learn(s.candidates, response.address);
        },
        _ => {},
    }
}

/// Every run keeps the state well-formed and the node's identifier.
pub proof fn lemma_run_keeps_wf(s: NodeState, events: Seq<EventView>)
    requires
        s.wf(),
    ensures
        run(s, events).0.wf(),
        run(s, events).0.local == s.local,
    decreases events.len(),
{
    if events.len() > 0 {
        lemma_run_keeps_wf(s, events.drop_last());
        lemma_step_keeps_wf(run(s, events.drop_last()).0, events.last());
    }
}

/// A run over `a + b` is the run over `a` followed by the run over `b`.
pub proof fn lemma_run_concat(s: NodeState, a: Seq<EventView>, b: Seq<EventView>)
    ensures
        run(s, a + b).0 == run(run(s, a).0, b).0,
        run(s, a + b).1 == run(s, a).1 + run(run(s, a).0, b).1,
    decreases b.len(),
{
    if b.len() == 0 {
        assert(a + b =~= a);
        assert(run(s, a).1 + Seq::<ActionView>::empty() =~= run(s, a).1);
    } else {
        assert((a + b).drop_last() =~= a + b.drop_last());
        assert((a + b).last() == b.last());
        lemma_run_concat(s, a, b.drop_last());
        let mid = run(s, a).0;
        let before = run(mid, b.drop_last());
        let latest = step(before.0, b.last()).1;
        assert((run(s, a).1 + before.1) + latest =~= run(s, a).1 + (before.1 + latest));
    }
}

/// A run over one event is one step.
pub proof fn lemma_run_one(s: NodeState, event: EventView)
    ensures
        run(s, seq![event]) == step(s, event),
{
    let events = seq![event];
    assert(events.drop_last() =~= Seq::<EventView>::empty());
    assert(events.last() == event);
    assert(run(s, events.drop_last()) == (s, Seq::<ActionView>::empty()));
    assert(Seq::<ActionView>::empty() + step(s, event).1 =~= step(s, event).1);
}

/// The event announces `peer`: discovery found it.
pub open spec fn announces(event: EventView, peer: Seq<u8>) -> bool {
    event matches EventView::Discovered { peer: p, .. } && p == peer
}

/// The event withdraws `peer`: its discovery record expired.
pub open spec fn withdraws(event: EventView, peer: Seq<u8>) -> bool {
    event == (EventView::Expired { peer })
}

/// No event from index `from` on withdraws `peer`.
pub open spec fn not_withdrawn_from(events: Seq<EventView>, peer: Seq<u8>, from: int) -> bool {
    forall|j: int| from <= j < events.len() ==> !withdraws(#[trigger] events[j], peer)
}

/// Some event announces `peer` and none after it withdraws `peer`.
pub open spec fn discovered_and_not_expired(events: Seq<EventView>, peer: Seq<u8>) -> bool {
    exists|i: int|
        0 <= i < events.len() && announces(#[trigger] events[i], peer) && not_withdrawn_from(
            events,
            peer,
            i + 1,
        )
}

/// One step changes the membership of `peer` among the seen peers only by
/// announcing or withdrawing it.
proof fn lemma_seen_step(s: NodeState, event: EventView, peer: Seq<u8>)
    ensures
        step(s, event).0.seen.contains(peer) == (if withdraws(event, peer) {
            false
        } else if announces(event, peer) {
            peer != s.local || s.seen.contains(peer)
        } else {
            s.seen.contains(peer)
        }),
{
}

/// After any events, a peer is seen exactly when it is another node that
/// was discovered and has not expired since, or when it was seen before and
/// has not expired at all.
pub proof fn lemma_seen_after_run(s: NodeState, events: Seq<EventView>, peer: Seq<u8>)
    ensures
        run(s, events).0.local == s.local,
        run(s, events).0.seen.contains(peer) == ((peer != s.local && discovered_and_not_expired(
            events,
            peer,
        )) || (s.seen.contains(peer) && not_withdrawn_from(events, peer, 0))),
    decreases events.len(),
{
    if events.len() > 0 {
        let init = events.drop_last();
        let last = events.last();
        let n = init.len() as int;
        let mid = run(s, init).0;
        lemma_seen_after_run(s, init, peer);
        lemma_seen_step(mid, last, peer);
        assert(events[n] == last);
        assert forall|j: int| 0 <= j < n implies #[trigger] events[j] == init[j] by {}
        if withdraws(last, peer) {
            assert(!not_withdrawn_from(events, peer, 0));
            if discovered_and_not_expired(events, peer) {
                let i = choose|i: int|
                    0 <= i < events.len() && announces(#[trigger] events[i], peer)
                        && not_withdrawn_from(events, peer, i + 1);
                assert(i < n);
                assert(withdraws(events[n], peer));
            }
        } else {
            assert(not_withdrawn_from(events, peer, 0) == not_withdrawn_from(init, peer, 0)) by {
                if not_withdrawn_from(init, peer, 0) {
                    assert forall|j: int| 0 <= j < events.len() implies !withdraws(
                        #[trigger] events[j],
                        peer,
                    ) by {
                        if j < n {
                            assert(events[j] == init[j]);
                        }
                    }
                }
                if not_withdrawn_from(events, peer, 0) {
                    assert forall|j: int| 0 <= j < init.len() implies !withdraws(
                        #[trigger] init[j],
                        peer,
                    ) by {
                        assert(events[j] == init[j]);
                    }
                }
            }
            if announces(last, peer) {
                assert(announces(events[n], peer) && not_withdrawn_from(events, peer, n + 1));
            } else {
                if discovered_and_not_expired(events, peer) {
                    let i = choose|i: int|
                        0 <= i < events.len() && announces(#[trigger] events[i], peer)
                            && not_withdrawn_from(events, peer, i + 1);
                    assert(i < n);
                    assert(events[i] == init[i]);
                    assert forall|j: int| i + 1 <= j < init.len() implies !withdraws(
                        #[trigger] init[j],
                        peer,
                    ) by {
                        assert(events[j] == init[j]);
                    }
                    assert(announces(init[i], peer) && not_withdrawn_from(init, peer, i + 1));
                }
                if discovered_and_not_expired(init, peer) {
                    let i = choose|i: int|
                        0 <= i < init.len() && announces(#[trigger] init[i], peer)
                            && not_withdrawn_from(init, peer, i + 1);
                    assert(events[i] == init[i]);
                    assert forall|j: int| i + 1 <= j < events.len() implies !withdraws(
                        #[trigger] events[j],
                        peer,
                    ) by {
                        if j < n {
                            assert(events[j] == init[j]);
                        }
                    }
                    assert(announces(events[i], peer) && not_withdrawn_from(events, peer, i + 1));
                }
            }
        }
    }
}

/// From its start, a node has seen exactly the other peers that were
/// discovered and have not expired since, whatever events it took.
pub proof fn lemma_seen_is_discovered_and_not_expired(local: Seq<u8>, events: Seq<EventView>)
    ensures
        run(NodeState::start(local), events).0.seen == Set::new(
            |peer: Seq<u8>| peer != local && discovered_and_not_expired(events, peer),
        ),
{
    let after = run(NodeState::start(local), events).0.seen;
    let expected = Set::new(
        |peer: Seq<u8>| peer != local && discovered_and_not_expired(events, peer),
    );
    assert forall|peer: Seq<u8>| after.contains(peer) == expected.contains(peer) by {
        lemma_seen_after_run(NodeState::start(local), events, peer);
    }
    assert(after =~= expected);
}

/// The state in which the event at index `i` is taken.
pub open spec fn state_before(s: NodeState, events: Seq<EventView>, i: int) -> NodeState {
    run(s, events.take(i)).0
}

/// The event at index `i` is a discovery that puts a request to dial its
/// peer into the queue.
pub open spec fn enqueues_dial(s: NodeState, events: Seq<EventView>, i: int) -> bool {
    events[i] matches EventView::Discovered { peer, address } && state_before(
        s,
        events,
        i + 1,
    ).dials == state_before(s, events, i).dials.push((peer, address))
}

/// Between two discoveries of one peer that each put a dial request into
/// the queue, the peer has expired.
pub proof fn lemma_no_second_dial_without_expiry(
    s: NodeState,
    events: Seq<EventView>,
    i: int,
    j: int,
    peer: Seq<u8>,
)
    requires
        0 <= i < j < events.len(),
        announces(events[i], peer),
        announces(events[j], peer),
        enqueues_dial(s, events, i),
        enqueues_dial(s, events, j),
    ensures
        exists|k: int| i < k < j && withdraws(#[trigger] events[k], peer),
{
    let at_i = state_before(s, events, i);
    let after_i = state_before(s, events, i + 1);
    let at_j = state_before(s, events, j);
    let after_j = state_before(s, events, j + 1);
    let between = events.subrange(i + 1, j);
    // The step at `i` is a discovery that changed the queue, so it recorded the peer.
    assert(events.take(i + 1).drop_last() =~= events.take(i));
    assert(events.take(i + 1).last() == events[i]);
    assert(after_i == step(at_i, events[i]).0);
    assert(after_i.dials.len() == at_i.dials.len() + 1);
    assert(after_i.seen.contains(peer));
    // The step at `j` changed the queue, so the peer was not seen then.
    assert(events.take(j + 1).drop_last() =~= events.take(j));
    assert(events.take(j + 1).last() == events[j]);
    assert(after_j == step(at_j, events[j]).0);
    assert(after_j.dials.len() == at_j.dials.len() + 1);
    assert(!at_j.seen.contains(peer));
    // So something in between withdrew the peer.
    assert(events.take(j) =~= events.take(i + 1) + between);
    lemma_run_concat(s, events.take(i + 1), between);
    lemma_seen_after_run(after_i, between, peer);
    assert(!not_withdrawn_from(between, peer, 0));
    let m = choose|m: int| 0 <= m < between.len() && withdraws(#[trigger] between[m], peer);
    assert(between[m] == events[i + 1 + m]);
    assert(withdraws(events[i + 1 + m], peer));
}

/// Closing the connection with a peer removes it from the outbound and
/// from the inbound map, whatever they held, and leaves every other entry.
pub proof fn lemma_close_clears_both_maps(s: NodeState, peer: Seq<u8>)
    requires
        s.wf(),
    ensures
        step(s, EventView::ConnectionClosed { peer }).0 == closed(s, peer),
        !closed(s, peer).outbound_map().contains_key(peer),
        !closed(s, peer).inbound_map().contains_key(peer),
        !closed(s, peer).connected(peer),
        closed(s, peer).outbound_map() == s.outbound_map().remove(peer),
        closed(s, peer).inbound_map() == s.inbound_map().remove(peer),
{
    lemma_without(s.outbound, peer);
    lemma_without(s.inbound, peer);
}

/// A handshake of another node with a protocol identifier that differs
/// from this node's gives exactly one disconnect, of that peer, and leaves
/// the state as it is.
pub proof fn lemma_mismatch_gives_one_disconnect(
    s: NodeState,
    peer: Seq<u8>,
    protocol: Seq<char>,
)
    requires
        peer != s.local,
        protocol != PROTOCOL@,
    ensures
        step(s, EventView::Identified { peer, protocol }) == (
            s,
            seq![ActionView::Disconnect { peer, reason: DisconnectReason::ProtocolMismatch }],
        ),
{
}

/// A handshake with this node's protocol identifier, or of this node
/// itself, gives no action.
pub proof fn lemma_match_is_silent(s: NodeState, peer: Seq<u8>, protocol: Seq<char>)
    requires
        peer == s.local || protocol == PROTOCOL@,
    ensures
        step(s, EventView::Identified { peer, protocol }) == (s, Seq::<ActionView>::empty()),
{
}

/// The action sends a greeting to `peer`.
pub open spec fn greets(action: ActionView, peer: Seq<u8>) -> bool {
    action matches ActionView::SendRequest { peer: p, .. } && p == peer
}

/// The event registers an outbound connection with `peer`.
pub open spec fn opens_outbound(event: EventView, peer: Seq<u8>) -> bool {
    event matches EventView::ConnectionEstablished { peer: p, direction, .. } && p == peer
        && direction == Direction::Outbound
}

/// Storing another key does not bring in `k`.
proof fn lemma_put_other(s: Entries, q: Seq<u8>, v: Seq<u8>, k: Seq<u8>)
    requires
        !has_key(s, k),
        q != k,
    ensures
        !has_key(put(s, q, v), k),
{
    let t = put(s, q, v);
    if has_key(t, k) {
        let i = position(t, k);
        assert(0 <= i < t.len() && t[i].0 == k);
        if has_key(s, q) {
            assert(s[i].0 == k);
        } else {
            assert(i < s.len());
            assert(s[i].0 == k);
        }
    }
}

/// Dropping a key does not bring in `k`.
proof fn lemma_without_other(s: Entries, q: Seq<u8>, k: Seq<u8>)
    requires
        !has_key(s, k),
    ensures
        !has_key(without(s, q), k),
{
    let t = without(s, q);
    if has_key(t, k) {
        let i = position(t, k);
        assert(0 <= i < t.len() && t[i].0 == k);
        if has_key(s, q) {
            let p = position(s, q);
            let a = if i < p { i } else { i + 1 };
            assert(t[i] == s[a]);
            assert(s[a].0 == k);
        }
    }
}

/// A peer without an outbound entry gets no greeting, and gets none until
/// an outbound connection with it is registered.
pub proof fn lemma_no_greeting_without_outbound(
    s: NodeState,
    events: Seq<EventView>,
    peer: Seq<u8>,
)
    requires
        !has_key(s.outbound, peer),
        forall|i: int| 0 <= i < events.len() ==> !opens_outbound(#[trigger] events[i], peer),
    ensures
        !has_key(run(s, events).0.outbound, peer),
        forall|k: int|
            0 <= k < run(s, events).1.len() ==> !greets(#[trigger] run(s, events).1[k], peer),
    decreases events.len(),
{
    if events.len() > 0 {
        let init = events.drop_last();
        let last = events.last();
        assert forall|i: int| 0 <= i < init.len() implies !opens_outbound(
            #[trigger] init[i],
            peer,
        ) by {
            assert(init[i] == events[i]);
        }
        lemma_no_greeting_without_outbound(s, init, peer);
        let mid = run(s, init).0;
        let earlier = run(s, init).1;
        let latest = step(mid, last).1;
        assert(last == events[events.len() - 1]);
        assert(!opens_outbound(last, peer));
        match last {
            EventView::ConnectionEstablished { peer: q, address, direction } => {
                if direction == Direction::Outbound {
                    lemma_put_other(mid.outbound, q, address, peer);
                }
            },
            EventView::ConnectionClosed { peer: q } => {
                lemma_without_other(mid.outbound, q, peer);
            },
            _ => {},
        }
        assert forall|k: int| 0 <= k < latest.len() implies !greets(#[trigger] latest[k], peer) by {
            if last is Tick {
                assert(latest[k] == greeting_for(mid.outbound[k], mid.primary));
                assert(mid.outbound[k].0 != peer);
            }
        }
        let all = run(s, events).1;
        assert(all == earlier + latest);
        assert forall|k: int| 0 <= k < all.len() implies !greets(#[trigger] all[k], peer) by {
            if k < earlier.len() {
                assert(all[k] == earlier[k]);
            } else {
                assert(all[k] == latest[k - earlier.len()]);
            }
        }
    }
}

/// Once the connection with a peer is closed, the peer takes part in no
/// greeting exchange until an outbound connection with it is registered
/// again.
pub proof fn lemma_closed_peer_gets_no_greeting(
    s: NodeState,
    peer: Seq<u8>,
    events: Seq<EventView>,
)
    requires
        s.wf(),
        forall|i: int| 0 <= i < events.len() ==> !opens_outbound(#[trigger] events[i], peer),
    ensures
        forall|k: int|
            0 <= k < run(closed(s, peer), events).1.len() ==> !greets(
                #[trigger] run(closed(s, peer), events).1[k],
                peer,
            ),
{
    lemma_without(s.outbound, peer);
    lemma_no_greeting_without_outbound(closed(s, peer), events, peer);
}

/// A tick with N peers in the outbound map gives exactly N actions. Each is
/// a greeting to one of those peers, with the address stored for it and with
/// the text of the primary address of that moment; no peer is greeted twice
/// and none is left out. The state stays as it is.
pub proof fn lemma_tick_greets_each_outbound_peer_once(s: NodeState)
    requires
        s.wf(),
    ensures
        step(s, EventView::Tick) == (s, tick_actions(s)),
        s.outbound_map().dom().finite(),
        tick_actions(s).len() == s.outbound_map().dom().len(),
        forall|i: int|
            0 <= i < tick_actions(s).len() ==> (#[trigger] tick_actions(s)[i] matches ActionView::SendRequest {
                peer,
                request,
            } && s.outbound_map().contains_key(peer) && request == (Greeting {
                message: greeting_text(s.primary),
                address: s.outbound_map()[peer],
            })),
        forall|i: int, j: int|
            0 <= i < j < tick_actions(s).len() ==> tick_actions(s)[i]->SendRequest_peer
                != tick_actions(s)[j]->SendRequest_peer,
        forall|peer: Seq<u8>|
            s.outbound_map().contains_key(peer) ==> exists|i: int|
                0 <= i < tick_actions(s).len() && greets(#[trigger] tick_actions(s)[i], peer),
{
    let acts = tick_actions(s);
    lemma_map_size(s.outbound);
    assert forall|i: int| 0 <= i < acts.len() implies (#[trigger] acts[i] matches ActionView::SendRequest {
        peer,
        request,
    } && s.outbound_map().contains_key(peer) && request == (Greeting {
        message: greeting_text(s.primary),
        address: s.outbound_map()[peer],
    })) by {
        lemma_position_unique(s.outbound, s.outbound[i].0, i);
    }
    assert forall|i: int, j: int| 0 <= i < j < acts.len() implies acts[i]->SendRequest_peer
        != acts[j]->SendRequest_peer by {
        assert(s.outbound[i].0 != s.outbound[j].0);
    }
    assert forall|peer: Seq<u8>| s.outbound_map().contains_key(peer) implies exists|i: int|
        0 <= i < acts.len() && greets(#[trigger] acts[i], peer) by {
        let i = position(s.outbound, peer);
        assert(0 <= i < s.outbound.len() && s.outbound[i].0 == peer);
        assert(greets(acts[i], peer));
    }
}

/// Receiving a greeting response with some address once or twice gives the
/// same state: the candidate pool holds the address, and holds it once.
pub proof fn lemma_response_is_idempotent(
    s: NodeState,
    first_peer: Seq<u8>,
    first: Greeting,
    second_peer: Seq<u8>,
    second: Greeting,
)
    requires
        s.wf(),
        first.address == second.address,
    ensures
        ({
            let once = step(s, EventView::ResponseReceived { peer: first_peer, response: first }).0;
            let twice = step(
                once,
                EventView::ResponseReceived { peer: second_peer, response: second },
            ).0;
            &&& twice == once
            &&& once.candidates.contains(first.address)
            &&& once.candidates.no_duplicates()
            &&& once.candidate_set() == s.candidate_set().insert(first.address)
            &&& once.primary == s.primary
        }),
{
    lemma_learn(s.candidates, first.address);
}

/// The candidate pool only grows: what it holds, it holds after any events.
pub proof fn lemma_candidates_only_grow(s: NodeState, events: Seq<EventView>, address: Seq<u8>)
    requires
        s.candidates.contains(address),
    ensures
        run(s, events).0.candidates.contains(address),
    decreases events.len(),
{
    if events.len() > 0 {
        lemma_candidates_only_grow(s, events.drop_last(), address);
        let mid = run(s, events.drop_last()).0;
        match events.last() {
            EventView::ResponseReceived { peer, response } => {
                if !mid.candidates.contains(response.address) {
                    let i = choose|i: int|
                        0 <= i < mid.candidates.len() && mid.candidates[i] == address;
                    assert(mid.candidates.push(response.address)[i] == address);
                }
            },
            _ => {},
        }
    }
}

/// A peer that expired is treated as new when discovery finds it again: it
/// is seen again and a request to dial it joins the queue.
pub proof fn lemma_rediscovery_after_expiry(
    s: NodeState,
    peer: Seq<u8>,
    address: Seq<u8>,
)
    requires
        peer != s.local,
    ensures
        ({
            let gone = step(s, EventView::Expired { peer }).0;
            let back = step(gone, EventView::Discovered { peer, address }).0;
            &&& !gone.seen.contains(peer)
            &&& back.seen.contains(peer)
            &&& back.dials == s.dials.push((peer, address))
        }),
{
}

/// `n` times the event that the consumer of the dial queue is ready.
pub open spec fn dial_ready_events(n: nat) -> Seq<EventView> {
    Seq::new(n, |i: int| EventView::DialReady)
}

/// The dial queue is first in, first out, and every request is dialed once:
/// taking `n` requests dials the `n` oldest in the order in which they
/// joined, and leaves the others in the queue.
pub proof fn lemma_dials_leave_in_order(s: NodeState, n: nat)
    requires
        n <= s.dials.len(),
    ensures
        run(s, dial_ready_events(n)).0 == (NodeState { dials: s.dials.skip(n as int), ..s }),
        run(s, dial_ready_events(n)).1 == Seq::new(
            n,
            |i: int| ActionView::Dial { peer: s.dials[i].0, address: s.dials[i].1 },
        ),
    decreases n,
{
    let events = dial_ready_events(n);
    let expected = Seq::new(
        n,
        |i: int| ActionView::Dial { peer: s.dials[i].0, address: s.dials[i].1 },
    );
    if n == 0 {
        assert(s.dials.skip(0) =~= s.dials);
        assert(run(s, events).1 =~= expected);
    } else {
        let m = (n - 1) as nat;
        assert(events.drop_last() =~= dial_ready_events(m));
        assert(events.last() == EventView::DialReady);
        lemma_dials_leave_in_order(s, m);
        let mid = run(s, dial_ready_events(m)).0;
        assert(mid.dials.len() > 0);
        assert(mid.dials[0] == s.dials[m as int]);
        assert(mid.dials.drop_first() =~= s.dials.skip(n as int));
        assert(run(s, events).1 =~= expected);
    }
}

} // verus!
