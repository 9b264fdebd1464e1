//! What holds of the tables by everything the engine has seen since it was
//! new.

use crate::alert::Alert;
use crate::engine::{Tables, TcpEvent};
use crate::identity::{FlowIdentity, HostPair, IcmpKey, Timestamp};
use crate::laws::law_step_keeps_settled;
use crate::registry::lookup;
use crate::syn_scan::{stalled_counts, stalled_flows, SYN_ALERT_THRESHOLD};
use crate::udp_scan::{messages_seen, DESTINATION_UNREACHABLE};
use vstd::prelude::*;

verus! {

/// What one frame was decoded to, and when it was seen.
pub struct Observation {
    pub tcp: Option<TcpEvent>,
    pub icmp: Option<IcmpKey>,
    pub now: Timestamp,
}

impl Tables {
    /// The tables after one step for each frame of `seen`, in turn.
    pub open spec fn after(self, seen: Seq<Observation>) -> Tables
        decreases seen.len(),
    {
        if seen.len() == 0 {
            self
        } else {
            let last = seen.last();
            self.after(seen.drop_last()).step(last.tcp, last.icmp, last.now)
        }
    }

    /// The alerts that the frame `next` raises.
    pub open spec fn alerts_of(self, next: Observation) -> Set<Alert> {
        self.raised(next.tcp, next.icmp, next.now)
    }
}

/// The tables of an engine that was new before it saw the frames of `seen`.
pub open spec fn history(seen: Seq<Observation>) -> Tables {
    Tables::empty().after(seen)
}

/// How many frames of `seen` are ICMP messages counted under `key`.
pub open spec fn messages_in(seen: Seq<Observation>, key: IcmpKey) -> nat
    decreases seen.len(),
{
    if seen.len() == 0 {
        0
    } else {
        messages_in(seen.drop_last(), key) + if seen.last().icmp == Some(key) {
            1nat
        } else {
            0nat
        }
    }
}

/// The frame is a segment of `flow` that carries the anonymous user name.
pub open spec fn carries_user(frame: Observation, flow: FlowIdentity) -> bool {
    frame.tcp matches Some(event) && event.flow == flow && event.anon_user
}

/// The frame is a segment of `flow` that carries the anonymous password.
pub open spec fn carries_pass(frame: Observation, flow: FlowIdentity) -> bool {
    frame.tcp matches Some(event) && event.flow == flow && event.anon_pass
}

/// The frame is a segment of `flow` with the SYN flag.
pub open spec fn carries_syn(frame: Observation, flow: FlowIdentity) -> bool {
    frame.tcp matches Some(event) && event.flow == flow && event.flags.syn
}

/// The frame is a segment of `flow` with the FIN flag.
pub open spec fn carries_fin(frame: Observation, flow: FlowIdentity) -> bool {
    frame.tcp matches Some(event) && event.flow == flow && event.flags.fin
}

/// The frame is a segment of `flow` with the ACK flag.
pub open spec fn carries_ack(frame: Observation, flow: FlowIdentity) -> bool {
    frame.tcp matches Some(event) && event.flow == flow && event.flags.ack
}

/// The frame is a segment of `flow`.
pub open spec fn belongs_to(frame: Observation, flow: FlowIdentity) -> bool {
    frame.tcp matches Some(event) && event.flow == flow
}

/// Some frame of `seen` meets `test`.
pub open spec fn some_frame(seen: Seq<Observation>, test: spec_fn(Observation) -> bool) -> bool {
    exists|i: int| 0 <= i < seen.len() && test(#[trigger] seen[i])
}

/// The number of flows between the hosts of `pair` that were stalled when
/// the frame `at` of `seen` was swept.
pub open spec fn stalled_at(seen: Seq<Observation>, at: int, pair: HostPair) -> nat {
    stalled_flows(
        history(seen.take(at)).with_tcp(seen[at].tcp, seen[at].now).flows,
        seen[at].now,
        pair,
    ).len()
}

/// The sweep of some frame of `seen` found `pair` over the threshold.
pub open spec fn went_over(seen: Seq<Observation>, pair: HostPair) -> bool {
    exists|at: int|
        0 <= at < seen.len() && #[trigger] stalled_at(seen, at, pair) > SYN_ALERT_THRESHOLD
}

/// The frame `at` of `seen` is the first segment of `flow` in `seen`.
pub open spec fn is_first_of(seen: Seq<Observation>, at: int, flow: FlowIdentity) -> bool {
    &&& 0 <= at < seen.len()
    &&& belongs_to(seen[at], flow)
    &&& forall|earlier: int| 0 <= earlier < at ==> !belongs_to(#[trigger] seen[earlier], flow)
}

/// Some frame meets a test exactly when the last frame does or one before it.
proof fn lemma_some_frame_unfolds(seen: Seq<Observation>, test: spec_fn(Observation) -> bool)
    requires
        seen.len() > 0,
    ensures
        some_frame(seen, test) <==> some_frame(seen.drop_last(), test) || test(seen.last()),
{
    let rest = seen.drop_last();
    if some_frame(seen, test) {
        let i = choose|i: int| 0 <= i < seen.len() && test(#[trigger] seen[i]);
        if i < rest.len() {
            assert(rest[i] == seen[i]);
        }
    }
    if some_frame(rest, test) {
        let i = choose|i: int| 0 <= i < rest.len() && test(#[trigger] rest[i]);
        assert(seen[i] == rest[i]);
    }
    if test(seen.last()) {
        assert(test(seen[seen.len() - 1]));
    }
}

/// No more messages are counted under a key than frames were seen.
proof fn lemma_messages_are_bounded(seen: Seq<Observation>, key: IcmpKey)
    ensures
        messages_in(seen, key) <= seen.len(),
    decreases seen.len(),
{
    if seen.len() > 0 {
        lemma_messages_are_bounded(seen.drop_last(), key);
    }
}

/// The count under a key goes up by one with each of its messages: an
/// engine that was new and has seen `seen` holds, under `key`, the number of
/// frames of `seen` that are ICMP messages counted under `key`.
pub proof fn law_count_of_a_history(seen: Seq<Observation>, key: IcmpKey)
    requires
        seen.len() <= u64::MAX,
    ensures
        messages_seen(lookup(history(seen).icmp, key)) == messages_in(seen, key),
    decreases seen.len(),
{
    if seen.len() > 0 {
        law_count_of_a_history(seen.drop_last(), key);
        lemma_messages_are_bounded(seen.drop_last(), key);
    }
}

/// An engine that was new is settled after whatever it has seen.
pub proof fn law_history_is_settled(seen: Seq<Observation>)
    requires
        seen.len() <= u64::MAX,
    ensures
        history(seen).settled(),
    decreases seen.len(),
{
    if seen.len() > 0 {
        let rest = seen.drop_last();
        let last = seen.last();
        law_history_is_settled(rest);
        if let Some(key) = last.icmp {
            law_count_of_a_history(rest, key);
            lemma_messages_are_bounded(rest, key);
        }
        law_step_keeps_settled(history(rest), last.tcp, last.icmp, last.now);
    }
}

/// Of the destination-unreachable messages from one host to another, the
/// eleventh raises the alert, and no other frame does: an engine that was
/// new and has seen `seen` raises the alert of `key` for the frame `next`
/// exactly when `next` is an ICMP message counted under `key`, the type of
/// `key` is destination unreachable, and ten messages were counted under
/// `key` before.
pub proof fn law_eleventh_unreachable_of_a_history(
    seen: Seq<Observation>,
    next: Observation,
    key: IcmpKey,
)
    requires
        seen.len() < u64::MAX,
    ensures
        history(seen).alerts_of(next).contains(Alert::UdpScan { key }) <==> next.icmp == Some(key)
            && key.message_type == DESTINATION_UNREACHABLE && messages_in(seen, key) == 10,
{
    law_history_is_settled(seen);
    law_count_of_a_history(seen, key);
    lemma_messages_are_bounded(seen, key);
    let tables = history(seen);
    if tables.icmp.contains_key(key) {
        assert(tables.icmp[key].count >= 1);
    }
}

/// What the login table holds of a flow is what the segments of the flow
/// carried: an entry once either credential was seen, each credential
/// marked exactly when some segment carried it.
proof fn lemma_login_is_credentials_seen(seen: Seq<Observation>, flow: FlowIdentity)
    requires
        seen.len() <= u64::MAX,
    ensures
        ({
            let user = some_frame(seen, |frame: Observation| carries_user(frame, flow));
            let pass = some_frame(seen, |frame: Observation| carries_pass(frame, flow));
            let known = lookup(history(seen).ftp, flow);
            &&& known is Some <==> user || pass
            &&& known matches Some(login) ==> login.anon_user_seen == user && login.anon_pass_seen
                == pass
        }),
    decreases seen.len(),
{
    let user_test = |frame: Observation| carries_user(frame, flow);
    let pass_test = |frame: Observation| carries_pass(frame, flow);
    if seen.len() > 0 {
        lemma_login_is_credentials_seen(seen.drop_last(), flow);
        lemma_some_frame_unfolds(seen, user_test);
        lemma_some_frame_unfolds(seen, pass_test);
    }
}

/// An anonymous login is reported once, by the segment that completes it:
/// an engine that was new and has seen `seen` raises the alert of `flow`
/// for the frame `next` exactly when `next` is a segment of `flow`, both
/// credentials were carried by segments of `flow` up to and with `next`, and
/// not both by segments before `next`.
pub proof fn law_login_of_a_history_alerts_once(
    seen: Seq<Observation>,
    next: Observation,
    flow: FlowIdentity,
)
    requires
        seen.len() <= u64::MAX,
    ensures
        ({
            let user = some_frame(seen, |frame: Observation| carries_user(frame, flow));
            let pass = some_frame(seen, |frame: Observation| carries_pass(frame, flow));
            history(seen).alerts_of(next).contains(Alert::FtpAnonymousLogin { flow })
                <==> belongs_to(next, flow) && (user || carries_user(next, flow)) && (pass
                || carries_pass(next, flow)) && !(user && pass)
        }),
{
    law_history_is_settled(seen);
    lemma_login_is_credentials_seen(seen, flow);
}

/// Flags are sticky over any history: a flow is followed once a segment of
/// it was seen, and each of its flags is set exactly when some segment of
/// the flow carried it.
pub proof fn law_flags_of_a_history(seen: Seq<Observation>, flow: FlowIdentity)
    ensures
        ({
            let known = lookup(history(seen).flows, flow);
            &&& known is Some <==> some_frame(seen, |frame: Observation| belongs_to(frame, flow))
            &&& known matches Some(state) ==> {
                &&& state.syn_seen == some_frame(seen, |frame: Observation| carries_syn(frame, flow))
                &&& state.fin_seen == some_frame(seen, |frame: Observation| carries_fin(frame, flow))
                &&& state.ack_seen == some_frame(seen, |frame: Observation| carries_ack(frame, flow))
            }
        }),
    decreases seen.len(),
{
    if seen.len() > 0 {
        law_flags_of_a_history(seen.drop_last(), flow);
        lemma_some_frame_unfolds(seen, |frame: Observation| belongs_to(frame, flow));
        lemma_some_frame_unfolds(seen, |frame: Observation| carries_syn(frame, flow));
        lemma_some_frame_unfolds(seen, |frame: Observation| carries_fin(frame, flow));
        lemma_some_frame_unfolds(seen, |frame: Observation| carries_ack(frame, flow));
    }
}

/// No more flows are followed than frames were seen.
proof fn lemma_flows_are_bounded(seen: Seq<Observation>)
    ensures
        history(seen).flows.dom().finite(),
        history(seen).flows.dom().len() <= seen.len(),
    decreases seen.len(),
{
    if seen.len() > 0 {
        lemma_flows_are_bounded(seen.drop_last());
    }
}

/// No more flows are stalled at a sweep than frames were seen up to it.
proof fn lemma_stalled_flows_are_bounded(
    seen: Seq<Observation>,
    next: Observation,
    pair: HostPair,
)
    ensures
        stalled_flows(history(seen).with_tcp(next.tcp, next.now).flows, next.now, pair).len()
            <= seen.len() + 1,
{
    lemma_flows_are_bounded(seen);
    let flows = history(seen).with_tcp(next.tcp, next.now).flows;
    let stalled = stalled_flows(flows, next.now, pair);
    assert(flows.dom().finite() && flows.dom().len() <= seen.len() + 1);
    assert(stalled.subset_of(flows.dom()));
    vstd::set_lib::lemma_len_subset(stalled, flows.dom());
}

/// A pair went over the threshold at the last sweep or at one before it.
proof fn lemma_went_over_unfolds(seen: Seq<Observation>, pair: HostPair)
    requires
        seen.len() > 0,
    ensures
        went_over(seen, pair) <==> went_over(seen.drop_last(), pair) || stalled_at(
            seen,
            seen.len() - 1,
            pair,
        ) > SYN_ALERT_THRESHOLD,
{
    let rest = seen.drop_last();
    assert forall|at: int| 0 <= at < rest.len() implies stalled_at(seen, at, pair) == stalled_at(
        rest,
        at,
        pair,
    ) by {
        assert(seen.take(at) =~= rest.take(at));
        assert(seen[at] == rest[at]);
    }
    if went_over(seen, pair) {
        let at = choose|at: int|
            0 <= at < seen.len() && #[trigger] stalled_at(seen, at, pair) > SYN_ALERT_THRESHOLD;
        if at < rest.len() {
            assert(stalled_at(rest, at, pair) > SYN_ALERT_THRESHOLD);
        }
    }
    if went_over(rest, pair) {
        let at = choose|at: int|
            0 <= at < rest.len() && #[trigger] stalled_at(rest, at, pair) > SYN_ALERT_THRESHOLD;
        assert(stalled_at(seen, at, pair) > SYN_ALERT_THRESHOLD);
    }
}

/// A pair is latched exactly when some sweep found it over the threshold.
proof fn lemma_latch_is_went_over(seen: Seq<Observation>, pair: HostPair)
    requires
        seen.len() < u64::MAX,
    ensures
        (lookup(history(seen).syn, pair) matches Some(entry) && entry.notified) <==> went_over(
            seen,
            pair,
        ),
    decreases seen.len(),
{
    if seen.len() > 0 {
        let rest = seen.drop_last();
        let last = seen.last();
        lemma_latch_is_went_over(rest, pair);
        lemma_went_over_unfolds(seen, pair);
        law_history_is_settled(rest);
        lemma_stalled_flows_are_bounded(rest, last, pair);
        assert(seen.take(seen.len() - 1) =~= rest);
        let fed = history(rest).with_tcp(last.tcp, last.now).with_icmp(last.icmp);
        assert(stalled_counts(fed.flows, last.now).contains_key(pair) <==> stalled_at(
            seen,
            seen.len() - 1,
            pair,
        ) > 0);
        if history(rest).syn.contains_key(pair) {
            assert(history(rest).syn[pair].count > SYN_ALERT_THRESHOLD ==> history(
                rest,
            ).syn[pair].notified);
        }
    }
}

/// The alert of a host pair goes out once, at the first sweep that finds
/// the pair over the threshold: an engine that was new and has seen `seen`
/// raises the alert of `pair` for the frame `next` exactly when more than a
/// hundred flows between the two hosts are stalled at the sweep of `next`
/// and no sweep before found as many; the alert carries the number of
/// stalled flows.
pub proof fn law_pair_of_a_history_alerts_once(
    seen: Seq<Observation>,
    next: Observation,
    pair: HostPair,
    count: u64,
)
    requires
        seen.len() < u64::MAX,
    ensures
        ({
            let stalled = stalled_flows(
                history(seen).with_tcp(next.tcp, next.now).flows,
                next.now,
                pair,
            ).len();
            history(seen).alerts_of(next).contains(Alert::SynScan { pair, count }) <==> count
                == stalled && stalled > SYN_ALERT_THRESHOLD && !went_over(seen, pair)
        }),
{
    lemma_latch_is_went_over(seen, pair);
    lemma_stalled_flows_are_bounded(seen, next, pair);
    let fed = history(seen).with_tcp(next.tcp, next.now);
    assert(stalled_counts(fed.flows, next.now).contains_key(pair) <==> stalled_flows(
        fed.flows,
        next.now,
        pair,
    ).len() > 0);
}

/// The times of a flow over any history: its start time is the time of the
/// first segment of the flow, and its last-seen time is the latest of the
/// times of its segments.
pub proof fn law_times_of_a_history(seen: Seq<Observation>, flow: FlowIdentity)
    ensures
        lookup(history(seen).flows, flow) matches Some(state) ==> {
            &&& exists|at: int| #[trigger]
                is_first_of(seen, at, flow) && state.start_time == seen[at].now
            &&& exists|at: int|
                0 <= at < seen.len() && belongs_to(#[trigger] seen[at], flow)
                    && state.last_seen_time == seen[at].now
            &&& forall|at: int|
                0 <= at < seen.len() && belongs_to(#[trigger] seen[at], flow) ==> seen[at].now.nanos
                    <= state.last_seen_time.nanos
        },
    decreases seen.len(),
{
    if seen.len() > 0 {
        let rest = seen.drop_last();
        let last = seen.last();
        let end = seen.len() - 1;
        law_times_of_a_history(rest, flow);
        law_flags_of_a_history(rest, flow);
        assert(seen[end] == last);
        assert forall|at: int| 0 <= at < rest.len() implies rest[at] == #[trigger] seen[at] by {}
        if let Some(state) = lookup(history(seen).flows, flow) {
            match lookup(history(rest).flows, flow) {
                Some(known) => {
                    let first = choose|at: int| #[trigger]
                        is_first_of(rest, at, flow) && known.start_time == rest[at].now;
                    assert(is_first_of(seen, first, flow)) by {
                        assert forall|earlier: int| 0 <= earlier < first implies !belongs_to(
                            #[trigger] seen[earlier],
                            flow,
                        ) by {
                            assert(!belongs_to(rest[earlier], flow));
                        }
                    }
                    assert(state.start_time == seen[first].now);
                    let latest = choose|at: int|
                        0 <= at < rest.len() && belongs_to(#[trigger] rest[at], flow)
                            && known.last_seen_time == rest[at].now;
                    if state.last_seen_time == known.last_seen_time {
                        assert(belongs_to(seen[latest], flow) && state.last_seen_time
                            == seen[latest].now);
                    } else {
                        assert(belongs_to(seen[end], flow) && state.last_seen_time
                            == seen[end].now);
                    }
                    assert forall|at: int|
                        0 <= at < seen.len() && belongs_to(
                            #[trigger] seen[at],
                            flow,
                        ) implies seen[at].now.nanos <= state.last_seen_time.nanos by {
                        if at < rest.len() {
                            assert(belongs_to(rest[at], flow));
                        }
                    }
                },
                None => {
                    assert(belongs_to(last, flow));
                    assert(is_first_of(seen, end, flow)) by {
                        assert forall|earlier: int| 0 <= earlier < end implies !belongs_to(
                            #[trigger] seen[earlier],
                            flow,
                        ) by {
                            if belongs_to(seen[earlier], flow) {
                                let test = |frame: Observation| belongs_to(frame, flow);
                                assert(test(rest[earlier]));
                                assert(some_frame(rest, test));
                            }
                        }
                    }
                    assert(state.start_time == seen[end].now);
                    assert(belongs_to(seen[end], flow) && state.last_seen_time == seen[end].now);
                    assert forall|at: int|
                        0 <= at < seen.len() && belongs_to(
                            #[trigger] seen[at],
                            flow,
                        ) implies seen[at].now.nanos <= state.last_seen_time.nanos by {
                        if at < rest.len() {
                            let test = |frame: Observation| belongs_to(frame, flow);
                            assert(test(rest[at]));
                            assert(some_frame(rest, test));
                        }
                    }
                },
            }
        }
    }
}

} // verus!
