//! Carrying out the actions the reactive engine yields: logs and emissions
//! are reported, marking a peer inactive counts a missed heartbeat of its
//! tracked state, and adjusting a reputation records successes or failures.

use vstd::prelude::*;
use crate::addrmap::AddrMap;
use crate::network::addr::PeerAddr;
use crate::network::reputation::ReputationStore;
use crate::network::transport::PeerState;
use crate::nex::ast::ReactiveActionV;
use crate::nex::reactive::ExecutableAction;
use crate::text::to_string;
use crate::textmap::TextMap;

verus! {

/// A change made to a peer.
#[derive(Debug, Clone)]
pub struct PeerChange {
    pub peer: String,
    pub change: String,
}

/// A change made to a reputation; `new_value` is not computed and stays 0
/// (thousandths).
#[derive(Debug, Clone)]
pub struct ReputationChange {
    pub peer: String,
    pub delta: i32,
    pub new_value: i32,
}

/// What carrying out actions did.
#[derive(Debug, Clone)]
pub struct ExecutionReport {
    pub logs: Vec<String>,
    pub emissions: Vec<String>,
    pub peer_changes: Vec<PeerChange>,
    pub reputation_changes: Vec<ReputationChange>,
}

/// The messages of the log actions, in order.
pub open spec fn spec_logs(a: Seq<ReactiveActionV>) -> Seq<Seq<char>>
    decreases a.len(),
{
    if a.len() == 0 {
        Seq::empty()
    } else {
        spec_logs(a.drop_last()) + match a.last() {
            ReactiveActionV::Log(m) => seq![m],
            _ => Seq::empty(),
        }
    }
}

/// The events of the emit actions, in order.
pub open spec fn spec_emissions(a: Seq<ReactiveActionV>) -> Seq<Seq<char>>
    decreases a.len(),
{
    if a.len() == 0 {
        Seq::empty()
    } else {
        spec_emissions(a.drop_last()) + match a.last() {
            ReactiveActionV::Emit(m) => seq![m],
            _ => Seq::empty(),
        }
    }
}

/// A peer marked inactive takes effect when it has an address whose state is
/// tracked.
pub open spec fn marks_tracked(peer: Seq<char>, addrs: Map<Seq<char>, PeerAddr>, states: Map<PeerAddr, PeerState>) -> bool {
    addrs.contains_key(peer) && states.contains_key(addrs[peer])
}

/// The peers whose marking took effect, in order.
pub open spec fn spec_marked(a: Seq<ReactiveActionV>, addrs: Map<Seq<char>, PeerAddr>, states: Map<PeerAddr, PeerState>) -> Seq<Seq<char>>
    decreases a.len(),
{
    if a.len() == 0 {
        Seq::empty()
    } else {
        spec_marked(a.drop_last(), addrs, states) + match a.last() {
            ReactiveActionV::MarkInactive { peer } => if marks_tracked(peer, addrs, states) { seq![peer] } else { Seq::empty() },
            _ => Seq::empty(),
        }
    }
}

/// The reputation adjustments, in order.
pub open spec fn spec_adjusted(a: Seq<ReactiveActionV>) -> Seq<(Seq<char>, int)>
    decreases a.len(),
{
    if a.len() == 0 {
        Seq::empty()
    } else {
        spec_adjusted(a.drop_last()) + match a.last() {
            ReactiveActionV::AdjustReputation { peer, delta } => seq![(peer, delta)],
            _ => Seq::empty(),
        }
    }
}

/// Carries out actions.
pub struct ActionExecutor;

impl ActionExecutor {
    /// Carries out the actions in order and reports what they did. A peer is
    /// found by its node id in `peer_addrs`; marking it inactive counts a
    /// miss of its tracked state (while the count can grow). Adjusting a
    /// reputation by `delta` records `delta` successes, or `-delta` failures,
    /// while the counts can grow.
    pub fn execute(
        actions: &[ExecutableAction],
        peer_states: &mut AddrMap<PeerState>,
        reputation: &mut ReputationStore,
        peer_addrs: &TextMap<PeerAddr>,
    ) -> (report: ExecutionReport)
        ensures
            report.logs@.map_values(|s: String| s@) == spec_logs(actions@.map_values(|a: ExecutableAction| a@)),
            report.emissions@.map_values(|s: String| s@) == spec_emissions(actions@.map_values(|a: ExecutableAction| a@)),
            report.peer_changes@.map_values(|c: PeerChange| c.peer@)
                == spec_marked(actions@.map_values(|a: ExecutableAction| a@), peer_addrs@, old(peer_states)@),
            forall|i: int| 0 <= i < report.peer_changes@.len() ==> (#[trigger] report.peer_changes@[i]).change@ == "marked_inactive"@,
            report.reputation_changes@.map_values(|c: ReputationChange| (c.peer@, c.delta as int))
                == spec_adjusted(actions@.map_values(|a: ExecutableAction| a@)),
            forall|i: int| 0 <= i < report.reputation_changes@.len() ==> (#[trigger] report.reputation_changes@[i]).new_value == 0,
            final(peer_states)@.dom() == old(peer_states)@.dom(),
            forall|i: int| 0 <= i < report.reputation_changes@.len()
                ==> final(reputation)@.contains_key((#[trigger] report.reputation_changes@[i]).peer@),
            forall|k: Seq<char>| #[trigger] old(reputation)@.contains_key(k) ==> final(reputation)@.contains_key(k),
    {
        let mut report = ExecutionReport {
            logs: Vec::new(),
            emissions: Vec::new(),
            peer_changes: Vec::new(),
            reputation_changes: Vec::new(),
        };
        let ghost acts = actions@.map_values(|a: ExecutableAction| a@);
        let ghost states0 = peer_states@;
        let mut i: usize = 0;
        while i < actions.len()
            invariant
                i <= actions@.len(),
                acts == actions@.map_values(|a: ExecutableAction| a@),
                peer_states@.dom() == states0.dom(),
                states0 == old(peer_states)@,
                report.logs@.map_values(|s: String| s@) == spec_logs(acts.take(i as int)),
                report.emissions@.map_values(|s: String| s@) == spec_emissions(acts.take(i as int)),
                report.peer_changes@.map_values(|c: PeerChange| c.peer@) == spec_marked(acts.take(i as int), peer_addrs@, states0),
                forall|k: int| 0 <= k < report.peer_changes@.len() ==> (#[trigger] report.peer_changes@[k]).change@ == "marked_inactive"@,
                report.reputation_changes@.map_values(|c: ReputationChange| (c.peer@, c.delta as int)) == spec_adjusted(acts.take(i as int)),
                forall|k: int| 0 <= k < report.reputation_changes@.len() ==> (#[trigger] report.reputation_changes@[k]).new_value == 0,
                forall|k: int| 0 <= k < report.reputation_changes@.len()
                    ==> reputation@.contains_key((#[trigger] report.reputation_changes@[k]).peer@),
                forall|k: Seq<char>| #[trigger] old(reputation)@.contains_key(k) ==> reputation@.contains_key(k),
            decreases actions@.len() - i,
        {
            let action = &actions[i];
            proof {
                assert(acts.take(i + 1).drop_last() =~= acts.take(i as int));
                assert(acts.take(i + 1).last() == action@);
            }
            let ghost logs0 = report.logs@;
            let ghost em0 = report.emissions@;
            let ghost pc0 = report.peer_changes@;
            let ghost rc0 = report.reputation_changes@;
            match action {
                ExecutableAction::Log(msg) => {
                    report.logs.push(msg.clone());
                    proof {
                        assert(report.logs@.map_values(|s: String| s@) =~= logs0.map_values(|s: String| s@).push(msg@));
                    }
                },
                ExecutableAction::Emit(event) => {
                    report.emissions.push(event.clone());
                    proof {
                        assert(report.emissions@.map_values(|s: String| s@) =~= em0.map_values(|s: String| s@).push(event@));
                    }
                },
                ExecutableAction::MarkInactive { peer } => {
                    match peer_addrs.get(peer.as_str()) {
                        Some(addr) => {
                            match peer_states.remove(addr) {
                                Some(st) => {
                                    let mut st = st;
                                    if st.consecutive_misses < u32::MAX {
                                        st.record_miss();
                                    }
                                    peer_states.insert(*addr, st);
                                    proof {
                                        assert(peer_states@.dom() =~= states0.dom());
                                    }
                                    report.peer_changes.push(PeerChange { peer: peer.clone(), change: to_string("marked_inactive") });
                                    proof {
                                        assert(report.peer_changes@.map_values(|c: PeerChange| c.peer@)
                                            =~= pc0.map_values(|c: PeerChange| c.peer@).push(peer@));
                                    }
                                },
                                None => {},
                            }
                        },
                        None => {},
                    }
                },
                ExecutableAction::AdjustReputation { peer, delta } => {
                    let mut rep = reputation.take_or_create(peer.as_str());
                    let d: i64 = *delta as i64;
                    if d > 0 {
                        let mut k: i64 = 0;
                        while k < d
                            invariant
                                0 <= k <= d,
                            decreases d - k,
                        {
                            if rep.successes < u32::MAX {
                                rep.record_success();
                            }
                            k += 1;
                        }
                    } else {
                        let n: i64 = -d;
                        let mut k: i64 = 0;
                        while k < n
                            invariant
                                0 <= k <= n,
                            decreases n - k,
                        {
                            if rep.failures < u32::MAX {
                                rep.record_failure();
                            }
                            k += 1;
                        }
                    }
                    reputation.restore(peer.clone(), rep);
                    report.reputation_changes.push(ReputationChange { peer: peer.clone(), delta: *delta, new_value: 0 });
                    proof {
                        assert(report.reputation_changes@.map_values(|c: ReputationChange| (c.peer@, c.delta as int))
                            =~= rc0.map_values(|c: ReputationChange| (c.peer@, c.delta as int)).push((peer@, *delta as int)));
                    }
                },
            }
            i += 1;
        }
        proof {
            assert(acts.take(actions@.len() as int) =~= acts);
        }
        report
    }
}

} // verus!
