//! Reactive behaviour: rules from NEX programs matched against network
//! events. Evaluating rules is deterministic and separate from carrying out
//! the actions it yields. Reputation values are counted in thousandths.

use vstd::prelude::*;
use crate::nex::ast::{ReactiveAction, ReactiveActionV, Trigger};
use crate::text::{push_char, push_decimal, push_int_decimal, push_str, spec_decimal, spec_int_decimal};

verus! {

/// An event that can set rules off.
#[derive(Debug, Clone, PartialEq, Eq)]
pub enum NetworkEvent {
    HeartbeatMiss { count: u32 },
    /// A reputation below a value, in thousandths.
    ReputationBelow { value: u32 },
    PeerConnected { node_id: String },
    PeerDisconnected { node_id: String },
}

/// Mathematical view of an event.
pub enum NetworkEventV {
    HeartbeatMiss { count: u32 },
    ReputationBelow { value: u32 },
    PeerConnected { node_id: Seq<char> },
    PeerDisconnected { node_id: Seq<char> },
}

impl View for NetworkEvent {
    type V = NetworkEventV;

    open spec fn view(&self) -> NetworkEventV {
        match self {
            NetworkEvent::HeartbeatMiss { count } => NetworkEventV::HeartbeatMiss { count: *count },
            NetworkEvent::ReputationBelow { value } => NetworkEventV::ReputationBelow { value: *value },
            NetworkEvent::PeerConnected { node_id } => NetworkEventV::PeerConnected { node_id: node_id@ },
            NetworkEvent::PeerDisconnected { node_id } => NetworkEventV::PeerDisconnected { node_id: node_id@ },
        }
    }
}

/// An action for the system to carry out (its view has the shape of a rule's
/// action).
#[derive(Debug, Clone, PartialEq, Eq)]
pub enum ExecutableAction {
    Log(String),
    Emit(String),
    MarkInactive { peer: String },
    AdjustReputation { peer: String, delta: i32 },
}

impl View for ExecutableAction {
    type V = ReactiveActionV;

    open spec fn view(&self) -> ReactiveActionV {
        match self {
            ExecutableAction::Log(m) => ReactiveActionV::Log(m@),
            ExecutableAction::Emit(m) => ReactiveActionV::Emit(m@),
            ExecutableAction::MarkInactive { peer } => ReactiveActionV::MarkInactive { peer: peer@ },
            ExecutableAction::AdjustReputation { peer, delta } => ReactiveActionV::AdjustReputation {
                peer: peer@,
                delta: *delta as int,
            },
        }
    }
}

/// A reactive rule of a NEX program.
#[derive(Debug, Clone)]
pub struct ReactiveRule {
    pub trigger: Trigger,
    pub actions: Vec<ReactiveAction>,
}

/// Mathematical view of a rule.
pub struct ReactiveRuleV {
    pub trigger: Trigger,
    pub actions: Seq<ReactiveActionV>,
}

impl View for ReactiveRule {
    type V = ReactiveRuleV;

    open spec fn view(&self) -> ReactiveRuleV {
        ReactiveRuleV { trigger: self.trigger, actions: self.actions@.map_values(|a: ReactiveAction| a@) }
    }
}

/// What evaluating an event gave: whether some rule matched, and the actions
/// of the matching rules, in rule order.
#[derive(Debug, Clone)]
pub struct EvaluationResult {
    pub matched: bool,
    pub actions: Vec<ExecutableAction>,
}

/// A trigger matches an event of its kind: a miss count at or above the
/// threshold, a reputation strictly below it, any connection or
/// disconnection.
pub open spec fn spec_matches(t: Trigger, e: NetworkEventV) -> bool {
    match (t, e) {
        (Trigger::HeartbeatMiss { threshold }, NetworkEventV::HeartbeatMiss { count }) => count >= threshold,
        (Trigger::ReputationBelow { threshold }, NetworkEventV::ReputationBelow { value }) => value < threshold,
        (Trigger::PeerConnected, NetworkEventV::PeerConnected { .. }) => true,
        (Trigger::PeerDisconnected, NetworkEventV::PeerDisconnected { .. }) => true,
        _ => false,
    }
}

/// The action a rule's action becomes for an event: marking a peer inactive
/// on a disconnection marks the disconnected node.
pub open spec fn spec_prepare(a: ReactiveActionV, e: NetworkEventV) -> ReactiveActionV {
    match a {
        ReactiveActionV::MarkInactive { peer } => match e {
            NetworkEventV::PeerDisconnected { node_id } => ReactiveActionV::MarkInactive { peer: node_id },
            _ => ReactiveActionV::MarkInactive { peer },
        },
        _ => a,
    }
}

/// The actions a list of rule actions becomes for an event.
pub open spec fn spec_prepare_all(acts: Seq<ReactiveActionV>, e: NetworkEventV) -> Seq<ReactiveActionV> {
    acts.map_values(|a: ReactiveActionV| spec_prepare(a, e))
}

/// Whether some rule matches the event.
pub open spec fn spec_any_match(rules: Seq<ReactiveRuleV>, e: NetworkEventV) -> bool {
    exists|i: int| 0 <= i < rules.len() && spec_matches(#[trigger] rules[i].trigger, e)
}

/// The actions of the matching rules, in rule order.
pub open spec fn spec_actions(rules: Seq<ReactiveRuleV>, e: NetworkEventV) -> Seq<ReactiveActionV>
    decreases rules.len(),
{
    if rules.len() == 0 {
        Seq::empty()
    } else {
        let r = rules.last();
        spec_actions(rules.drop_last(), e) + (if spec_matches(r.trigger, e) { spec_prepare_all(r.actions, e) } else { Seq::empty() })
    }
}

/// The rules of a program, kept in order.
pub struct ReactiveEngine {
    rules: Vec<ReactiveRule>,
}

impl View for ReactiveEngine {
    type V = Seq<ReactiveRuleV>;

    closed spec fn view(&self) -> Seq<ReactiveRuleV> {
        self.rules@.map_values(|r: ReactiveRule| r@)
    }
}

fn matches_trigger(trigger: &Trigger, event: &NetworkEvent) -> (b: bool)
    ensures
        b == spec_matches(*trigger, event@),
{
    match (trigger, event) {
        (Trigger::HeartbeatMiss { threshold }, NetworkEvent::HeartbeatMiss { count }) => *count >= *threshold,
        (Trigger::ReputationBelow { threshold }, NetworkEvent::ReputationBelow { value }) => *value < *threshold,
        (Trigger::PeerConnected, NetworkEvent::PeerConnected { .. }) => true,
        (Trigger::PeerDisconnected, NetworkEvent::PeerDisconnected { .. }) => true,
        _ => false,
    }
}

fn prepare_action(action: &ReactiveAction, event: &NetworkEvent) -> (r: ExecutableAction)
    ensures
        r@ == spec_prepare(action@, event@),
{
    match action {
        ReactiveAction::Log(msg) => ExecutableAction::Log(msg.clone()),
        ReactiveAction::Emit(name) => ExecutableAction::Emit(name.clone()),
        ReactiveAction::MarkInactive { peer } => match event {
            NetworkEvent::PeerDisconnected { node_id } => ExecutableAction::MarkInactive { peer: node_id.clone() },
            _ => ExecutableAction::MarkInactive { peer: peer.clone() },
        },
        ReactiveAction::AdjustReputation { peer, delta } => ExecutableAction::AdjustReputation {
            peer: peer.clone(),
            delta: *delta,
        },
    }
}

impl ReactiveEngine {
    /// No rule.
    pub fn new() -> (e: Self)
        ensures
            e@ == Seq::<ReactiveRuleV>::empty(),
    {
        let e = ReactiveEngine { rules: Vec::new() };
        assert(e@ =~= Seq::<ReactiveRuleV>::empty());
        e
    }

    /// Adds a rule after the others.
    pub fn add_rule(&mut self, rule: ReactiveRule)
        ensures
            final(self)@ == old(self)@.push(rule@),
    {
        let ghost r = rule@;
        self.rules.push(rule);
        assert(self@ =~= old(self)@.push(r));
    }

    /// The rules, in order.
    pub fn rules(&self) -> (r: &[ReactiveRule])
        ensures
            r@.map_values(|x: ReactiveRule| x@) == self@,
    {
        self.rules.as_slice()
    }

    /// Removes every rule.
    pub fn clear(&mut self)
        ensures
            final(self)@ == Seq::<ReactiveRuleV>::empty(),
    {
        self.rules.clear();
        assert(self@ =~= Seq::<ReactiveRuleV>::empty());
    }

    /// Evaluates an event against every rule, in order: whether some rule
    /// matched, and the actions of the matching rules.
    pub fn evaluate(&self, event: &NetworkEvent) -> (r: EvaluationResult)
        ensures
            r.matched == spec_any_match(self@, event@),
            r.actions@.map_values(|a: ExecutableAction| a@) == spec_actions(self@, event@),
    {
        let mut matched = false;
        let mut actions: Vec<ExecutableAction> = Vec::new();
        let ghost rules = self@;
        let mut i: usize = 0;
        while i < self.rules.len()
            invariant
                i <= self.rules@.len(),
                rules == self@,
                rules.len() == self.rules@.len(),
                matched == spec_any_match(rules.take(i as int), event@),
                actions@.map_values(|a: ExecutableAction| a@) == spec_actions(rules.take(i as int), event@),
            decreases self.rules@.len() - i,
        {
            let rule = &self.rules[i];
            proof {
                assert(rules.take(i + 1).drop_last() =~= rules.take(i as int));
                assert(rules[i as int] == rule@);
            }
            if matches_trigger(&rule.trigger, event) {
                matched = true;
                let ghost before = actions@.map_values(|a: ExecutableAction| a@);
                let mut j: usize = 0;
                while j < rule.actions.len()
                    invariant
                        j <= rule.actions@.len(),
                        actions@.map_values(|a: ExecutableAction| a@)
                            == before + spec_prepare_all(rule@.actions.take(j as int), event@),
                    decreases rule.actions@.len() - j,
                {
                    let ex = prepare_action(&rule.actions[j], event);
                    let ghost prev = actions@;
                    actions.push(ex);
                    proof {
                        assert(actions@.map_values(|a: ExecutableAction| a@)
                            =~= prev.map_values(|a: ExecutableAction| a@).push(ex@));
                        assert(rule@.actions.take(j + 1) =~= rule@.actions.take(j as int).push(rule@.actions[j as int]));
                        assert(spec_prepare_all(rule@.actions.take(j + 1), event@)
                            =~= spec_prepare_all(rule@.actions.take(j as int), event@).push(ex@));
                    }
                    j += 1;
                }
                proof {
                    assert(rule@.actions.take(rule@.actions.len() as int) =~= rule@.actions);
                }
            }
            proof {
                let t = rules.take(i + 1);
                if spec_matches(rules[i as int].trigger, event@) {
                    assert(t[i as int] == rules[i as int]);
                }
                if spec_any_match(rules.take(i as int), event@) {
                    let k = choose|k: int| 0 <= k < i && spec_matches(#[trigger] rules.take(i as int)[k].trigger, event@);
                    assert(t[k] == rules.take(i as int)[k]);
                }
                if spec_any_match(t, event@) {
                    let k = choose|k: int| 0 <= k < t.len() && spec_matches(#[trigger] t[k].trigger, event@);
                    if k < i {
                        assert(rules.take(i as int)[k] == t[k]);
                    }
                }
            }
            i += 1;
        }
        proof {
            assert(rules.take(self.rules@.len() as int) =~= rules);
        }
        EvaluationResult { matched, actions }
    }
}

/// A value in thousandths as decimal text: whole part, then the fraction
/// without trailing zeros (`200` is `0.2`, `1000` is `1`).
pub open spec fn spec_thousandths_text(v: u32) -> Seq<char> {
    let whole = (v / 1000) as nat;
    let frac = (v % 1000) as nat;
    if frac == 0 {
        spec_decimal(whole)
    } else if frac % 100 == 0 {
        spec_decimal(whole) + seq!['.'] + spec_decimal(frac / 100)
    } else if frac % 10 == 0 {
        spec_decimal(whole) + seq!['.'] + (if frac < 100 { seq!['0'] } else { Seq::empty() }) + spec_decimal(frac / 10)
    } else {
        spec_decimal(whole) + seq!['.'] + (if frac < 10 { seq!['0', '0'] } else if frac < 100 { seq!['0'] } else { Seq::empty() })
            + spec_decimal(frac)
    }
}

/// Appends a value in thousandths as decimal text.
pub fn push_thousandths(s: &mut String, v: u32)
    ensures
        final(s)@ == old(s)@ + spec_thousandths_text(v),
{
    let whole = v / 1000;
    let frac = v % 1000;
    push_decimal(s, whole as u64);
    if frac == 0 {
        return;
    }
    push_char(s, '.');
    if frac % 100 == 0 {
        push_decimal(s, (frac / 100) as u64);
    } else if frac % 10 == 0 {
        if frac < 100 {
            push_char(s, '0');
        }
        push_decimal(s, (frac / 10) as u64);
    } else {
        if frac < 10 {
            push_char(s, '0');
            push_char(s, '0');
        } else if frac < 100 {
            push_char(s, '0');
        }
        push_decimal(s, frac as u64);
    }
    assert(s@ =~= old(s)@ + spec_thousandths_text(v));
}

impl NetworkEvent {
    /// The text of an event: `heartbeat_miss(3)`, `reputation_below(0.2)`,
    /// `peer_connected(id)`, `peer_disconnected(id)`.
    pub open spec fn spec_text(e: NetworkEventV) -> Seq<char> {
        match e {
            NetworkEventV::HeartbeatMiss { count } => "heartbeat_miss("@ + spec_decimal(count as nat) + seq![')'],
            NetworkEventV::ReputationBelow { value } => "reputation_below("@ + spec_thousandths_text(value) + seq![')'],
            NetworkEventV::PeerConnected { node_id } => "peer_connected("@ + node_id + seq![')'],
            NetworkEventV::PeerDisconnected { node_id } => "peer_disconnected("@ + node_id + seq![')'],
        }
    }

    /// The text of the event.
    pub fn to_string(&self) -> (s: String)
        ensures
            s@ == NetworkEvent::spec_text(self@),
    {
        let mut s = String::new();
        match self {
            NetworkEvent::HeartbeatMiss { count } => {
                push_str(&mut s, "heartbeat_miss(");
                push_decimal(&mut s, *count as u64);
            },
            NetworkEvent::ReputationBelow { value } => {
                push_str(&mut s, "reputation_below(");
                push_thousandths(&mut s, *value);
            },
            NetworkEvent::PeerConnected { node_id } => {
                push_str(&mut s, "peer_connected(");
                push_str(&mut s, node_id.as_str());
            },
            NetworkEvent::PeerDisconnected { node_id } => {
                push_str(&mut s, "peer_disconnected(");
                push_str(&mut s, node_id.as_str());
            },
        }
        push_char(&mut s, ')');
        proof {
            reveal_strlit("heartbeat_miss(");
            reveal_strlit("reputation_below(");
            reveal_strlit("peer_connected(");
            reveal_strlit("peer_disconnected(");
        }
        s
    }
}

impl ExecutableAction {
    /// The text of an action: `log("msg")`, `emit(event)`,
    /// `marcar_inativo(peer)`, `ajustar_reputacao(peer, delta)`.
    pub open spec fn spec_text(a: ReactiveActionV) -> Seq<char> {
        match a {
            ReactiveActionV::Log(m) => "log(\""@ + m + "\")"@,
            ReactiveActionV::Emit(m) => "emit("@ + m + seq![')'],
            ReactiveActionV::MarkInactive { peer } => "marcar_inativo("@ + peer + seq![')'],
            ReactiveActionV::AdjustReputation { peer, delta } => "ajustar_reputacao("@ + peer + ", "@
                + spec_int_decimal(delta) + seq![')'],
        }
    }

    /// The text of the action.
    pub fn to_string(&self) -> (s: String)
        ensures
            s@ == ExecutableAction::spec_text(self@),
    {
        let mut s = String::new();
        match self {
            ExecutableAction::Log(m) => {
                push_str(&mut s, "log(\"");
                push_str(&mut s, m.as_str());
                push_str(&mut s, "\")");
            },
            ExecutableAction::Emit(m) => {
                push_str(&mut s, "emit(");
                push_str(&mut s, m.as_str());
                push_char(&mut s, ')');
            },
            ExecutableAction::MarkInactive { peer } => {
                push_str(&mut s, "marcar_inativo(");
                push_str(&mut s, peer.as_str());
                push_char(&mut s, ')');
            },
            ExecutableAction::AdjustReputation { peer, delta } => {
                push_str(&mut s, "ajustar_reputacao(");
                push_str(&mut s, peer.as_str());
                push_str(&mut s, ", ");
                push_int_decimal(&mut s, *delta as i64);
                push_char(&mut s, ')');
            },
        }
        proof {
            reveal_strlit("log(\"");
            reveal_strlit("\")");
            reveal_strlit("emit(");
            reveal_strlit("marcar_inativo(");
            reveal_strlit("ajustar_reputacao(");
            reveal_strlit(", ");
        }
        s
    }
}

/// The node's standing rules: a log after three missed heartbeats, marking
/// the peer inactive after five.
pub fn add_default_rules(engine: &mut ReactiveEngine)
    ensures
        final(engine)@ == old(engine)@ + seq![
            ReactiveRuleV {
                trigger: Trigger::HeartbeatMiss { threshold: 3 },
                actions: seq![ReactiveActionV::Log("Peer possivelmente inativo"@)],
            },
            ReactiveRuleV {
                trigger: Trigger::HeartbeatMiss { threshold: 5 },
                actions: seq![ReactiveActionV::MarkInactive { peer: "default"@ }],
            },
        ],
{
    let mut a1: Vec<ReactiveAction> = Vec::new();
    a1.push(ReactiveAction::Log(crate::text::to_string("Peer possivelmente inativo")));
    let r1 = ReactiveRule { trigger: Trigger::HeartbeatMiss { threshold: 3 }, actions: a1 };
    assert(r1@.actions =~= seq![ReactiveActionV::Log("Peer possivelmente inativo"@)]);
    let mut a2: Vec<ReactiveAction> = Vec::new();
    a2.push(ReactiveAction::MarkInactive { peer: crate::text::to_string("default") });
    let r2 = ReactiveRule { trigger: Trigger::HeartbeatMiss { threshold: 5 }, actions: a2 };
    assert(r2@.actions =~= seq![ReactiveActionV::MarkInactive { peer: "default"@ }]);
    let ghost e0 = engine@;
    engine.add_rule(r1);
    engine.add_rule(r2);
    assert(engine@ =~= e0 + seq![r1@, r2@]);
}

} // verus!
