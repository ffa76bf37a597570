//! Checkpoints of a node's state: the persisted network data, the node's
//! identifier and snapshots of its reactive rules, as text that can be
//! written out and turned back into rules.

use vstd::prelude::*;
use crate::clock::{now_rfc3339, utc_timestamp_parses};
use crate::network::persistence::{same_data, PersistedData};
use crate::nex::ast::{ReactiveAction, ReactiveActionV, Trigger};
use crate::nex::reactive::{spec_thousandths_text, ReactiveRule, ReactiveRuleV};
use crate::nex::self_awareness::{all_digits, digits_value, lemma_digits_grow};
use crate::text::{
    after_first, after_first_exec, chars_of, contains, push_decimal, push_int_decimal, push_str, spec_contains,
    spec_decimal, spec_int_decimal, str_debug, str_debug_of, string_from_chars, to_string,
};

verus! {

/// A checkpoint of the node's state.
#[derive(Debug)]
pub struct Checkpoint {
    pub version: u32,
    pub timestamp: String,
    pub network_data: PersistedData,
    pub node_id: String,
    pub reactive_rules: Vec<ReactiveRuleSnapshot>,
}

/// A reactive rule as text: the trigger's kind and parameter, and each
/// action as it prints for debugging.
#[derive(Debug, Clone)]
pub struct ReactiveRuleSnapshot {
    pub trigger_type: String,
    pub trigger_params: String,
    pub actions: Vec<String>,
}

/// Where checkpoints are written.
#[derive(Debug, Clone)]
pub struct CheckpointManager {
    pub checkpoint_dir: String,
}

impl CheckpointManager {
    /// Checkpoints kept in `checkpoint_dir`.
    pub fn new(checkpoint_dir: String) -> (m: CheckpointManager)
        ensures
            m.checkpoint_dir@ == checkpoint_dir@,
    {
        CheckpointManager { checkpoint_dir }
    }
}

// ------------------------------------------------------------------
// Snapshots
// ------------------------------------------------------------------

/// The kind of a trigger as text.
pub open spec fn trigger_type_text(t: Trigger) -> Seq<char> {
    match t {
        Trigger::HeartbeatMiss { .. } => "heartbeat_miss"@,
        Trigger::ReputationBelow { .. } => "reputation_below"@,
        Trigger::PeerConnected => "peer_connected"@,
        Trigger::PeerDisconnected => "peer_disconnected"@,
    }
}

/// The parameter of a trigger as text (a reputation threshold in
/// decimal form).
pub open spec fn trigger_params_text(t: Trigger) -> Seq<char> {
    match t {
        Trigger::HeartbeatMiss { threshold } => spec_decimal(threshold as nat),
        Trigger::ReputationBelow { threshold } => spec_thousandths_text(threshold),
        _ => Seq::empty(),
    }
}

/// An action as it prints for debugging.
pub open spec fn action_debug_text(a: ReactiveActionV) -> Seq<char> {
    match a {
        ReactiveActionV::Log(m) => "Log("@ + str_debug_of(m) + ")"@,
        ReactiveActionV::Emit(m) => "Emit("@ + str_debug_of(m) + ")"@,
        ReactiveActionV::MarkInactive { peer } => "MarkInactive { peer: "@ + str_debug_of(peer) + " }"@,
        ReactiveActionV::AdjustReputation { peer, delta } =>
            "AdjustReputation { peer: "@ + str_debug_of(peer) + ", delta: "@ + spec_int_decimal(delta) + " }"@,
    }
}

/// The texts of a snapshot's fields.
pub open spec fn snapshot_texts(s: ReactiveRuleSnapshot) -> (Seq<char>, Seq<char>, Seq<Seq<char>>) {
    (s.trigger_type@, s.trigger_params@, s.actions@.map_values(|a: String| a@))
}

fn action_debug(a: &ReactiveAction) -> (s: String)
    ensures
        s@ == action_debug_text(a@),
{
    let mut s = String::new();
    match a {
        ReactiveAction::Log(m) => {
            push_str(&mut s, "Log(");
            let d = str_debug(m.as_str());
            push_str(&mut s, d.as_str());
            push_str(&mut s, ")");
        },
        ReactiveAction::Emit(m) => {
            push_str(&mut s, "Emit(");
            let d = str_debug(m.as_str());
            push_str(&mut s, d.as_str());
            push_str(&mut s, ")");
        },
        ReactiveAction::MarkInactive { peer } => {
            push_str(&mut s, "MarkInactive { peer: ");
            let d = str_debug(peer.as_str());
            push_str(&mut s, d.as_str());
            push_str(&mut s, " }");
        },
        ReactiveAction::AdjustReputation { peer, delta } => {
            push_str(&mut s, "AdjustReputation { peer: ");
            let d = str_debug(peer.as_str());
            push_str(&mut s, d.as_str());
            push_str(&mut s, ", delta: ");
            push_int_decimal(&mut s, *delta as i64);
            push_str(&mut s, " }");
        },
    }
    s
}

impl ReactiveRuleSnapshot {
    /// The snapshot of a rule.
    pub fn from_rule(rule: &ReactiveRule) -> (s: ReactiveRuleSnapshot)
        ensures
            s.trigger_type@ == trigger_type_text(rule.trigger),
            s.trigger_params@ == trigger_params_text(rule.trigger),
            s.actions@.map_values(|a: String| a@) == rule@.actions.map_values(|a: ReactiveActionV| action_debug_text(a)),
    {
        let (trigger_type, trigger_params) = match &rule.trigger {
            Trigger::HeartbeatMiss { threshold } => {
                let mut p = String::new();
                push_decimal(&mut p, *threshold as u64);
                (to_string("heartbeat_miss"), p)
            },
            Trigger::ReputationBelow { threshold } => {
                let mut p = String::new();
                crate::nex::reactive::push_thousandths(&mut p, *threshold);
                (to_string("reputation_below"), p)
            },
            Trigger::PeerConnected => (to_string("peer_connected"), String::new()),
            Trigger::PeerDisconnected => (to_string("peer_disconnected"), String::new()),
        };
        let ghost acts = rule@.actions;
        let mut actions: Vec<String> = Vec::new();
        let mut k: usize = 0;
        while k < rule.actions.len()
            invariant
                k <= rule.actions.len(),
                acts == rule@.actions,
                acts.len() == rule.actions@.len(),
                actions@.len() == k,
                forall|j: int| 0 <= j < k ==> #[trigger] actions@[j]@ == action_debug_text(acts[j]),
            decreases rule.actions.len() - k,
        {
            actions.push(action_debug(&rule.actions[k]));
            k += 1;
        }
        assert(actions@.map_values(|a: String| a@) =~= acts.map_values(|a: ReactiveActionV| action_debug_text(a)));
        ReactiveRuleSnapshot { trigger_type, trigger_params, actions }
    }
}

// ------------------------------------------------------------------
// Restoring rules
// ------------------------------------------------------------------

/// `u32` parsing: an optional `+` and at least one digit, with a value
/// that fits.
pub open spec fn spec_parse_u32(w: Seq<char>) -> Option<nat> {
    let d = if w.len() > 0 && w[0] == '+' { w.drop_first() } else { w };
    if d.len() == 0 || !all_digits(d) || digits_value(d) > u32::MAX {
        None
    } else {
        Some(digits_value(d))
    }
}

/// A threshold in thousandths written as decimal text: whole digits,
/// optionally a point and one to three fraction digits, with a value that
/// fits.
pub open spec fn spec_parse_thousandths(w: Seq<char>) -> Option<nat> {
    let p = crate::text::next_occ(w, "."@, 0);
    let whole = if p < 0 { w } else { w.take(p) };
    let frac = if p < 0 { Seq::<char>::empty() } else { w.skip(p + 1) };
    if whole.len() == 0 || !all_digits(whole) || (p >= 0 && (frac.len() == 0 || frac.len() > 3)) || !all_digits(frac) {
        None
    } else {
        let scale: nat = if frac.len() == 0 { 1000 } else if frac.len() == 1 { 100 } else if frac.len() == 2 { 10 } else { 1 };
        let v = digits_value(whole) * 1000 + digits_value(frac) * scale;
        if v > u32::MAX { None } else { Some(v) }
    }
}

/// The trigger a snapshot names: an unparsable miss threshold counts as 3,
/// an unparsable reputation threshold as 0.3; an unknown kind names none.
pub open spec fn spec_snapshot_trigger(kind: Seq<char>, params: Seq<char>) -> Option<Trigger> {
    if kind == "heartbeat_miss"@ {
        Some(Trigger::HeartbeatMiss {
            threshold: match spec_parse_u32(params) {
                Some(v) => v as u32,
                None => 3,
            },
        })
    } else if kind == "reputation_below"@ {
        Some(Trigger::ReputationBelow {
            threshold: match spec_parse_thousandths(params) {
                Some(v) => v as u32,
                None => 300,
            },
        })
    } else if kind == "peer_connected"@ {
        Some(Trigger::PeerConnected)
    } else if kind == "peer_disconnected"@ {
        Some(Trigger::PeerDisconnected)
    } else {
        None
    }
}

/// The actions restored from their texts: each text that mentions `Log`
/// becomes a log of the text between its first two quotes (`unknown` when
/// it has no quote); the others are dropped.
pub open spec fn spec_restored_actions(texts: Seq<Seq<char>>) -> Seq<ReactiveActionV>
    decreases texts.len(),
{
    if texts.len() == 0 {
        Seq::empty()
    } else {
        let r = spec_restored_actions(texts.drop_last());
        let t = texts.last();
        if spec_contains(t, "Log"@) {
            r.push(ReactiveActionV::Log(match after_first(t, "\""@) {
                Some(m) => m,
                None => "unknown"@,
            }))
        } else {
            r
        }
    }
}

fn parse_u32_text(w: &Vec<char>) -> (r: Option<u32>)
    ensures
        match spec_parse_u32(w@) {
            Some(v) => r == Some(v as u32),
            None => r is None,
        },
{
    let start: usize = if w.len() > 0 && w[0] == '+' { 1 } else { 0 };
    let ghost d = if w@.len() > 0 && w@[0] == '+' { w@.drop_first() } else { w@ };
    assert(d =~= w@.subrange(start as int, w@.len() as int));
    let digits = crate::text::sub_chars(w, start, w.len());
    match digits_u64(&digits, u32::MAX as u64) {
        Some(v) => Some(v as u32),
        None => None,
    }
}

/// The value of a string of digits when it is one and fits under `max`.
fn digits_u64(d: &Vec<char>, max: u64) -> (r: Option<u64>)
    ensures
        match r {
            Some(v) => d@.len() > 0 && all_digits(d@) && v == digits_value(d@) && v <= max,
            None => d@.len() == 0 || !all_digits(d@) || digits_value(d@) > max,
        },
{
    if d.len() == 0 {
        return None;
    }
    let mut k: usize = 0;
    while k < d.len()
        invariant
            k <= d.len(),
            forall|j: int| 0 <= j < k ==> '0' <= #[trigger] d@[j] <= '9',
        decreases d.len() - k,
    {
        if d[k] < '0' || d[k] > '9' {
            return None;
        }
        k += 1;
    }
    assert(all_digits(d@));
    let mut v: u128 = 0;
    let mut i: usize = 0;
    while i < d.len()
        invariant
            i <= d.len(),
            all_digits(d@),
            v == digits_value(d@.take(i as int)),
            v <= max,
        decreases d.len() - i,
    {
        assert('0' <= d@[i as int] <= '9');
        let digit = (d[i] as u32 - '0' as u32) as u128;
        proof {
            assert(d@.take(i as int + 1).drop_last() =~= d@.take(i as int));
            assert(d@.take(i as int + 1).last() == d@[i as int]);
        }
        let next = v * 10 + digit;
        if next > max as u128 {
            proof { lemma_digits_grow(d@, i as int + 1); }
            return None;
        }
        v = next;
        i += 1;
    }
    assert(d@.take(d@.len() as int) =~= d@);
    Some(v as u64)
}

fn parse_thousandths_text(w: &Vec<char>) -> (r: Option<u32>)
    ensures
        match spec_parse_thousandths(w@) {
            Some(v) => r == Some(v as u32),
            None => r is None,
        },
{
    let dot = chars_of(".");
    proof { reveal_strlit("."); }
    assert(dot@.len() == 1);
    let (whole, frac, has_dot) = match crate::text::find_occ(w, &dot, 0) {
        None => (crate::text::sub_chars(w, 0, w.len()), Vec::new(), false),
        Some(p) => {
            proof { crate::text::lemma_next_occ(w@, dot@, 0); }
            let wl = w.len();
            assert(p + 1 <= wl);
            (crate::text::sub_chars(w, 0, p), crate::text::sub_chars(w, p + 1, w.len()), true)
        },
    };
    proof {
        let p = crate::text::next_occ(w@, "."@, 0);
        if p >= 0 {
            assert(whole@ =~= w@.take(p));
            assert(frac@ =~= w@.skip(p + 1));
        } else {
            assert(whole@ =~= w@);
            assert(frac@ =~= Seq::<char>::empty());
        }
    }
    if has_dot && (frac.len() == 0 || frac.len() > 3) {
        return None;
    }
    let wv = match digits_u64(&whole, u32::MAX as u64) {
        Some(v) => v,
        None => {
            assert(digits_value(whole@) * 1000 >= digits_value(whole@)) by (nonlinear_arith);
            return None;
        },
    };
    let fv: u64 = if frac.len() == 0 {
        assert(all_digits(frac@));
        0
    } else {
        match digits_u64(&frac, 999) {
            Some(v) => v,
            None => {
                proof {
                    if all_digits(frac@) {
                        lemma_small_digits(frac@);
                        reveal_with_fuel(pow10, 4);
                        assert(pow10(frac@.len()) <= 1000);
                    }
                }
                return None;
            },
        }
    };
    let scale: u64 = if frac.len() == 0 { 1000 } else if frac.len() == 1 { 100 } else if frac.len() == 2 { 10 } else { 1 };
    assert(fv * scale <= 1000 * 1000) by (nonlinear_arith)
        requires
            fv <= 999,
            scale <= 1000,
    ;
    assert(wv * 1000 <= 1000 * u32::MAX) by (nonlinear_arith)
        requires
            wv <= u32::MAX,
    ;
    let total = wv * 1000 + fv * scale;
    if total > u32::MAX as u64 {
        None
    } else {
        Some(total as u32)
    }
}

fn all_digits_exec(d: &Vec<char>) -> (b: bool)
    ensures
        b == all_digits(d@),
{
    let mut k: usize = 0;
    while k < d.len()
        invariant
            k <= d.len(),
            forall|j: int| 0 <= j < k ==> '0' <= #[trigger] d@[j] <= '9',
        decreases d.len() - k,
    {
        if d[k] < '0' || d[k] > '9' {
            return false;
        }
        k += 1;
    }
    true
}

proof fn lemma_small_digits(d: Seq<char>)
    requires
        all_digits(d),
    ensures
        digits_value(d) < pow10(d.len()),
    decreases d.len(),
{
    if d.len() > 0 {
        let e = d.drop_last();
        assert(all_digits(e)) by {
            assert forall|i: int| 0 <= i < e.len() implies '0' <= #[trigger] e[i] <= '9' by {
                assert(e[i] == d[i]);
            }
        }
        lemma_small_digits(e);
        assert('0' <= d[d.len() - 1] <= '9');
    }
}

/// Ten to the `n`.
pub open spec fn pow10(n: nat) -> nat
    decreases n,
{
    if n == 0 { 1 } else { 10 * pow10((n - 1) as nat) }
}

impl ReactiveRuleSnapshot {
    /// The rule a snapshot stands for, if it names a known trigger.
    pub fn to_rule(&self) -> (r: Option<ReactiveRule>)
        ensures
            match spec_snapshot_trigger(self.trigger_type@, self.trigger_params@) {
                Some(t) => r matches Some(rule) && rule@ == (ReactiveRuleV {
                    trigger: t,
                    actions: spec_restored_actions(self.actions@.map_values(|a: String| a@)),
                }),
                None => r is None,
            },
    {
        let params = chars_of(self.trigger_params.as_str());
        let kind = self.trigger_type.as_str();
        proof {
            reveal_strlit("heartbeat_miss");
            reveal_strlit("reputation_below");
            reveal_strlit("peer_connected");
            reveal_strlit("peer_disconnected");
        }
        let trigger = if crate::text::string_eq_str(&self.trigger_type, "heartbeat_miss") {
            Trigger::HeartbeatMiss {
                threshold: match parse_u32_text(&params) {
                    Some(v) => v,
                    None => 3,
                },
            }
        } else if crate::text::string_eq_str(&self.trigger_type, "reputation_below") {
            Trigger::ReputationBelow {
                threshold: match parse_thousandths_text(&params) {
                    Some(v) => v,
                    None => 300,
                },
            }
        } else if crate::text::string_eq_str(&self.trigger_type, "peer_connected") {
            Trigger::PeerConnected
        } else if crate::text::string_eq_str(&self.trigger_type, "peer_disconnected") {
            Trigger::PeerDisconnected
        } else {
            return None;
        };
        let ghost texts = self.actions@.map_values(|a: String| a@);
        let log = chars_of("Log");
        let quote = chars_of("\"");
        let mut actions: Vec<ReactiveAction> = Vec::new();
        let mut k: usize = 0;
        while k < self.actions.len()
            invariant
                k <= self.actions.len(),
                texts == self.actions@.map_values(|a: String| a@),
                log@ == "Log"@,
                quote@ == "\""@,
                actions@.map_values(|a: ReactiveAction| a@) == spec_restored_actions(texts.take(k as int)),
            decreases self.actions.len() - k,
        {
            proof {
                assert(texts.take(k as int + 1).drop_last() =~= texts.take(k as int));
                assert(texts.take(k as int + 1).last() == self.actions@[k as int]@);
            }
            let text = chars_of(self.actions[k].as_str());
            if contains(&text, &log) {
                let msg = match after_first_exec(&text, &quote) {
                    Some(m) => string_from_chars(&m),
                    None => to_string("unknown"),
                };
                let ghost a0 = actions@;
                actions.push(ReactiveAction::Log(msg));
                assert(actions@.map_values(|a: ReactiveAction| a@) =~= a0.map_values(|a: ReactiveAction| a@).push(
                    actions@.last()@,
                ));
            }
            k += 1;
        }
        assert(texts.take(self.actions.len() as int) =~= texts);
        Some(ReactiveRule { trigger, actions })
    }
}

// ------------------------------------------------------------------
// Checkpoints
// ------------------------------------------------------------------

/// A checkpoint of the given state, stamped now.
pub fn create_checkpoint(node_id: &str, network_data: &PersistedData, reactive_rules: &Vec<ReactiveRule>) -> (c: Checkpoint)
    ensures
        c.version == 1,
        utc_timestamp_parses(c.timestamp@),
        same_data(c.network_data, *network_data),
        c.node_id@ == node_id@,
        c.reactive_rules@.len() == reactive_rules@.len(),
        forall|i: int| 0 <= i < reactive_rules@.len() ==> {
            let s = #[trigger] c.reactive_rules@[i];
            &&& s.trigger_type@ == trigger_type_text(reactive_rules@[i].trigger)
            &&& s.trigger_params@ == trigger_params_text(reactive_rules@[i].trigger)
            &&& s.actions@.map_values(|a: String| a@) == reactive_rules@[i]@.actions.map_values(
                |a: ReactiveActionV| action_debug_text(a),
            )
        },
{
    let mut snapshots: Vec<ReactiveRuleSnapshot> = Vec::new();
    let mut k: usize = 0;
    while k < reactive_rules.len()
        invariant
            k <= reactive_rules.len(),
            snapshots@.len() == k,
            forall|i: int| 0 <= i < k ==> {
                let s = #[trigger] snapshots@[i];
                &&& s.trigger_type@ == trigger_type_text(reactive_rules@[i].trigger)
                &&& s.trigger_params@ == trigger_params_text(reactive_rules@[i].trigger)
                &&& s.actions@.map_values(|a: String| a@) == reactive_rules@[i]@.actions.map_values(
                    |a: ReactiveActionV| action_debug_text(a),
                )
            },
        decreases reactive_rules.len() - k,
    {
        snapshots.push(ReactiveRuleSnapshot::from_rule(&reactive_rules[k]));
        k += 1;
    }
    Checkpoint {
        version: 1,
        timestamp: now_rfc3339(),
        network_data: network_data.copy(),
        node_id: to_string(node_id),
        reactive_rules: snapshots,
    }
}

/// The rules a list of snapshots restores, skipping those of unknown kind.
pub open spec fn spec_restored_rules(snaps: Seq<ReactiveRuleSnapshot>) -> Seq<ReactiveRuleV>
    decreases snaps.len(),
{
    if snaps.len() == 0 {
        Seq::empty()
    } else {
        let r = spec_restored_rules(snaps.drop_last());
        let s = snaps.last();
        match spec_snapshot_trigger(s.trigger_type@, s.trigger_params@) {
            Some(t) => r.push(ReactiveRuleV { trigger: t, actions: spec_restored_actions(s.actions@.map_values(|a: String| a@)) }),
            None => r,
        }
    }
}

/// Restores a checkpoint: the network data is replaced by the checkpoint's,
/// and the rules its snapshots name are returned.
pub fn apply_checkpoint(checkpoint: &Checkpoint, network_data: &mut PersistedData) -> (rules: Vec<ReactiveRule>)
    ensures
        same_data(*final(network_data), checkpoint.network_data),
        rules@.map_values(|r: ReactiveRule| r@) == spec_restored_rules(checkpoint.reactive_rules@),
{
    *network_data = checkpoint.network_data.copy();
    let ghost snaps = checkpoint.reactive_rules@;
    let mut rules: Vec<ReactiveRule> = Vec::new();
    let mut k: usize = 0;
    while k < checkpoint.reactive_rules.len()
        invariant
            k <= checkpoint.reactive_rules.len(),
            snaps == checkpoint.reactive_rules@,
            rules@.map_values(|r: ReactiveRule| r@) == spec_restored_rules(snaps.take(k as int)),
        decreases checkpoint.reactive_rules.len() - k,
    {
        proof {
            assert(snaps.take(k as int + 1).drop_last() =~= snaps.take(k as int));
        }
        match checkpoint.reactive_rules[k].to_rule() {
            Some(rule) => {
                let ghost r0 = rules@;
                rules.push(rule);
                assert(rules@.map_values(|r: ReactiveRule| r@) =~= r0.map_values(|r: ReactiveRule| r@).push(
                    rules@.last()@,
                ));
            },
            None => {},
        }
        k += 1;
    }
    assert(snaps.take(snaps.len() as int) =~= snaps);
    rules
}

} // verus!
