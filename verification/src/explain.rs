//! Explanations of decisions: for each one, which side of its quality
//! comparison is the bottleneck and how its evidence could be raised; pairs
//! of decisions of one run that disagree, resolved conservatively; and a
//! text summary of it all.

use vstd::prelude::*;
use crate::decision::{DecisionRecord, DecisionStatus};
use crate::text::{push_decimal, push_str, spec_decimal, to_string};
use crate::types::EvidenceStrength;

verus! {

/// Which side of a comparison is the weaker.
#[derive(Debug, Clone, Copy, PartialEq, Eq, Structural)]
pub enum BottleneckSide {
    Left,
    Right,
    Equal,
}

/// The diagnosis of one decision.
#[derive(Debug, Clone)]
pub struct NodeDiagnosis {
    pub decision_hash: String,
    pub status: DecisionStatus,
    pub left_strength: EvidenceStrength,
    pub right_strength: EvidenceStrength,
    pub bottleneck_side: Option<BottleneckSide>,
    pub effective_strength: EvidenceStrength,
    pub diagnosis: String,
    pub suggestion: Option<String>,
}

/// Two decisions of one run with different outcomes, and which prevails.
#[derive(Debug, Clone)]
pub struct ConflictRecord {
    pub decision_hash_a: String,
    pub status_a: DecisionStatus,
    pub strength_a: EvidenceStrength,
    pub decision_hash_b: String,
    pub status_b: DecisionStatus,
    pub strength_b: EvidenceStrength,
    pub resolution: String,
    pub winner_hash: String,
}

/// The explanation of a list of decisions.
#[derive(Debug, Clone)]
pub struct ExplainReport {
    pub diagnoses: Vec<NodeDiagnosis>,
    pub conflicts: Vec<ConflictRecord>,
    pub summary: String,
}

/// Mathematical view of a diagnosis.
pub struct NodeDiagnosisV {
    pub decision_hash: Seq<char>,
    pub status: DecisionStatus,
    pub left_strength: EvidenceStrength,
    pub right_strength: EvidenceStrength,
    pub bottleneck_side: Option<BottleneckSide>,
    pub effective_strength: EvidenceStrength,
    pub diagnosis: Seq<char>,
    pub suggestion: Option<Seq<char>>,
}

/// Mathematical view of a conflict.
pub struct ConflictRecordV {
    pub decision_hash_a: Seq<char>,
    pub status_a: DecisionStatus,
    pub strength_a: EvidenceStrength,
    pub decision_hash_b: Seq<char>,
    pub status_b: DecisionStatus,
    pub strength_b: EvidenceStrength,
    pub resolution: Seq<char>,
    pub winner_hash: Seq<char>,
}

/// The text an optional text holds.
pub open spec fn opt_text(o: Option<String>) -> Option<Seq<char>> {
    match o {
        Some(s) => Some(s@),
        None => None,
    }
}

impl View for NodeDiagnosis {
    type V = NodeDiagnosisV;

    open spec fn view(&self) -> NodeDiagnosisV {
        NodeDiagnosisV {
            decision_hash: self.decision_hash@,
            status: self.status,
            left_strength: self.left_strength,
            right_strength: self.right_strength,
            bottleneck_side: self.bottleneck_side,
            effective_strength: self.effective_strength,
            diagnosis: self.diagnosis@,
            suggestion: opt_text(self.suggestion),
        }
    }
}

impl View for ConflictRecord {
    type V = ConflictRecordV;

    open spec fn view(&self) -> ConflictRecordV {
        ConflictRecordV {
            decision_hash_a: self.decision_hash_a@,
            status_a: self.status_a,
            strength_a: self.strength_a,
            decision_hash_b: self.decision_hash_b@,
            status_b: self.status_b,
            strength_b: self.strength_b,
            resolution: self.resolution@,
            winner_hash: self.winner_hash@,
        }
    }
}

// ------------------------------------------------------------------
// Diagnoses
// ------------------------------------------------------------------

/// The weaker side of a comparison.
pub open spec fn spec_bottleneck(left: EvidenceStrength, right: EvidenceStrength) -> BottleneckSide {
    if left.level() < right.level() {
        BottleneckSide::Left
    } else if left.level() > right.level() {
        BottleneckSide::Right
    } else {
        BottleneckSide::Equal
    }
}

/// The diagnosis text of a decision.
pub open spec fn spec_diagnosis_text(
    status: DecisionStatus,
    reason: Seq<char>,
    left: EvidenceStrength,
    right: EvidenceStrength,
    effective: EvidenceStrength,
    side: BottleneckSide,
) -> Seq<char> {
    match side {
        BottleneckSide::Left => "["@ + status.spec_name() + "] "@ + reason + ": lado esquerdo ("@ + left.spec_name()
            + ") é o gargalo — direito ("@ + right.spec_name() + ") é mais forte. Força efetiva: "@
            + effective.spec_name() + ". MinStrength aplicado."@,
        BottleneckSide::Right => "["@ + status.spec_name() + "] "@ + reason + ": lado direito ("@ + right.spec_name()
            + ") é o gargalo — esquerdo ("@ + left.spec_name() + ") é mais forte. Força efetiva: "@
            + effective.spec_name() + ". MinStrength aplicado."@,
        BottleneckSide::Equal => "["@ + status.spec_name() + "] "@ + reason + ": ambos os lados têm força igual ("@
            + left.spec_name() + "). Força efetiva: "@ + effective.spec_name() + "."@,
    }
}

/// How the evidence of a strength could be raised; none at the top.
pub open spec fn spec_upgrade_hint(s: EvidenceStrength) -> Option<Seq<char>> {
    match s {
        EvidenceStrength::Unverifiable => Some("Adicionar fonte verificável local para elevar para LOCAL."@),
        EvidenceStrength::Local => Some("Obter assinatura digital de autoridade conhecida para elevar para SIGNED."@),
        EvidenceStrength::Witnessed => Some("Adicionar segunda testemunha independente para consolidar WITNESSED."@),
        EvidenceStrength::Signed => Some("Ancorar em registro externo auditável (WitnessSet) para elevar para ANCHORED."@),
        EvidenceStrength::Anchored => None,
    }
}

/// The diagnosis of a decision: its sides, the weaker one, the weaker
/// strength as the effective one, the text and the hint.
pub open spec fn spec_diagnose(r: DecisionRecord) -> NodeDiagnosisV {
    let left = r.body.quality_left_strength;
    let right = r.body.quality_right_strength;
    let eff = left.spec_min(right);
    let side = spec_bottleneck(left, right);
    NodeDiagnosisV {
        decision_hash: r.hash@,
        status: r.body.status,
        left_strength: left,
        right_strength: right,
        bottleneck_side: Some(side),
        effective_strength: eff,
        diagnosis: spec_diagnosis_text(r.body.status, r.body.reason_code@, left, right, eff, side),
        suggestion: spec_upgrade_hint(eff),
    }
}

/// How the evidence of a strength could be raised.
pub fn upgrade_hint(strength: EvidenceStrength) -> (h: Option<String>)
    ensures
        opt_text(h) == spec_upgrade_hint(strength),
{
    match strength {
        EvidenceStrength::Unverifiable => Some(to_string("Adicionar fonte verificável local para elevar para LOCAL.")),
        EvidenceStrength::Local => Some(to_string("Obter assinatura digital de autoridade conhecida para elevar para SIGNED.")),
        EvidenceStrength::Witnessed => Some(to_string("Adicionar segunda testemunha independente para consolidar WITNESSED.")),
        EvidenceStrength::Signed => Some(to_string("Ancorar em registro externo auditável (WitnessSet) para elevar para ANCHORED.")),
        EvidenceStrength::Anchored => None,
    }
}

fn build_diagnosis(
    record: &DecisionRecord,
    left: EvidenceStrength,
    right: EvidenceStrength,
    effective: EvidenceStrength,
    side: BottleneckSide,
) -> (s: String)
    ensures
        s@ == spec_diagnosis_text(record.body.status, record.body.reason_code@, left, right, effective, side),
{
    let mut s = to_string("[");
    push_str(&mut s, record.body.status.as_str());
    push_str(&mut s, "] ");
    push_str(&mut s, record.body.reason_code.as_str());
    match side {
        BottleneckSide::Left => {
            push_str(&mut s, ": lado esquerdo (");
            push_str(&mut s, left.as_str());
            push_str(&mut s, ") é o gargalo — direito (");
            push_str(&mut s, right.as_str());
            push_str(&mut s, ") é mais forte. Força efetiva: ");
            push_str(&mut s, effective.as_str());
            push_str(&mut s, ". MinStrength aplicado.");
        },
        BottleneckSide::Right => {
            push_str(&mut s, ": lado direito (");
            push_str(&mut s, right.as_str());
            push_str(&mut s, ") é o gargalo — esquerdo (");
            push_str(&mut s, left.as_str());
            push_str(&mut s, ") é mais forte. Força efetiva: ");
            push_str(&mut s, effective.as_str());
            push_str(&mut s, ". MinStrength aplicado.");
        },
        BottleneckSide::Equal => {
            push_str(&mut s, ": ambos os lados têm força igual (");
            push_str(&mut s, left.as_str());
            push_str(&mut s, "). Força efetiva: ");
            push_str(&mut s, effective.as_str());
            push_str(&mut s, ".");
        },
    }
    s
}

/// The diagnosis of one decision.
pub fn diagnose(record: &DecisionRecord) -> (d: NodeDiagnosis)
    ensures
        d@ == spec_diagnose(*record),
{
    let left = record.body.quality_left_strength;
    let right = record.body.quality_right_strength;
    let effective = left.weakest(right);
    let side = if left.rank() < right.rank() {
        BottleneckSide::Left
    } else if left.rank() > right.rank() {
        BottleneckSide::Right
    } else {
        BottleneckSide::Equal
    };
    let diagnosis = build_diagnosis(record, left, right, effective, side);
    let suggestion = upgrade_hint(effective);
    NodeDiagnosis {
        decision_hash: record.hash.clone(),
        status: record.body.status,
        left_strength: left,
        right_strength: right,
        bottleneck_side: Some(side),
        effective_strength: effective,
        diagnosis,
        suggestion,
    }
}

// ------------------------------------------------------------------
// Conflicts
// ------------------------------------------------------------------

/// The resolution text: the prevailing decision first.
pub open spec fn resolution_text(
    win_status: DecisionStatus,
    win_strength: EvidenceStrength,
    lose_status: DecisionStatus,
    lose_strength: EvidenceStrength,
) -> Seq<char> {
    "Decisão '"@ + win_status.spec_name() + "' ("@ + win_strength.spec_name() + ") prevalece sobre '"@
        + lose_status.spec_name() + "' ("@ + lose_strength.spec_name() + ") — menor força efetiva é conservadora."@
}

/// The conflict of two decisions: the one with the weaker effective
/// strength prevails, the first one on a tie.
pub open spec fn spec_conflict(a: DecisionRecord, b: DecisionRecord) -> ConflictRecordV {
    let sa = a.body.quality_left_strength.spec_min(a.body.quality_right_strength);
    let sb = b.body.quality_left_strength.spec_min(b.body.quality_right_strength);
    let a_wins = sa.level() <= sb.level();
    ConflictRecordV {
        decision_hash_a: a.hash@,
        status_a: a.body.status,
        strength_a: sa,
        decision_hash_b: b.hash@,
        status_b: b.body.status,
        strength_b: sb,
        resolution: if a_wins {
            resolution_text(a.body.status, sa, b.body.status, sb)
        } else {
            resolution_text(b.body.status, sb, a.body.status, sa)
        },
        winner_hash: if a_wins { a.hash@ } else { b.hash@ },
    }
}

fn resolution(
    win_status: DecisionStatus,
    win_strength: EvidenceStrength,
    lose_status: DecisionStatus,
    lose_strength: EvidenceStrength,
) -> (s: String)
    ensures
        s@ == resolution_text(win_status, win_strength, lose_status, lose_strength),
{
    let mut s = to_string("Decisão '");
    push_str(&mut s, win_status.as_str());
    push_str(&mut s, "' (");
    push_str(&mut s, win_strength.as_str());
    push_str(&mut s, ") prevalece sobre '");
    push_str(&mut s, lose_status.as_str());
    push_str(&mut s, "' (");
    push_str(&mut s, lose_strength.as_str());
    push_str(&mut s, ") — menor força efetiva é conservadora.");
    s
}

/// The conflict of two decisions.
pub fn build_conflict(a: &DecisionRecord, b: &DecisionRecord) -> (c: ConflictRecord)
    ensures
        c@ == spec_conflict(*a, *b),
{
    let strength_a = a.body.quality_left_strength.weakest(a.body.quality_right_strength);
    let strength_b = b.body.quality_left_strength.weakest(b.body.quality_right_strength);
    let (winner_hash, resolution) = if strength_a.rank() <= strength_b.rank() {
        (a.hash.clone(), resolution(a.body.status, strength_a, b.body.status, strength_b))
    } else {
        (b.hash.clone(), resolution(b.body.status, strength_b, a.body.status, strength_a))
    };
    ConflictRecord {
        decision_hash_a: a.hash.clone(),
        status_a: a.body.status,
        strength_a,
        decision_hash_b: b.hash.clone(),
        status_b: b.body.status,
        strength_b,
        resolution,
        winner_hash,
    }
}

/// Two decisions conflict: same run, different outcome.
pub open spec fn in_conflict(a: DecisionRecord, b: DecisionRecord) -> bool {
    a.body.run_id == b.body.run_id && a.body.status != b.body.status
}

/// The conflicts of decision `i` with the decisions before position `j`
/// that follow it, in order.
pub open spec fn row_conflicts(recs: Seq<DecisionRecord>, i: int, j: int) -> Seq<ConflictRecordV>
    decreases j - i,
{
    if j <= i + 1 || j > recs.len() {
        Seq::empty()
    } else {
        let r = row_conflicts(recs, i, j - 1);
        if in_conflict(recs[i], recs[j - 1]) { r.push(spec_conflict(recs[i], recs[j - 1])) } else { r }
    }
}

/// The conflicts of the decisions before position `i` with those after
/// them: pairs in order of the first, then of the second.
pub open spec fn spec_conflicts(recs: Seq<DecisionRecord>, i: int) -> Seq<ConflictRecordV>
    decreases i,
{
    if i <= 0 || i > recs.len() {
        Seq::empty()
    } else {
        spec_conflicts(recs, i - 1) + row_conflicts(recs, i - 1, recs.len() as int)
    }
}

/// The views of a list of conflicts.
pub open spec fn conflicts_view(v: Seq<ConflictRecord>) -> Seq<ConflictRecordV> {
    v.map_values(|c: ConflictRecord| c@)
}

/// The views of a list of diagnoses.
pub open spec fn diagnoses_view(v: Seq<NodeDiagnosis>) -> Seq<NodeDiagnosisV> {
    v.map_values(|d: NodeDiagnosis| d@)
}

/// All pairs of decisions of one run with different outcomes.
pub fn detect_conflicts(records: &Vec<DecisionRecord>) -> (v: Vec<ConflictRecord>)
    ensures
        conflicts_view(v@) == spec_conflicts(records@, records@.len() as int),
{
    let mut out: Vec<ConflictRecord> = Vec::new();
    let n = records.len();
    let mut i: usize = 0;
    while i < n
        invariant
            n == records@.len(),
            i <= n,
            conflicts_view(out@) == spec_conflicts(records@, i as int),
        decreases n - i,
    {
        let ghost before = conflicts_view(out@);
        let mut j: usize = i + 1;
        proof {
            assert(row_conflicts(records@, i as int, j as int) =~= Seq::<ConflictRecordV>::empty());
        }
        while j < n
            invariant
                n == records@.len(),
                i < n,
                i + 1 <= j <= n,
                conflicts_view(out@) == before + row_conflicts(records@, i as int, j as int),
            decreases n - j,
        {
            let a = &records[i];
            let b = &records[j];
            if a.body.run_id == b.body.run_id && a.body.status != b.body.status {
                let ghost o0 = out@;
                out.push(build_conflict(a, b));
                assert(conflicts_view(out@) =~= conflicts_view(o0).push(out@.last()@));
            }
            j += 1;
        }
        i += 1;
    }
    out
}

// ------------------------------------------------------------------
// Summary
// ------------------------------------------------------------------

/// The name an outcome prints with for debugging.
pub open spec fn status_debug(s: DecisionStatus) -> Seq<char> {
    match s {
        DecisionStatus::Okay => "Ok"@,
        DecisionStatus::Violacao => "Violacao"@,
        DecisionStatus::Absterse => "Absterse"@,
    }
}

fn status_debug_str(s: DecisionStatus) -> (t: &'static str)
    ensures
        t@ == status_debug(s),
{
    match s {
        DecisionStatus::Okay => "Ok",
        DecisionStatus::Violacao => "Violacao",
        DecisionStatus::Absterse => "Absterse",
    }
}

/// The first eight characters of a hash (all of a shorter one).
pub open spec fn short_hash(h: Seq<char>) -> Seq<char> {
    if h.len() <= 8 { h } else { h.take(8) }
}

/// The first eight characters are ASCII, so eight bytes are eight
/// characters.
pub open spec fn ascii_prefix(h: Seq<char>) -> bool {
    forall|i: int| 0 <= i < h.len() && i < 8 ==> (#[trigger] h[i] as int) < 128
}

/// The lines of the diagnoses: each diagnosis indented, with its hint on
/// the next line.
pub open spec fn diagnosis_lines(d: Seq<NodeDiagnosisV>) -> Seq<char>
    decreases d.len(),
{
    if d.len() == 0 {
        Seq::empty()
    } else {
        let x = d.last();
        diagnosis_lines(d.drop_last()) + "\n  "@ + x.diagnosis + match x.suggestion {
            Some(s) => "\n    → Sugestão: "@ + s,
            None => Seq::empty(),
        }
    }
}

/// The lines of the conflicts: the two short hashes with their outcomes,
/// then the resolution.
pub open spec fn conflict_lines(c: Seq<ConflictRecordV>) -> Seq<char>
    decreases c.len(),
{
    if c.len() == 0 {
        Seq::empty()
    } else {
        let x = c.last();
        conflict_lines(c.drop_last()) + "\n  "@ + short_hash(x.decision_hash_a) + " ("@ + status_debug(x.status_a)
            + ") vs "@ + short_hash(x.decision_hash_b) + " ("@ + status_debug(x.status_b) + ")"@
            + "\n    → "@ + x.resolution
    }
}

/// How many diagnoses have an unequal bottleneck.
pub open spec fn with_gap(d: Seq<NodeDiagnosisV>) -> nat
    decreases d.len(),
{
    if d.len() == 0 {
        0
    } else {
        with_gap(d.drop_last()) + if d.last().bottleneck_side != Some(BottleneckSide::Equal) { 1nat } else { 0nat }
    }
}

/// How many diagnoses carry a hint.
pub open spec fn with_hint(d: Seq<NodeDiagnosisV>) -> nat
    decreases d.len(),
{
    if d.len() == 0 {
        0
    } else {
        with_hint(d.drop_last()) + if d.last().suggestion is Some { 1nat } else { 0nat }
    }
}

/// The summary: a title, the counts, an empty line, the diagnoses, and the
/// conflicts when there are any; lines joined by line feeds.
pub open spec fn spec_summary(d: Seq<NodeDiagnosisV>, c: Seq<ConflictRecordV>) -> Seq<char> {
    "=== NEXOIA — Relatório de Evidências ==="@ + "\nDecisões analisadas : "@ + spec_decimal(d.len())
        + "\nCom gargalo         : "@ + spec_decimal(with_gap(d)) + "\nCom sugestão        : "@
        + spec_decimal(with_hint(d)) + "\nConflitos detectados: "@ + spec_decimal(c.len()) + "\n"@
        + diagnosis_lines(d) + if c.len() == 0 {
        Seq::<char>::empty()
    } else {
        "\n\n--- Conflitos ---"@ + conflict_lines(c)
    }
}

/// Appends the summary line of one conflict.
fn push_conflict_line(s: &mut String, c: &ConflictRecord)
    requires
        ascii_prefix(c.decision_hash_a@),
        ascii_prefix(c.decision_hash_b@),
    ensures
        final(s)@ == old(s)@ + "\n  "@ + short_hash(c@.decision_hash_a) + " ("@ + status_debug(c@.status_a)
            + ") vs "@ + short_hash(c@.decision_hash_b) + " ("@ + status_debug(c@.status_b) + ")"@
            + "\n    → "@ + c@.resolution,
{
    push_str(s, "\n  ");
    push_short_hash(s, &c.decision_hash_a);
    push_str(s, " (");
    push_str(s, status_debug_str(c.status_a));
    push_str(s, ") vs ");
    push_short_hash(s, &c.decision_hash_b);
    push_str(s, " (");
    push_str(s, status_debug_str(c.status_b));
    push_str(s, ")");
    push_str(s, "\n    → ");
    push_str(s, c.resolution.as_str());
}

fn push_short_hash(s: &mut String, h: &String)
    requires
        ascii_prefix(h@),
    ensures
        final(s)@ == old(s)@ + short_hash(h@),
{
    let cs = crate::text::chars_of(h.as_str());
    let k = if cs.len() <= 8 { cs.len() } else { 8 };
    let p = crate::text::sub_chars(&cs, 0, k);
    assert(p@ =~= short_hash(h@));
    let t = crate::text::string_from_chars(&p);
    push_str(s, t.as_str());
}

/// The text summary of diagnoses and conflicts.
pub fn build_summary(diagnoses: &Vec<NodeDiagnosis>, conflicts: &Vec<ConflictRecord>) -> (s: String)
    requires
        forall|i: int| 0 <= i < conflicts@.len() ==> ascii_prefix(#[trigger] conflicts@[i].decision_hash_a@)
            && ascii_prefix(conflicts@[i].decision_hash_b@),
    ensures
        s@ == spec_summary(diagnoses_view(diagnoses@), conflicts_view(conflicts@)),
{
    let ghost dv = diagnoses_view(diagnoses@);
    let ghost cv = conflicts_view(conflicts@);
    let mut gap: usize = 0;
    let mut hint: usize = 0;
    let mut k: usize = 0;
    while k < diagnoses.len()
        invariant
            k <= diagnoses.len(),
            dv == diagnoses_view(diagnoses@),
            gap == with_gap(dv.take(k as int)),
            hint == with_hint(dv.take(k as int)),
            gap <= k && hint <= k,
        decreases diagnoses.len() - k,
    {
        proof {
            assert(dv.take(k as int + 1).drop_last() =~= dv.take(k as int));
            assert(dv.take(k as int + 1).last() == diagnoses@[k as int]@);
        }
        match diagnoses[k].bottleneck_side {
            Some(BottleneckSide::Equal) => {},
            _ => gap += 1,
        }
        if diagnoses[k].suggestion.is_some() {
            hint += 1;
        }
        k += 1;
    }
    assert(dv.take(diagnoses.len() as int) =~= dv);
    let mut s = to_string("=== NEXOIA — Relatório de Evidências ===");
    push_str(&mut s, "\nDecisões analisadas : ");
    push_decimal(&mut s, diagnoses.len() as u64);
    push_str(&mut s, "\nCom gargalo         : ");
    push_decimal(&mut s, gap as u64);
    push_str(&mut s, "\nCom sugestão        : ");
    push_decimal(&mut s, hint as u64);
    push_str(&mut s, "\nConflitos detectados: ");
    push_decimal(&mut s, conflicts.len() as u64);
    push_str(&mut s, "\n");
    let ghost head = s@;
    let mut i: usize = 0;
    while i < diagnoses.len()
        invariant
            i <= diagnoses.len(),
            dv == diagnoses_view(diagnoses@),
            s@ == head + diagnosis_lines(dv.take(i as int)),
        decreases diagnoses.len() - i,
    {
        proof {
            assert(dv.take(i as int + 1).drop_last() =~= dv.take(i as int));
            assert(dv.take(i as int + 1).last() == diagnoses@[i as int]@);
        }
        let d = &diagnoses[i];
        push_str(&mut s, "\n  ");
        push_str(&mut s, d.diagnosis.as_str());
        match &d.suggestion {
            Some(h) => {
                push_str(&mut s, "\n    → Sugestão: ");
                push_str(&mut s, h.as_str());
            },
            None => {},
        }
        assert(s@ =~= head + diagnosis_lines(dv.take(i as int + 1)));
        i += 1;
    }
    assert(dv.take(diagnoses.len() as int) =~= dv);
    if conflicts.len() > 0 {
        push_str(&mut s, "\n\n--- Conflitos ---");
        let ghost mid = s@;
        let mut j: usize = 0;
        while j < conflicts.len()
            invariant
                j <= conflicts.len(),
                cv == conflicts_view(conflicts@),
                forall|i: int| 0 <= i < conflicts@.len() ==> ascii_prefix(#[trigger] conflicts@[i].decision_hash_a@)
                    && ascii_prefix(conflicts@[i].decision_hash_b@),
                s@ == mid + conflict_lines(cv.take(j as int)),
            decreases conflicts.len() - j,
        {
            proof {
                assert(cv.take(j as int + 1).drop_last() =~= cv.take(j as int));
                assert(cv.take(j as int + 1).last() == conflicts@[j as int]@);
            }
            push_conflict_line(&mut s, &conflicts[j]);
            assert(s@ =~= mid + conflict_lines(cv.take(j as int + 1)));
            j += 1;
        }
        assert(cv.take(conflicts.len() as int) =~= cv);
    }
    assert(s@ =~= spec_summary(dv, cv));
    s
}

// ------------------------------------------------------------------
// Entry point
// ------------------------------------------------------------------

/// The diagnoses of a list of decisions, in order.
pub open spec fn spec_diagnoses(recs: Seq<DecisionRecord>) -> Seq<NodeDiagnosisV> {
    recs.map_values(|r: DecisionRecord| spec_diagnose(r))
}

/// Explains a list of decisions: a diagnosis of each, the conflicts among
/// them and the summary.
pub fn explain_chain(records: &Vec<DecisionRecord>) -> (r: ExplainReport)
    requires
        forall|i: int| 0 <= i < records@.len() ==> ascii_prefix(#[trigger] records@[i].hash@),
    ensures
        diagnoses_view(r.diagnoses@) == spec_diagnoses(records@),
        conflicts_view(r.conflicts@) == spec_conflicts(records@, records@.len() as int),
        r.summary@ == spec_summary(spec_diagnoses(records@), spec_conflicts(records@, records@.len() as int)),
{
    let mut diagnoses: Vec<NodeDiagnosis> = Vec::new();
    let mut k: usize = 0;
    while k < records.len()
        invariant
            k <= records.len(),
            diagnoses@.len() == k,
            forall|j: int| 0 <= j < k ==> #[trigger] diagnoses@[j]@ == spec_diagnose(records@[j]),
        decreases records.len() - k,
    {
        diagnoses.push(diagnose(&records[k]));
        k += 1;
    }
    assert(diagnoses_view(diagnoses@) =~= spec_diagnoses(records@));
    let conflicts = detect_conflicts(records);
    proof {
        lemma_conflict_hashes(records@, records@.len() as int);
        assert forall|i: int| 0 <= i < conflicts@.len() implies ascii_prefix(#[trigger] conflicts@[i].decision_hash_a@)
            && ascii_prefix(conflicts@[i].decision_hash_b@) by {
            assert(conflicts_view(conflicts@)[i] == conflicts@[i]@);
            let sc = spec_conflicts(records@, records@.len() as int);
            assert(ascii_prefix(sc[i].decision_hash_a));
            assert(ascii_prefix(sc[i].decision_hash_b));
        }
    }
    let summary = build_summary(&diagnoses, &conflicts);
    ExplainReport { diagnoses, conflicts, summary }
}

proof fn lemma_row_hashes(recs: Seq<DecisionRecord>, i: int, j: int)
    requires
        forall|k: int| 0 <= k < recs.len() ==> ascii_prefix(#[trigger] recs[k].hash@),
        0 <= i < recs.len(),
    ensures
        forall|k: int| 0 <= k < row_conflicts(recs, i, j).len() ==> ascii_prefix(
            #[trigger] row_conflicts(recs, i, j)[k].decision_hash_a,
        ) && ascii_prefix(row_conflicts(recs, i, j)[k].decision_hash_b),
    decreases j - i,
{
    if j > i + 1 && j <= recs.len() {
        lemma_row_hashes(recs, i, j - 1);
        assert(ascii_prefix(recs[j - 1].hash@));
    }
}

proof fn lemma_conflict_hashes(recs: Seq<DecisionRecord>, i: int)
    requires
        forall|k: int| 0 <= k < recs.len() ==> ascii_prefix(#[trigger] recs[k].hash@),
    ensures
        forall|k: int| 0 <= k < spec_conflicts(recs, i).len() ==> ascii_prefix(
            #[trigger] spec_conflicts(recs, i)[k].decision_hash_a,
        ) && ascii_prefix(spec_conflicts(recs, i)[k].decision_hash_b),
    decreases i,
{
    if i > 0 && i <= recs.len() {
        lemma_conflict_hashes(recs, i - 1);
        lemma_row_hashes(recs, i - 1, recs.len() as int);
        let a = spec_conflicts(recs, i - 1);
        let b = row_conflicts(recs, i - 1, recs.len() as int);
        assert forall|k: int| 0 <= k < (a + b).len() implies ascii_prefix(#[trigger] (a + b)[k].decision_hash_a)
            && ascii_prefix((a + b)[k].decision_hash_b) by {
            if k < a.len() {
                assert((a + b)[k] == a[k]);
            } else {
                assert((a + b)[k] == b[k - a.len()]);
            }
        }
    }
}

// ------------------------------------------------------------------
// Laws
// ------------------------------------------------------------------

/// The effective strength of a decision never exceeds either side.
pub proof fn law_effective_strength_is_the_weaker_side(r: DecisionRecord)
    ensures
        spec_diagnose(r).effective_strength.level() <= r.body.quality_left_strength.level(),
        spec_diagnose(r).effective_strength.level() <= r.body.quality_right_strength.level(),
        spec_diagnose(r).effective_strength == r.body.quality_left_strength
            || spec_diagnose(r).effective_strength == r.body.quality_right_strength,
{
}

/// Of two conflicting decisions, the one with the weaker effective
/// strength prevails.
pub proof fn law_weaker_decision_prevails(a: DecisionRecord, b: DecisionRecord)
    ensures
        ({
            let c = spec_conflict(a, b);
            (c.winner_hash == a.hash@ && c.strength_a.level() <= c.strength_b.level())
                || (c.winner_hash == b.hash@ && c.strength_b.level() < c.strength_a.level())
        }),
{
}

/// Only the top strength has no hint.
pub proof fn law_hint_missing_only_at_the_top(s: EvidenceStrength)
    ensures
        (spec_upgrade_hint(s) is None) <==> (s == EvidenceStrength::Anchored),
{
}

} // verus!
