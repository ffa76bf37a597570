//! The health report the system writes about its own state: one finding per
//! check (evidence packages, privacy index, network, provenance links,
//! reputation), an overall severity and a summary of the counts.

use vstd::prelude::*;
use crate::provenance::aggregator::{ProvenanceNode, ProvenanceNodeV, ProvenanceRefV};
use crate::text::{push_decimal, push_str, spec_decimal, to_string};

verus! {

/// How serious a finding is.
#[derive(Debug, Clone, Copy, PartialEq, Eq, Structural)]
pub enum Severity {
    Okay,
    Warning,
    Critical,
}

impl Severity {
    /// The severity's name.
    pub open spec fn spec_name(self) -> Seq<char> {
        match self {
            Severity::Okay => "OK"@,
            Severity::Warning => "WARNING"@,
            Severity::Critical => "CRITICAL"@,
        }
    }

    /// The severity's name.
    pub fn to_string(&self) -> (s: String)
        ensures
            s@ == self.spec_name(),
    {
        match self {
            Severity::Okay => to_string("OK"),
            Severity::Warning => to_string("WARNING"),
            Severity::Critical => to_string("CRITICAL"),
        }
    }
}

/// One finding of the observer.
#[derive(Debug, Clone)]
pub struct Finding {
    pub check: String,
    pub severity: Severity,
    pub message: String,
    pub details: Option<String>,
}

/// Mathematical view of a finding.
pub struct FindingV {
    pub check: Seq<char>,
    pub severity: Severity,
    pub message: Seq<char>,
    pub details: Option<Seq<char>>,
}

impl View for Finding {
    type V = FindingV;

    open spec fn view(&self) -> FindingV {
        FindingV {
            check: self.check@,
            severity: self.severity,
            message: self.message@,
            details: match self.details {
                Some(d) => Some(d@),
                None => None,
            },
        }
    }
}

/// The counts of a health report.
#[derive(Debug, Clone, Copy, PartialEq, Eq, Structural)]
pub struct HealthSummary {
    pub total_checks: usize,
    pub ok: usize,
    pub warnings: usize,
    pub critical: usize,
    pub epas_count: usize,
    pub peers_count: usize,
    pub subjects_indexed: usize,
    pub derivation_links: usize,
}

/// A complete health report.
#[derive(Debug, Clone)]
pub struct HealthReport {
    pub timestamp: String,
    pub overall: Severity,
    pub findings: Vec<Finding>,
    pub summary: HealthSummary,
}

/// The views of a list of findings.
pub open spec fn findings_view(v: Seq<Finding>) -> Seq<FindingV> {
    v.map_values(|f: Finding| f@)
}

fn finding(check: &str, severity: Severity, message: String, details: Option<&str>) -> (f: Finding)
    ensures
        f@ == (FindingV {
            check: check@,
            severity,
            message: message@,
            details: match details {
                Some(d) => Some(d@),
                None => None,
            },
        }),
{
    let details = match details {
        Some(d) => Some(to_string(d)),
        None => None,
    };
    Finding { check: to_string(check), severity, message, details }
}

fn count_message(n: usize, after: &str) -> (s: String)
    ensures
        s@ == spec_decimal(n as nat) + after@,
{
    let mut s = String::new();
    push_decimal(&mut s, n as u64);
    push_str(&mut s, after);
    s
}

// ------------------------------------------------------------------
// Checks
// ------------------------------------------------------------------

/// Findings on the evidence packages: critical when some fail verification,
/// otherwise fine; a warning besides when some timestamps are out of the
/// window.
pub open spec fn spec_epa_findings(total: nat, invalid: nat, expired: nat) -> Seq<FindingV> {
    let integrity = if invalid > 0 {
        FindingV {
            check: "epa_integrity"@,
            severity: Severity::Critical,
            message: spec_decimal(invalid) + " EPAs com integridade comprometida"@,
            details: Some("Assinatura Ed25519 ou hash inválido"@),
        }
    } else {
        FindingV {
            check: "epa_integrity"@,
            severity: Severity::Okay,
            message: "Todos "@ + spec_decimal(total) + " EPAs íntegros"@,
            details: None,
        }
    };
    if expired > 0 {
        seq![integrity, FindingV {
            check: "epa_timestamp"@,
            severity: Severity::Warning,
            message: spec_decimal(expired) + " EPAs com timestamp expirado"@,
            details: Some("Timestamp além da janela de 5 minutos"@),
        }]
    } else {
        seq![integrity]
    }
}

/// The findings on `total` evidence packages of which `invalid` failed
/// verification and `expired` have a timestamp out of the window.
pub fn epa_findings(total: usize, invalid: usize, expired: usize) -> (v: Vec<Finding>)
    ensures
        findings_view(v@) == spec_epa_findings(total as nat, invalid as nat, expired as nat),
{
    let mut v: Vec<Finding> = Vec::new();
    if invalid > 0 {
        v.push(finding(
            "epa_integrity",
            Severity::Critical,
            count_message(invalid, " EPAs com integridade comprometida"),
            Some("Assinatura Ed25519 ou hash inválido"),
        ));
    } else {
        let mut m = to_string("Todos ");
        push_decimal(&mut m, total as u64);
        push_str(&mut m, " EPAs íntegros");
        v.push(finding("epa_integrity", Severity::Okay, m, None));
    }
    if expired > 0 {
        v.push(finding(
            "epa_timestamp",
            Severity::Warning,
            count_message(expired, " EPAs com timestamp expirado"),
            Some("Timestamp além da janela de 5 minutos"),
        ));
    }
    assert(findings_view(v@) =~= spec_epa_findings(total as nat, invalid as nat, expired as nat));
    v
}

/// The finding on the privacy index: a warning when its entries and the
/// packages with privacy metadata differ in number.
pub open spec fn spec_lgpd_finding(with_metadata: nat, indexed: nat) -> FindingV {
    if with_metadata != indexed {
        FindingV {
            check: "lgpd_consistency"@,
            severity: Severity::Warning,
            message: "LGPD index tem "@ + spec_decimal(indexed) + " entradas mas "@ + spec_decimal(with_metadata)
                + " EPAs têm metadata"@,
            details: Some("Índice pode estar desatualizado após restart"@),
        }
    } else {
        FindingV {
            check: "lgpd_consistency"@,
            severity: Severity::Okay,
            message: "LGPD index consistente ("@ + spec_decimal(indexed) + " EPAs indexados)"@,
            details: None,
        }
    }
}

/// The finding on the privacy index.
pub fn lgpd_finding(with_metadata: usize, indexed: usize) -> (f: Finding)
    ensures
        f@ == spec_lgpd_finding(with_metadata as nat, indexed as nat),
{
    if with_metadata != indexed {
        let mut m = to_string("LGPD index tem ");
        push_decimal(&mut m, indexed as u64);
        push_str(&mut m, " entradas mas ");
        push_decimal(&mut m, with_metadata as u64);
        push_str(&mut m, " EPAs têm metadata");
        finding("lgpd_consistency", Severity::Warning, m, Some("Índice pode estar desatualizado após restart"))
    } else {
        let mut m = to_string("LGPD index consistente (");
        push_decimal(&mut m, indexed as u64);
        push_str(&mut m, " EPAs indexados)");
        finding("lgpd_consistency", Severity::Okay, m, None)
    }
}

/// The finding on the network: a warning without peers.
pub open spec fn spec_network_finding(peers: nat) -> FindingV {
    if peers == 0 {
        FindingV {
            check: "network_peers"@,
            severity: Severity::Warning,
            message: "Nenhum peer conectado"@,
            details: Some("Nó pode estar isolado da rede"@),
        }
    } else {
        FindingV {
            check: "network_peers"@,
            severity: Severity::Okay,
            message: spec_decimal(peers) + " peers conectados"@,
            details: None,
        }
    }
}

/// The finding on the network.
pub fn network_finding(peers: usize) -> (f: Finding)
    ensures
        f@ == spec_network_finding(peers as nat),
{
    if peers == 0 {
        finding("network_peers", Severity::Warning, to_string("Nenhum peer conectado"), Some("Nó pode estar isolado da rede"))
    } else {
        finding("network_peers", Severity::Okay, count_message(peers, " peers conectados"), None)
    }
}

/// The findings on provenance: how many links are blinded (when there are
/// links), and a warning when the derivation index holds another number of
/// links than the records.
pub open spec fn spec_provenance_findings(blinded: nat, total_links: nat, index_links: nat) -> Seq<FindingV> {
    let first: Seq<FindingV> = if blinded > 0 {
        seq![FindingV {
            check: "provenance_blinding"@,
            severity: Severity::Okay,
            message: spec_decimal(blinded) + " links cegados de "@ + spec_decimal(total_links)
                + " totais (crypto-shredding ativo)"@,
            details: None,
        }]
    } else if total_links > 0 {
        seq![FindingV {
            check: "provenance_blinding"@,
            severity: Severity::Okay,
            message: spec_decimal(total_links) + " links de proveniência, nenhum cegado"@,
            details: None,
        }]
    } else {
        Seq::empty()
    };
    if index_links != total_links {
        first.push(FindingV {
            check: "derivation_index_consistency"@,
            severity: Severity::Warning,
            message: "DerivationIndex tem "@ + spec_decimal(index_links) + " links mas ProvenanceNodes têm "@
                + spec_decimal(total_links),
            details: Some("Índice pode estar desatualizado"@),
        })
    } else {
        first
    }
}

/// The findings on provenance.
pub fn provenance_findings(blinded: usize, total_links: usize, index_links: usize) -> (v: Vec<Finding>)
    ensures
        findings_view(v@) == spec_provenance_findings(blinded as nat, total_links as nat, index_links as nat),
{
    let mut v: Vec<Finding> = Vec::new();
    if blinded > 0 {
        let mut m = count_message(blinded, " links cegados de ");
        push_decimal(&mut m, total_links as u64);
        push_str(&mut m, " totais (crypto-shredding ativo)");
        v.push(finding("provenance_blinding", Severity::Okay, m, None));
    } else if total_links > 0 {
        v.push(finding(
            "provenance_blinding",
            Severity::Okay,
            count_message(total_links, " links de proveniência, nenhum cegado"),
            None,
        ));
    }
    if index_links != total_links {
        let mut m = to_string("DerivationIndex tem ");
        push_decimal(&mut m, index_links as u64);
        push_str(&mut m, " links mas ProvenanceNodes têm ");
        push_decimal(&mut m, total_links as u64);
        v.push(finding("derivation_index_consistency", Severity::Warning, m, Some("Índice pode estar desatualizado")));
    }
    assert(findings_view(v@) =~= spec_provenance_findings(blinded as nat, total_links as nat, index_links as nat));
    v
}

/// The finding on reputation: a warning when some peers are banned.
pub open spec fn spec_reputation_finding(banned: nat) -> FindingV {
    if banned > 0 {
        FindingV {
            check: "reputation_banned"@,
            severity: Severity::Warning,
            message: spec_decimal(banned) + " peers banidos"@,
            details: Some("Ban expira em 24h automaticamente"@),
        }
    } else {
        FindingV {
            check: "reputation_banned"@,
            severity: Severity::Okay,
            message: "Nenhum peer banido"@,
            details: None,
        }
    }
}

/// The finding on reputation.
pub fn reputation_finding(banned: usize) -> (f: Finding)
    ensures
        f@ == spec_reputation_finding(banned as nat),
{
    if banned > 0 {
        finding("reputation_banned", Severity::Warning, count_message(banned, " peers banidos"), Some("Ban expira em 24h automaticamente"))
    } else {
        finding("reputation_banned", Severity::Okay, to_string("Nenhum peer banido"), None)
    }
}

/// The number of records whose link is blinded, and of those with a link.
pub open spec fn link_counts(nodes: Seq<ProvenanceNodeV>) -> (nat, nat)
    decreases nodes.len(),
{
    if nodes.len() == 0 {
        (0, 0)
    } else {
        let (b, t) = link_counts(nodes.drop_last());
        match nodes.last().parent_ref {
            Some(ProvenanceRefV::Blinded { .. }) => (b + 1, t + 1),
            Some(_) => (b, t + 1),
            None => (b, t),
        }
    }
}

/// Counts the blinded links and all links among the records.
pub fn provenance_link_counts(nodes: &Vec<ProvenanceNode>) -> (r: (usize, usize))
    ensures
        r.0 == link_counts(nodes@.map_values(|n: ProvenanceNode| n@)).0,
        r.1 == link_counts(nodes@.map_values(|n: ProvenanceNode| n@)).1,
{
    let ghost nv = nodes@.map_values(|n: ProvenanceNode| n@);
    let mut blinded: usize = 0;
    let mut total: usize = 0;
    let mut k: usize = 0;
    while k < nodes.len()
        invariant
            k <= nodes.len(),
            nv == nodes@.map_values(|n: ProvenanceNode| n@),
            link_counts(nv.take(k as int)) == (blinded as nat, total as nat),
            blinded <= total <= k,
        decreases nodes.len() - k,
    {
        proof {
            assert(nv.take(k as int + 1).drop_last() =~= nv.take(k as int));
            assert(nv.take(k as int + 1).last() == nodes@[k as int]@);
        }
        match &nodes[k].parent_ref {
            Some(r) => {
                if r.is_blinded() {
                    blinded += 1;
                }
                total += 1;
            },
            None => {},
        }
        k += 1;
    }
    assert(nv.take(nodes.len() as int) =~= nv);
    (blinded, total)
}

// ------------------------------------------------------------------
// Report
// ------------------------------------------------------------------

/// How many findings have the given severity.
pub open spec fn severity_count(f: Seq<FindingV>, s: Severity) -> nat
    decreases f.len(),
{
    if f.len() == 0 {
        0
    } else {
        severity_count(f.drop_last(), s) + if f.last().severity == s { 1nat } else { 0nat }
    }
}

/// The overall severity: critical if any finding is, else warning if any
/// finding is, else fine.
pub open spec fn spec_overall(f: Seq<FindingV>) -> Severity {
    if severity_count(f, Severity::Critical) > 0 {
        Severity::Critical
    } else if severity_count(f, Severity::Warning) > 0 {
        Severity::Warning
    } else {
        Severity::Okay
    }
}

proof fn lemma_counts_sum(f: Seq<FindingV>)
    ensures
        severity_count(f, Severity::Okay) + severity_count(f, Severity::Warning) + severity_count(f, Severity::Critical)
            == f.len(),
    decreases f.len(),
{
    if f.len() > 0 {
        lemma_counts_sum(f.drop_last());
    }
}

/// The report made of `findings`, the instant and the sizes of what was
/// observed.
pub fn report_from(
    findings: Vec<Finding>,
    timestamp: String,
    epas_count: usize,
    peers_count: usize,
    subjects_indexed: usize,
    derivation_links: usize,
) -> (r: HealthReport)
    ensures
        findings_view(r.findings@) == findings_view(findings@),
        r.timestamp@ == timestamp@,
        r.overall == spec_overall(findings_view(findings@)),
        r.summary.ok == severity_count(findings_view(findings@), Severity::Okay),
        r.summary.warnings == severity_count(findings_view(findings@), Severity::Warning),
        r.summary.critical == severity_count(findings_view(findings@), Severity::Critical),
        r.summary.total_checks == findings@.len(),
        r.summary.epas_count == epas_count,
        r.summary.peers_count == peers_count,
        r.summary.subjects_indexed == subjects_indexed,
        r.summary.derivation_links == derivation_links,
{
    let ghost fv = findings_view(findings@);
    let mut ok: usize = 0;
    let mut warnings: usize = 0;
    let mut critical: usize = 0;
    let mut k: usize = 0;
    while k < findings.len()
        invariant
            k <= findings.len(),
            fv == findings_view(findings@),
            ok == severity_count(fv.take(k as int), Severity::Okay),
            warnings == severity_count(fv.take(k as int), Severity::Warning),
            critical == severity_count(fv.take(k as int), Severity::Critical),
            ok + warnings + critical == k,
        decreases findings.len() - k,
    {
        proof {
            assert(fv.take(k as int + 1).drop_last() =~= fv.take(k as int));
            assert(fv.take(k as int + 1).last() == findings@[k as int]@);
            lemma_counts_sum(fv.take(k as int));
        }
        match findings[k].severity {
            Severity::Okay => ok += 1,
            Severity::Warning => warnings += 1,
            Severity::Critical => critical += 1,
        }
        k += 1;
    }
    assert(fv.take(findings.len() as int) =~= fv);
    let overall = if critical > 0 {
        Severity::Critical
    } else if warnings > 0 {
        Severity::Warning
    } else {
        Severity::Okay
    };
    HealthReport {
        timestamp,
        overall,
        findings,
        summary: HealthSummary {
            total_checks: ok + warnings + critical,
            ok,
            warnings,
            critical,
            epas_count,
            peers_count,
            subjects_indexed,
            derivation_links,
        },
    }
}

/// A report is critical exactly when one of its findings is.
pub proof fn law_overall_is_critical_iff_a_finding_is(f: Seq<FindingV>)
    ensures
        (spec_overall(f) == Severity::Critical) <==> (exists|i: int| 0 <= i < f.len() && f[i].severity == Severity::Critical),
    decreases f.len(),
{
    lemma_count_positive(f, Severity::Critical);
}

proof fn lemma_count_positive(f: Seq<FindingV>, s: Severity)
    ensures
        (severity_count(f, s) > 0) <==> (exists|i: int| 0 <= i < f.len() && f[i].severity == s),
    decreases f.len(),
{
    if f.len() > 0 {
        let d = f.drop_last();
        lemma_count_positive(d, s);
        if severity_count(d, s) > 0 {
            let i = choose|i: int| 0 <= i < d.len() && d[i].severity == s;
            assert(f[i] == d[i]);
        }
        if exists|i: int| 0 <= i < f.len() && f[i].severity == s {
            let i = choose|i: int| 0 <= i < f.len() && f[i].severity == s;
            if i < f.len() - 1 {
                assert(d[i] == f[i]);
            }
        }
    }
}

} // verus!
