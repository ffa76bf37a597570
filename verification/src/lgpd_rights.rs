//! Data-subject rights: an index from a subject's hash to the evidence
//! packages that concern them, the anonymisation of a package, and the
//! suppression package that records it.

use vstd::prelude::*;
use crate::clock::{now_rfc3339, utc_timestamp_parses, UtcInstant};
use crate::hash::{canonical_hash, text_hash};
use crate::lgpd::{LawfulBasis, LgpdMetadata};
use crate::network::epa::{opt_bytes, SharedEPA};
use crate::network::identity::NodeIdentity;
use crate::text::{push_str, to_string};
use crate::textmap::TextMap;

verus! {

/// A package that concerns a data subject.
#[derive(Debug, Clone)]
pub struct EpaRef {
    pub epa_id: String,
    pub epa_hash: String,
    pub lawful_basis: LawfulBasis,
    pub purpose: String,
    pub created_at: UtcInstant,
    pub expires_at: UtcInstant,
}

/// Mathematical view of a package reference.
pub struct EpaRefV {
    pub epa_id: Seq<char>,
    pub epa_hash: Seq<char>,
    pub lawful_basis: LawfulBasis,
    pub purpose: Seq<char>,
    pub created_at: UtcInstant,
    pub expires_at: UtcInstant,
}

impl View for EpaRef {
    type V = EpaRefV;

    open spec fn view(&self) -> EpaRefV {
        EpaRefV {
            epa_id: self.epa_id@,
            epa_hash: self.epa_hash@,
            lawful_basis: self.lawful_basis,
            purpose: self.purpose@,
            created_at: self.created_at,
            expires_at: self.expires_at,
        }
    }
}

impl EpaRef {
    /// A reference with the same fields.
    pub fn copy(&self) -> (c: EpaRef)
        ensures
            c@ == self@,
    {
        EpaRef {
            epa_id: self.epa_id.clone(),
            epa_hash: self.epa_hash.clone(),
            lawful_basis: self.lawful_basis,
            purpose: self.purpose.clone(),
            created_at: self.created_at,
            expires_at: self.expires_at,
        }
    }
}

/// The result of anonymising a package.
#[derive(Debug, Clone)]
pub struct AnonymizationResult {
    pub original_epa_id: String,
    pub suppression_epa_id: String,
    pub fields_anonymized: Vec<String>,
    pub timestamp: UtcInstant,
}

/// What a subject may take with them.
#[derive(Debug, Clone)]
pub struct TitularExport {
    pub data_subject_hash: String,
    pub epas: Vec<EpaRef>,
    pub exported_at: UtcInstant,
}

/// The result of withdrawing consent.
#[derive(Debug, Clone)]
pub struct RevocationResult {
    pub epa_id: String,
    pub revoked_at: UtcInstant,
    pub lawful_basis_before: LawfulBasis,
}

/// The views of a list of references.
pub open spec fn refs_view(v: Seq<EpaRef>) -> Seq<EpaRefV> {
    v.map_values(|e: EpaRef| e@)
}

/// The index from a subject's hash to the packages that concern them.
#[derive(Debug)]
pub struct LgpdIndex {
    index: TextMap<Vec<EpaRef>>,
}

/// The references listed under a subject, none when the subject is absent.
pub open spec fn listed(m: Map<Seq<char>, Seq<EpaRefV>>, subject: Seq<char>) -> Seq<EpaRefV> {
    if m.contains_key(subject) { m[subject] } else { Seq::empty() }
}

/// The references without those of one package.
pub open spec fn without_epa(v: Seq<EpaRefV>, epa_id: Seq<char>) -> Seq<EpaRefV>
    decreases v.len(),
{
    if v.len() == 0 {
        Seq::empty()
    } else {
        let r = without_epa(v.drop_last(), epa_id);
        if v.last().epa_id == epa_id { r } else { r.push(v.last()) }
    }
}

impl View for LgpdIndex {
    type V = Map<Seq<char>, Seq<EpaRefV>>;

    closed spec fn view(&self) -> Map<Seq<char>, Seq<EpaRefV>> {
        self.index@.map_values(|v: Vec<EpaRef>| refs_view(v@))
    }
}

fn copy_refs(v: &Vec<EpaRef>) -> (c: Vec<EpaRef>)
    ensures
        refs_view(c@) == refs_view(v@),
{
    let mut c: Vec<EpaRef> = Vec::new();
    let mut k: usize = 0;
    while k < v.len()
        invariant
            k <= v.len(),
            c@.len() == k,
            forall|j: int| 0 <= j < k ==> #[trigger] c@[j]@ == v@[j]@,
        decreases v.len() - k,
    {
        c.push(v[k].copy());
        k += 1;
    }
    assert(refs_view(c@) =~= refs_view(v@));
    c
}

impl LgpdIndex {
    /// An empty index.
    pub fn new() -> (idx: LgpdIndex)
        ensures
            idx@ == Map::<Seq<char>, Seq<EpaRefV>>::empty(),
    {
        let idx = LgpdIndex { index: TextMap::new() };
        assert(idx@ =~= Map::<Seq<char>, Seq<EpaRefV>>::empty());
        idx
    }

    /// Lists a package under a subject, after those already listed.
    pub fn insert(&mut self, data_subject_hash: String, entry: EpaRef)
        ensures
            final(self)@ == old(self)@.insert(data_subject_hash@, listed(old(self)@, data_subject_hash@).push(entry@)),
    {
        let ghost before = self@;
        let mut list = match self.index.remove(data_subject_hash.as_str()) {
            Some(v) => v,
            None => Vec::new(),
        };
        let ghost l0 = refs_view(list@);
        assert(l0 == listed(before, data_subject_hash@));
        list.push(entry);
        assert(refs_view(list@) =~= l0.push(list@.last()@));
        self.index.insert(data_subject_hash, list);
        assert(self@ =~= before.insert(data_subject_hash@, l0.push(list@.last()@)));
    }

    /// The packages listed under a subject.
    pub fn lookup(&self, data_subject_hash: &str) -> (v: Vec<EpaRef>)
        ensures
            refs_view(v@) == listed(self@, data_subject_hash@),
    {
        match self.index.get(data_subject_hash) {
            Some(list) => copy_refs(list),
            None => {
                let v: Vec<EpaRef> = Vec::new();
                assert(refs_view(v@) =~= Seq::<EpaRefV>::empty());
                v
            },
        }
    }

    /// Unlists a package from a subject; a subject left without packages is
    /// dropped.
    pub fn remove_epa(&mut self, data_subject_hash: &str, epa_id: &str)
        ensures
            old(self)@.contains_key(data_subject_hash@) ==> {
                let rest = without_epa(old(self)@[data_subject_hash@], epa_id@);
                final(self)@ == if rest.len() == 0 {
                    old(self)@.remove(data_subject_hash@)
                } else {
                    old(self)@.insert(data_subject_hash@, rest)
                }
            },
            !old(self)@.contains_key(data_subject_hash@) ==> final(self)@ == old(self)@,
    {
        let ghost before = self@;
        let list = match self.index.remove(data_subject_hash) {
            Some(v) => v,
            None => {
                assert(self@ =~= before);
                return;
            },
        };
        let ghost l0 = refs_view(list@);
        let mut kept: Vec<EpaRef> = Vec::new();
        let mut k: usize = 0;
        while k < list.len()
            invariant
                k <= list.len(),
                l0 == refs_view(list@),
                refs_view(kept@) == without_epa(l0.take(k as int), epa_id@),
            decreases list.len() - k,
        {
            proof {
                assert(l0.take(k as int + 1).drop_last() =~= l0.take(k as int));
                assert(l0.take(k as int + 1).last() == list@[k as int]@);
            }
            if !crate::text::string_eq_str(&list[k].epa_id, epa_id) {
                let ghost k0 = kept@;
                kept.push(list[k].copy());
                assert(refs_view(kept@) =~= refs_view(k0).push(list@[k as int]@));
            }
            k += 1;
        }
        assert(l0.take(list.len() as int) =~= l0);
        if kept.len() > 0 {
            self.index.insert(crate::text::to_string(data_subject_hash), kept);
            assert(self@ =~= before.insert(data_subject_hash@, without_epa(l0, epa_id@)));
        } else {
            assert(self@ =~= before.remove(data_subject_hash@));
        }
    }

    /// The number of listed packages over all subjects (saturating at the
    /// largest `usize`).
    pub fn count(&self) -> (n: usize)
        ensures
            n == if total_listed(self@, self.subject_order()) > usize::MAX {
                usize::MAX as nat
            } else {
                total_listed(self@, self.subject_order())
            },
    {
        let len = self.index.len();
        let mut total: usize = 0;
        let mut over = false;
        let mut k: usize = 0;
        while k < len
            invariant
                k <= len,
                len == self.index@.dom().len(),
                self.subject_order().len() == len,
                forall|j: int| 0 <= j < len ==> #[trigger] self.subject_order()[j] == self.index.spec_key_at(j),
                forall|j: int| 0 <= j < len ==> self.index@.contains_key(#[trigger] self.index.spec_key_at(j)),
                over ==> total_listed(self@, self.subject_order().take(k as int)) > usize::MAX,
                !over ==> total == total_listed(self@, self.subject_order().take(k as int)),
            decreases len - k,
        {
            let (key, list) = self.index.entry(k);
            proof {
                let ks = self.subject_order();
                assert(ks.take(k as int + 1).drop_last() =~= ks.take(k as int));
                assert(ks.take(k as int + 1).last() == key@);
                assert(self@[key@] == refs_view(list@));
            }
            if !over {
                if list.len() > usize::MAX - total {
                    over = true;
                } else {
                    total = total + list.len();
                }
            }
            k += 1;
        }
        assert(self.subject_order().take(len as int) =~= self.subject_order());
        if over { usize::MAX } else { total }
    }

    /// The subjects in the order `subjects` lists them.
    pub closed spec fn subject_order(&self) -> Seq<Seq<char>> {
        Seq::new(self.index@.dom().len(), |j: int| self.index.spec_key_at(j))
    }

    /// The subjects, each once.
    pub fn subjects(&self) -> (v: Vec<String>)
        ensures
            forall|j: int| 0 <= j < v@.len() ==> self@.contains_key(#[trigger] v@[j]@),
            forall|k: Seq<char>| #[trigger] self@.contains_key(k) ==> exists|j: int| 0 <= j < v@.len() && v@[j]@ == k,
            forall|a: int, b: int| 0 <= a < b < v@.len() ==> v@[a]@ != v@[b]@,
    {
        self.index.keys_list()
    }
}

/// The number of references listed under the given subjects.
pub open spec fn total_listed(m: Map<Seq<char>, Seq<EpaRefV>>, subjects: Seq<Seq<char>>) -> nat
    decreases subjects.len(),
{
    if subjects.len() == 0 {
        0
    } else {
        total_listed(m, subjects.drop_last()) + listed(m, subjects.last()).len()
    }
}

// ------------------------------------------------------------------
// Building the index
// ------------------------------------------------------------------

/// The index built from the packages: each package whose privacy metadata
/// names a subject is listed under it, with the hash of its integrity
/// hash and the instants given for it.
pub open spec fn spec_index_from(
    epas: Seq<SharedEPA>,
    lgpd: Map<Seq<char>, LgpdMetadata>,
    times: Seq<(UtcInstant, UtcInstant)>,
) -> Map<Seq<char>, Seq<EpaRefV>>
    decreases epas.len(),
{
    if epas.len() == 0 {
        Map::empty()
    } else {
        let n = epas.len() - 1;
        let m = spec_index_from(epas.drop_last(), lgpd, times);
        let e = epas[n];
        if lgpd.contains_key(e.epa_id@) {
            match lgpd[e.epa_id@].data_subject_hash {
                Some(h) => m.insert(h@, listed(m, h@).push(EpaRefV {
                    epa_id: e.epa_id@,
                    epa_hash: text_hash(e.integrity_hash@),
                    lawful_basis: lgpd[e.epa_id@].lawful_basis,
                    purpose: lgpd[e.epa_id@].purpose@,
                    created_at: times[n].0,
                    expires_at: times[n].1,
                })),
                None => m,
            }
        } else {
            m
        }
    }
}

/// The index of the packages whose privacy metadata, looked up by package
/// identifier, names a subject; `times` gives each package's creation and
/// expiry instants.
pub fn index_from_epas_with_lgpd(
    epas: &Vec<SharedEPA>,
    lgpd_map: &TextMap<LgpdMetadata>,
    times: &Vec<(UtcInstant, UtcInstant)>,
) -> (idx: LgpdIndex)
    requires
        times@.len() == epas@.len(),
    ensures
        idx@ == spec_index_from(epas@, lgpd_map@, times@),
{
    let mut idx = LgpdIndex::new();
    let mut k: usize = 0;
    while k < epas.len()
        invariant
            k <= epas.len(),
            times@.len() == epas@.len(),
            idx@ == spec_index_from(epas@.take(k as int), lgpd_map@, times@),
        decreases epas.len() - k,
    {
        let e = &epas[k];
        proof {
            assert(epas@.take(k as int + 1).drop_last() =~= epas@.take(k as int));
            assert(epas@.take(k as int + 1)[k as int] == epas@[k as int]);
        }
        match lgpd_map.get(e.epa_id.as_str()) {
            Some(meta) => match &meta.data_subject_hash {
                Some(h) => {
                    let entry = EpaRef {
                        epa_id: e.epa_id.clone(),
                        epa_hash: canonical_hash(e.integrity_hash.as_str()),
                        lawful_basis: meta.lawful_basis,
                        purpose: meta.purpose.clone(),
                        created_at: times[k].0,
                        expires_at: times[k].1,
                    };
                    idx.insert(h.clone(), entry);
                },
                None => {},
            },
            None => {},
        }
        k += 1;
    }
    assert(epas@.take(epas@.len() as int) =~= epas@);
    idx
}

impl LgpdIndex {
    /// Rebuilds the index from the packages.
    pub fn build_from_epas(
        &mut self,
        epas: &Vec<SharedEPA>,
        lgpd_map: &TextMap<LgpdMetadata>,
        times: &Vec<(UtcInstant, UtcInstant)>,
    )
        requires
            times@.len() == epas@.len(),
        ensures
            final(self)@ == spec_index_from(epas@, lgpd_map@, times@),
    {
        *self = index_from_epas_with_lgpd(epas, lgpd_map, times);
    }
}

// ------------------------------------------------------------------
// Anonymisation
// ------------------------------------------------------------------

/// Sixty-four zeros.
pub open spec fn zero_hash() -> Seq<char> {
    Seq::new(64, |i: int| '0')
}

/// The fields anonymisation changes, in order: the payload and its key
/// when present, then each hash that is not already all zeros.
pub open spec fn spec_anonymized_fields(e: SharedEPA) -> Seq<Seq<char>> {
    (if e.encrypted_payload is Some { seq!["encrypted_payload"@] } else { Seq::empty() })
        + (if e.ephemeral_public_key is Some { seq!["ephemeral_public_key"@] } else { Seq::empty() })
        + (if e.state_hash@ != zero_hash() { seq!["state_hash"@] } else { Seq::empty() })
        + (if e.evidence_hash@ != zero_hash() { seq!["evidence_hash"@] } else { Seq::empty() })
}

fn zeros64() -> (s: String)
    ensures
        s@ == zero_hash(),
{
    let mut s = String::new();
    let mut k: usize = 0;
    while k < 64
        invariant
            k <= 64,
            s@ == Seq::new(k as nat, |i: int| '0'),
        decreases 64 - k,
    {
        crate::text::push_char(&mut s, '0');
        assert(s@ =~= Seq::new(k as nat + 1, |i: int| '0'));
        k += 1;
    }
    s
}

/// Anonymises a package: drops its encrypted payload and key and zeroes its
/// state and evidence hashes; the other fields stay. Returns the fields
/// that changed.
pub fn anonymize_epa_fields(epa: &mut SharedEPA) -> (fields: Vec<String>)
    ensures
        fields@.map_values(|f: String| f@) == spec_anonymized_fields(*old(epa)),
        final(epa).encrypted_payload is None,
        final(epa).ephemeral_public_key is None,
        final(epa).state_hash@ == zero_hash(),
        final(epa).evidence_hash@ == zero_hash(),
        final(epa).epa_id == old(epa).epa_id,
        final(epa).node_id == old(epa).node_id,
        final(epa).public_key == old(epa).public_key,
        final(epa).ed25519_signature == old(epa).ed25519_signature,
        final(epa).decision_hash == old(epa).decision_hash,
        final(epa).manifest_hash == old(epa).manifest_hash,
        final(epa).timestamp == old(epa).timestamp,
        final(epa).integrity_hash == old(epa).integrity_hash,
{
    let ghost e0 = *epa;
    let mut fields: Vec<String> = Vec::new();
    if epa.encrypted_payload.is_some() {
        epa.encrypted_payload = None;
        fields.push(to_string("encrypted_payload"));
    }
    if epa.ephemeral_public_key.is_some() {
        epa.ephemeral_public_key = None;
        fields.push(to_string("ephemeral_public_key"));
    }
    let zero = zeros64();
    if !crate::text::string_eq_str(&epa.state_hash, zero.as_str()) {
        epa.state_hash = zero.clone();
        fields.push(to_string("state_hash"));
    }
    if !crate::text::string_eq_str(&epa.evidence_hash, zero.as_str()) {
        epa.evidence_hash = zero;
        fields.push(to_string("evidence_hash"));
    }
    assert(fields@.map_values(|f: String| f@) =~= spec_anonymized_fields(e0));
    fields
}

// ------------------------------------------------------------------
// Suppression packages
// ------------------------------------------------------------------

/// The state document of a suppression package.
pub open spec fn suppression_state() -> Seq<char> {
    "{\"lgpd_action\":\"suppression\",\"status\":\"anonymized\"}"@
}

/// The evidence document of a suppression package.
pub open spec fn suppression_evidence(original_id: Seq<char>, at: Seq<char>) -> Seq<char> {
    "{\"action\":\"anonymize\",\"original_epa_id\":\""@ + original_id + "\",\"timestamp\":\""@ + at + "\"}"@
}

/// The decision document of a suppression package.
pub open spec fn suppression_decisions(original_id: Seq<char>) -> Seq<char> {
    "{\"decision\":\"suppress\",\"reason\":\"lgpd_data_subject_request\",\"original_epa\":\""@ + original_id + "\"}"@
}

/// The manifest document of a suppression package.
pub open spec fn suppression_manifest(original_id: Seq<char>) -> Seq<char> {
    "{\"project\":\"lgpd_suppression\",\"original_epa_id\":\""@ + original_id + "\",\"action\":\"data_anonymization\"}"@
}

/// A package of the node recording that `original` was anonymised, now.
pub fn create_suppression_epa(node: &NodeIdentity, original_epa: &SharedEPA) -> (e: SharedEPA)
    ensures
        e.node_id@ == node@.node_id,
        e.state_hash@ == text_hash(suppression_state()),
        e.decision_hash@ == text_hash(suppression_decisions(original_epa.epa_id@)),
        e.manifest_hash@ == text_hash(suppression_manifest(original_epa.epa_id@)),
        exists|at: Seq<char>| utc_timestamp_parses(at)
            && e.evidence_hash@ == text_hash(#[trigger] suppression_evidence(original_epa.epa_id@, at)),
        e.encrypted_payload is None,
        e.ephemeral_public_key is None,
{
    let state_json = "{\"lgpd_action\":\"suppression\",\"status\":\"anonymized\"}";
    let at = now_rfc3339();
    let mut evidence = to_string("{\"action\":\"anonymize\",\"original_epa_id\":\"");
    push_str(&mut evidence, original_epa.epa_id.as_str());
    push_str(&mut evidence, "\",\"timestamp\":\"");
    push_str(&mut evidence, at.as_str());
    push_str(&mut evidence, "\"}");
    let mut decisions = to_string("{\"decision\":\"suppress\",\"reason\":\"lgpd_data_subject_request\",\"original_epa\":\"");
    push_str(&mut decisions, original_epa.epa_id.as_str());
    push_str(&mut decisions, "\"}");
    let mut manifest = to_string("{\"project\":\"lgpd_suppression\",\"original_epa_id\":\"");
    push_str(&mut manifest, original_epa.epa_id.as_str());
    push_str(&mut manifest, "\",\"action\":\"data_anonymization\"}");
    let e = SharedEPA::create(node, state_json, evidence.as_str(), decisions.as_str(), manifest.as_str());
    assert(evidence@ == suppression_evidence(original_epa.epa_id@, at@));
    e
}

} // verus!
