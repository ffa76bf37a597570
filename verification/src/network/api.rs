//! What the node's HTTP interface decides: the answers of its endpoints,
//! how received packages are kept (the oldest dropped when full), and the
//! data-subject operations on the privacy index. Listening, routing and
//! serialising are the server's.

use vstd::prelude::*;
use crate::clock::UtcInstant;
use crate::hash::{canonical_hash, text_hash};
use crate::lgpd::LawfulBasis;
use crate::lgpd_rights::{
    anonymize_epa_fields, create_suppression_epa, listed, refs_view, AnonymizationResult, EpaRef, EpaRefV, LgpdIndex,
    RevocationResult, TitularExport,
};
use crate::limits::MAX_EPA_ENTRIES;
use crate::network::epa::{same_epa, SharedEPA};
use crate::network::identity::{hex_decode, hex_decode_error_of, spec_hex_decode, NodeIdentity};
use crate::network::verify::{verify_epa, VerifyResult};
use crate::text::{push_decimal, push_str, string_eq_str, to_string};

verus! {

/// A plain answer.
#[derive(Debug, Clone)]
pub struct ApiResponse {
    pub status: String,
    pub message: String,
}

/// The node's identifier and how many packages it holds.
#[derive(Debug, Clone)]
pub struct NodeListResponse {
    pub node_id: String,
    pub epa_count: usize,
}

/// The verdict on one package.
#[derive(Debug, Clone)]
pub struct VerifyResponse {
    pub result: String,
    pub epa_id: String,
}

/// A request to make an encrypted package for a recipient.
#[derive(Debug, Clone)]
pub struct EncryptedEpaRequest {
    pub state_json: String,
    pub evidence_jsonl: String,
    pub decisions_jsonl: String,
    pub manifest_json: String,
    pub recipient_public_key: String,
}

/// The quick verdict on one package: signature and integrity.
#[derive(Debug, Clone)]
pub struct QuickVerifyResponse {
    pub signature_valid: bool,
    pub integrity_valid: bool,
    pub epa_id: String,
}

/// An error answer.
#[derive(Debug, Clone)]
pub struct ErrorResponse {
    pub error: String,
}

/// The HTTP status of a refusal.
#[derive(Debug, Clone, Copy, PartialEq, Eq, Structural)]
pub enum ApiStatus {
    BadRequest,
    Unauthorized,
    NotFound,
    TooManyRequests,
}

// ------------------------------------------------------------------
// Plain endpoints
// ------------------------------------------------------------------

/// The health answer.
pub fn health() -> (r: ApiResponse)
    ensures
        r.status@ == "ok"@,
        r.message@ == "nexoia node is running"@,
{
    ApiResponse { status: to_string("ok"), message: to_string("nexoia node is running") }
}

/// The node's identifier and package count.
pub fn node_info(node_id: &str, epas: &Vec<SharedEPA>) -> (r: NodeListResponse)
    ensures
        r.node_id@ == node_id@,
        r.epa_count == epas@.len(),
{
    NodeListResponse { node_id: to_string(node_id), epa_count: epas.len() }
}

/// Requests to `/health` are never rate limited.
pub fn rate_limited_path(path: &str) -> (b: bool)
    ensures
        b == (path@ != "/health"@),
{
    !string_eq_str(&to_string(path), "/health")
}

/// What stays of the kept packages when one more is kept: all of them, or
/// all but the oldest when the list is full.
pub open spec fn kept_before(epas: Seq<SharedEPA>) -> Seq<SharedEPA> {
    if epas.len() >= MAX_EPA_ENTRIES { epas.drop_first() } else { epas }
}

/// Keeps a package: the oldest is dropped first when the list is full.
pub fn store_epa(epas: &mut Vec<SharedEPA>, epa: SharedEPA)
    ensures
        old(epas)@.len() >= MAX_EPA_ENTRIES ==> final(epas)@ == old(epas)@.drop_first().push(epa),
        old(epas)@.len() < MAX_EPA_ENTRIES ==> final(epas)@ == old(epas)@.push(epa),
{
    if epas.len() >= MAX_EPA_ENTRIES {
        let _ = epas.remove(0);
    }
    epas.push(epa);
}

/// The position of the package with the given identifier, if any.
pub fn find_epa(epas: &Vec<SharedEPA>, epa_id: &str) -> (r: Option<usize>)
    ensures
        match r {
            Some(i) => i < epas@.len() && epas@[i as int].epa_id@ == epa_id@
                && forall|j: int| 0 <= j < i ==> #[trigger] epas@[j].epa_id@ != epa_id@,
            None => forall|j: int| 0 <= j < epas@.len() ==> #[trigger] epas@[j].epa_id@ != epa_id@,
        },
{
    let mut i: usize = 0;
    while i < epas.len()
        invariant
            i <= epas@.len(),
            forall|j: int| 0 <= j < i ==> #[trigger] epas@[j].epa_id@ != epa_id@,
        decreases epas.len() - i,
    {
        if string_eq_str(&epas[i].epa_id, epa_id) {
            return Some(i);
        }
        i += 1;
    }
    None
}

/// A received package is kept when it verifies; otherwise it is refused as
/// unauthorised.
pub fn receive_epa(epas: &mut Vec<SharedEPA>, epa: SharedEPA) -> (r: Result<ApiResponse, ApiStatus>)
    ensures
        match r {
            Ok(resp) => resp.status@ == "accepted"@ && resp.message@ == "EPA received and verified"@
                && (old(epas)@.len() >= MAX_EPA_ENTRIES ==> final(epas)@ == old(epas)@.drop_first().push(epa))
                && (old(epas)@.len() < MAX_EPA_ENTRIES ==> final(epas)@ == old(epas)@.push(epa)),
            Err(s) => s == ApiStatus::Unauthorized && final(epas)@ == old(epas)@,
        },
{
    match verify_epa(&epa) {
        VerifyResult::Valid => {
            store_epa(epas, epa);
            Ok(ApiResponse { status: to_string("accepted"), message: to_string("EPA received and verified") })
        },
        _ => Err(ApiStatus::Unauthorized),
    }
}

/// The verdict on the package with the given identifier.
pub fn verify_epa_endpoint(epas: &Vec<SharedEPA>, epa_id: &str) -> (r: Result<VerifyResponse, ApiStatus>)
    ensures
        match r {
            Ok(resp) => exists|i: int| 0 <= i < epas@.len() && #[trigger] epas@[i].epa_id@ == epa_id@
                && resp.epa_id@ == epa_id@,
            Err(s) => s == ApiStatus::NotFound && forall|j: int| 0 <= j < epas@.len() ==> #[trigger] epas@[j].epa_id@ != epa_id@,
        },
{
    match find_epa(epas, epa_id) {
        None => Err(ApiStatus::NotFound),
        Some(i) => {
            let result = verify_epa(&epas[i]);
            Ok(VerifyResponse { result: to_string(result.as_str()), epa_id: epas[i].epa_id.clone() })
        },
    }
}

/// The quick verdict on the package with the given identifier.
pub fn verify_quick(epas: &Vec<SharedEPA>, epa_id: &str) -> (r: Result<QuickVerifyResponse, ApiStatus>)
    ensures
        match r {
            Ok(resp) => exists|i: int| 0 <= i < epas@.len() && #[trigger] epas@[i].epa_id@ == epa_id@
                && resp.epa_id@ == epa_id@
                && resp.integrity_valid == (epas@[i].integrity_hash@ == crate::network::epa::expected_integrity(epas@[i]))
                && resp.signature_valid == (crate::network::epa::spec_signature_verdict(epas@[i]) is Ok),
            Err(s) => s == ApiStatus::NotFound && forall|j: int| 0 <= j < epas@.len() ==> #[trigger] epas@[j].epa_id@ != epa_id@,
        },
{
    match find_epa(epas, epa_id) {
        None => Err(ApiStatus::NotFound),
        Some(i) => {
            let e = &epas[i];
            let signature_valid = e.verify_signature().is_ok();
            let integrity_valid = e.verify_integrity();
            Ok(QuickVerifyResponse { signature_valid, integrity_valid, epa_id: e.epa_id.clone() })
        },
    }
}

// ------------------------------------------------------------------
// Encrypted packages
// ------------------------------------------------------------------

fn key_array(v: &Vec<u8>) -> (k: [u8; 32])
    requires
        v@.len() == 32,
    ensures
        k@ == v@,
{
    let mut k: [u8; 32] = [0u8; 32];
    let mut i: usize = 0;
    while i < 32
        invariant
            i <= 32,
            v@.len() == 32,
            forall|j: int| 0 <= j < i ==> k@[j] == v@[j],
        decreases 32 - i,
    {
        k.set(i, v[i]);
        i += 1;
    }
    assert(k@ =~= v@);
    k
}

/// Makes, keeps and returns an encrypted package for the request: a key
/// that is not hex or not 32 bytes long is refused, as is a failed
/// encryption.
pub fn receive_encrypted_epa(node: &NodeIdentity, epas: &mut Vec<SharedEPA>, req: &EncryptedEpaRequest) -> (r: Result<
    SharedEPA,
    (ApiStatus, ErrorResponse),
>)
    ensures
        match spec_hex_decode(vstd::utf8::encode_utf8(req.recipient_public_key@)) {
            None => r matches Err((s, e)) && s == ApiStatus::BadRequest
                && e.error@ == "invalid hex in recipient_public_key: "@
                    + hex_decode_error_of(vstd::utf8::encode_utf8(req.recipient_public_key@))
                && final(epas)@ == old(epas)@,
            Some(b) => if b.len() != 32 {
                r matches Err((s, e)) && s == ApiStatus::BadRequest
                    && e.error@ == "recipient_public_key must be 32 bytes, got "@ + crate::text::spec_decimal(b.len())
                    && final(epas)@ == old(epas)@
            } else {
                match r {
                    Ok(epa) => epa.node_id@ == node@.node_id && epa.encrypted_payload is Some
                        && final(epas)@.len() > 0 && same_epa(final(epas)@.last(), epa)
                        && final(epas)@.drop_last() == kept_before(old(epas)@),
                    Err((s, e)) => s == ApiStatus::BadRequest && e.error@ == "encryption failed: Encryption error: aead::Error"@
                        && final(epas)@ == old(epas)@,
                }
            },
        },
{
    let bytes = match hex_decode(req.recipient_public_key.as_str()) {
        Ok(b) => b,
        Err(m) => {
            let mut e = to_string("invalid hex in recipient_public_key: ");
            push_str(&mut e, m.as_str());
            return Err((ApiStatus::BadRequest, ErrorResponse { error: e }));
        },
    };
    if bytes.len() != 32 {
        let mut e = to_string("recipient_public_key must be 32 bytes, got ");
        push_decimal(&mut e, bytes.len() as u64);
        return Err((ApiStatus::BadRequest, ErrorResponse { error: e }));
    }
    let key = key_array(&bytes);
    let epa = match SharedEPA::create_encrypted(
        node,
        req.state_json.as_str(),
        req.evidence_jsonl.as_str(),
        req.decisions_jsonl.as_str(),
        req.manifest_json.as_str(),
        &key,
    ) {
        Ok(e) => e,
        Err(m) => {
            let mut e = to_string("encryption failed: ");
            push_str(&mut e, m.as_str());
            proof {
                reveal_strlit("encryption failed: ");
                reveal_strlit("Encryption error: aead::Error");
                reveal_strlit("encryption failed: Encryption error: aead::Error");
                assert(e@ =~= "encryption failed: Encryption error: aead::Error"@);
            }
            return Err((ApiStatus::BadRequest, ErrorResponse { error: e }));
        },
    };
    let kept = epa.copy();
    store_epa(epas, kept);
    assert(final(epas)@.drop_last() =~= kept_before(old(epas)@));
    Ok(epa)
}

// ------------------------------------------------------------------
// Data-subject rights
// ------------------------------------------------------------------

/// The packages listed for a subject.
pub fn titular_dados(index: &LgpdIndex, hash: &str) -> (v: Vec<EpaRef>)
    ensures
        refs_view(v@) == listed(index@, hash@),
{
    index.lookup(hash)
}

/// What a subject may take with them, stamped `now`.
pub fn titular_export(index: &LgpdIndex, hash: String, now: UtcInstant) -> (x: TitularExport)
    ensures
        x.data_subject_hash@ == hash@,
        refs_view(x.epas@) == listed(index@, hash@),
        x.exported_at == now,
{
    let epas = index.lookup(hash.as_str());
    TitularExport { data_subject_hash: hash, epas, exported_at: now }
}

/// The index after unlisting a package from a subject.
pub open spec fn index_without(m: Map<Seq<char>, Seq<EpaRefV>>, s: Seq<char>, id: Seq<char>) -> Map<Seq<char>, Seq<EpaRefV>> {
    if m.contains_key(s) {
        let rest = crate::lgpd_rights::without_epa(m[s], id);
        if rest.len() == 0 { m.remove(s) } else { m.insert(s, rest) }
    } else {
        m
    }
}

/// The references whose legal basis is consent, in order.
pub open spec fn consented(refs: Seq<EpaRefV>) -> Seq<EpaRefV>
    decreases refs.len(),
{
    if refs.len() == 0 {
        Seq::empty()
    } else {
        let r = consented(refs.drop_last());
        if refs.last().lawful_basis == LawfulBasis::Consentimento { r.push(refs.last()) } else { r }
    }
}

/// The index after unlisting each of the given packages from a subject.
pub open spec fn index_without_all(m: Map<Seq<char>, Seq<EpaRefV>>, s: Seq<char>, refs: Seq<EpaRefV>) -> Map<Seq<char>, Seq<EpaRefV>>
    decreases refs.len(),
{
    if refs.len() == 0 {
        m
    } else {
        index_without(index_without_all(m, s, refs.drop_last()), s, refs.last().epa_id)
    }
}

/// Withdraws consent: every package of the subject held on consent is
/// unlisted and reported; a subject without packages is not found.
pub fn titular_revoke(index: &mut LgpdIndex, hash: &str, now: UtcInstant) -> (r: Result<Vec<RevocationResult>, ApiStatus>)
    ensures
        listed(old(index)@, hash@).len() == 0 ==> (r matches Err(s) && s == ApiStatus::NotFound && final(index)@ == old(index)@),
        listed(old(index)@, hash@).len() > 0 ==> (r matches Ok(v) && {
            let c = consented(listed(old(index)@, hash@));
            &&& v@.len() == c.len()
            &&& forall|i: int| 0 <= i < v@.len() ==> (#[trigger] v@[i]).epa_id@ == c[i].epa_id
                && v@[i].revoked_at == now && v@[i].lawful_basis_before == LawfulBasis::Consentimento
            &&& final(index)@ == index_without_all(old(index)@, hash@, c)
        }),
{
    let refs = index.lookup(hash);
    let ghost lv = refs_view(refs@);
    if refs.len() == 0 {
        return Err(ApiStatus::NotFound);
    }
    let ghost m0 = index@;
    let mut results: Vec<RevocationResult> = Vec::new();
    let mut k: usize = 0;
    while k < refs.len()
        invariant
            k <= refs.len(),
            lv == refs_view(refs@),
            lv == listed(m0, hash@),
            results@.len() == consented(lv.take(k as int)).len(),
            forall|i: int| 0 <= i < results@.len() ==> (#[trigger] results@[i]).epa_id@ == consented(lv.take(k as int))[i].epa_id
                && results@[i].revoked_at == now && results@[i].lawful_basis_before == LawfulBasis::Consentimento,
            index@ == index_without_all(m0, hash@, consented(lv.take(k as int))),
        decreases refs.len() - k,
    {
        proof {
            assert(lv.take(k as int + 1).drop_last() =~= lv.take(k as int));
            assert(lv.take(k as int + 1).last() == refs@[k as int]@);
        }
        let e = &refs[k];
        let ghost c = consented(lv.take(k as int));
        if e.lawful_basis == LawfulBasis::Consentimento {
            results.push(RevocationResult { epa_id: e.epa_id.clone(), revoked_at: now, lawful_basis_before: e.lawful_basis });
            index.remove_epa(hash, e.epa_id.as_str());
            proof {
                assert(consented(lv.take(k as int + 1)) == c.push(e@));
                assert(c.push(e@).drop_last() =~= c);
            }
        } else {
            assert(consented(lv.take(k as int + 1)) == c);
        }
        k += 1;
    }
    assert(lv.take(refs.len() as int) =~= lv);
    Ok(results)
}

/// Ten years in seconds (3650 days).
pub const SUPPRESSION_RETENTION_SECS: i64 = 315360000;

/// Anonymises every kept package of a subject: its personal fields are
/// cleared, a suppression package is made and kept, and the subject's
/// listing swaps the package for its suppression, held under legal
/// obligation for ten years from `now`. A subject without packages is not
/// found.
pub fn titular_anonymize(
    node: &NodeIdentity,
    epas: &mut Vec<SharedEPA>,
    index: &mut LgpdIndex,
    hash: &str,
    now: UtcInstant,
) -> (r: Result<Vec<AnonymizationResult>, ApiStatus>)
    requires
        now.secs <= i64::MAX - SUPPRESSION_RETENTION_SECS,
    ensures
        listed(old(index)@, hash@).len() == 0 ==> (r matches Err(s) && s == ApiStatus::NotFound
            && final(index)@ == old(index)@ && final(epas)@ == old(epas)@),
        listed(old(index)@, hash@).len() > 0 ==> (r matches Ok(v) && {
            &&& v@.len() <= listed(old(index)@, hash@).len()
            &&& forall|i: int| 0 <= i < v@.len() ==> (#[trigger] v@[i]).timestamp == now
                && exists|j: int| 0 <= j < listed(old(index)@, hash@).len()
                    && listed(old(index)@, hash@)[j].epa_id == v@[i].original_epa_id@
        }),
{
    let refs = index.lookup(hash);
    let ghost lv = refs_view(refs@);
    if refs.len() == 0 {
        return Err(ApiStatus::NotFound);
    }
    let mut results: Vec<AnonymizationResult> = Vec::new();
    let mut k: usize = 0;
    while k < refs.len()
        invariant
            k <= refs.len(),
            lv == refs_view(refs@),
            results@.len() <= k,
            forall|i: int| 0 <= i < results@.len() ==> (#[trigger] results@[i]).timestamp == now
                && exists|j: int| 0 <= j < lv.len() && lv[j].epa_id == results@[i].original_epa_id@,
        decreases refs.len() - k,
    {
        let e = &refs[k];
        match find_epa(epas, e.epa_id.as_str()) {
            Some(i) => {
                let fields = anonymize_epa_fields(&mut epas[i]);
                let suppression = create_suppression_epa(node, &epas[i]);
                assert(lv[k as int].epa_id == refs@[k as int].epa_id@);
                results.push(AnonymizationResult {
                    original_epa_id: e.epa_id.clone(),
                    suppression_epa_id: suppression.epa_id.clone(),
                    fields_anonymized: fields,
                    timestamp: now,
                });
                store_epa(epas, suppression);
            },
            None => {},
        }
        k += 1;
    }
    let expires = UtcInstant { secs: now.secs + SUPPRESSION_RETENTION_SECS, nanos: now.nanos };
    let mut j: usize = 0;
    while j < results.len()
        invariant
            j <= results.len(),
        decreases results.len() - j,
    {
        let res = &results[j];
        index.remove_epa(hash, res.original_epa_id.as_str());
        index.insert(
            to_string(hash),
            EpaRef {
                epa_id: res.suppression_epa_id.clone(),
                epa_hash: canonical_hash(res.suppression_epa_id.as_str()),
                lawful_basis: LawfulBasis::ObrigacaoLegal,
                purpose: to_string("lgpd_suppression"),
                created_at: now,
                expires_at: expires,
            },
        );
        j += 1;
    }
    Ok(results)
}

} // verus!
