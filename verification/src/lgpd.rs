//! Personal-data metadata required by the LGPD (Brazil's data protection law):
//! the lawful basis of the processing, its purpose and how long data is kept.

use vstd::prelude::*;
use crate::text::{chars_of, eq_str, is_blank, lower_chars, push_str, spec_is_blank, spec_lower, string_from_chars};

verus! {

/// Lawful basis of a processing operation.
#[derive(Debug, Clone, Copy, PartialEq, Eq, Structural, Hash)]
pub enum LawfulBasis {
    Consentimento,
    Contrato,
    ObrigacaoLegal,
    InteresseLegitimo,
    VidaFisica,
    FuncaoPublica,
    InteresseVital,
}

impl LawfulBasis {
    /// Human-readable name of the basis.
    pub open spec fn spec_label(self) -> Seq<char> {
        match self {
            LawfulBasis::Consentimento => "Consentimento"@,
            LawfulBasis::Contrato => "Contrato"@,
            LawfulBasis::ObrigacaoLegal => "Obrigacao Legal"@,
            LawfulBasis::InteresseLegitimo => "Interesse Legitimo"@,
            LawfulBasis::VidaFisica => "Vida Fisica ou Saude"@,
            LawfulBasis::FuncaoPublica => "Execucao de Politica Publica"@,
            LawfulBasis::InteresseVital => "Protecao da Vida"@,
        }
    }

    /// Human-readable name of the basis.
    pub fn label(self) -> (s: &'static str)
        ensures
            s@ == self.spec_label(),
    {
        match self {
            LawfulBasis::Consentimento => "Consentimento",
            LawfulBasis::Contrato => "Contrato",
            LawfulBasis::ObrigacaoLegal => "Obrigacao Legal",
            LawfulBasis::InteresseLegitimo => "Interesse Legitimo",
            LawfulBasis::VidaFisica => "Vida Fisica ou Saude",
            LawfulBasis::FuncaoPublica => "Execucao de Politica Publica",
            LawfulBasis::InteresseVital => "Protecao da Vida",
        }
    }

    /// Human-readable name of the basis, as an owned text.
    pub fn to_string(self) -> (s: String)
        ensures
            s@ == self.spec_label(),
    {
        let mut s = String::new();
        push_str(&mut s, self.label());
        s
    }
}

/// The LGPD metadata attached to a record.
#[derive(Debug, Clone, PartialEq)]
pub struct LgpdMetadata {
    pub lawful_basis: LawfulBasis,
    pub purpose: String,
    pub retention_days: u32,
    pub data_subject_hash: Option<String>,
    pub dpia_ref: Option<String>,
    pub consent_id: Option<String>,
}

/// Why LGPD metadata is invalid.
#[derive(Debug, Clone, Copy, PartialEq, Eq, Structural)]
pub enum LgpdError {
    EmptyPurpose,
    ZeroRetention,
}

impl LgpdError {
    /// The message of the error.
    pub open spec fn spec_message(self) -> Seq<char> {
        match self {
            LgpdError::EmptyPurpose => "LGPD purpose must not be empty"@,
            LgpdError::ZeroRetention => "LGPD retention_days must be > 0"@,
        }
    }

    /// The message of the error.
    pub fn message(self) -> (s: &'static str)
        ensures
            s@ == self.spec_message(),
    {
        match self {
            LgpdError::EmptyPurpose => "LGPD purpose must not be empty",
            LgpdError::ZeroRetention => "LGPD retention_days must be > 0",
        }
    }
}

/// The verdict on metadata: the purpose must hold more than white space, and
/// the retention period must be positive (checked in that order).
pub open spec fn spec_validate(purpose: Seq<char>, retention_days: u32) -> Result<(), LgpdError> {
    if spec_is_blank(purpose) {
        Err(LgpdError::EmptyPurpose)
    } else if retention_days == 0 {
        Err(LgpdError::ZeroRetention)
    } else {
        Ok(())
    }
}

impl LgpdMetadata {
    /// Checks the purpose and the retention period.
    pub fn validate(&self) -> (r: Result<(), LgpdError>)
        ensures
            r == spec_validate(self.purpose@, self.retention_days),
    {
        if is_blank(&chars_of(self.purpose.as_str())) {
            return Err(LgpdError::EmptyPurpose);
        }
        if self.retention_days == 0 {
            return Err(LgpdError::ZeroRetention);
        }
        Ok(())
    }
}

/// The basis a (lower-cased) name denotes, in Portuguese or English.
pub open spec fn basis_of_name(v: Seq<char>) -> Option<LawfulBasis> {
    if v == "consentimento"@ || v == "consent"@ {
        Some(LawfulBasis::Consentimento)
    } else if v == "contrato"@ || v == "contract"@ {
        Some(LawfulBasis::Contrato)
    } else if v == "obrigacao_legal"@ || v == "obrigacao-legal"@ || v == "legal_obligation"@ {
        Some(LawfulBasis::ObrigacaoLegal)
    } else if v == "interesse_legitimo"@ || v == "interesse-legitimo"@ || v == "legitimate_interest"@ {
        Some(LawfulBasis::InteresseLegitimo)
    } else if v == "vida_fisica"@ || v == "vida-fisica"@ || v == "life"@ {
        Some(LawfulBasis::VidaFisica)
    } else if v == "funcao_publica"@ || v == "funcao-publica"@ || v == "public_policy"@ {
        Some(LawfulBasis::FuncaoPublica)
    } else if v == "interesse_vital"@ || v == "interesse-vital"@ || v == "vital_interest"@ {
        Some(LawfulBasis::InteresseVital)
    } else {
        None
    }
}

/// The message for a name that denotes no basis.
pub open spec fn invalid_basis_message(v: Seq<char>) -> Seq<char> {
    "invalid LGPD lawful basis '"@ + v
        + "'. Use: consentimento, contrato, obrigacao_legal, interesse_legitimo, vida_fisica, funcao_publica, interesse_vital"@
}

/// Reads a lawful basis by name, ignoring ASCII case.
pub fn parse_lgpd_basis(raw: &str) -> (r: Result<LawfulBasis, String>)
    ensures
        match basis_of_name(spec_lower(raw@)) {
            Some(b) => r == Ok::<LawfulBasis, String>(b),
            None => r matches Err(m) && m@ == invalid_basis_message(spec_lower(raw@)),
        },
{
    let v = lower_chars(&chars_of(raw));
    if eq_str(&v, "consentimento") || eq_str(&v, "consent") {
        Ok(LawfulBasis::Consentimento)
    } else if eq_str(&v, "contrato") || eq_str(&v, "contract") {
        Ok(LawfulBasis::Contrato)
    } else if eq_str(&v, "obrigacao_legal") || eq_str(&v, "obrigacao-legal") || eq_str(&v, "legal_obligation") {
        Ok(LawfulBasis::ObrigacaoLegal)
    } else if eq_str(&v, "interesse_legitimo") || eq_str(&v, "interesse-legitimo") || eq_str(&v, "legitimate_interest") {
        Ok(LawfulBasis::InteresseLegitimo)
    } else if eq_str(&v, "vida_fisica") || eq_str(&v, "vida-fisica") || eq_str(&v, "life") {
        Ok(LawfulBasis::VidaFisica)
    } else if eq_str(&v, "funcao_publica") || eq_str(&v, "funcao-publica") || eq_str(&v, "public_policy") {
        Ok(LawfulBasis::FuncaoPublica)
    } else if eq_str(&v, "interesse_vital") || eq_str(&v, "interesse-vital") || eq_str(&v, "vital_interest") {
        Ok(LawfulBasis::InteresseVital)
    } else {
        let mut m = String::new();
        push_str(&mut m, "invalid LGPD lawful basis '");
        push_str(&mut m, string_from_chars(&v).as_str());
        push_str(&mut m, "'. Use: consentimento, contrato, obrigacao_legal, interesse_legitimo, vida_fisica, funcao_publica, interesse_vital");
        Err(m)
    }
}

} // verus!
