//! Planning from self-observation: what to do about a failing build, failing
//! tests, warnings, formatting and interpreter findings, and about recent
//! failed iterations; and the outcome each planned action has against the
//! observed state. Hints from the knowledge dictionary and the internet are
//! looked up by the caller and handed in.

use vstd::prelude::*;
use crate::hash::{canonical_hash, text_hash};
use crate::nex::iteration::{Iteration, Outcome};
use crate::nex::self_awareness::ObservedState;
use crate::text::{chars_of, contains, push_decimal, push_str, spec_contains, spec_decimal, to_string};

verus! {

/// An action of a plan.
#[derive(Debug, Clone)]
pub struct AcaoPlanejada {
    pub tipo: String,
    pub parametro: String,
    pub esperado: String,
}

/// A plan: its actions, the reasoning and a hash that seals them.
#[derive(Debug, Clone)]
pub struct Plano {
    pub acoes: Vec<AcaoPlanejada>,
    pub justificativa: String,
    pub hash: String,
}

/// Mathematical view of a planned action.
pub struct AcaoV {
    pub tipo: Seq<char>,
    pub parametro: Seq<char>,
    pub esperado: Seq<char>,
}

impl View for AcaoPlanejada {
    type V = AcaoV;

    open spec fn view(&self) -> AcaoV {
        AcaoV { tipo: self.tipo@, parametro: self.parametro@, esperado: self.esperado@ }
    }
}

/// The hints found for a plan: for each interpreter error the dictionary's
/// first suggestion and what the internet gave (empty when nothing); for a
/// failed build the same; for failed tests the dictionary's suggestion; the
/// dictionary's suggestions on lints; and the dictionary's size.
#[derive(Debug, Clone)]
pub struct PlanHints {
    pub miri_dictionary: Vec<Option<String>>,
    pub miri_internet: Vec<String>,
    pub build_dictionary: Option<String>,
    pub build_internet: String,
    pub test_dictionary: Option<String>,
    pub clippy_dictionary: Vec<String>,
    pub dictionary_len: usize,
}

/// Texts joined with `; ` between neighbours.
pub open spec fn joined_semicolons(parts: Seq<Seq<char>>) -> Seq<char>
    decreases parts.len(),
{
    if parts.len() == 0 {
        Seq::empty()
    } else if parts.len() == 1 {
        parts[0]
    } else {
        joined_semicolons(parts.drop_last()) + "; "@ + parts.last()
    }
}

/// The hint line of an interpreter error.
pub open spec fn miri_hint(e: Seq<char>, dict: Option<Seq<char>>, inet: Seq<char>) -> Seq<char> {
    match dict {
        Some(d) => e + " → "@ + d,
        None => if inet.len() > 0 { e + " → [internet] "@ + inet } else { e },
    }
}

/// The text an optional text holds.
pub open spec fn opt_text(o: Option<String>) -> Option<Seq<char>> {
    match o {
        Some(s) => Some(s@),
        None => None,
    }
}

/// The hint lines of all interpreter errors.
pub open spec fn miri_hints(obs: ObservedState, h: PlanHints) -> Seq<Seq<char>> {
    Seq::new(
        obs.miri_errors@.len(),
        |i: int| miri_hint(obs.miri_errors@[i]@, opt_text(h.miri_dictionary@[i]), h.miri_internet@[i]@),
    )
}

/// A planned action.
pub open spec fn acao(tipo: Seq<char>, parametro: Seq<char>, esperado: Seq<char>) -> AcaoV {
    AcaoV { tipo, parametro, esperado }
}

/// The action on interpreter errors.
pub open spec fn miri_actions(obs: ObservedState, h: PlanHints) -> Seq<AcaoV> {
    let dicas = miri_hints(obs, h);
    if !obs.miri_ok {
        seq![acao("corrigir_seguranca"@, "miri"@, if dicas.len() == 0 {
            "Miri detectou erro de segurança — investigar"@
        } else {
            "Miri: "@ + joined_semicolons(dicas) + " — dicas: "@ + spec_decimal(dicas.len())
        })]
    } else {
        Seq::empty()
    }
}

/// The action on a failed build.
pub open spec fn build_actions(obs: ObservedState, h: PlanHints) -> Seq<AcaoV> {
    if !obs.build_ok {
        seq![acao("corrigir_build"@, "build"@, match opt_text(h.build_dictionary) {
            Some(d) => "build falhou — dica: "@ + d,
            None => if h.build_internet@.len() > 0 {
                "build falhou — [internet] "@ + h.build_internet@
            } else {
                "build falhou — corrigir imediatamente"@
            },
        })]
    } else {
        Seq::empty()
    }
}

/// The action on failed tests.
pub open spec fn test_actions(obs: ObservedState, h: PlanHints) -> Seq<AcaoV> {
    if obs.tests_failed > 0 {
        seq![acao("corrigir_testes"@, "tests"@, match opt_text(h.test_dictionary) {
            Some(d) => spec_decimal(obs.tests_failed as nat) + " testes falharam — dica: "@ + d,
            None => spec_decimal(obs.tests_failed as nat) + " testes falharam"@,
        })]
    } else {
        Seq::empty()
    }
}

/// The action on warnings (at most three lint hints are quoted).
pub open spec fn warning_actions(obs: ObservedState, h: PlanHints) -> Seq<AcaoV> {
    let total_warnings = (obs.build_warnings + obs.clippy_warnings) as nat;
    let clippy = h.clippy_dictionary@.map_values(|s: String| s@);
    if total_warnings > 0 {
        seq![acao("limpar_warnings"@, "warnings"@, if clippy.len() > 0 {
            spec_decimal(total_warnings) + " warnings — dicas: "@ + joined_semicolons(
                if clippy.len() > 3 { clippy.take(3) } else { clippy },
            )
        } else {
            spec_decimal(obs.build_warnings as nat) + " warnings (build) + "@ + spec_decimal(obs.clippy_warnings as nat)
                + " warnings (clippy)"@
        })]
    } else {
        Seq::empty()
    }
}

/// The action on formatting.
pub open spec fn fmt_actions(obs: ObservedState) -> Seq<AcaoV> {
    if !obs.fmt_ok {
        seq![acao("formatar"@, "fmt"@, "cargo fmt --check falhou"@)]
    } else {
        Seq::empty()
    }
}

/// The action on interpreter warnings of a passing run.
pub open spec fn miri_ok_actions(obs: ObservedState) -> Seq<AcaoV> {
    if obs.miri_ok && obs.miri_errors@.len() > 0 {
        seq![acao("verificar_miri"@, "miri"@, "Miri passou com "@ + spec_decimal(obs.miri_errors@.len())
            + " warnings — considerar promoted"@)]
    } else {
        Seq::empty()
    }
}

/// The actions the observed state calls for, most urgent first; watching
/// when nothing calls for action.
pub open spec fn state_actions(obs: ObservedState, h: PlanHints) -> Seq<AcaoV> {
    let all = miri_actions(obs, h) + build_actions(obs, h) + test_actions(obs, h) + warning_actions(obs, h)
        + fmt_actions(obs) + miri_ok_actions(obs);
    if all.len() == 0 { seq![monitor_action()] } else { all }
}

/// Keep watching.
pub open spec fn monitor_action() -> AcaoV {
    acao("monitorar"@, "sistema"@, "sistema saudável — continuar observando"@)
}

/// The (at most ten) most recent iterations, newest first.
pub open spec fn recent(hist: Seq<Iteration>) -> Seq<Iteration> {
    let r = hist.reverse();
    if r.len() > 10 { r.take(10) } else { r }
}

/// The action a recent iteration calls for, if any: a failure is
/// investigated; a no-action that mentions a pattern is explored.
pub open spec fn history_action(it: Iteration) -> Option<AcaoV> {
    match it.resultado {
        Outcome::Falha { erro } => Some(acao("investigar"@, "iter_"@ + spec_decimal(it.id as nat), "diagnosticar causa: "@ + erro@)),
        Outcome::NenhumaAcao { motivo } => if spec_contains(motivo@, "padrão"@) {
            Some(acao("otimizar"@, "iter_"@ + spec_decimal(it.id as nat), "explorar padrão detectado"@))
        } else {
            None
        },
        _ => None,
    }
}

/// The actions the iterations call for, in order.
pub open spec fn history_actions(its: Seq<Iteration>) -> Seq<AcaoV>
    decreases its.len(),
{
    if its.len() == 0 {
        Seq::empty()
    } else {
        history_actions(its.drop_last()) + match history_action(its.last()) {
            Some(a) => seq![a],
            None => Seq::empty(),
        }
    }
}

/// The plan's actions: those of the state, then those of the recent history.
pub open spec fn spec_plan_actions(obs: ObservedState, hist: Seq<Iteration>, h: PlanHints) -> Seq<AcaoV> {
    state_actions(obs, h) + history_actions(recent(hist))
}

/// `OK` or `FALHOU`.
pub open spec fn ok_word(b: bool) -> Seq<char> {
    if b { "OK"@ } else { "FALHOU"@ }
}

/// The plan's reasoning: the observed state, the dictionary's size, how
/// many iterations were considered and how many actions came of it.
pub open spec fn spec_justificativa(obs: ObservedState, h: PlanHints, n_recent: nat, n_actions: nat) -> Seq<char> {
    "Estado: build="@ + ok_word(obs.build_ok) + ", tests="@ + spec_decimal(obs.tests_passed as nat) + "/"@
        + spec_decimal(obs.tests_failed as nat) + ", warnings="@
        + spec_decimal((obs.build_warnings + obs.clippy_warnings) as nat) + ", clippy="@ + ok_word(obs.clippy_ok)
        + ", fmt="@ + ok_word(obs.fmt_ok) + ", miri="@ + ok_word(obs.miri_ok) + " | Dicionário: "@
        + spec_decimal(h.dictionary_len as nat) + " entradas | "@ + spec_decimal(n_recent) + " iterações → "@
        + spec_decimal(n_actions) + " ações"@
}

/// The hints fit the observation: one dictionary and one internet hint per
/// interpreter error, and the warnings add up within a `usize`.
pub open spec fn hints_fit(obs: ObservedState, h: PlanHints) -> bool {
    &&& h.miri_dictionary@.len() == obs.miri_errors@.len()
    &&& h.miri_internet@.len() == obs.miri_errors@.len()
    &&& obs.build_warnings + obs.clippy_warnings <= usize::MAX
}

fn new_acao(tipo: &str, parametro: String, esperado: String) -> (a: AcaoPlanejada)
    ensures
        a@ == acao(tipo@, parametro@, esperado@),
{
    AcaoPlanejada { tipo: to_string(tipo), parametro, esperado }
}

fn push_ok_word(s: &mut String, b: bool)
    ensures
        final(s)@ == old(s)@ + ok_word(b),
{
    if b {
        push_str(s, "OK");
    } else {
        push_str(s, "FALHOU");
    }
}

fn join_semicolons(parts: &Vec<String>, n: usize) -> (s: String)
    requires
        n <= parts@.len(),
    ensures
        s@ == joined_semicolons(parts@.map_values(|p: String| p@).take(n as int)),
{
    let ghost pv = parts@.map_values(|p: String| p@);
    let mut s = String::new();
    let mut i: usize = 0;
    while i < n
        invariant
            i <= n <= parts@.len(),
            pv == parts@.map_values(|p: String| p@),
            s@ == joined_semicolons(pv.take(i as int)),
        decreases n - i,
    {
        proof {
            assert(pv.take(i as int + 1).drop_last() =~= pv.take(i as int));
            assert(pv.take(i as int + 1).last() == parts@[i as int]@);
        }
        if i > 0 {
            push_str(&mut s, "; ");
        }
        push_str(&mut s, parts[i].as_str());
        proof {
            if i == 0 {
                assert(pv.take(1).len() == 1);
            }
        }
        i += 1;
    }
    s
}

/// The views of a list of planned actions.
pub open spec fn acoes_view(v: Seq<AcaoPlanejada>) -> Seq<AcaoV> {
    v.map_values(|a: AcaoPlanejada| a@)
}

fn one(a: AcaoPlanejada) -> (v: Vec<AcaoPlanejada>)
    ensures
        acoes_view(v@) == seq![a@],
{
    let mut v: Vec<AcaoPlanejada> = Vec::new();
    v.push(a);
    assert(acoes_view(v@) =~= seq![a@]);
    v
}

fn none() -> (v: Vec<AcaoPlanejada>)
    ensures
        acoes_view(v@) == Seq::<AcaoV>::empty(),
{
    let v: Vec<AcaoPlanejada> = Vec::new();
    assert(acoes_view(v@) =~= Seq::<AcaoV>::empty());
    v
}

fn miri_part(obs: &ObservedState, h: &PlanHints) -> (v: Vec<AcaoPlanejada>)
    requires
        hints_fit(*obs, *h),
    ensures
        acoes_view(v@) == miri_actions(*obs, *h),
{
    if obs.miri_ok {
        return none();
    }
    let ghost dicas = miri_hints(*obs, *h);
    let mut lines: Vec<String> = Vec::new();
    let mut i: usize = 0;
    while i < obs.miri_errors.len()
        invariant
            hints_fit(*obs, *h),
            i <= obs.miri_errors@.len(),
            lines@.len() == i,
            forall|j: int| 0 <= j < i ==> #[trigger] lines@[j]@ == dicas[j],
            dicas == miri_hints(*obs, *h),
        decreases obs.miri_errors.len() - i,
    {
        let e = &obs.miri_errors[i];
        let mut line = e.clone();
        match &h.miri_dictionary[i] {
            Some(d) => {
                push_str(&mut line, " → ");
                push_str(&mut line, d.as_str());
            },
            None => {
                if !h.miri_internet[i].as_str().is_empty() {
                    push_str(&mut line, " → [internet] ");
                    push_str(&mut line, h.miri_internet[i].as_str());
                }
            },
        }
        lines.push(line);
        i += 1;
    }
    assert(lines@.map_values(|p: String| p@) =~= dicas);
    let esperado = if lines.len() == 0 {
        to_string("Miri detectou erro de segurança — investigar")
    } else {
        let mut s = to_string("Miri: ");
        let j = join_semicolons(&lines, lines.len());
        assert(lines@.map_values(|p: String| p@).take(lines@.len() as int) =~= dicas);
        push_str(&mut s, j.as_str());
        push_str(&mut s, " — dicas: ");
        push_decimal(&mut s, lines.len() as u64);
        s
    };
    one(new_acao("corrigir_seguranca", to_string("miri"), esperado))
}

fn build_part(obs: &ObservedState, h: &PlanHints) -> (v: Vec<AcaoPlanejada>)
    ensures
        acoes_view(v@) == build_actions(*obs, *h),
{
    if obs.build_ok {
        return none();
    }
    let esperado = match &h.build_dictionary {
        Some(d) => {
            let mut s = to_string("build falhou — dica: ");
            push_str(&mut s, d.as_str());
            s
        },
        None => {
            if !h.build_internet.as_str().is_empty() {
                let mut s = to_string("build falhou — [internet] ");
                push_str(&mut s, h.build_internet.as_str());
                s
            } else {
                to_string("build falhou — corrigir imediatamente")
            }
        },
    };
    one(new_acao("corrigir_build", to_string("build"), esperado))
}

fn test_part(obs: &ObservedState, h: &PlanHints) -> (v: Vec<AcaoPlanejada>)
    ensures
        acoes_view(v@) == test_actions(*obs, *h),
{
    if obs.tests_failed == 0 {
        return none();
    }
    let mut s = String::new();
    push_decimal(&mut s, obs.tests_failed as u64);
    match &h.test_dictionary {
        Some(d) => {
            push_str(&mut s, " testes falharam — dica: ");
            push_str(&mut s, d.as_str());
        },
        None => push_str(&mut s, " testes falharam"),
    }
    one(new_acao("corrigir_testes", to_string("tests"), s))
}

fn warning_part(obs: &ObservedState, h: &PlanHints) -> (v: Vec<AcaoPlanejada>)
    requires
        hints_fit(*obs, *h),
    ensures
        acoes_view(v@) == warning_actions(*obs, *h),
{
    let total = obs.build_warnings + obs.clippy_warnings;
    if total == 0 {
        return none();
    }
    let mut s = String::new();
    if h.clippy_dictionary.len() > 0 {
        push_decimal(&mut s, total as u64);
        push_str(&mut s, " warnings — dicas: ");
        let n = if h.clippy_dictionary.len() > 3 { 3 } else { h.clippy_dictionary.len() };
        let j = join_semicolons(&h.clippy_dictionary, n);
        proof {
            let c = h.clippy_dictionary@.map_values(|p: String| p@);
            if c.len() <= 3 {
                assert(c.take(n as int) =~= c);
            }
        }
        push_str(&mut s, j.as_str());
    } else {
        push_decimal(&mut s, obs.build_warnings as u64);
        push_str(&mut s, " warnings (build) + ");
        push_decimal(&mut s, obs.clippy_warnings as u64);
        push_str(&mut s, " warnings (clippy)");
    }
    one(new_acao("limpar_warnings", to_string("warnings"), s))
}

fn tail_part(obs: &ObservedState) -> (v: Vec<AcaoPlanejada>)
    ensures
        acoes_view(v@) == fmt_actions(*obs) + miri_ok_actions(*obs),
{
    let mut v = none();
    if !obs.fmt_ok {
        v.push(new_acao("formatar", to_string("fmt"), to_string("cargo fmt --check falhou")));
    }
    if obs.miri_ok && obs.miri_errors.len() > 0 {
        let mut s = to_string("Miri passou com ");
        push_decimal(&mut s, obs.miri_errors.len() as u64);
        push_str(&mut s, " warnings — considerar promoted");
        v.push(new_acao("verificar_miri", to_string("miri"), s));
    }
    assert(acoes_view(v@) =~= fmt_actions(*obs) + miri_ok_actions(*obs));
    v
}

fn state_actions_exec(obs: &ObservedState, h: &PlanHints) -> (v: Vec<AcaoPlanejada>)
    requires
        hints_fit(*obs, *h),
    ensures
        acoes_view(v@) == state_actions(*obs, *h),
{
    let mut v = miri_part(obs, h);
    let mut b = build_part(obs, h);
    let mut t = test_part(obs, h);
    let mut w = warning_part(obs, h);
    let mut r = tail_part(obs);
    let ghost (mv, bv, tv, wv, rv) = (acoes_view(v@), acoes_view(b@), acoes_view(t@), acoes_view(w@), acoes_view(r@));
    v.append(&mut b);
    assert(acoes_view(v@) =~= mv + bv);
    v.append(&mut t);
    assert(acoes_view(v@) =~= mv + bv + tv);
    v.append(&mut w);
    assert(acoes_view(v@) =~= mv + bv + tv + wv);
    v.append(&mut r);
    assert(acoes_view(v@) =~= mv + bv + tv + wv + rv);
    if v.len() == 0 {
        v.push(new_acao("monitorar", to_string("sistema"), to_string("sistema saudável — continuar observando")));
        assert(acoes_view(v@) =~= seq![monitor_action()]);
    }
    v
}

impl Plano {
    /// The plan for the observed state, the iteration history (ordered by
    /// number) and the hints found for it.
    pub fn pensar(obs: &ObservedState, historico: &Vec<Iteration>, hints: &PlanHints) -> (p: Plano)
        requires
            hints_fit(*obs, *hints),
        ensures
            acoes_view(p.acoes@) == spec_plan_actions(*obs, historico@, *hints),
            p.justificativa@ == spec_justificativa(
                *obs,
                *hints,
                recent(historico@).len(),
                spec_plan_actions(*obs, historico@, *hints).len(),
            ),
            p.hash@ == text_hash(p.justificativa@ + ":"@ + spec_decimal(p.acoes@.len()) + ":"@ + obs.health_hash@),
    {
        let mut acoes = state_actions_exec(obs, hints);
        let ghost base = acoes_view(acoes@);
        let ghost rec = recent(historico@);
        let n = historico.len();
        let count = if n > 10 { 10 } else { n };
        let padrao = chars_of("padrão");
        let mut k: usize = 0;
        while k < count
            invariant
                k <= count,
                count as int == rec.len(),
                n == historico@.len(),
                rec == recent(historico@),
                padrao@ == "padrão"@,
                acoes_view(acoes@) == base + history_actions(rec.take(k as int)),
            decreases count - k,
        {
            let it = &historico[n - 1 - k];
            proof {
                assert(rec[k as int] == historico@[n - 1 - k]);
                assert(rec.take(k as int + 1).drop_last() =~= rec.take(k as int));
                assert(rec.take(k as int + 1).last() == rec[k as int]);
            }
            let ghost a0 = acoes_view(acoes@);
            match &it.resultado {
                Outcome::Falha { erro } => {
                    let mut p = to_string("iter_");
                    push_decimal(&mut p, it.id);
                    let mut e = to_string("diagnosticar causa: ");
                    push_str(&mut e, erro.as_str());
                    acoes.push(new_acao("investigar", p, e));
                    assert(acoes_view(acoes@) =~= a0.push(acoes@.last()@));
                },
                Outcome::NenhumaAcao { motivo } => {
                    if contains(&chars_of(motivo.as_str()), &padrao) {
                        let mut p = to_string("iter_");
                        push_decimal(&mut p, it.id);
                        acoes.push(new_acao("otimizar", p, to_string("explorar padrão detectado")));
                        assert(acoes_view(acoes@) =~= a0.push(acoes@.last()@));
                    } else {
                        assert(a0 + Seq::<AcaoV>::empty() =~= a0);
                    }
                },
                _ => {
                    assert(a0 + Seq::<AcaoV>::empty() =~= a0);
                },
            }
            proof {
                assert(base + history_actions(rec.take(k as int + 1)) =~= base + history_actions(rec.take(k as int))
                    + match history_action(rec[k as int]) {
                    Some(a) => seq![a],
                    None => Seq::<AcaoV>::empty(),
                });
            }
            k += 1;
        }
        assert(rec.take(count as int) =~= rec);
        let mut j = to_string("Estado: build=");
        push_ok_word(&mut j, obs.build_ok);
        push_str(&mut j, ", tests=");
        push_decimal(&mut j, obs.tests_passed as u64);
        push_str(&mut j, "/");
        push_decimal(&mut j, obs.tests_failed as u64);
        push_str(&mut j, ", warnings=");
        push_decimal(&mut j, (obs.build_warnings + obs.clippy_warnings) as u64);
        push_str(&mut j, ", clippy=");
        push_ok_word(&mut j, obs.clippy_ok);
        push_str(&mut j, ", fmt=");
        push_ok_word(&mut j, obs.fmt_ok);
        push_str(&mut j, ", miri=");
        push_ok_word(&mut j, obs.miri_ok);
        push_str(&mut j, " | Dicionário: ");
        push_decimal(&mut j, hints.dictionary_len as u64);
        push_str(&mut j, " entradas | ");
        push_decimal(&mut j, count as u64);
        push_str(&mut j, " iterações → ");
        push_decimal(&mut j, acoes.len() as u64);
        push_str(&mut j, " ações");
        let mut content = j.clone();
        push_str(&mut content, ":");
        push_decimal(&mut content, acoes.len() as u64);
        push_str(&mut content, ":");
        push_str(&mut content, obs.health_hash.as_str());
        let hash = canonical_hash(content.as_str());
        Plano { acoes, justificativa: j, hash }
    }
}

// ------------------------------------------------------------------
// Acting
// ------------------------------------------------------------------

/// The outcome a planned action has against the observed state.
pub open spec fn spec_outcome_text(a: AcaoV, obs: ObservedState) -> (nat, Seq<char>) {
    if a.tipo == "corrigir_build"@ {
        if obs.build_ok { (0, "Build já está OK"@) } else { (1, "Build falhou — precisa de correção manual"@) }
    } else if a.tipo == "corrigir_testes"@ {
        if obs.tests_failed == 0 {
            (0, "Todos os testes passando"@)
        } else {
            (1, spec_decimal(obs.tests_failed as nat) + " testes falhando"@)
        }
    } else if a.tipo == "limpar_warnings"@ {
        if obs.build_warnings + obs.clippy_warnings == 0 {
            (0, "Zero warnings"@)
        } else {
            (2, spec_decimal((obs.build_warnings + obs.clippy_warnings) as nat) + " warnings restantes"@)
        }
    } else if a.tipo == "formatar"@ {
        if obs.fmt_ok { (0, "Formatação OK"@) } else { (1, "cargo fmt precisa rodar"@) }
    } else if a.tipo == "investigar"@ {
        (0, "Investigação de "@ + a.parametro + " concluída"@)
    } else if a.tipo == "otimizar"@ {
        (0, "Otimização de "@ + a.parametro + " planejada"@)
    } else if a.tipo == "monitorar"@ {
        (2, "Monitoramento contínuo"@)
    } else {
        (2, "Ação desconhecida: "@ + a.tipo)
    }
}

/// The kind (0 success, 1 failure, 2 no action) and text of an outcome.
pub open spec fn outcome_parts(o: Outcome) -> (nat, Seq<char>) {
    match o {
        Outcome::Sucesso { mensagem } => (0, mensagem@),
        Outcome::Falha { erro } => (1, erro@),
        Outcome::NenhumaAcao { motivo } => (2, motivo@),
    }
}

impl AcaoPlanejada {
    /// The outcome of this action against the observed state.
    pub fn resultado(&self, obs: &ObservedState) -> (o: Outcome)
        requires
            obs.build_warnings + obs.clippy_warnings <= usize::MAX,
        ensures
            outcome_parts(o) == spec_outcome_text(self@, *obs),
    {
        proof {
            reveal_strlit("corrigir_build");
            reveal_strlit("corrigir_testes");
            reveal_strlit("limpar_warnings");
            reveal_strlit("formatar");
            reveal_strlit("investigar");
            reveal_strlit("otimizar");
            reveal_strlit("monitorar");
        }
        let t = &self.tipo;
        if crate::text::string_eq_str(t, "corrigir_build") {
            if obs.build_ok {
                Outcome::Sucesso { mensagem: to_string("Build já está OK") }
            } else {
                Outcome::Falha { erro: to_string("Build falhou — precisa de correção manual") }
            }
        } else if crate::text::string_eq_str(t, "corrigir_testes") {
            if obs.tests_failed == 0 {
                Outcome::Sucesso { mensagem: to_string("Todos os testes passando") }
            } else {
                let mut e = String::new();
                push_decimal(&mut e, obs.tests_failed as u64);
                push_str(&mut e, " testes falhando");
                Outcome::Falha { erro: e }
            }
        } else if crate::text::string_eq_str(t, "limpar_warnings") {
            let total = obs.build_warnings + obs.clippy_warnings;
            if total == 0 {
                Outcome::Sucesso { mensagem: to_string("Zero warnings") }
            } else {
                let mut m = String::new();
                push_decimal(&mut m, total as u64);
                push_str(&mut m, " warnings restantes");
                Outcome::NenhumaAcao { motivo: m }
            }
        } else if crate::text::string_eq_str(t, "formatar") {
            if obs.fmt_ok {
                Outcome::Sucesso { mensagem: to_string("Formatação OK") }
            } else {
                Outcome::Falha { erro: to_string("cargo fmt precisa rodar") }
            }
        } else if crate::text::string_eq_str(t, "investigar") {
            let mut m = to_string("Investigação de ");
            push_str(&mut m, self.parametro.as_str());
            push_str(&mut m, " concluída");
            Outcome::Sucesso { mensagem: m }
        } else if crate::text::string_eq_str(t, "otimizar") {
            let mut m = to_string("Otimização de ");
            push_str(&mut m, self.parametro.as_str());
            push_str(&mut m, " planejada");
            Outcome::Sucesso { mensagem: m }
        } else if crate::text::string_eq_str(t, "monitorar") {
            Outcome::NenhumaAcao { motivo: to_string("Monitoramento contínuo") }
        } else {
            let mut m = to_string("Ação desconhecida: ");
            push_str(&mut m, t.as_str());
            Outcome::NenhumaAcao { motivo: m }
        }
    }
}

/// A plan is never empty.
pub proof fn law_plan_is_never_empty(obs: ObservedState, hist: Seq<Iteration>, h: PlanHints)
    ensures
        spec_plan_actions(obs, hist, h).len() > 0,
{
    assert(state_actions(obs, h).len() > 0);
}

} // verus!
