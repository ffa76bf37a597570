//! The log of self-programming iterations: each iteration is numbered,
//! stamped and hashed over its contents; the hashes of all iterations, in
//! order of their numbers, chain into one proof of the history.

use vstd::prelude::*;
use crate::hash::{canonical_hash, text_hash};
use crate::text::{push_char, push_decimal, push_str, spec_decimal};

verus! {

/// The state of the system at an iteration.
#[derive(Debug, Clone, Copy, PartialEq, Eq, Structural)]
pub struct SystemState {
    pub build_ok: bool,
    pub warnings: usize,
    pub tests_passed: usize,
    pub tests_failed: usize,
    pub clippy_ok: bool,
    pub fmt_ok: bool,
}

/// An action the system took.
#[derive(Debug, Clone)]
pub struct Action {
    pub tipo: String,
    pub descricao: String,
    pub arquivos: Vec<String>,
}

/// How an action turned out.
#[derive(Debug, Clone)]
pub enum Outcome {
    Sucesso { mensagem: String },
    Falha { erro: String },
    NenhumaAcao { motivo: String },
}

/// One complete iteration of the loop.
#[derive(Debug, Clone)]
pub struct Iteration {
    pub id: u64,
    pub timestamp: u64,
    pub timestamp_iso: String,
    pub estado_anterior: SystemState,
    pub acao: Action,
    pub resultado: Outcome,
    pub licao: Option<String>,
    pub hash: String,
    pub hash_anterior: Option<String>,
}

/// The JSON texts of an iteration's state, action and outcome, as they are
/// written to the log.
#[derive(Debug, Clone)]
pub struct EncodedParts {
    pub estado_json: String,
    pub acao_json: String,
    pub resultado_json: String,
}

/// The log: the number of iterations recorded so far.
#[derive(Debug)]
pub struct IterationLog {
    counter: u64,
}

/// Counts over the recorded iterations.
#[derive(Debug, Clone, Copy, PartialEq, Eq, Structural)]
pub struct LogStats {
    pub total: usize,
    pub sucessos: usize,
    pub falhas: usize,
    pub sem_acao: usize,
    pub com_licao: usize,
}

/// The text hashed for an iteration:
/// `id:timestamp:state:action:outcome:lesson` (the lesson `none` when absent).
pub open spec fn iteration_content(
    id: nat,
    timestamp: nat,
    estado_json: Seq<char>,
    acao_json: Seq<char>,
    resultado_json: Seq<char>,
    licao: Option<Seq<char>>,
) -> Seq<char> {
    spec_decimal(id) + ":"@ + spec_decimal(timestamp) + ":"@ + estado_json + ":"@ + acao_json + ":"@
        + resultado_json + ":"@ + match licao {
        Some(l) => l,
        None => "none"@,
    }
}

/// The lesson of an iteration as text.
pub open spec fn licao_view(l: Option<String>) -> Option<Seq<char>> {
    match l {
        Some(s) => Some(s@),
        None => None,
    }
}

/// Every iteration has exactly one outcome: the successes, failures and
/// iterations without action add up to all of them, and those with a lesson
/// are no more than all of them.
pub proof fn law_outcome_counts_add_up(iters: Seq<Iteration>)
    ensures
        iters.filter(|i: Iteration| i.resultado is Sucesso).len()
            + iters.filter(|i: Iteration| i.resultado is Falha).len()
            + iters.filter(|i: Iteration| i.resultado is NenhumaAcao).len() == iters.len(),
        iters.filter(|i: Iteration| i.licao is Some).len() <= iters.len(),
    decreases iters.len(),
{
    reveal(Seq::filter);
    if iters.len() > 0 {
        law_outcome_counts_add_up(iters.drop_last());
    }
}

impl IterationLog {
    /// The log's counter.
    pub closed spec fn spec_counter(&self) -> nat {
        self.counter as nat
    }

    /// A log that already holds `existing` iterations.
    pub fn new(existing: u64) -> (log: IterationLog)
        ensures
            log.spec_counter() == existing,
    {
        IterationLog { counter: existing }
    }

    /// The number of iterations recorded so far.
    pub fn counter(&self) -> (n: u64)
        ensures
            n == self.spec_counter(),
    {
        self.counter
    }

    /// Records a new iteration: the next number, the given instant, and the
    /// hash of its contents.
    pub fn registrar(
        &mut self,
        estado: SystemState,
        acao: Action,
        resultado: Outcome,
        licao: Option<String>,
        hash_anterior: Option<String>,
        timestamp: u64,
        timestamp_iso: String,
        encoded: &EncodedParts,
    ) -> (it: Iteration)
        requires
            old(self).spec_counter() < u64::MAX,
        ensures
            final(self).spec_counter() == old(self).spec_counter() + 1,
            it.id == final(self).spec_counter(),
            it.timestamp == timestamp,
            it.timestamp_iso@ == timestamp_iso@,
            it.estado_anterior == estado,
            it.acao == acao,
            it.resultado == resultado,
            it.licao == licao,
            it.hash_anterior == hash_anterior,
            it.hash@ == text_hash(iteration_content(
                it.id as nat,
                timestamp as nat,
                encoded.estado_json@,
                encoded.acao_json@,
                encoded.resultado_json@,
                licao_view(licao),
            )),
    {
        self.counter = self.counter + 1;
        let mut content = String::new();
        push_decimal(&mut content, self.counter);
        push_char(&mut content, ':');
        push_decimal(&mut content, timestamp);
        push_char(&mut content, ':');
        push_str(&mut content, encoded.estado_json.as_str());
        push_char(&mut content, ':');
        push_str(&mut content, encoded.acao_json.as_str());
        push_char(&mut content, ':');
        push_str(&mut content, encoded.resultado_json.as_str());
        push_char(&mut content, ':');
        match &licao {
            Some(l) => push_str(&mut content, l.as_str()),
            None => push_str(&mut content, "none"),
        }
        proof {
            reveal_strlit(":");
            assert(content@ =~= iteration_content(
                self.counter as nat,
                timestamp as nat,
                encoded.estado_json@,
                encoded.acao_json@,
                encoded.resultado_json@,
                licao_view(licao),
            ));
        }
        let hash = canonical_hash(content.as_str());
        Iteration {
            id: self.counter,
            timestamp,
            timestamp_iso,
            estado_anterior: estado,
            acao,
            resultado,
            licao,
            hash,
            hash_anterior,
        }
    }

    /// The iterations ordered by number, equal numbers keeping their order.
    pub fn todas(iters: Vec<Iteration>) -> (v: Vec<Iteration>)
        ensures
            v@ == spec_sort_by_id(iters@),
    {
        let ghost orig = iters@;
        let _n = iters.len();
        let mut rest = iters;
        let mut out: Vec<Iteration> = Vec::new();
        let mut k: usize = 0;
        while rest.len() > 0
            invariant
                k + rest@.len() == orig.len(),
                orig.len() <= usize::MAX,
                rest@ == orig.subrange(k as int, orig.len() as int),
                out@ == spec_sort_by_id(orig.take(k as int)),
            decreases rest@.len(),
        {
            let item = rest.remove(0);
            proof {
                assert(orig.take(k as int + 1).drop_last() =~= orig.take(k as int));
                assert(orig.take(k as int + 1).last() == item);
                assert(rest@ =~= orig.subrange(k as int + 1, orig.len() as int));
            }
            let ghost o = out@;
            let mut pos = out.len();
            proof {
                assert(o.take(pos as int) =~= o);
            }
            while pos > 0 && out[pos - 1].id > item.id
                invariant
                    pos <= out@.len(),
                    o == out@,
                    ins_pos(o.take(pos as int), item.id) == ins_pos(o, item.id),
                decreases pos,
            {
                proof {
                    assert(o.take(pos as int).drop_last() =~= o.take(pos - 1));
                }
                pos -= 1;
            }
            proof {
                if pos > 0 {
                    assert(o.take(pos as int).last() == o[pos - 1]);
                    assert(o.take(pos as int).len() == pos);
                } else {
                    assert(o.take(0) =~= Seq::<Iteration>::empty());
                }
            }
            out.insert(pos, item);
            k += 1;
        }
        assert(orig.take(orig.len() as int) =~= orig);
        out
    }

    /// Counts of the iterations by outcome and of those with a lesson.
    pub fn stats(iters: &Vec<Iteration>) -> (s: LogStats)
        ensures
            s.total == iters@.len(),
            s.sucessos == iters@.filter(|i: Iteration| i.resultado is Sucesso).len(),
            s.falhas == iters@.filter(|i: Iteration| i.resultado is Falha).len(),
            s.sem_acao == iters@.filter(|i: Iteration| i.resultado is NenhumaAcao).len(),
            s.com_licao == iters@.filter(|i: Iteration| i.licao is Some).len(),
            s.sucessos + s.falhas + s.sem_acao == s.total,
            s.com_licao <= s.total,
    {
        proof {
            law_outcome_counts_add_up(iters@);
        }
        let mut sucessos: usize = 0;
        let mut falhas: usize = 0;
        let mut sem_acao: usize = 0;
        let mut com_licao: usize = 0;
        let mut k: usize = 0;
        while k < iters.len()
            invariant
                k <= iters@.len(),
                sucessos == iters@.take(k as int).filter(|i: Iteration| i.resultado is Sucesso).len(),
                falhas == iters@.take(k as int).filter(|i: Iteration| i.resultado is Falha).len(),
                sem_acao == iters@.take(k as int).filter(|i: Iteration| i.resultado is NenhumaAcao).len(),
                com_licao == iters@.take(k as int).filter(|i: Iteration| i.licao is Some).len(),
                sucessos <= k && falhas <= k && sem_acao <= k && com_licao <= k,
            decreases iters@.len() - k,
        {
            let ghost t0 = iters@.take(k as int);
            let ghost t1 = iters@.take(k as int + 1);
            proof {
                assert(t1 =~= t0.push(iters@[k as int]));
                reveal(Seq::filter);
                assert(t1.drop_last() =~= t0);
                t0.lemma_filter_len(|i: Iteration| i.resultado is Sucesso);
                t0.lemma_filter_len(|i: Iteration| i.resultado is Falha);
                t0.lemma_filter_len(|i: Iteration| i.resultado is NenhumaAcao);
                t0.lemma_filter_len(|i: Iteration| i.licao is Some);
            }
            match &iters[k].resultado {
                Outcome::Sucesso { .. } => sucessos += 1,
                Outcome::Falha { .. } => falhas += 1,
                Outcome::NenhumaAcao { .. } => sem_acao += 1,
            }
            if iters[k].licao.is_some() {
                com_licao += 1;
            }
            k += 1;
        }
        assert(iters@.take(iters@.len() as int) =~= iters@);
        LogStats { total: iters.len(), sucessos, falhas, sem_acao, com_licao }
    }

    /// The hash of the iterations' hashes, concatenated in order.
    pub fn chain_hash(iters: &Vec<Iteration>) -> (h: String)
        ensures
            h@ == text_hash(hashes_concat(iters@)),
    {
        let mut content = String::new();
        let mut k: usize = 0;
        while k < iters.len()
            invariant
                k <= iters@.len(),
                content@ == hashes_concat(iters@.take(k as int)),
            decreases iters@.len() - k,
        {
            proof {
                assert(iters@.take(k as int + 1).drop_last() =~= iters@.take(k as int));
            }
            push_str(&mut content, iters[k].hash.as_str());
            k += 1;
        }
        assert(iters@.take(iters@.len() as int) =~= iters@);
        canonical_hash(content.as_str())
    }
}

/// Where an iteration numbered `id` goes in a list ordered by number: after
/// every iteration whose number is not larger.
pub open spec fn ins_pos(out: Seq<Iteration>, id: u64) -> int
    decreases out.len(),
{
    if out.len() == 0 {
        0
    } else if out.last().id > id {
        ins_pos(out.drop_last(), id)
    } else {
        out.len() as int
    }
}

/// The iterations stably ordered by number.
pub open spec fn spec_sort_by_id(s: Seq<Iteration>) -> Seq<Iteration>
    decreases s.len(),
{
    if s.len() == 0 {
        Seq::empty()
    } else {
        let o = spec_sort_by_id(s.drop_last());
        o.insert(ins_pos(o, s.last().id), s.last())
    }
}

/// The hashes of iterations, concatenated in order.
pub open spec fn hashes_concat(iters: Seq<Iteration>) -> Seq<char>
    decreases iters.len(),
{
    if iters.len() == 0 {
        Seq::empty()
    } else {
        hashes_concat(iters.drop_last()) + iters.last().hash@
    }
}

/// The statistics as text.
pub open spec fn spec_stats_text(s: LogStats) -> Seq<char> {
    "iterações="@ + spec_decimal(s.total as nat) + ", sucessos="@ + spec_decimal(s.sucessos as nat)
        + ", falhas="@ + spec_decimal(s.falhas as nat) + ", sem_acao="@ + spec_decimal(s.sem_acao as nat)
        + ", com_lição="@ + spec_decimal(s.com_licao as nat)
}

impl LogStats {
    /// The statistics as text.
    pub fn to_string(&self) -> (t: String)
        ensures
            t@ == spec_stats_text(*self),
    {
        let mut t = String::new();
        push_str(&mut t, "iterações=");
        push_decimal(&mut t, self.total as u64);
        push_str(&mut t, ", sucessos=");
        push_decimal(&mut t, self.sucessos as u64);
        push_str(&mut t, ", falhas=");
        push_decimal(&mut t, self.falhas as u64);
        push_str(&mut t, ", sem_acao=");
        push_decimal(&mut t, self.sem_acao as u64);
        push_str(&mut t, ", com_lição=");
        push_decimal(&mut t, self.com_licao as u64);
        t
    }
}

} // verus!
