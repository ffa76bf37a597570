//! The system's self-description: its principles, the capabilities it can
//! show, its known limitations and a hash that ties them together.

use vstd::prelude::*;
use crate::hash::{canonical_hash, text_hash};
use crate::text::{push_char, push_decimal, push_str, spec_decimal, to_string};

verus! {

/// A founding principle.
#[derive(Debug, Clone)]
pub struct Principio {
    pub nome: String,
    pub descricao: String,
    pub verificavel: bool,
}

/// A capability together with the evidence and the check that shows it.
#[derive(Debug, Clone)]
pub struct Capacidade {
    pub nome: String,
    pub evidencia: String,
    pub teste: String,
}

/// The manifesto the system writes about itself.
#[derive(Debug, Clone)]
pub struct Manifesto {
    pub titulo: String,
    pub principios: Vec<Principio>,
    pub capacidades: Vec<Capacidade>,
    pub limitacoes: Vec<String>,
    pub proposta: String,
    pub hash: String,
}

/// Mathematical view of a principle.
pub struct PrincipioV {
    pub nome: Seq<char>,
    pub descricao: Seq<char>,
    pub verificavel: bool,
}

/// Mathematical view of a capability.
pub struct CapacidadeV {
    pub nome: Seq<char>,
    pub evidencia: Seq<char>,
    pub teste: Seq<char>,
}

/// Mathematical view of a manifesto.
pub struct ManifestoV {
    pub titulo: Seq<char>,
    pub principios: Seq<PrincipioV>,
    pub capacidades: Seq<CapacidadeV>,
    pub limitacoes: Seq<Seq<char>>,
    pub proposta: Seq<char>,
    pub hash: Seq<char>,
}

impl View for Principio {
    type V = PrincipioV;

    open spec fn view(&self) -> PrincipioV {
        PrincipioV { nome: self.nome@, descricao: self.descricao@, verificavel: self.verificavel }
    }
}

impl View for Capacidade {
    type V = CapacidadeV;

    open spec fn view(&self) -> CapacidadeV {
        CapacidadeV { nome: self.nome@, evidencia: self.evidencia@, teste: self.teste@ }
    }
}

impl View for Manifesto {
    type V = ManifestoV;

    open spec fn view(&self) -> ManifestoV {
        ManifestoV {
            titulo: self.titulo@,
            principios: self.principios@.map_values(|p: Principio| p@),
            capacidades: self.capacidades@.map_values(|c: Capacidade| c@),
            limitacoes: self.limitacoes@.map_values(|l: String| l@),
            proposta: self.proposta@,
            hash: self.hash@,
        }
    }
}

// ------------------------------------------------------------------
// Content
// ------------------------------------------------------------------

/// The manifesto's title.
pub open spec fn titulo_text() -> Seq<char> {
    "NexoIA — Manifesto de Auto-Definição"@
}

/// The five principles, each verifiable.
pub open spec fn spec_principios() -> Seq<PrincipioV> {
    seq![
        PrincipioV {
            nome: "Prova, não confiança"@,
            descricao: "Toda afirmação sobre o sistema pode ser verificada independentemente \
                       por qualquer pessoa, sem precisar confiar no autor."@,
            verificavel: true,
        },
        PrincipioV {
            nome: "Transparência radical"@,
            descricao: "O código é aberto. Os testes são públicos. Os erros são documentados. \
                       Nada é escondido."@,
            verificavel: true,
        },
        PrincipioV {
            nome: "Determinismo"@,
            descricao: "Mesmos inputs sempre produzem mesmos outputs. Não há aleatoriedade \
                       oculta, não há dependência de estado externo."@,
            verificavel: true,
        },
        PrincipioV {
            nome: "Verificação antes de confiança"@,
            descricao: "Antes de confiar em qualquer resultado, verifique matematicamente. \
                       O sistema fornece as ferramentas pra isso."@,
            verificavel: true,
        },
        PrincipioV {
            nome: "Erro documentado"@,
            descricao: "Um erro conhecido e documentado vale mais que silêncio. \
                       Fraquezas são registradas, não escondidas."@,
            verificavel: true,
        },
    ]
}

/// The capability shown by deterministic inference.
pub open spec fn inference_capacidade() -> CapacidadeV {
    CapacidadeV {
        nome: "Inferência determinística"@,
        evidencia: "NexBrain produz mesmo output pra mesmos inputs"@,
        teste: "cargo test nex::brain::tests::brain_infer_basic"@,
    }
}

/// The capabilities that hold whatever inference does.
pub open spec fn fixed_capacidades() -> Seq<CapacidadeV> {
    seq![
        CapacidadeV {
            nome: "Verificação de integridade"@,
            evidencia: "BLAKE3 assina cada EPA; qualquer alteração é detectada"@,
            teste: "cargo test network::epa::tests::tampered_epa_fails_integrity"@,
        },
        CapacidadeV {
            nome: "Crypto-shredding verificável"@,
            evidencia: "DELETE /titular/:hash anonimiza dados e gera EPA de supressão"@,
            teste: "cargo test lgpd_direito_ao_esquecimento_fluxo_completo"@,
        },
        CapacidadeV {
            nome: "Testes adversariais"@,
            evidencia: "17 testes de ataque: handshake malformado, replay, flood, reputação"@,
            teste: "cargo test adversarial"@,
        },
        CapacidadeV {
            nome: "Auto-verificação"@,
            evidencia: "Daemon gera health report com hash BLAKE3 assinado"@,
            teste: "cargo run --bin daemon"@,
        },
    ]
}

/// The capabilities the system can show: deterministic inference first when
/// an inference succeeded, then the fixed ones.
pub open spec fn spec_capacidades(inferencia_ok: bool) -> Seq<CapacidadeV> {
    if inferencia_ok {
        seq![inference_capacidade()] + fixed_capacidades()
    } else {
        fixed_capacidades()
    }
}

/// The known limitations.
pub open spec fn spec_limitacoes() -> Seq<Seq<char>> {
    seq![
        "Não aprende automaticamente de novos dados (ainda)"@,
        "Depende de verificação humana pra mudanças no código"@,
        "Não tem percepção do mundo real (só do seu próprio código)"@,
        "Não pode decidir por si mesmo o que é importante"@,
    ]
}

/// The manifesto's purpose statement.
pub open spec fn proposta_text() -> Seq<char> {
    "NexoIA existe pra provar que sistemas de computação podem ser \
     verificáveis sem depender da confiança de ninguém. \
     Não pedimos que você confie em nós. \
     Pedimos que você verifique a prova."@
}

/// The text that is hashed: `title:#principles:#capabilities:#limitations:purpose`.
pub open spec fn hash_content(titulo: Seq<char>, np: nat, nc: nat, nl: nat, proposta: Seq<char>) -> Seq<char> {
    titulo + ":"@ + spec_decimal(np) + ":"@ + spec_decimal(nc) + ":"@ + spec_decimal(nl) + ":"@ + proposta
}

/// The manifesto generated when inference did (or did not) succeed.
pub open spec fn spec_gerar(inferencia_ok: bool) -> ManifestoV {
    let caps = spec_capacidades(inferencia_ok);
    ManifestoV {
        titulo: titulo_text(),
        principios: spec_principios(),
        capacidades: caps,
        limitacoes: spec_limitacoes(),
        proposta: proposta_text(),
        hash: text_hash(hash_content(titulo_text(), 5, caps.len(), 4, proposta_text())),
    }
}

// ------------------------------------------------------------------
// Generation
// ------------------------------------------------------------------

fn principio(nome: &str, descricao: &str) -> (p: Principio)
    ensures
        p@ == (PrincipioV { nome: nome@, descricao: descricao@, verificavel: true }),
{
    Principio { nome: to_string(nome), descricao: to_string(descricao), verificavel: true }
}

fn capacidade(nome: &str, evidencia: &str, teste: &str) -> (c: Capacidade)
    ensures
        c@ == (CapacidadeV { nome: nome@, evidencia: evidencia@, teste: teste@ }),
{
    Capacidade { nome: to_string(nome), evidencia: to_string(evidencia), teste: to_string(teste) }
}

impl Manifesto {
    /// The manifesto; `inferencia_ok` says whether a deterministic inference
    /// of the neural engine succeeded.
    pub fn gerar(inferencia_ok: bool) -> (m: Manifesto)
        ensures
            m@ == spec_gerar(inferencia_ok),
            m.hash@.len() == 64,
    {
        let mut principios: Vec<Principio> = Vec::new();
        principios.push(principio(
            "Prova, não confiança",
            "Toda afirmação sobre o sistema pode ser verificada independentemente \
             por qualquer pessoa, sem precisar confiar no autor.",
        ));
        principios.push(principio(
            "Transparência radical",
            "O código é aberto. Os testes são públicos. Os erros são documentados. \
             Nada é escondido.",
        ));
        principios.push(principio(
            "Determinismo",
            "Mesmos inputs sempre produzem mesmos outputs. Não há aleatoriedade \
             oculta, não há dependência de estado externo.",
        ));
        principios.push(principio(
            "Verificação antes de confiança",
            "Antes de confiar em qualquer resultado, verifique matematicamente. \
             O sistema fornece as ferramentas pra isso.",
        ));
        principios.push(principio(
            "Erro documentado",
            "Um erro conhecido e documentado vale mais que silêncio. \
             Fraquezas são registradas, não escondidas.",
        ));
        assert(principios@.map_values(|p: Principio| p@) =~= spec_principios());

        let capacidades = Self::descobrir_capacidades(inferencia_ok);

        let mut limitacoes: Vec<String> = Vec::new();
        limitacoes.push(to_string("Não aprende automaticamente de novos dados (ainda)"));
        limitacoes.push(to_string("Depende de verificação humana pra mudanças no código"));
        limitacoes.push(to_string("Não tem percepção do mundo real (só do seu próprio código)"));
        limitacoes.push(to_string("Não pode decidir por si mesmo o que é importante"));
        assert(limitacoes@.map_values(|l: String| l@) =~= spec_limitacoes());

        let proposta = to_string(
            "NexoIA existe pra provar que sistemas de computação podem ser \
             verificáveis sem depender da confiança de ninguém. \
             Não pedimos que você confie em nós. \
             Pedimos que você verifique a prova.",
        );

        let mut manifesto = Manifesto {
            titulo: to_string("NexoIA — Manifesto de Auto-Definição"),
            principios,
            capacidades,
            limitacoes,
            proposta,
            hash: String::new(),
        };
        manifesto.hash = manifesto.calcular_hash();
        manifesto
    }

    /// The capabilities the system can show.
    pub fn descobrir_capacidades(inferencia_ok: bool) -> (v: Vec<Capacidade>)
        ensures
            v@.map_values(|c: Capacidade| c@) == spec_capacidades(inferencia_ok),
    {
        let mut capacidades: Vec<Capacidade> = Vec::new();
        if inferencia_ok {
            capacidades.push(capacidade(
                "Inferência determinística",
                "NexBrain produz mesmo output pra mesmos inputs",
                "cargo test nex::brain::tests::brain_infer_basic",
            ));
        }
        let ghost first = capacidades@.map_values(|c: Capacidade| c@);
        capacidades.push(capacidade(
            "Verificação de integridade",
            "BLAKE3 assina cada EPA; qualquer alteração é detectada",
            "cargo test network::epa::tests::tampered_epa_fails_integrity",
        ));
        capacidades.push(capacidade(
            "Crypto-shredding verificável",
            "DELETE /titular/:hash anonimiza dados e gera EPA de supressão",
            "cargo test lgpd_direito_ao_esquecimento_fluxo_completo",
        ));
        capacidades.push(capacidade(
            "Testes adversariais",
            "17 testes de ataque: handshake malformado, replay, flood, reputação",
            "cargo test adversarial",
        ));
        capacidades.push(capacidade(
            "Auto-verificação",
            "Daemon gera health report com hash BLAKE3 assinado",
            "cargo run --bin daemon",
        ));
        assert(capacidades@.map_values(|c: Capacidade| c@) =~= spec_capacidades(inferencia_ok));
        capacidades
    }

    /// The integrity hash of the manifesto's title, counts and purpose.
    pub fn calcular_hash(&self) -> (h: String)
        ensures
            h@ == text_hash(hash_content(
                self.titulo@,
                self.principios@.len(),
                self.capacidades@.len(),
                self.limitacoes@.len(),
                self.proposta@,
            )),
            h@.len() == 64,
    {
        let mut content = String::new();
        push_str(&mut content, self.titulo.as_str());
        push_char(&mut content, ':');
        push_decimal(&mut content, self.principios.len() as u64);
        push_char(&mut content, ':');
        push_decimal(&mut content, self.capacidades.len() as u64);
        push_char(&mut content, ':');
        push_decimal(&mut content, self.limitacoes.len() as u64);
        push_char(&mut content, ':');
        push_str(&mut content, self.proposta.as_str());
        proof {
            reveal_strlit(":");
            assert(content@ =~= hash_content(
                self.titulo@,
                self.principios@.len(),
                self.capacidades@.len(),
                self.limitacoes@.len(),
                self.proposta@,
            ));
        }
        canonical_hash(content.as_str())
    }
}

// ------------------------------------------------------------------
// Text
// ------------------------------------------------------------------

/// `n` copies of `=`.
pub open spec fn rule_line(n: nat) -> Seq<char> {
    Seq::new(n, |i: int| '=')
}

/// The line of the principle at position `i` (numbered from one).
pub open spec fn principio_line(i: nat, p: PrincipioV) -> Seq<char> {
    "  "@ + spec_decimal(i + 1) + ". "@ + p.nome + " — "@ + p.descricao + " [verificável: "@
        + (if p.verificavel { "sim"@ } else { "não"@ }) + "]\n"@
}

/// The lines of the principles, in order.
pub open spec fn principio_lines(ps: Seq<PrincipioV>) -> Seq<char>
    decreases ps.len(),
{
    if ps.len() == 0 {
        Seq::empty()
    } else {
        principio_lines(ps.drop_last()) + principio_line((ps.len() - 1) as nat, ps.last())
    }
}

/// The lines of a capability.
pub open spec fn capacidade_lines(c: CapacidadeV) -> Seq<char> {
    "  • "@ + c.nome + " — "@ + c.evidencia + "\n    Verificar: "@ + c.teste + "\n"@
}

/// The lines of the capabilities, in order.
pub open spec fn capacidades_lines(cs: Seq<CapacidadeV>) -> Seq<char>
    decreases cs.len(),
{
    if cs.len() == 0 {
        Seq::empty()
    } else {
        capacidades_lines(cs.drop_last()) + capacidade_lines(cs.last())
    }
}

/// The lines of the limitations, in order.
pub open spec fn limitacoes_lines(ls: Seq<Seq<char>>) -> Seq<char>
    decreases ls.len(),
{
    if ls.len() == 0 {
        Seq::empty()
    } else {
        limitacoes_lines(ls.drop_last()) + "  • "@ + ls.last() + "\n"@
    }
}

/// The manifesto as text for people: the title underlined with one `=` per
/// byte, the purpose, the numbered principles, the capabilities with their
/// checks, the limitations, the hash and how to check it.
pub open spec fn spec_para_texto(m: ManifestoV) -> Seq<char> {
    m.titulo + "\n"@ + rule_line((vstd::utf8::encode_utf8(m.titulo).len() as usize) as nat) + "\n\n"@
        + "Proposta: "@ + m.proposta + "\n\n"@
        + "Princípios:\n"@ + principio_lines(m.principios) + "\n"@
        + "Capacidades demonstradas:\n"@ + capacidades_lines(m.capacidades) + "\n"@
        + "Limitações conhecidas:\n"@ + limitacoes_lines(m.limitacoes) + "\n"@
        + "Hash de integridade: "@ + m.hash + "\n"@
        + "\nQualquer pessoa pode verificar que este manifesto é genuíno rodando:\n"@
        + "  cargo test nex::manifesto\n"@
}

impl Manifesto {
    /// The manifesto as text for people.
    pub fn para_texto(&self) -> (t: String)
        ensures
            t@ == spec_para_texto(self@),
    {
        let ghost mv = self@;
        let mut texto = String::new();
        push_str(&mut texto, self.titulo.as_str());
        push_str(&mut texto, "\n");
        let n = self.titulo.as_str().len();
        let ghost before = texto@;
        let mut k: usize = 0;
        while k < n
            invariant
                k <= n,
                texto@ == before + rule_line(k as nat),
            decreases n - k,
        {
            push_char(&mut texto, '=');
            assert(rule_line(k as nat + 1) =~= rule_line(k as nat).push('='));
            k += 1;
        }
        push_str(&mut texto, "\n\n");
        push_str(&mut texto, "Proposta: ");
        push_str(&mut texto, self.proposta.as_str());
        push_str(&mut texto, "\n\n");
        push_str(&mut texto, "Princípios:\n");
        let ghost start = texto@;
        let mut i: usize = 0;
        while i < self.principios.len()
            invariant
                i <= self.principios.len(),
                mv == self@,
                texto@ == start + principio_lines(mv.principios.take(i as int)),
            decreases self.principios.len() - i,
        {
            let p = &self.principios[i];
            proof {
                assert(mv.principios.take(i as int + 1).drop_last() =~= mv.principios.take(i as int));
                assert(mv.principios.take(i as int + 1).last() == p@);
            }
            push_str(&mut texto, "  ");
            push_decimal(&mut texto, i as u64 + 1);
            push_str(&mut texto, ". ");
            push_str(&mut texto, p.nome.as_str());
            push_str(&mut texto, " — ");
            push_str(&mut texto, p.descricao.as_str());
            push_str(&mut texto, " [verificável: ");
            if p.verificavel {
                push_str(&mut texto, "sim");
            } else {
                push_str(&mut texto, "não");
            }
            push_str(&mut texto, "]\n");
            proof {
                assert(texto@ =~= start + principio_lines(mv.principios.take(i as int + 1)));
            }
            i += 1;
        }
        assert(mv.principios.take(self.principios.len() as int) =~= mv.principios);
        push_str(&mut texto, "\n");
        push_str(&mut texto, "Capacidades demonstradas:\n");
        let ghost start2 = texto@;
        let mut j: usize = 0;
        while j < self.capacidades.len()
            invariant
                j <= self.capacidades.len(),
                mv == self@,
                texto@ == start2 + capacidades_lines(mv.capacidades.take(j as int)),
            decreases self.capacidades.len() - j,
        {
            let c = &self.capacidades[j];
            proof {
                assert(mv.capacidades.take(j as int + 1).drop_last() =~= mv.capacidades.take(j as int));
                assert(mv.capacidades.take(j as int + 1).last() == c@);
            }
            push_str(&mut texto, "  • ");
            push_str(&mut texto, c.nome.as_str());
            push_str(&mut texto, " — ");
            push_str(&mut texto, c.evidencia.as_str());
            push_str(&mut texto, "\n    Verificar: ");
            push_str(&mut texto, c.teste.as_str());
            push_str(&mut texto, "\n");
            proof {
                assert(texto@ =~= start2 + capacidades_lines(mv.capacidades.take(j as int + 1)));
            }
            j += 1;
        }
        assert(mv.capacidades.take(self.capacidades.len() as int) =~= mv.capacidades);
        push_str(&mut texto, "\n");
        push_str(&mut texto, "Limitações conhecidas:\n");
        let ghost start3 = texto@;
        let mut l: usize = 0;
        while l < self.limitacoes.len()
            invariant
                l <= self.limitacoes.len(),
                mv == self@,
                texto@ == start3 + limitacoes_lines(mv.limitacoes.take(l as int)),
            decreases self.limitacoes.len() - l,
        {
            proof {
                assert(mv.limitacoes.take(l as int + 1).drop_last() =~= mv.limitacoes.take(l as int));
                assert(mv.limitacoes.take(l as int + 1).last() == self.limitacoes@[l as int]@);
            }
            push_str(&mut texto, "  • ");
            push_str(&mut texto, self.limitacoes[l].as_str());
            push_str(&mut texto, "\n");
            proof {
                assert(texto@ =~= start3 + limitacoes_lines(mv.limitacoes.take(l as int + 1)));
            }
            l += 1;
        }
        assert(mv.limitacoes.take(self.limitacoes.len() as int) =~= mv.limitacoes);
        push_str(&mut texto, "\n");
        push_str(&mut texto, "Hash de integridade: ");
        push_str(&mut texto, self.hash.as_str());
        push_str(&mut texto, "\n");
        push_str(&mut texto, "\nQualquer pessoa pode verificar que este manifesto é genuíno rodando:\n");
        push_str(&mut texto, "  cargo test nex::manifesto\n");
        assert(texto@ =~= spec_para_texto(mv));
        texto
    }
}

// ------------------------------------------------------------------
// Laws
// ------------------------------------------------------------------

/// Every principle of a generated manifesto is verifiable.
pub proof fn law_every_principle_is_verifiable(inferencia_ok: bool)
    ensures
        forall|i: int| 0 <= i < spec_gerar(inferencia_ok).principios.len()
            ==> #[trigger] spec_gerar(inferencia_ok).principios[i].verificavel,
{
}

/// The hash of a generated manifesto is the hash of its own title, counts
/// and purpose.
pub proof fn law_hash_covers_contents(inferencia_ok: bool)
    ensures
        ({
            let m = spec_gerar(inferencia_ok);
            m.hash == text_hash(hash_content(
                m.titulo,
                m.principios.len(),
                m.capacidades.len(),
                m.limitacoes.len(),
                m.proposta,
            ))
        }),
{
}

} // verus!
