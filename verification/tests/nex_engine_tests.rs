use nexoia::addrmap::AddrMap;
use nexoia::clock::now_millis;
use nexoia::network::addr::PeerAddr;
use nexoia::network::persistence::PersistedData;
use nexoia::network::reputation::ReputationStore;
use nexoia::network::transport::PeerState;
use nexoia::nex::action_executor::ActionExecutor;
use nexoia::nex::ast::{ReactiveAction, Trigger};
use nexoia::nex::checkpoint::{apply_checkpoint, create_checkpoint};
use nexoia::nex::internet::{CacheEntry, InternetFetcher, CACHE_TTL_SECS};
use nexoia::nex::iteration::{Action, EncodedParts, IterationLog, Outcome, SystemState};
use nexoia::nex::manifesto::Manifesto;
use nexoia::nex::reactive::{ExecutableAction, NetworkEvent, ReactiveEngine, ReactiveRule};
use nexoia::nex::self_awareness::{fake_state, ObservedState, SelfAwareness};
use nexoia::hash::canonical_hash;
use nexoia::textmap::TextMap;

fn now_secs() -> u64 {
    (now_millis() / 1000) as u64
}

fn node_a_addr() -> PeerAddr {
    PeerAddr::V4 { ip: 0x7f00_0001, port: 9001 }
}

// ---------------------------------------------------------------- reactive

#[test]
fn heartbeat_miss_triggers_rule() {
    let mut engine = ReactiveEngine::new();
    engine.add_rule(ReactiveRule {
        trigger: Trigger::HeartbeatMiss { threshold: 3 },
        actions: vec![ReactiveAction::Log("Peer inativo".to_string())],
    });
    let event = NetworkEvent::HeartbeatMiss { count: 4 };
    let result = engine.evaluate(&event);
    assert!(result.matched);
    assert_eq!(result.actions.len(), 1);
    assert!(matches!(result.actions[0], ExecutableAction::Log(_)));
}

#[test]
fn heartbeat_miss_below_threshold() {
    let mut engine = ReactiveEngine::new();
    engine.add_rule(ReactiveRule {
        trigger: Trigger::HeartbeatMiss { threshold: 3 },
        actions: vec![ReactiveAction::Log("Peer inativo".to_string())],
    });
    let event = NetworkEvent::HeartbeatMiss { count: 2 };
    let result = engine.evaluate(&event);
    assert!(!result.matched);
    assert!(result.actions.is_empty());
}

#[test]
fn reputation_below_triggers() {
    // Reputations in thousandths: 0.3 is 300, 0.2 is 200.
    let mut engine = ReactiveEngine::new();
    engine.add_rule(ReactiveRule {
        trigger: Trigger::ReputationBelow { threshold: 300 },
        actions: vec![ReactiveAction::Emit("alert".to_string())],
    });
    let event = NetworkEvent::ReputationBelow { value: 200 };
    let result = engine.evaluate(&event);
    assert!(result.matched);
    assert_eq!(result.actions.len(), 1);
}

#[test]
fn multiple_rules_same_event() {
    let mut engine = ReactiveEngine::new();
    engine.add_rule(ReactiveRule {
        trigger: Trigger::HeartbeatMiss { threshold: 3 },
        actions: vec![ReactiveAction::Log("Log 1".to_string())],
    });
    engine.add_rule(ReactiveRule {
        trigger: Trigger::HeartbeatMiss { threshold: 5 },
        actions: vec![ReactiveAction::Log("Log 2".to_string())],
    });
    let event = NetworkEvent::HeartbeatMiss { count: 6 };
    let result = engine.evaluate(&event);
    assert!(result.matched);
    assert_eq!(result.actions.len(), 2);
}

#[test]
fn mark_inactive_action() {
    let mut engine = ReactiveEngine::new();
    engine.add_rule(ReactiveRule {
        trigger: Trigger::HeartbeatMiss { threshold: 3 },
        actions: vec![ReactiveAction::MarkInactive { peer: "node_a".to_string() }],
    });
    let event = NetworkEvent::HeartbeatMiss { count: 4 };
    let result = engine.evaluate(&event);
    assert!(result.matched);
    assert_eq!(result.actions.len(), 1);
    assert!(matches!(result.actions[0], ExecutableAction::MarkInactive { .. }));
}

#[test]
fn adjust_reputation_action() {
    let mut engine = ReactiveEngine::new();
    engine.add_rule(ReactiveRule {
        trigger: Trigger::ReputationBelow { threshold: 300 },
        actions: vec![ReactiveAction::AdjustReputation { peer: "node_b".to_string(), delta: -20 }],
    });
    let event = NetworkEvent::ReputationBelow { value: 200 };
    let result = engine.evaluate(&event);
    assert!(result.matched);
    assert_eq!(result.actions.len(), 1);
    assert!(matches!(result.actions[0], ExecutableAction::AdjustReputation { .. }));
}

#[test]
fn no_matching_rules() {
    let mut engine = ReactiveEngine::new();
    engine.add_rule(ReactiveRule {
        trigger: Trigger::PeerConnected,
        actions: vec![ReactiveAction::Log("Connected".to_string())],
    });
    let event = NetworkEvent::HeartbeatMiss { count: 5 };
    let result = engine.evaluate(&event);
    assert!(!result.matched);
    assert!(result.actions.is_empty());
}

#[test]
fn reputation_at_threshold_does_not_match() {
    let mut engine = ReactiveEngine::new();
    engine.add_rule(ReactiveRule {
        trigger: Trigger::ReputationBelow { threshold: 300 },
        actions: vec![ReactiveAction::Emit("alert".to_string())],
    });
    let result = engine.evaluate(&NetworkEvent::ReputationBelow { value: 300 });
    assert!(!result.matched);
    let result = engine.evaluate(&NetworkEvent::HeartbeatMiss { count: 3 });
    assert!(!result.matched);
}

// --------------------------------------------------------- action executor

#[test]
fn execute_log_action() {
    let actions = vec![ExecutableAction::Log("Test message".to_string())];
    let mut peer_states: AddrMap<PeerState> = AddrMap::new();
    let mut reputation = ReputationStore::new();
    let peer_addrs: TextMap<PeerAddr> = TextMap::new();
    let report = ActionExecutor::execute(&actions, &mut peer_states, &mut reputation, &peer_addrs);
    assert_eq!(report.logs.len(), 1);
    assert_eq!(report.logs[0], "Test message");
}

#[test]
fn execute_mark_inactive_action() {
    let addr = node_a_addr();
    let mut peer_states: AddrMap<PeerState> = AddrMap::new();
    peer_states.insert(addr, PeerState::new());
    let mut reputation = ReputationStore::new();
    let mut peer_addrs: TextMap<PeerAddr> = TextMap::new();
    peer_addrs.insert("node_a".to_string(), addr);
    let actions = vec![ExecutableAction::MarkInactive { peer: "node_a".to_string() }];
    let report = ActionExecutor::execute(&actions, &mut peer_states, &mut reputation, &peer_addrs);
    assert_eq!(report.peer_changes.len(), 1);
    assert!(peer_states.get(&addr).unwrap().consecutive_misses > 0);
}

#[test]
fn execute_adjust_reputation_action() {
    let mut peer_states: AddrMap<PeerState> = AddrMap::new();
    let mut reputation = ReputationStore::new();
    let peer_addrs: TextMap<PeerAddr> = TextMap::new();
    let actions = vec![ExecutableAction::AdjustReputation { peer: "node_b".to_string(), delta: -10 }];
    let report = ActionExecutor::execute(&actions, &mut peer_states, &mut reputation, &peer_addrs);
    assert_eq!(report.reputation_changes.len(), 1);
    assert!(reputation.is_banned("node_b"));
}

#[test]
fn full_pipeline_heartbeat_miss() {
    let mut engine = ReactiveEngine::new();
    engine.add_rule(ReactiveRule {
        trigger: Trigger::HeartbeatMiss { threshold: 3 },
        actions: vec![
            ReactiveAction::Log("Peer inativo".to_string()),
            ReactiveAction::MarkInactive { peer: "node_a".to_string() },
        ],
    });
    let addr = node_a_addr();
    let mut peer_states: AddrMap<PeerState> = AddrMap::new();
    peer_states.insert(addr, PeerState::new());
    let mut reputation = ReputationStore::new();
    let mut peer_addrs: TextMap<PeerAddr> = TextMap::new();
    peer_addrs.insert("node_a".to_string(), addr);

    let event = NetworkEvent::HeartbeatMiss { count: 4 };
    let eval_result = engine.evaluate(&event);
    let exec_report = ActionExecutor::execute(&eval_result.actions, &mut peer_states, &mut reputation, &peer_addrs);

    assert!(eval_result.matched);
    assert_eq!(exec_report.logs.len(), 1);
    assert_eq!(exec_report.peer_changes.len(), 1);
    assert!(peer_states.get(&addr).unwrap().consecutive_misses > 0);
}

#[test]
fn unknown_peer_is_not_marked() {
    let mut peer_states: AddrMap<PeerState> = AddrMap::new();
    let mut reputation = ReputationStore::new();
    let peer_addrs: TextMap<PeerAddr> = TextMap::new();
    let actions = vec![
        ExecutableAction::MarkInactive { peer: "ghost".to_string() },
        ExecutableAction::Emit("evt".to_string()),
    ];
    let report = ActionExecutor::execute(&actions, &mut peer_states, &mut reputation, &peer_addrs);
    assert!(report.peer_changes.is_empty());
    assert_eq!(report.emissions, vec!["evt".to_string()]);
}

// --------------------------------------------------------------- manifesto

#[test]
fn manifesto_gerado_e_verificavel() {
    let manifesto = Manifesto::gerar(true);
    assert!(!manifesto.titulo.is_empty());
    assert!(!manifesto.principios.is_empty());
    assert!(!manifesto.capacidades.is_empty());
    assert!(!manifesto.limitacoes.is_empty());
    assert!(!manifesto.hash.is_empty());
}

#[test]
fn manifesto_hash_deterministico() {
    let m1 = Manifesto::gerar(true);
    let m2 = Manifesto::gerar(true);
    assert_eq!(m1.hash, m2.hash);
}

#[test]
fn manifesto_texto_legivel() {
    let manifesto = Manifesto::gerar(true);
    let texto = manifesto.para_texto();
    assert!(texto.contains("NexoIA"));
    assert!(texto.contains("Princípios"));
    assert!(texto.contains("Capacidades"));
    assert!(texto.contains("Limitações"));
}

#[test]
fn manifesto_todos_principios_verificaveis() {
    let manifesto = Manifesto::gerar(true);
    for p in &manifesto.principios {
        assert!(p.verificavel, "Princípio '{}' deveria ser verificável", p.nome);
    }
}

#[test]
fn manifesto_hash_matches_recomputation() {
    let m = Manifesto::gerar(false);
    assert_eq!(m.hash, m.calcular_hash());
    assert_eq!(m.hash.len(), 64);
}

// ---------------------------------------------------------- self awareness

fn observed(build_ok: bool, tests_failed: usize, miri_ok: bool) -> ObservedState {
    ObservedState {
        build_ok,
        build_warnings: 3,
        tests_passed: 100,
        tests_failed,
        tests_ignored: 1,
        clippy_ok: true,
        clippy_warnings: 2,
        fmt_ok: true,
        miri_ok,
        miri_errors: vec![],
        timestamp: 0,
        timestamp_iso: String::new(),
        health_hash: "abc".into(),
    }
}

#[test]
fn self_awareness_observe() {
    let sa = SelfAwareness::fake();
    assert!(sa.is_fake());
    let state = fake_state(now_secs(), "2024-01-01T00:00:00+00:00".to_string());
    assert!(!state.health_hash.is_empty());
    assert!(state.timestamp > 0);
    assert!(state.build_ok);
}

#[test]
fn observed_state_to_system_state() {
    let state = observed(true, 0, true);
    let sys = state.to_system_state();
    assert!(sys.build_ok);
    assert_eq!(sys.warnings, 5);
    assert_eq!(sys.tests_passed, 100);
    assert!(sys.clippy_ok);
}

#[test]
fn is_healthy_true_when_all_ok() {
    let mut state = observed(true, 0, true);
    state.build_warnings = 0;
    state.clippy_warnings = 0;
    assert!(state.is_healthy());
}

#[test]
fn is_healthy_false_when_failing() {
    let mut state = observed(false, 5, false);
    state.tests_passed = 50;
    state.miri_errors = vec!["undefined behavior detected".into()];
    assert!(!state.is_healthy());
}

// --------------------------------------------------------------- iteration

fn estado(passed: usize) -> SystemState {
    SystemState { build_ok: true, warnings: 0, tests_passed: passed, tests_failed: 0, clippy_ok: true, fmt_ok: true }
}

fn encoded() -> EncodedParts {
    EncodedParts {
        estado_json: "{\"build_ok\":true}".to_string(),
        acao_json: "{\"tipo\":\"teste\"}".to_string(),
        resultado_json: "{\"NenhumaAcao\":{}}".to_string(),
    }
}

fn acao(tipo: &str) -> Action {
    Action { tipo: tipo.to_string(), descricao: String::new(), arquivos: vec![] }
}

#[test]
fn iteration_log_registra_e_le() {
    let mut log = IterationLog::new(0);
    let a = Action {
        tipo: "verificação".into(),
        descricao: "Health check completo".into(),
        arquivos: vec!["src/main.rs".into()],
    };
    let resultado = Outcome::Sucesso { mensagem: "Sistema saudável".into() };
    let iter = log.registrar(estado(956), a, resultado, None, None, 1_700_000_000, "t".into(), &encoded());
    assert_eq!(iter.id, 1);
    assert!(!iter.hash.is_empty());
    let all = IterationLog::todas(vec![iter]);
    assert_eq!(all.last().unwrap().id, 1);
    assert_eq!(log.counter(), 1);
}

#[test]
fn iteration_log_chain_hash_deterministico() {
    let mut log1 = IterationLog::new(0);
    let mut log2 = IterationLog::new(0);
    let resultado = Outcome::NenhumaAcao { motivo: "nada a fazer".into() };
    let i1 = log1.registrar(estado(100), acao("teste"), resultado.clone(), None, None, 5, "t".into(), &encoded());
    let i2 = log2.registrar(estado(100), acao("teste"), resultado, None, None, 5, "t".into(), &encoded());
    assert_eq!(IterationLog::chain_hash(&vec![i1]), IterationLog::chain_hash(&vec![i2]));
}

#[test]
fn iteration_log_stats() {
    let mut log = IterationLog::new(0);
    let enc = encoded();
    let a = log.registrar(estado(100), acao("a"), Outcome::Sucesso { mensagem: "ok".into() }, Some("lição 1".into()), None, 1, "t".into(), &enc);
    let b = log.registrar(estado(100), acao("b"), Outcome::Falha { erro: "erro".into() }, Some("lição 2".into()), None, 2, "t".into(), &enc);
    let c = log.registrar(estado(100), acao("c"), Outcome::NenhumaAcao { motivo: "ok".into() }, None, None, 3, "t".into(), &enc);
    let stats = IterationLog::stats(&vec![a, b, c]);
    assert_eq!(stats.total, 3);
    assert_eq!(stats.sucessos, 1);
    assert_eq!(stats.falhas, 1);
    assert_eq!(stats.sem_acao, 1);
    assert_eq!(stats.com_licao, 2);
}

#[test]
fn iteration_ids_continue_from_existing_log() {
    let mut log = IterationLog::new(41);
    let it = log.registrar(estado(1), acao("x"), Outcome::Sucesso { mensagem: "m".into() }, None, None, 9, "t".into(), &encoded());
    assert_eq!(it.id, 42);
    let sorted = IterationLog::todas(vec![it.clone(), {
        let mut first = it.clone();
        first.id = 7;
        first
    }]);
    assert_eq!(sorted[0].id, 7);
    assert_eq!(sorted[1].id, 42);
}

// -------------------------------------------------------------- checkpoint

#[test]
fn apply_checkpoint_restores_state() {
    let mut data = PersistedData::default();
    data.peers.push("127.0.0.1:9001".to_string());
    let checkpoint = create_checkpoint("test_node", &data, &vec![]);
    let mut new_data = PersistedData::default();
    let rules = apply_checkpoint(&checkpoint, &mut new_data);
    assert_eq!(new_data.peers.len(), 1);
    assert_eq!(new_data.peers[0], "127.0.0.1:9001");
    assert!(rules.is_empty());
}

#[test]
fn checkpoint_with_reactive_rules() {
    let data = PersistedData::default();
    let rules = vec![ReactiveRule {
        trigger: Trigger::HeartbeatMiss { threshold: 5 },
        actions: vec![ReactiveAction::Log("test".to_string())],
    }];
    let checkpoint = create_checkpoint("test_node", &data, &rules);
    assert_eq!(checkpoint.reactive_rules.len(), 1);
    assert_eq!(checkpoint.reactive_rules[0].trigger_type, "heartbeat_miss");
    let restored = apply_checkpoint(&checkpoint, &mut PersistedData::default());
    assert_eq!(restored.len(), 1);
    assert_eq!(restored[0].trigger, Trigger::HeartbeatMiss { threshold: 5 });
    assert_eq!(restored[0].actions, vec![ReactiveAction::Log("test".to_string())]);
}

// ---------------------------------------------------------------- internet

#[test]
fn internet_validate_url_allowed() {
    let fetcher = InternetFetcher::new("data/knowledge/cache".to_string(), true);
    assert!(fetcher.validate_url("https://doc.rust-lang.org/std/").is_ok());
    assert!(fetcher.validate_url("https://crates.io/api/v1/crates/blake3").is_ok());
    assert!(fetcher.validate_url("https://docs.rs/reqwest/latest/").is_ok());
    assert!(fetcher.validate_url("https://github.com/JoseSmurf/nexoia").is_ok());
    assert!(fetcher
        .validate_url("https://raw.githubusercontent.com/JoseSmurf/nexoia/main/Cargo.toml")
        .is_ok());
}

#[test]
fn internet_validate_url_blocked() {
    let fetcher = InternetFetcher::new("data/knowledge/cache".to_string(), true);
    assert!(fetcher.validate_url("https://evil.com/hack").is_err());
    assert!(fetcher.validate_url("https://malware.ru/virus").is_err());
    assert!(fetcher.validate_url("http://google.com").is_err());
    assert!(fetcher.validate_url("https://notallowed.org/x").is_err());
}

#[test]
fn internet_fetch_offline_without_cache_fails() {
    let fetcher = InternetFetcher::new_fake("cache".to_string());
    let result = fetcher.fetch_offline("https://doc.rust-lang.org/std/", None);
    assert!(result.is_err());
}

#[test]
fn internet_fetch_offline_with_cache_works() {
    let fetcher = InternetFetcher::new_fake("cache".to_string());
    let url = "https://doc.rust-lang.org/std/";
    let url_hash = canonical_hash(url);
    let entry = CacheEntry {
        url: url.to_string(),
        url_hash,
        content_hash: canonical_hash("test content"),
        fetched_at: now_secs(),
        content: "test content".to_string(),
        content_type: "text/rust".into(),
    };
    let result = fetcher.fetch_offline(url, Some(entry));
    assert!(result.is_ok());
    let result = result.unwrap();
    assert_eq!(result.content, "test content");
    assert!(result.from_cache);
}

#[test]
fn internet_cache_freshness() {
    let fetcher = InternetFetcher::new("cache".to_string(), true);
    let now = now_secs();
    let fresh_entry = CacheEntry {
        url: "test".into(),
        url_hash: "h".into(),
        content_hash: "c".into(),
        fetched_at: now,
        content: String::new(),
        content_type: String::new(),
    };
    let stale_entry = CacheEntry { fetched_at: now - CACHE_TTL_SECS - 1, ..fresh_entry.clone() };
    assert!(fetcher.is_cache_fresh(&fresh_entry, now));
    assert!(!fetcher.is_cache_fresh(&stale_entry, now));
}

#[test]
fn internet_content_type_detection() {
    let fetcher = InternetFetcher::new("cache".to_string(), true);
    assert_eq!(fetcher.detect_content_type("https://api.github.com/repos/x", "{}"), "application/json");
    assert_eq!(fetcher.detect_content_type("https://doc.rust-lang.org/std/", "fn main()"), "text/rust");
    assert_eq!(fetcher.detect_content_type("https://github.com/JoseSmurf/nexoia", "# Title"), "text/markdown");
}

#[test]
fn internet_cache_stats_empty() {
    let fetcher = InternetFetcher::new("cache".to_string(), true);
    let stats = fetcher.cache_stats(0, &vec![], now_secs());
    assert_eq!(stats.total, 0);
    assert_eq!(stats.fresh, 0);
    assert_eq!(stats.stale, 0);
}

#[test]
fn internet_oversized_answer_is_refused() {
    let fetcher = InternetFetcher::new("cache".to_string(), true);
    let big = "x".repeat(1_048_577);
    assert!(fetcher.accept_response("https://docs.rs/x", big, 10).is_err());
    let (res, entry) = fetcher.accept_response("https://docs.rs/x", "{\"a\":1}".to_string(), 10).unwrap();
    assert!(!res.from_cache);
    assert_eq!(entry.content_type, "application/json");
    assert_eq!(entry.fetched_at, 10);
}

#[test]
fn reconnects_counted_per_listing() {
    let a = node_a_addr();
    let b = PeerAddr::V4 { ip: 0x7f00_0001, port: 9002 };
    let mut states: AddrMap<PeerState> = AddrMap::new();
    states.insert(a, PeerState::new());
    states.insert(b, PeerState::new());
    nexoia::network::heartbeat::schedule_reconnects(&mut states, &vec![a, a, PeerAddr::V4 { ip: 1, port: 1 }]);
    assert_eq!(states.get(&a).unwrap().reconnect_attempts, 2);
    assert_eq!(states.get(&b).unwrap().reconnect_attempts, 0);
    assert_eq!(states.len(), 2);
}
