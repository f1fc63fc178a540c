use malcolm::fault::FaultContext;
use malcolm::faults::any::{AnyFault, IntoFault};
use malcolm::faults::network::PacketLoss;
use malcolm::macro_dsl::inline_scenario;
use malcolm::presets;
use malcolm::replay::envelope::{
    frame, unframe, CommandPassphraseProvider, EnvPassphraseProvider, EnvelopeError,
    KeystorePassphraseProvider, KeystoreSecretProvider, PassphraseProvider, ScenarioEnvelope,
};
use malcolm::replay::{
    push_bytes, RecordingHarness, ReplayHarness, ScenarioRecord, TopologyEdgeSnapshot,
    TopologySnapshot,
};
use malcolm::scalar::Scalar;
use malcolm::scenario::{ChaosScenario, ScenarioRegime};
use malcolm::topology::Topology;
use malcolm::types::BifurcationProfile;

fn s(x: f64) -> Scalar {
    Scalar::from_bits(x.to_bits())
}

fn make_ctx(seed: u64) -> FaultContext {
    FaultContext {
        seed,
        timestamp_ms: 100,
        node_id: "node-0".to_owned(),
        profile: BifurcationProfile::network_partition(),
    }
}

fn loss(seed: u64, intensity: f64) -> PacketLoss {
    PacketLoss::builder().seed(seed).intensity(s(intensity)).build()
}

fn make_scenario() -> ChaosScenario {
    let topology = Topology::builder()
        .name("cluster")
        .add_edge("node-0", "node-1", s(1.0))
        .build();
    ChaosScenario::builder()
        .name("recordable")
        .seed(42)
        .add_fault(loss(7, 0.8))
        .profile(BifurcationProfile::network_partition())
        .topology(topology)
        .build()
}

fn record_of(scenario: &ChaosScenario, ctx: &mut FaultContext) -> ScenarioRecord {
    let run = scenario.run(ctx);
    RecordingHarness::new(scenario).record(run, ScenarioRegime::Chaotic)
}

fn make_record() -> ScenarioRecord {
    record_of(&make_scenario(), &mut make_ctx(42))
}

fn plain(seed: u64) -> ScenarioRecord {
    let scenario = ChaosScenario::builder()
        .name("prop-test")
        .seed(seed)
        .add_fault(loss(seed, 0.8))
        .profile(BifurcationProfile::network_partition())
        .build();
    record_of(&scenario, &mut make_ctx(seed))
}

fn encode(record: &ScenarioRecord) -> Vec<u8> {
    format!("{record:?}").into_bytes()
}

struct StaticPassphraseProvider {
    secret: Vec<u8>,
}

impl PassphraseProvider for StaticPassphraseProvider {
    fn get_passphrase(&self) -> Result<Vec<u8>, EnvelopeError> {
        Ok(self.secret.clone())
    }

    fn label(&self) -> &'static str {
        "static"
    }
}

fn provider(secret: &[u8]) -> StaticPassphraseProvider {
    StaticPassphraseProvider {
        secret: secret.to_vec(),
    }
}

#[derive(Clone)]
struct MockKeystore {
    secret: Vec<u8>,
}

impl KeystoreSecretProvider for MockKeystore {
    fn fetch_secret(&self, _key_name: &str) -> Result<Vec<u8>, EnvelopeError> {
        Ok(self.secret.clone())
    }
}

#[test]
fn record_replay_verify_matches_event_sequence() {
    let record = make_record();
    let replay = ReplayHarness::new(record.clone());
    let replay_report = replay.replay();
    assert!(replay.verify());
    assert_eq!(record.events, replay_report.events);
    assert_eq!(replay.record(), &record);
}

#[test]
fn mutating_record_data_causes_verify_false() {
    let mut record = make_record();
    if let Some(first) = record.events.first_mut() {
        first.fault_type.push_str("-tampered");
    }
    let replay = ReplayHarness::new(record);
    assert!(!replay.verify());
}

#[test]
fn replay_verify_detects_tampered_event_fault_type() {
    let mut record = plain(7);
    if let Some(first) = record.events.first_mut() {
        first.fault_type.push_str("-tampered");
    }
    assert!(!ReplayHarness::new(record).verify());
}

#[test]
fn replay_verify_detects_tampered_seed() {
    let mut record = plain(7);
    if let Some(first) = record.events.first_mut() {
        first.seed = first.seed.wrapping_add(1);
    }
    assert!(!ReplayHarness::new(record).verify());
}

#[test]
fn replay_verify_detects_tampered_topology_edge_weight() {
    let mut record = plain(7);
    if let Some(topology) = record.topology.as_mut() {
        if let Some(edge) = topology.edges.first_mut() {
            edge.weight = s(f64::from_bits(edge.weight.to_bits()) + 0.1);
        }
    } else {
        record.topology = Some(TopologySnapshot {
            name: "synthetic".to_owned(),
            nodes: vec!["a".to_owned(), "b".to_owned()],
            edges: vec![TopologyEdgeSnapshot {
                from: "a".to_owned(),
                to: "b".to_owned(),
                weight: s(0.5),
            }],
        });
    }
    assert!(!ReplayHarness::new(record).verify());
    let mut graph = make_record();
    if let Some(topology) = graph.topology.as_mut() {
        topology.edges[0].weight = s(0.9);
    }
    assert!(!graph.verify());
}

#[test]
fn replay_demo_contract_verifies_true_for_faithful_replay() {
    let scenario = inline_scenario(
        "replay-contract",
        42,
        BifurcationProfile::network_partition(),
        None,
        vec![loss(3, 0.9).into_fault()],
    );
    let record = record_of(&scenario, &mut make_ctx(42));
    assert!(record.verify(), "expected faithful recording to verify");
}

#[test]
fn replay_integrity_fails_for_tampered_record() {
    let scenario = inline_scenario(
        "replay-tamper",
        9,
        BifurcationProfile::network_partition(),
        None,
        vec![loss(4, 0.8).into_fault()],
    );
    let record = record_of(&scenario, &mut make_ctx(9));
    let mut tampered = record.clone();
    tampered.seed = tampered.seed.saturating_add(1);
    assert!(
        !tampered.verify(),
        "expected tampered record verification to fail"
    );
}

#[test]
fn copies_of_records_keep_the_tag() {
    for seed in [1_u64, 2, 77, 10_000] {
        let record = plain(seed);
        let copy = record.clone();
        assert_eq!(record, copy);
        assert_eq!(copy.compute_integrity_tag(), record.integrity_tag);
    }
}

#[test]
fn integrity_tag_is_fnv1a() {
    let mut hash: u64 = 0xcbf2_9ce4_8422_2325;
    push_bytes(&mut hash, b"foobar");
    assert_eq!(hash, 0x8594_4171_f739_67e8);
}

#[test]
fn chaos_scenario_run_is_deterministic_for_same_seed() {
    for seed in [1_u64, 9, 10_000] {
        let a = plain(seed);
        let b = plain(seed);
        assert_eq!(a, b);
    }
}

#[test]
fn envelope_round_trip_restores_original_record() -> Result<(), EnvelopeError> {
    let provider = provider(b"correct horse battery staple");
    let source = make_record();
    let bytes = encode(&source);
    let envelope = ScenarioEnvelope::seal(&source, &bytes, &provider)?;
    assert_ne!(envelope.ciphertext, bytes);
    assert_eq!(envelope.metadata().seed, source.seed);
    let opened = envelope.open_interactive(true, &provider)?;
    assert_eq!(opened, bytes);
    assert_eq!(envelope.open_non_interactive(Some(&provider))?, bytes);
    Ok(())
}

#[test]
fn copied_envelopes_open_alike() -> Result<(), EnvelopeError> {
    let provider = provider(b"passphrase-123");
    let record = make_record();
    let envelope = ScenarioEnvelope::seal(&record, &encode(&record), &provider)?;
    let copy = envelope.clone();
    assert_eq!(copy, envelope);
    assert_eq!(copy.open_interactive(true, &provider)?, encode(&record));
    assert!(copy.metadata().sealed_at_ms > 1_500_000_000_000);
    assert_eq!(copy.metadata().event_count, record.events.len());
    Ok(())
}

#[test]
fn tampered_envelope_fails_authentication() -> Result<(), EnvelopeError> {
    let provider = provider(b"passphrase-123");
    let record = make_record();
    let mut envelope = ScenarioEnvelope::seal(&record, &encode(&record), &provider)?;
    if let Some(last) = envelope.ciphertext.last_mut() {
        *last ^= 0b0000_0001;
    }
    let opened = envelope.open_non_interactive(Some(&provider));
    assert!(matches!(opened, Err(EnvelopeError::Decrypt)));
    Ok(())
}

#[test]
fn non_interactive_open_without_provider_is_denied() -> Result<(), EnvelopeError> {
    let provider = provider(b"passphrase-123");
    let record = make_record();
    let envelope = ScenarioEnvelope::seal(&record, &encode(&record), &provider)?;
    let opened = envelope.open_non_interactive::<StaticPassphraseProvider>(None);
    assert!(matches!(
        opened,
        Err(EnvelopeError::MissingPassphraseSource)
    ));
    Ok(())
}

#[test]
fn interactive_open_requires_confirmation() -> Result<(), EnvelopeError> {
    let provider = provider(b"passphrase-123");
    let record = make_record();
    let envelope = ScenarioEnvelope::seal(&record, &encode(&record), &provider)?;
    let opened = envelope.open_interactive(false, &provider);
    assert!(matches!(opened, Err(EnvelopeError::PolicyDenied(_))));
    Ok(())
}

#[test]
fn keystore_provider_does_not_expose_secret_in_debug() -> Result<(), EnvelopeError> {
    let secret = b"keystore-secret-material".to_vec();
    let provider = KeystorePassphraseProvider::new(
        "prod/malcolm/envelope",
        MockKeystore {
            secret: secret.clone(),
        },
    );
    let loaded = provider.get_passphrase()?;
    assert_eq!(loaded, secret);
    let debug = provider.describe("MockKeystore");
    assert!(!debug.contains("keystore-secret-material"));
    assert!(debug.contains("prod/malcolm/envelope"));
    assert_eq!(provider.label(), "keystore");
    Ok(())
}

#[test]
fn empty_secrets_are_refused() {
    let provider = KeystorePassphraseProvider::new("k", MockKeystore { secret: vec![] });
    assert!(provider.get_passphrase().is_err());
    let env = EnvPassphraseProvider::new("NAME");
    assert!(env.accept(None).is_err());
    assert!(env.accept(Some(String::new())).is_err());
    assert_eq!(env.accept(Some("x".to_owned())).ok(), Some(b"x".to_vec()));
    assert_eq!(env.label(), "env");
    let command = CommandPassphraseProvider::new("pass", vec!["show".to_owned()]);
    assert!(command.accept(false, "exit status: 1".to_owned(), "x").is_err());
    assert!(command.accept(true, "exit status: 0".to_owned(), "\n").is_err());
    assert_eq!(
        command
            .accept(true, "exit status: 0".to_owned(), "secret\n")
            .ok(),
        Some(b"secret".to_vec())
    );
    assert_eq!(command.label(), "command");
}

#[test]
fn envelope_seal_produces_distinct_ciphertexts() -> Result<(), EnvelopeError> {
    let provider = provider(b"deterministic-key-material");
    let record = plain(5);
    let bytes = encode(&record);
    let a = ScenarioEnvelope::seal(&record, &bytes, &provider)?;
    let b = ScenarioEnvelope::seal(&record, &bytes, &provider)?;
    assert_ne!(a.ciphertext, b.ciphertext);
    Ok(())
}

#[test]
fn envelope_rejects_wrong_passphrase() -> Result<(), EnvelopeError> {
    let record = plain(5);
    let envelope =
        ScenarioEnvelope::seal(&record, &encode(&record), &provider(b"original-passphrase"))?;
    let result = envelope.open_non_interactive(Some(&provider(b"different-passphrase")));
    assert!(matches!(result, Err(EnvelopeError::Decrypt)));
    Ok(())
}

#[test]
fn sealing_with_fixed_inputs_is_exact() -> Result<(), EnvelopeError> {
    let record = plain(5);
    let a = ScenarioEnvelope::seal_with(
        &record,
        &b"text".to_vec(),
        17,
        [1; 12],
        [2; 16],
        &b"pw".to_vec(),
    )?;
    let b = ScenarioEnvelope::seal_with(
        &record,
        &b"text".to_vec(),
        17,
        [1; 12],
        [2; 16],
        &b"pw".to_vec(),
    )?;
    assert_eq!(a.ciphertext, b.ciphertext);
    assert_eq!(a.ciphertext.len(), 4 + 16);
    assert_eq!(a.metadata().sealed_at_ms, 17);
    assert_eq!(a.open_with(&b"pw".to_vec())?, b"text".to_vec());
    Ok(())
}

#[test]
fn envelope_rejects_truncated_bytes() {
    for length in 0..5 {
        let bytes = vec![0_u8; length];
        assert!(matches!(unframe(&bytes), Err(EnvelopeError::Truncated)));
    }
}

#[test]
fn envelope_rejects_malformed_magic() {
    let bytes = vec![0xAB_u8; 5];
    assert!(matches!(unframe(&bytes), Err(EnvelopeError::InvalidMagic)));
    assert!(matches!(
        unframe(b"MENV\x02rest"),
        Err(EnvelopeError::UnsupportedVersion(2))
    ));
}

#[test]
fn envelope_rejects_oversized_padding() {
    for extra in 0..=128_usize {
        let mut bytes = Vec::with_capacity(5 + extra);
        bytes.extend_from_slice(b"MENV");
        bytes.push(1);
        bytes.resize(5 + extra, 0xCC);
        assert_eq!(unframe(&bytes).ok(), Some(vec![0xCC; extra]));
    }
}

#[test]
fn frames_are_exact() {
    assert_eq!(frame(&b"body".to_vec()), b"MENV\x01body".to_vec());
    assert_eq!(unframe(b"MENV\x01body").ok(), Some(b"body".to_vec()));
}

#[test]
fn end_to_end_chaos_replay_envelope_open() -> Result<(), EnvelopeError> {
    let scenario: ChaosScenario = presets::flaky_net()
        .seed(1337)
        .profile(BifurcationProfile::network_partition())
        .build();
    let mut ctx = FaultContext {
        seed: 1337,
        timestamp_ms: 0,
        node_id: "edge-0".to_owned(),
        profile: BifurcationProfile::network_partition(),
    };
    let report = scenario.run(&mut ctx);
    assert!(
        !report.events.is_empty(),
        "scenario should inject at least one event"
    );
    let record = record_of(&scenario, &mut ctx);
    let replay = ReplayHarness::new(record.clone());
    assert!(replay.verify());
    let replayed_report = replay.replay();
    assert_eq!(replayed_report.events, report.events);
    assert_eq!(replayed_report.name, report.name);

    let secret = provider(b"end-to-end-passphrase");
    let bytes = encode(&record);
    let envelope = ScenarioEnvelope::seal(&record, &bytes, &secret)?;
    let opened = envelope.open_interactive(true, &secret)?;
    assert_eq!(opened, bytes);
    let bad = envelope.open_non_interactive(Some(&provider(b"different-passphrase")));
    assert!(bad.is_err(), "wrong passphrase must fail authentication");
    let final_replay = ReplayHarness::new(record);
    assert!(final_replay.verify());
    Ok(())
}

#[test]
fn custom_faults_can_be_recorded() {
    let fault: AnyFault = loss(1, 0.5).into_fault();
    let scenario = inline_scenario(
        "any",
        1,
        BifurcationProfile::network_partition(),
        None,
        vec![fault],
    );
    assert_eq!(record_of(&scenario, &mut make_ctx(1)).events.len(), 1);
}

#[test]
fn a_report_gives_the_record_of_its_run() {
    let scenario = make_scenario();
    let run = scenario.run(&mut make_ctx(42));
    let report = run.into_report(ScenarioRegime::Chaotic, 9);
    let record = ScenarioRecord::from_report(&scenario, &report);
    assert!(record.verify());
    assert_eq!(record, make_record());
    assert_eq!(record.fault_sequence, vec!["packet_loss".to_owned()]);
    assert_eq!(record.first_timestamp_ms, 100);
}

#[test]
fn a_keystore_source_shows_its_key_and_its_store() {
    let provider = KeystorePassphraseProvider::new("a\"b", MockKeystore { secret: vec![1] });
    assert_eq!(
        provider.describe("vault::Store"),
        "KeystorePassphraseProvider { key_name: \"a\\\"b\", keystore_type: \"vault::Store\", .. }"
    );
}

#[test]
fn every_field_of_a_record_is_covered() {
    let good = make_record();
    assert!(good.verify());
    let mut r = good.clone();
    r.scenario_name = "recordablf".to_owned();
    assert!(!r.verify());
    let mut r = good.clone();
    r.profile_label = "network_partitiom".to_owned();
    assert!(!r.verify());
    let mut r = good.clone();
    r.fault_sequence[0] = "packet_losr".to_owned();
    assert!(!r.verify());
    let mut r = good.clone();
    r.events[0].dry_run = true;
    assert!(!r.verify());
    let mut r = good.clone();
    r.events[0].seed = 8;
    assert!(!r.verify());
    let mut r = good.clone();
    r.first_timestamp_ms = 101;
    assert!(!r.verify());
    let mut r = good.clone();
    r.last_timestamp_ms = 101;
    assert!(!r.verify());
    let mut r = good.clone();
    r.integrity_tag ^= 1;
    assert!(!r.verify());
    let mut r = good;
    if let Some(t) = r.topology.as_mut() {
        t.nodes[0] = "node-9".to_owned();
    }
    assert!(!r.verify());
}
