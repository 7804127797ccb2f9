use bi::records::{
    decode_batch, decode_record, DecodeError, FetchError, NodeLocation, RawNodeLocation,
    RawNodeRecord, RemoteNodeRecord,
};
use bi::render::render_node;
use bi::store::NodeStore;
use bi::sync::{run_cycle, sync_step, CycleOutcome, SyncEvent, SyncPhase};

fn munich_city() -> NodeLocation {
    NodeLocation {
        de: Some("München".to_string()),
        en: "Munich".to_string(),
        es: Some("Múnich".to_string()),
        fr: Some("Munich".to_string()),
        ja: None,
        pt_br: Some("Munique".to_string()),
        ru: Some("Мюнхен".to_string()),
        zh_cn: Some("慕尼黑".to_string()),
    }
}

fn germany_country() -> NodeLocation {
    NodeLocation {
        de: Some("Deutschland".to_string()),
        en: "Germany".to_string(),
        es: Some("Alemania".to_string()),
        fr: Some("Allemagne".to_string()),
        ja: Some("ドイツ".to_string()),
        pt_br: Some("Alemanha".to_string()),
        ru: Some("Германия".to_string()),
        zh_cn: Some("德国".to_string()),
    }
}

fn example_node() -> RemoteNodeRecord {
    RemoteNodeRecord {
        public_key: "020d1617e27ac022395352f2b3774969593d3d6ddff6fb117d820a9dda8da45217"
            .to_string(),
        alias: "exampleNode".to_string(),
        channels: 10,
        capacity: 100,
        first_seen: 1625097600,
        updated_at: 1729968000,
        city: Some(munich_city()),
        country: Some(germany_country()),
        iso_code: Some("DE".to_string()),
        subdivision: Some("Bavaria".to_string()),
    }
}

fn raw_example_node() -> RawNodeRecord {
    RawNodeRecord {
        public_key: Some(
            "020d1617e27ac022395352f2b3774969593d3d6ddff6fb117d820a9dda8da45217".to_string(),
        ),
        alias: Some("exampleNode".to_string()),
        channels: Some(10),
        capacity: Some(100),
        first_seen: Some(1625097600),
        updated_at: Some(1729968000),
        city: None,
        country: None,
        iso_code: Some("DE".to_string()),
        subdivision: Some("Bavaria".to_string()),
    }
}

#[test]
fn test_save_nodes_data() {
    let node = example_node();
    let expected_key = node.public_key.clone();

    let mut store = NodeStore::new();
    let _ = store.reconcile(&vec![node]);

    assert_eq!(store.rows.len(), 1);
    assert_eq!(store.rows[0].public_key, expected_key);
}

#[test]
fn reconcile_new_key_inserts_converted_row() {
    let mut store = NodeStore::new();
    let outcome = store.reconcile(&vec![example_node()]);
    assert!(outcome.is_ok());
    assert_eq!(store.rows.len(), 1);

    let row = &store.rows[0];
    assert_eq!(row.alias, "exampleNode");
    assert_eq!(row.capacity_sats, Some(100));
    assert_eq!(row.first_seen_epoch, 1625097600);

    let rendered = render_node(row);
    assert_eq!(rendered.capacity.as_deref(), Some("0.000001"));
    assert_eq!(rendered.first_seen, "2021-07-01T00:00:00Z");
}

#[test]
fn reconcile_same_key_updates_in_place() {
    let mut store = NodeStore::new();
    let _ = store.reconcile(&vec![example_node()]);

    // Identical input again: nothing changes, no duplicate appears.
    let _ = store.reconcile(&vec![example_node()]);
    assert_eq!(store.rows.len(), 1);
    assert_eq!(store.rows[0].alias, "exampleNode");

    // Changed alias and capacity: the one row is overwritten.
    let mut changed = example_node();
    changed.alias = "renamedNode".to_string();
    changed.capacity = 250_000_000;
    let _ = store.reconcile(&vec![changed]);
    assert_eq!(store.rows.len(), 1);
    assert_eq!(store.rows[0].alias, "renamedNode");
    assert_eq!(store.rows[0].capacity_sats, Some(250_000_000));
}

#[test]
fn reconcile_empty_batch_is_a_successful_no_op() {
    let mut store = NodeStore::new();
    let _ = store.reconcile(&vec![example_node()]);

    let outcome = store.reconcile(&vec![]);
    assert!(outcome.is_ok());
    assert_eq!(store.rows.len(), 1);
    assert_eq!(store.rows[0].alias, "exampleNode");
}

#[test]
fn reconcile_leaves_absent_keys_untouched() {
    let mut store = NodeStore::new();
    let _ = store.reconcile(&vec![example_node()]);

    let mut other = example_node();
    other.public_key = "0284aa8233ee3c0482ecf87c60094cacd15a17feb0bfa59f1898fe91478020eb76"
        .to_string();
    other.alias = "Imamura".to_string();
    other.capacity = 995_841_213;
    let _ = store.reconcile(&vec![other]);

    assert_eq!(store.rows.len(), 2);
    assert_eq!(store.rows[0].alias, "exampleNode");
    assert_eq!(store.rows[1].alias, "Imamura");
    let rendered = render_node(&store.rows[1]);
    assert_eq!(rendered.capacity.as_deref(), Some("9.95841213"));
}

#[test]
fn decode_rejects_missing_default_locale_name() {
    let mut raw = raw_example_node();
    raw.city = Some(RawNodeLocation {
        de: Some("München".to_string()),
        en: None,
        es: None,
        fr: None,
        ja: None,
        pt_br: None,
        ru: None,
        zh_cn: None,
    });
    assert!(matches!(decode_record(raw), Err(DecodeError::MissingCityName)));
}

#[test]
fn decode_rejects_each_missing_field() {
    let mut raw = raw_example_node();
    raw.public_key = None;
    assert!(matches!(decode_record(raw), Err(DecodeError::MissingPublicKey)));

    let mut raw = raw_example_node();
    raw.alias = None;
    assert!(matches!(decode_record(raw), Err(DecodeError::MissingAlias)));

    let mut raw = raw_example_node();
    raw.channels = None;
    assert!(matches!(decode_record(raw), Err(DecodeError::MissingChannels)));

    let mut raw = raw_example_node();
    raw.capacity = None;
    assert!(matches!(decode_record(raw), Err(DecodeError::MissingCapacity)));

    let mut raw = raw_example_node();
    raw.first_seen = None;
    assert!(matches!(decode_record(raw), Err(DecodeError::MissingFirstSeen)));

    let mut raw = raw_example_node();
    raw.updated_at = None;
    assert!(matches!(decode_record(raw), Err(DecodeError::MissingUpdatedAt)));

    let mut raw = raw_example_node();
    raw.country = Some(RawNodeLocation {
        de: None,
        en: None,
        es: None,
        fr: None,
        ja: None,
        pt_br: None,
        ru: None,
        zh_cn: None,
    });
    assert!(matches!(decode_record(raw), Err(DecodeError::MissingCountryName)));

    let mut raw = raw_example_node();
    raw.first_seen = Some(253_402_300_800);
    assert!(matches!(decode_record(raw), Err(DecodeError::FirstSeenOutOfRange)));
}

#[test]
fn decode_accepts_well_formed_record() {
    let decoded = decode_record(raw_example_node()).unwrap();
    assert_eq!(
        decoded.public_key,
        "020d1617e27ac022395352f2b3774969593d3d6ddff6fb117d820a9dda8da45217"
    );
    assert_eq!(decoded.alias, "exampleNode");
    assert_eq!(decoded.capacity, 100);
    assert_eq!(decoded.first_seen, 1625097600);
}

#[test]
fn malformed_payload_never_reaches_the_reconciler() {
    let mut bad = raw_example_node();
    bad.city = Some(RawNodeLocation {
        de: None,
        en: None,
        es: None,
        fr: None,
        ja: None,
        pt_br: None,
        ru: None,
        zh_cn: None,
    });
    let decoded = decode_batch(vec![raw_example_node(), bad]);
    let error = match decoded {
        Ok(_) => panic!("malformed batch was accepted"),
        Err(e) => e,
    };
    assert_eq!(error, DecodeError::MissingCityName);

    let mut store = NodeStore::new();
    let outcome = run_cycle(
        &mut store,
        Err(FetchError::Decode { error }),
    );
    assert_eq!(outcome, CycleOutcome::FetchFailed);
    assert_eq!(store.rows.len(), 0);
}

#[test]
fn end_to_end_single_record() {
    let raws = vec![raw_example_node()];
    let batch = decode_batch(raws).unwrap();

    let mut store = NodeStore::new();
    let outcome = run_cycle(&mut store, Ok(batch));
    assert_eq!(outcome, CycleOutcome::Synced);
    assert_eq!(store.rows.len(), 1);

    let rendered = render_node(&store.rows[0]);
    assert_eq!(
        rendered.public_key,
        "020d1617e27ac022395352f2b3774969593d3d6ddff6fb117d820a9dda8da45217"
    );
    assert_eq!(rendered.alias, "exampleNode");
    assert_eq!(rendered.capacity.as_deref(), Some("0.000001"));
    assert_eq!(rendered.first_seen, "2021-07-01T00:00:00Z");
}

#[test]
fn failed_cycle_does_not_block_the_next() {
    let mut store = NodeStore::new();

    let first = run_cycle(
        &mut store,
        Err(FetchError::Transport { message: "connection refused".to_string() }),
    );
    assert_eq!(first, CycleOutcome::FetchFailed);
    assert_eq!(store.rows.len(), 0);

    let second = run_cycle(&mut store, Ok(vec![example_node()]));
    assert_eq!(second, CycleOutcome::Synced);

    let mut fresh = NodeStore::new();
    let _ = fresh.reconcile(&vec![example_node()]);
    assert_eq!(store.rows.len(), fresh.rows.len());
    assert_eq!(store.rows[0].public_key, fresh.rows[0].public_key);
    assert_eq!(store.rows[0].alias, fresh.rows[0].alias);
    assert_eq!(store.rows[0].capacity_sats, fresh.rows[0].capacity_sats);
    assert_eq!(store.rows[0].first_seen_epoch, fresh.rows[0].first_seen_epoch);
}

#[test]
fn sync_phase_transitions() {
    assert_eq!(sync_step(SyncPhase::Idle, SyncEvent::Tick), SyncPhase::Fetching);
    assert_eq!(sync_step(SyncPhase::Fetching, SyncEvent::FetchSucceeded), SyncPhase::Reconciling);
    assert_eq!(sync_step(SyncPhase::Fetching, SyncEvent::FetchFailed), SyncPhase::Idle);
    assert_eq!(sync_step(SyncPhase::Reconciling, SyncEvent::PersistSucceeded), SyncPhase::Idle);
    assert_eq!(sync_step(SyncPhase::Reconciling, SyncEvent::PersistFailed), SyncPhase::Idle);
    // Events outside the current phase change nothing.
    assert_eq!(sync_step(SyncPhase::Idle, SyncEvent::FetchFailed), SyncPhase::Idle);
    assert_eq!(sync_step(SyncPhase::Fetching, SyncEvent::Tick), SyncPhase::Fetching);
}
