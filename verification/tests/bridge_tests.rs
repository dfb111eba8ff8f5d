//! The sync workflow end to end: configuration, initiation, rejection
//! precedence, dispatch atomicity, and the terminal callbacks.

use roomfi_bridge::{
    Error, Event, MockReputationSource, Pallet, RecordingChannel, ReputationSource, StateMachine,
    SyncStatus, TenantReputationData, H160, H256, PAYLOAD_LEN, SYNC_TIMEOUT_BLOCKS,
};

const SOURCE_ADDR: H160 = H160 { hi: 0xAAAAAAAA, lo: 0xAAAAAAAAAAAAAAAAAAAAAAAAAAAAAAAA };
const MIRROR_ADDR: H160 = H160 { hi: 0xBBBBBBBB, lo: 0xBBBBBBBBBBBBBBBBBBBBBBBBBBBBBBBB };
const TENANT: H160 = H160 { hi: 0x01010101, lo: 0x01010101010101010101010101010101 };
const DEST: StateMachine = StateMachine::Evm(42);

/// A source double that always fails.
struct FailingSource;

impl ReputationSource for FailingSource {
    fn read_tenant_reputation(
        &self,
        _tenant: H160,
        _passport_address: H160,
        _now: u64,
    ) -> Option<TenantReputationData> {
        None
    }
}

/// A source double that answers for the wrong subject.
struct WrongSubjectSource;

impl ReputationSource for WrongSubjectSource {
    fn read_tenant_reputation(
        &self,
        _tenant: H160,
        _passport_address: H160,
        now: u64,
    ) -> Option<TenantReputationData> {
        Some(roomfi_bridge::mock_reputation_data(H160 { hi: 9, lo: 9 }, now))
    }
}

fn configured_pallet() -> Pallet {
    let mut p = Pallet::new();
    p.set_tenant_passport_address(true, SOURCE_ADDR).unwrap();
    p.register_mirror_contract(true, DEST, MIRROR_ADDR).unwrap();
    p
}

fn initiate(p: &mut Pallet, channel: &mut RecordingChannel, now: u64) -> Result<Event, Error> {
    p.sync_reputation_to_chain(&MockReputationSource {}, channel, TENANT, DEST, now)
}

fn event_request_id(e: &Event) -> H256 {
    match e {
        Event::ReputationSyncInitiated { request_id, .. } => *request_id,
        _ => panic!("not an initiation event"),
    }
}

#[test]
fn setters_require_root() {
    let mut p = Pallet::new();
    assert_eq!(p.set_tenant_passport_address(false, SOURCE_ADDR), Err(Error::Unauthorized));
    assert_eq!(p.register_mirror_contract(false, DEST, MIRROR_ADDR), Err(Error::Unauthorized));
    assert_eq!(p.get_tenant_passport_address(), None);
    assert_eq!(p.get_mirror_contract(DEST), None);
}

#[test]
fn setters_store_and_notify() {
    let mut p = Pallet::new();
    assert_eq!(
        p.set_tenant_passport_address(true, SOURCE_ADDR),
        Ok(Event::TenantPassportConfigured { address: SOURCE_ADDR })
    );
    assert_eq!(p.get_tenant_passport_address(), Some(SOURCE_ADDR));
    assert_eq!(
        p.register_mirror_contract(true, DEST, MIRROR_ADDR),
        Ok(Event::MirrorContractRegistered { chain: DEST, contract: MIRROR_ADDR })
    );
    assert_eq!(p.get_mirror_contract(DEST), Some(MIRROR_ADDR));
}

#[test]
fn register_mirror_overwrites() {
    let mut p = configured_pallet();
    let other = H160 { hi: 0xCC, lo: 0xCC };
    p.register_mirror_contract(true, DEST, other).unwrap();
    assert_eq!(p.get_mirror_contract(DEST), Some(other));
    assert_eq!(p.get_mirror_contract(StateMachine::Evm(43)), None);
}

#[test]
fn initiate_without_any_configuration_fails_source_first() {
    // Precedence: with both configuration values missing, the missing
    // source is reported, and nothing is recorded.
    let mut p = Pallet::new();
    let mut ch = RecordingChannel { accept: true, sent: Vec::new() };
    let r = initiate(&mut p, &mut ch, 1);
    assert_eq!(r, Err(Error::TenantPassportNotConfigured));
    assert_eq!(p.syncs.len(), 0);
    assert_eq!(p.get_last_sync(TENANT), None);
    assert!(ch.sent.is_empty());
}

#[test]
fn initiate_without_mirror_fails() {
    let mut p = Pallet::new();
    p.set_tenant_passport_address(true, SOURCE_ADDR).unwrap();
    let mut ch = RecordingChannel { accept: true, sent: Vec::new() };
    assert_eq!(initiate(&mut p, &mut ch, 1), Err(Error::MirrorContractNotConfigured));
    assert_eq!(p.syncs.len(), 0);
}

#[test]
fn initiate_succeeds_and_records_pending() {
    let mut p = configured_pallet();
    let mut ch = RecordingChannel { accept: true, sent: Vec::new() };
    let e = initiate(&mut p, &mut ch, 5).unwrap();
    let id = event_request_id(&e);
    assert_eq!(
        e,
        Event::ReputationSyncInitiated { request_id: id, tenant: TENANT, destination: DEST }
    );
    let rec = p.get_sync(id).unwrap();
    assert_eq!(rec.status, SyncStatus::Pending);
    assert_eq!(rec.tenant, TENANT);
    assert_eq!(rec.destination, DEST);
    assert_eq!(rec.initiated_at, 5);
    assert_eq!(p.get_last_sync(TENANT), Some(id));
    assert_eq!(ch.sent.len(), 1);
    assert_eq!(ch.sent[0].dest, DEST);
    assert_eq!(ch.sent[0].to, MIRROR_ADDR);
    assert_eq!(ch.sent[0].timeout, SYNC_TIMEOUT_BLOCKS);
    assert_eq!(ch.sent[0].data.len(), PAYLOAD_LEN);
}

#[test]
fn repeat_initiate_while_pending_is_rejected() {
    let mut p = configured_pallet();
    let mut ch = RecordingChannel { accept: true, sent: Vec::new() };
    let e = initiate(&mut p, &mut ch, 5).unwrap();
    let id = event_request_id(&e);
    assert_eq!(initiate(&mut p, &mut ch, 6), Err(Error::SyncAlreadyInProgress));
    assert_eq!(p.syncs.len(), 1);
    assert_eq!(p.get_last_sync(TENANT), Some(id));
    assert_eq!(ch.sent.len(), 1);
}

#[test]
fn confirm_then_initiate_again_with_new_id() {
    let mut p = configured_pallet();
    let mut ch = RecordingChannel { accept: true, sent: Vec::new() };
    let id = event_request_id(&initiate(&mut p, &mut ch, 5).unwrap());
    let e = p.on_sync_confirmed(id);
    assert_eq!(e, Some(Event::ReputationSyncConfirmed { request_id: id, tenant: TENANT }));
    assert_eq!(p.get_sync(id).unwrap().status, SyncStatus::Confirmed);
    let id2 = event_request_id(&initiate(&mut p, &mut ch, 7).unwrap());
    assert_ne!(id2, id);
    assert_eq!(p.get_sync(id2).unwrap().status, SyncStatus::Pending);
    assert_eq!(p.get_last_sync(TENANT), Some(id2));
    // The confirmed record stays in the registry untouched.
    assert_eq!(p.get_sync(id).unwrap().status, SyncStatus::Confirmed);
    assert_eq!(p.syncs.len(), 2);
}

#[test]
fn failure_is_terminal_and_confirm_is_then_a_no_op() {
    let mut p = configured_pallet();
    let mut ch = RecordingChannel { accept: true, sent: Vec::new() };
    let id = event_request_id(&initiate(&mut p, &mut ch, 5).unwrap());
    let e = p.on_sync_failed(id, b"timeout".to_vec());
    assert_eq!(
        e,
        Some(Event::ReputationSyncFailed {
            request_id: id,
            tenant: TENANT,
            reason: b"timeout".to_vec(),
        })
    );
    assert_eq!(p.get_sync(id).unwrap().status, SyncStatus::Failed);
    assert_eq!(p.on_sync_confirmed(id), None);
    assert_eq!(p.get_sync(id).unwrap().status, SyncStatus::Failed);
}

#[test]
fn terminal_callbacks_are_idempotent() {
    let mut p = configured_pallet();
    let mut ch = RecordingChannel { accept: true, sent: Vec::new() };
    let id = event_request_id(&initiate(&mut p, &mut ch, 5).unwrap());
    assert!(p.on_sync_confirmed(id).is_some());
    // A duplicate delivery changes nothing and emits nothing.
    assert_eq!(p.on_sync_confirmed(id), None);
    assert_eq!(p.on_sync_failed(id, b"late".to_vec()), None);
    assert_eq!(p.get_sync(id).unwrap().status, SyncStatus::Confirmed);
    assert_eq!(p.syncs.len(), 1);
}

#[test]
fn callbacks_ignore_unknown_identities() {
    let mut p = configured_pallet();
    let unknown = H256 { hi: 1, lo: 2 };
    assert_eq!(p.on_sync_confirmed(unknown), None);
    assert_eq!(p.on_sync_failed(unknown, b"x".to_vec()), None);
    assert_eq!(p.syncs.len(), 0);
}

#[test]
fn dispatch_rejection_leaves_no_trace() {
    let mut p = configured_pallet();
    let mut ch = RecordingChannel { accept: false, sent: Vec::new() };
    assert_eq!(initiate(&mut p, &mut ch, 5), Err(Error::IsmpDispatchError));
    assert_eq!(p.syncs.len(), 0);
    assert_eq!(p.get_last_sync(TENANT), None);
    assert!(ch.sent.is_empty());
    // The same pallet still accepts the sync once the channel does.
    let mut ok_ch = RecordingChannel { accept: true, sent: Vec::new() };
    assert!(initiate(&mut p, &mut ok_ch, 5).is_ok());
}

#[test]
fn failing_source_is_reported_and_leaves_no_trace() {
    let mut p = configured_pallet();
    let mut ch = RecordingChannel { accept: true, sent: Vec::new() };
    let r = p.sync_reputation_to_chain(&FailingSource, &mut ch, TENANT, DEST, 5);
    assert_eq!(r, Err(Error::InvalidReputationData));
    assert_eq!(p.syncs.len(), 0);
    assert!(ch.sent.is_empty());
}

#[test]
fn wrong_subject_snapshot_is_rejected() {
    let mut p = configured_pallet();
    let mut ch = RecordingChannel { accept: true, sent: Vec::new() };
    let r = p.sync_reputation_to_chain(&WrongSubjectSource, &mut ch, TENANT, DEST, 5);
    assert_eq!(r, Err(Error::InvalidReputationData));
    assert_eq!(p.syncs.len(), 0);
}

#[test]
fn request_ids_differ_across_subjects() {
    let mut p = configured_pallet();
    let mut ch = RecordingChannel { accept: true, sent: Vec::new() };
    let other = H160 { hi: 0x02020202, lo: 0x02020202020202020202020202020202 };
    let id1 = event_request_id(&initiate(&mut p, &mut ch, 5).unwrap());
    let e2 = p
        .sync_reputation_to_chain(&MockReputationSource {}, &mut ch, other, DEST, 5)
        .unwrap();
    let id2 = event_request_id(&e2);
    assert_ne!(id1, id2);
    assert_eq!(p.get_last_sync(TENANT), Some(id1));
    assert_eq!(p.get_last_sync(other), Some(id2));
    assert_eq!(p.syncs.len(), 2);
}

#[test]
fn reads_on_unknown_keys_are_absent() {
    let p = Pallet::new();
    assert_eq!(p.get_sync(H256 { hi: 0, lo: 0 }), None);
    assert_eq!(p.get_last_sync(TENANT), None);
    assert_eq!(p.get_mirror_contract(DEST), None);
    assert_eq!(p.get_tenant_passport_address(), None);
}
