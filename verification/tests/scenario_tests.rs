use watchtower_plugin::byteops::{to_hex, u32_to_be};
use watchtower_plugin::cryptography::{decrypt, encrypt, get_random_keypair, recover, sign};
use watchtower_plugin::dispatch::{
    classify_add_appointment_response, dispatch_action, get_appointment_request_message,
    prepare_appointment, AddAppointmentOutcome, AddAppointmentResponse, DispatchAction,
    PrepareError, INVALID_SIGNATURE_OR_SUBSCRIPTION_ERROR,
};
use watchtower_plugin::receipts::{AppointmentReceipt, RegistrationReceipt};
use watchtower_plugin::retrier::{next_interval, retry_decision, RetryDecision};
use watchtower_plugin::store::Store;
use watchtower_plugin::types::{Locator, TowerId, TowerStatus};
use watchtower_plugin::wt_client::{
    AbandonOutcome, ClientError, RegisterError, RetryError, WTClient,
};

fn random_bytes32() -> Vec<u8> {
    get_random_keypair().0
}

fn get_random_user_id() -> TowerId {
    TowerId::from_vec(get_random_keypair().1)
}

fn signed_registration_receipt(
    user_id: &TowerId,
    tower_sk: &Vec<u8>,
    slots: u32,
    start: u32,
    expiry: u32,
) -> RegistrationReceipt {
    let unsigned = RegistrationReceipt::new(user_id.clone(), slots, start, expiry);
    let sig = sign(&unsigned.to_vec(), tower_sk).unwrap();
    RegistrationReceipt::with_signature(user_id.clone(), slots, start, expiry, sig)
}

/// A tower-side reply to add_appointment, signed with `tower_sk`.
fn accepted_response(
    tower_sk: &Vec<u8>,
    locator: &Locator,
    user_signature: &Vec<u8>,
    available_slots: u32,
    start_block: u32,
) -> AddAppointmentResponse {
    let unsigned = AppointmentReceipt::new(user_signature.clone(), start_block);
    let signature = sign(&unsigned.to_vec(locator), tower_sk).unwrap();
    AddAppointmentResponse::Accepted { available_slots, start_block, signature }
}

fn register_tower(client: &mut WTClient, tower_sk: &Vec<u8>, tower_id: &TowerId, slots: u32) {
    let receipt = signed_registration_receipt(&get_random_user_id(), tower_sk, slots, 100, 200);
    assert!(receipt.verify(&TowerId::from_vec(recover(&receipt.to_vec(), &receipt.signature().unwrap()).unwrap())));
    client
        .add_update_tower(tower_id.clone(), "http://talaia.watch:9814".into(), &receipt)
        .unwrap();
}

#[test]
fn test_encryption_identity() {
    // decrypt(encrypt(tx, txid), txid) == tx; a wrong txid fails
    let txid = random_bytes32();
    let tx = vec![1u8, 2, 3, 4, 5, 6, 7, 8, 9];
    let blob = encrypt(&tx, &txid).unwrap();
    assert_eq!(blob.len(), tx.len() + 16);
    assert_eq!(decrypt(&blob, &txid).unwrap(), tx);

    let wrong_txid = random_bytes32();
    assert!(decrypt(&blob, &wrong_txid).is_none());

    let mut tampered = blob.clone();
    tampered[0] ^= 1;
    assert!(decrypt(&tampered, &txid).is_none());
}

#[test]
fn test_locator_determinism() {
    let txid = random_bytes32();
    let a = Locator::new(&txid);
    let b = Locator::new(&txid);
    assert_eq!(a, b);
    assert_eq!(a.to_vec(), txid[..16].to_vec());
}

#[test]
fn test_sign_recover_roundtrip() {
    let (sk, pk) = get_random_keypair();
    let msg = b"watchtower of the lighthouse".to_vec();
    let sig = sign(&msg, &sk).unwrap();
    assert_eq!(sig.len(), 65);
    assert_eq!(recover(&msg, &sig).unwrap(), pk);

    // a different message recovers to a different key
    let other = b"another message entirely".to_vec();
    assert_ne!(recover(&other, &sig).unwrap_or_default(), pk);
}

#[test]
fn test_registration_receipt_verification() {
    let (tower_sk, tower_pk) = get_random_keypair();
    let tower_id = TowerId::from_vec(tower_pk);
    let receipt = signed_registration_receipt(&get_random_user_id(), &tower_sk, 100, 100, 200);
    assert!(receipt.verify(&tower_id));
    // the same receipt does not verify against another tower id
    assert!(!receipt.verify(&get_random_user_id()));
    // an unsigned receipt never verifies
    let unsigned = RegistrationReceipt::new(get_random_user_id(), 100, 100, 200);
    assert!(!unsigned.verify(&tower_id));
}

#[test]
fn test_byte_encodings() {
    assert_eq!(u32_to_be(0x01020304), vec![1u8, 2, 3, 4]);
    assert_eq!(u32_to_be(42), vec![0u8, 0, 0, 42]);
    assert_eq!(to_hex(&vec![0xaau8, 0x01, 0xf0]), b"aa01f0".to_vec());
    let locator = Locator::from_vec(vec![0xabu8; 16]);
    let msg = get_appointment_request_message(&locator);
    assert_eq!(&msg[..16], b"get appointment ");
    assert_eq!(&msg[16..], b"abababababababababababababababab");
}

#[test]
fn test_retry_decisions() {
    // the retry bound: at or past the cap a task never keeps retrying
    assert_eq!(
        retry_decision(TowerStatus::TemporaryUnreachable, 3, 900, 900),
        RetryDecision::GaveUp
    );
    assert_eq!(
        retry_decision(TowerStatus::TemporaryUnreachable, 3, 899, 900),
        RetryDecision::Retry
    );
    assert_eq!(
        retry_decision(TowerStatus::TemporaryUnreachable, 0, 10, 900),
        RetryDecision::Completed
    );
    assert_eq!(
        retry_decision(TowerStatus::Abandoned, 3, 10, 900),
        RetryDecision::Abandoned
    );
    assert_eq!(
        retry_decision(TowerStatus::Misbehaving, 3, 10, 900),
        RetryDecision::Halted
    );

    assert_eq!(next_interval(1, 60), 2);
    assert_eq!(next_interval(16, 60), 32);
    assert_eq!(next_interval(32, 60), 60);
    assert_eq!(next_interval(60, 60), 60);
}

#[test]
fn test_retry_tower_errors() {
    let mut client = WTClient::new(Store::new()).unwrap();
    let (tower_sk, tower_pk) = get_random_keypair();
    let tower_id = TowerId::from_vec(tower_pk);

    assert_eq!(client.retry_tower(&tower_id), Err(RetryError::UnknownTower));

    register_tower(&mut client, &tower_sk, &tower_id, 100);
    assert_eq!(client.retry_tower(&tower_id), Err(RetryError::NotUnreachable));

    client.set_tower_status(tower_id.clone(), TowerStatus::TemporaryUnreachable);
    assert_eq!(
        client.retry_tower(&tower_id),
        Err(RetryError::AlreadyBeingRetried)
    );

    client.set_tower_status(tower_id.clone(), TowerStatus::Unreachable);
    assert_eq!(client.retry_tower(&tower_id), Ok(()));
    assert_eq!(client.unreachable_towers.last(), Some(&tower_id));
}

#[test]
fn test_s1_register_deliver_verify() {
    // Register, deliver one appointment, verify the receipt landed.
    let mut client = WTClient::new(Store::new()).unwrap();
    let (tower_sk, tower_pk) = get_random_keypair();
    let tower_id = TowerId::from_vec(tower_pk);
    register_tower(&mut client, &tower_sk, &tower_id, 100);
    assert_eq!(client.tower_status(&tower_id).unwrap(), TowerStatus::Reachable);

    let txid = vec![0xaau8; 32];
    let (appointment, user_signature) =
        prepare_appointment(&txid, &vec![7u8; 64], &client.user_sk).unwrap();
    assert_eq!(appointment.locator.to_vec(), vec![0xaau8; 16]);

    let response = accepted_response(&tower_sk, &appointment.locator, &user_signature, 99, 1000);
    let outcome =
        classify_add_appointment_response(&tower_id, &appointment.locator, &user_signature, response);
    assert!(matches!(outcome, AddAppointmentOutcome::Delivered { available_slots: 99, .. }));
    client.handle_add_appointment_outcome(tower_id.clone(), &appointment, outcome);

    let info = client.load_tower_info(&tower_id).unwrap();
    assert_eq!(info.available_slots, 99);
    assert!(info.appointments.iter().any(|(l, _)| *l == appointment.locator));
    assert!(client
        .get_appointment_receipt(&tower_id, &appointment.locator)
        .is_ok());
}

#[test]
fn test_s2_connection_failure_then_recovery() {
    let mut client = WTClient::new(Store::new()).unwrap();
    let (tower_sk, tower_pk) = get_random_keypair();
    let tower_id = TowerId::from_vec(tower_pk);
    register_tower(&mut client, &tower_sk, &tower_id, 100);

    let txid = random_bytes32();
    let (appointment, user_signature) =
        prepare_appointment(&txid, &vec![9u8; 32], &client.user_sk).unwrap();

    // dispatch fails with a connection error
    let outcome = classify_add_appointment_response(
        &tower_id,
        &appointment.locator,
        &user_signature,
        AddAppointmentResponse::ConnectionFailed,
    );
    client.handle_add_appointment_outcome(tower_id.clone(), &appointment, outcome);
    assert_eq!(
        client.tower_status(&tower_id).unwrap(),
        TowerStatus::TemporaryUnreachable
    );
    assert_eq!(client.unreachable_towers.last(), Some(&tower_id));
    let info = client.load_tower_info(&tower_id).unwrap();
    assert!(info.pending_appointments.contains(&appointment));

    // the retrier re-delivers: first attempt fails again, second succeeds
    let retry1 = classify_add_appointment_response(
        &tower_id,
        &appointment.locator,
        &user_signature,
        AddAppointmentResponse::ConnectionFailed,
    );
    client.handle_add_appointment_outcome(tower_id.clone(), &appointment, retry1);

    let response = accepted_response(&tower_sk, &appointment.locator, &user_signature, 99, 1001);
    let retry2 =
        classify_add_appointment_response(&tower_id, &appointment.locator, &user_signature, response);
    client.handle_add_appointment_outcome(tower_id.clone(), &appointment, retry2);

    // the pending set drained: the task completes and the tower recovers
    let pending = client.load_tower_info(&tower_id).unwrap().pending_appointments;
    let decision = retry_decision(
        client.tower_status(&tower_id).unwrap(),
        pending.len(),
        10,
        900,
    );
    assert_eq!(decision, RetryDecision::Completed);
    client.apply_retry_decision(&tower_id, decision);

    assert_eq!(client.tower_status(&tower_id).unwrap(), TowerStatus::Reachable);
    let info = client.load_tower_info(&tower_id).unwrap();
    assert!(info.pending_appointments.is_empty());
    assert!(info.appointments.iter().any(|(l, _)| *l == appointment.locator));
}

#[test]
fn test_s3_subscription_exhaustion() {
    let mut client = WTClient::new(Store::new()).unwrap();
    let (tower_sk, tower_pk) = get_random_keypair();
    let tower_id = TowerId::from_vec(tower_pk);
    register_tower(&mut client, &tower_sk, &tower_id, 100);

    let txid = random_bytes32();
    let (appointment, user_signature) =
        prepare_appointment(&txid, &vec![3u8; 16], &client.user_sk).unwrap();

    let outcome = classify_add_appointment_response(
        &tower_id,
        &appointment.locator,
        &user_signature,
        AddAppointmentResponse::Rejected {
            error: "subscription maxed".into(),
            error_code: INVALID_SIGNATURE_OR_SUBSCRIPTION_ERROR,
        },
    );
    client.handle_add_appointment_outcome(tower_id.clone(), &appointment, outcome);
    assert_eq!(
        client.tower_status(&tower_id).unwrap(),
        TowerStatus::SubscriptionError
    );
    assert!(client
        .load_tower_info(&tower_id)
        .unwrap()
        .pending_appointments
        .contains(&appointment));

    // the user re-registers with a better subscription
    let better = signed_registration_receipt(&get_random_user_id(), &tower_sk, 200, 150, 300);
    client
        .add_update_tower(tower_id.clone(), "http://talaia.watch:9814".into(), &better)
        .unwrap();
    // registration alone does not flip the status; the retrier does
    assert_eq!(
        client.tower_status(&tower_id).unwrap(),
        TowerStatus::SubscriptionError
    );

    // the retrier delivers the pending appointment
    let response = accepted_response(&tower_sk, &appointment.locator, &user_signature, 199, 1002);
    let retry =
        classify_add_appointment_response(&tower_id, &appointment.locator, &user_signature, response);
    client.handle_add_appointment_outcome(tower_id.clone(), &appointment, retry);
    let pending = client.load_tower_info(&tower_id).unwrap().pending_appointments;
    let decision = retry_decision(client.tower_status(&tower_id).unwrap(), pending.len(), 5, 900);
    client.apply_retry_decision(&tower_id, decision);

    assert_eq!(client.tower_status(&tower_id).unwrap(), TowerStatus::Reachable);
    assert!(client
        .load_tower_info(&tower_id)
        .unwrap()
        .appointments
        .iter()
        .any(|(l, _)| *l == appointment.locator));
}

#[test]
fn test_s4_misbehavior() {
    let mut client = WTClient::new(Store::new()).unwrap();
    let (tower_sk, tower_pk) = get_random_keypair();
    let tower_id = TowerId::from_vec(tower_pk);
    register_tower(&mut client, &tower_sk, &tower_id, 100);

    let txid = random_bytes32();
    let (appointment, user_signature) =
        prepare_appointment(&txid, &vec![5u8; 8], &client.user_sk).unwrap();

    // the tower replies with a receipt signed under a DIFFERENT key
    let (rogue_sk, rogue_pk) = get_random_keypair();
    let response = accepted_response(&rogue_sk, &appointment.locator, &user_signature, 99, 1003);
    let outcome =
        classify_add_appointment_response(&tower_id, &appointment.locator, &user_signature, response);
    match &outcome {
        AddAppointmentOutcome::Misbehavior { evidence } => {
            assert_eq!(evidence.recovered_tower_id.to_vec(), rogue_pk);
            assert_eq!(evidence.locator, appointment.locator);
        },
        _ => panic!("expected a misbehavior outcome"),
    }
    client.handle_add_appointment_outcome(tower_id.clone(), &appointment, outcome);

    assert_eq!(client.tower_status(&tower_id).unwrap(), TowerStatus::Misbehaving);
    let info = client.load_tower_info(&tower_id).unwrap();
    assert!(info.misbehaving_proof.is_some());

    // the tower is skipped for all subsequent revocations
    assert_eq!(
        dispatch_action(client.tower_status(&tower_id).unwrap()),
        DispatchAction::Skip
    );
    // and its status cannot be reset
    client.set_tower_status(tower_id.clone(), TowerStatus::Reachable);
    assert_eq!(client.tower_status(&tower_id).unwrap(), TowerStatus::Misbehaving);
}

#[test]
fn test_s5_fanout_partial_failure() {
    let mut client = WTClient::new(Store::new()).unwrap();
    let (sk1, pk1) = get_random_keypair();
    let t1 = TowerId::from_vec(pk1);
    let (sk2, pk2) = get_random_keypair();
    let t2 = TowerId::from_vec(pk2);
    let (sk3, pk3) = get_random_keypair();
    let t3 = TowerId::from_vec(pk3);
    register_tower(&mut client, &sk1, &t1, 100);
    register_tower(&mut client, &sk2, &t2, 100);
    register_tower(&mut client, &sk3, &t3, 100);
    client.set_tower_status(t2.clone(), TowerStatus::Unreachable);
    client.set_tower_status(t3.clone(), TowerStatus::Misbehaving);
    let _ = sk3;

    let txid = random_bytes32();
    let (appointment, user_signature) =
        prepare_appointment(&txid, &vec![8u8; 24], &client.user_sk).unwrap();

    // fan out over the snapshot
    for (tower_id, _net_addr, status) in client.dispatch_snapshot() {
        match dispatch_action(status) {
            DispatchAction::Send => {
                // only T1 is actually called; it accepts
                assert_eq!(tower_id, t1);
                let response =
                    accepted_response(&sk1, &appointment.locator, &user_signature, 99, 1004);
                let outcome = classify_add_appointment_response(
                    &tower_id,
                    &appointment.locator,
                    &user_signature,
                    response,
                );
                client.handle_add_appointment_outcome(tower_id.clone(), &appointment, outcome);
            },
            DispatchAction::Queue => {
                assert_eq!(tower_id, t2);
                client.add_pending_appointment(tower_id.clone(), &appointment);
            },
            DispatchAction::Skip => {
                assert_eq!(tower_id, t3);
            },
        }
    }

    // T1 delivered
    assert!(client
        .load_tower_info(&t1)
        .unwrap()
        .appointments
        .iter()
        .any(|(l, _)| *l == appointment.locator));
    // T2 pending, no new network call
    assert!(client
        .load_tower_info(&t2)
        .unwrap()
        .pending_appointments
        .contains(&appointment));
    // T3 untouched
    let info3 = client.load_tower_info(&t3).unwrap();
    assert!(info3.appointments.is_empty());
    assert!(info3.pending_appointments.is_empty());
    assert!(info3.invalid_appointments.is_empty());
}

#[test]
fn test_s6_abandon_during_retry() {
    let mut client = WTClient::new(Store::new()).unwrap();
    let (tower_sk, tower_pk) = get_random_keypair();
    let tower_id = TowerId::from_vec(tower_pk);
    register_tower(&mut client, &tower_sk, &tower_id, 100);

    // a dispatch failure puts the tower mid-retry
    let txid = random_bytes32();
    let (appointment, user_signature) =
        prepare_appointment(&txid, &vec![2u8; 12], &client.user_sk).unwrap();
    let outcome = classify_add_appointment_response(
        &tower_id,
        &appointment.locator,
        &user_signature,
        AddAppointmentResponse::ConnectionFailed,
    );
    client.handle_add_appointment_outcome(tower_id.clone(), &appointment, outcome);
    assert_eq!(
        client.tower_status(&tower_id).unwrap(),
        TowerStatus::TemporaryUnreachable
    );

    // the user abandons: the tower is only flagged
    assert_eq!(client.abandon_tower(&tower_id), Ok(AbandonOutcome::Flagged));
    assert_eq!(client.tower_status(&tower_id).unwrap(), TowerStatus::Abandoned);

    // the retrier observes the flag and finalizes the removal
    let decision = retry_decision(client.tower_status(&tower_id).unwrap(), 1, 5, 900);
    assert_eq!(decision, RetryDecision::Abandoned);
    client.apply_retry_decision(&tower_id, decision);

    assert!(client.tower_status(&tower_id).is_none());
    assert!(client.load_tower_info(&tower_id).is_none());
    assert!(client.towers().iter().all(|(id, _)| *id != tower_id));
    assert!(!client.dbm.appointment_exists(&appointment.locator));
}

#[test]
fn test_rejected_appointment_is_invalid() {
    let mut client = WTClient::new(Store::new()).unwrap();
    let (tower_sk, tower_pk) = get_random_keypair();
    let tower_id = TowerId::from_vec(tower_pk);
    register_tower(&mut client, &tower_sk, &tower_id, 100);

    let txid = random_bytes32();
    let (appointment, user_signature) =
        prepare_appointment(&txid, &vec![1u8; 4], &client.user_sk).unwrap();
    let outcome = classify_add_appointment_response(
        &tower_id,
        &appointment.locator,
        &user_signature,
        AddAppointmentResponse::Rejected { error: "bad blob".into(), error_code: 1 },
    );
    client.handle_add_appointment_outcome(tower_id.clone(), &appointment, outcome);

    // the status does not change, the appointment is recorded invalid
    assert_eq!(client.tower_status(&tower_id).unwrap(), TowerStatus::Reachable);
    assert!(client
        .load_tower_info(&tower_id)
        .unwrap()
        .invalid_appointments
        .contains(&appointment));
}

#[test]
fn test_prepare_appointment_rejects_invalid_key() {
    let txid = random_bytes32();
    assert_eq!(
        prepare_appointment(&txid, &vec![1u8; 4], &vec![0u8; 32]),
        Err(PrepareError::InvalidKey)
    );
}

#[test]
fn test_get_appointment_receipt_errors() {
    let mut client = WTClient::new(Store::new()).unwrap();
    let (tower_sk, tower_pk) = get_random_keypair();
    let tower_id = TowerId::from_vec(tower_pk);

    let locator = Locator::from_vec(vec![1u8; 16]);
    assert_eq!(
        client.get_appointment_receipt(&tower_id, &locator),
        Err(ClientError::UnknownTower)
    );
    register_tower(&mut client, &tower_sk, &tower_id, 100);
    assert_eq!(
        client.get_appointment_receipt(&tower_id, &locator),
        Err(ClientError::NotFound)
    );
}

#[test]
fn test_get_registration_receipt_roundtrip() {
    let mut client = WTClient::new(Store::new()).unwrap();
    let (tower_sk, tower_pk) = get_random_keypair();
    let tower_id = TowerId::from_vec(tower_pk);
    assert!(client.get_registration_receipt(&tower_id).is_none());

    let receipt = signed_registration_receipt(&get_random_user_id(), &tower_sk, 100, 100, 200);
    client
        .add_update_tower(tower_id.clone(), "http://talaia.watch:9814".into(), &receipt)
        .unwrap();
    assert_eq!(client.get_registration_receipt(&tower_id).unwrap(), receipt);
}

#[test]
fn test_register_reply_processing() {
    // a reply signed by the advertised tower registers it; a reply signed
    // by anyone else is rejected without touching the state
    let mut client = WTClient::new(Store::new()).unwrap();
    let (tower_sk, tower_pk) = get_random_keypair();
    let tower_id = TowerId::from_vec(tower_pk);

    // the tower signs over the client user id
    let unsigned = RegistrationReceipt::new(client.user_id.clone(), 100, 100, 200);
    let good_sig = sign(&unsigned.to_vec(), &tower_sk).unwrap();
    let receipt = client
        .process_registration(&tower_id, "http://talaia.watch:9814".into(), 100, 100, 200, good_sig)
        .unwrap();
    assert!(receipt.verify(&tower_id));
    assert_eq!(client.tower_status(&tower_id).unwrap(), TowerStatus::Reachable);

    // a rogue signature is refused
    let (rogue_sk, _) = get_random_keypair();
    let other = TowerId::from_vec(get_random_keypair().1);
    let unsigned = RegistrationReceipt::new(client.user_id.clone(), 100, 100, 200);
    let bad_sig = sign(&unsigned.to_vec(), &rogue_sk).unwrap();
    assert_eq!(
        client.process_registration(&other, "http://talaia.watch:9814".into(), 100, 100, 200, bad_sig),
        Err(RegisterError::InvalidSignature)
    );
    assert!(client.tower_status(&other).is_none());
}
