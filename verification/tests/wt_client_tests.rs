use watchtower_plugin::cryptography::{get_random_keypair, sign};
use watchtower_plugin::receipts::{AppointmentReceipt, MisbehaviorProof, RegistrationReceipt};
use watchtower_plugin::store::{summary_from_info, RegistrationError, Store, TowerInfo};
use watchtower_plugin::types::{Appointment, AppointmentStatus, Locator, TowerId, TowerStatus};
use watchtower_plugin::wt_client::{StartupError, WTClient};

fn random_bytes32() -> Vec<u8> {
    get_random_keypair().0
}

fn get_random_user_id() -> TowerId {
    TowerId::from_vec(get_random_keypair().1)
}

fn generate_random_appointment() -> Appointment {
    let txid = random_bytes32();
    let blob = random_bytes32();
    Appointment::new(Locator::new(&txid), blob, 42)
}

fn get_random_registration_receipt() -> RegistrationReceipt {
    let (tower_sk, _) = get_random_keypair();
    let user_id = get_random_user_id();
    let e = random_bytes32();
    let slots = 100 + e[0] as u32;
    let start = 2000;
    let expiry = 4000 + e[1] as u32;
    let unsigned = RegistrationReceipt::new(user_id.clone(), slots, start, expiry);
    let sig = sign(&unsigned.to_vec(), &tower_sk).unwrap();
    RegistrationReceipt::with_signature(user_id, slots, start, expiry, sig)
}

/// A strictly better receipt than `prev`: one more slot, later expiry.
fn registration_receipt_from_previous(prev: &RegistrationReceipt) -> RegistrationReceipt {
    let (tower_sk, _) = get_random_keypair();
    let user_id = get_random_user_id();
    let slots = prev.available_slots() + 1;
    let start = prev.subscription_start() + 1;
    let expiry = prev.subscription_expiry() + 1;
    let unsigned = RegistrationReceipt::new(user_id.clone(), slots, start, expiry);
    let sig = sign(&unsigned.to_vec(), &tower_sk).unwrap();
    RegistrationReceipt::with_signature(user_id, slots, start, expiry, sig)
}

fn get_random_appointment_receipt(tower_sk: &Vec<u8>, locator: &Locator) -> AppointmentReceipt {
    let user_signature = random_bytes32();
    let start_block = 100;
    let unsigned = AppointmentReceipt::new(user_signature.clone(), start_block);
    let sig = sign(&unsigned.to_vec(locator), tower_sk).unwrap();
    AppointmentReceipt::with_signature(user_signature, start_block, sig)
}

fn fresh_client() -> WTClient {
    WTClient::new(Store::new()).unwrap()
}

fn summary_of(client: &WTClient, tower_id: &TowerId) -> Option<watchtower_plugin::store::TowerSummary> {
    client
        .towers()
        .into_iter()
        .find(|(id, _)| id == tower_id)
        .map(|(_, summary)| summary)
}

#[test]
fn test_add_update_load_tower() {
    let mut wt_client = fresh_client();

    // Adding a new tower adds a summary to the registry and the full data to the store
    let receipt = get_random_registration_receipt();
    let tower_id = get_random_user_id();
    let tower_info = TowerInfo::empty(
        "talaia.watch".into(),
        receipt.available_slots(),
        receipt.subscription_expiry(),
    );

    wt_client
        .add_update_tower(tower_id.clone(), tower_info.net_addr.clone(), &receipt)
        .unwrap();
    assert_eq!(
        summary_of(&wt_client, &tower_id),
        Some(summary_from_info(&tower_info))
    );
    assert_eq!(wt_client.load_tower_info(&tower_id).unwrap(), tower_info);

    // Calling the method again with updated information also updates the records
    let receipt = registration_receipt_from_previous(&receipt);
    let updated_tower_info = TowerInfo::empty(
        "talaia.watch".into(),
        receipt.available_slots(),
        receipt.subscription_expiry(),
    );
    wt_client
        .add_update_tower(tower_id.clone(), updated_tower_info.net_addr.clone(), &receipt)
        .unwrap();

    assert_eq!(
        summary_of(&wt_client, &tower_id),
        Some(summary_from_info(&updated_tower_info))
    );
    assert_eq!(
        wt_client.load_tower_info(&tower_id).unwrap(),
        updated_tower_info
    );
}

#[test]
fn test_set_tower_status() {
    let mut wt_client = fresh_client();

    // If the tower is unknown nothing will happen
    let unknown_tower = get_random_user_id();
    wt_client.set_tower_status(unknown_tower.clone(), TowerStatus::Reachable);
    assert!(summary_of(&wt_client, &unknown_tower).is_none());

    // If the tower is known, the status will be updated.
    let receipt = get_random_registration_receipt();
    let tower_id = get_random_user_id();
    wt_client
        .add_update_tower(tower_id.clone(), "talaia.watch".into(), &receipt)
        .unwrap();

    for status in [
        TowerStatus::Reachable,
        TowerStatus::TemporaryUnreachable,
        TowerStatus::Unreachable,
        TowerStatus::SubscriptionError,
        TowerStatus::Misbehaving,
    ] {
        wt_client.set_tower_status(tower_id.clone(), status);
        assert_eq!(status, wt_client.tower_status(&tower_id).unwrap());
    }
}

#[test]
fn test_add_appointment_receipt() {
    let mut wt_client = fresh_client();

    let (tower_sk, tower_pk) = get_random_keypair();
    let tower_id = TowerId::from_vec(tower_pk);
    let tower_net_addr = "talaia.watch";

    let locator = generate_random_appointment().locator;
    let registration_receipt = get_random_registration_receipt();
    let appointment_receipt = get_random_appointment_receipt(&tower_sk, &locator);

    // If we call this on an unknown tower it will simply do nothing
    wt_client.add_appointment_receipt(
        tower_id.clone(),
        locator.clone(),
        registration_receipt.available_slots(),
        &appointment_receipt,
    );
    assert!(summary_of(&wt_client, &tower_id).is_none());

    // Add the tower to the state and try again
    let tower_info = TowerInfo::new(
        tower_net_addr.into(),
        registration_receipt.available_slots(),
        registration_receipt.subscription_expiry(),
        vec![(locator.clone(), appointment_receipt.signature().unwrap())],
        Vec::new(),
        Vec::new(),
    );
    wt_client
        .add_update_tower(tower_id.clone(), tower_net_addr.into(), &registration_receipt)
        .unwrap();
    wt_client.add_appointment_receipt(
        tower_id.clone(),
        locator.clone(),
        registration_receipt.available_slots(),
        &appointment_receipt,
    );

    assert!(summary_of(&wt_client, &tower_id).is_some());
    assert_eq!(
        summary_of(&wt_client, &tower_id).unwrap(),
        summary_from_info(&tower_info)
    );
    assert_eq!(wt_client.load_tower_info(&tower_id).unwrap(), tower_info);
}

#[test]
fn test_add_pending_appointment() {
    let mut wt_client = fresh_client();

    let tower_id = get_random_user_id();
    let tower_net_addr = "talaia.watch";

    let registration_receipt = get_random_registration_receipt();
    let appointment = generate_random_appointment();

    // If we call this on an unknown tower it will simply do nothing
    wt_client.add_pending_appointment(tower_id.clone(), &appointment);
    assert!(summary_of(&wt_client, &tower_id).is_none());

    // Add the tower to the state and try again
    let tower_info = TowerInfo::new(
        tower_net_addr.into(),
        registration_receipt.available_slots(),
        registration_receipt.subscription_expiry(),
        Vec::new(),
        vec![appointment.clone()],
        Vec::new(),
    );

    wt_client
        .add_update_tower(tower_id.clone(), tower_net_addr.into(), &registration_receipt)
        .unwrap();
    wt_client.add_pending_appointment(tower_id.clone(), &appointment);

    assert!(summary_of(&wt_client, &tower_id).is_some());
    assert_eq!(
        summary_of(&wt_client, &tower_id).unwrap(),
        summary_from_info(&tower_info)
    );
    // When tower data is loaded from the store, a pending appointment
    // means the tower wakes up temporarily unreachable.
    assert_eq!(
        wt_client.load_tower_info(&tower_id).unwrap(),
        tower_info.with_status(TowerStatus::TemporaryUnreachable)
    );
}

#[test]
fn test_remove_pending_appointment() {
    let mut wt_client = fresh_client();

    let tower_id = get_random_user_id();
    let tower_net_addr = "talaia.watch";

    let registration_receipt = get_random_registration_receipt();
    let appointment = generate_random_appointment();

    // If we call this on an unknown tower it will simply do nothing
    wt_client.remove_pending_appointment(tower_id.clone(), appointment.locator.clone());

    // Add the tower to the state and try again
    wt_client
        .add_update_tower(tower_id.clone(), tower_net_addr.into(), &registration_receipt)
        .unwrap();
    wt_client.add_pending_appointment(tower_id.clone(), &appointment);

    wt_client.remove_pending_appointment(tower_id.clone(), appointment.locator.clone());
    assert!(!summary_of(&wt_client, &tower_id)
        .unwrap()
        .pending_appointments
        .contains(&appointment.locator));
    // The body is collected once the last reference goes.
    assert!(!wt_client.dbm.appointment_exists(&appointment.locator));
}

#[test]
fn test_add_invalid_appointment() {
    let mut wt_client = fresh_client();

    let tower_id = get_random_user_id();
    let tower_net_addr = "talaia.watch";

    let registration_receipt = get_random_registration_receipt();
    let appointment = generate_random_appointment();

    // If we call this on an unknown tower it will simply do nothing
    wt_client.add_invalid_appointment(tower_id.clone(), &appointment);
    assert!(summary_of(&wt_client, &tower_id).is_none());

    // Add the tower to the state and try again
    let tower_info = TowerInfo::new(
        tower_net_addr.into(),
        registration_receipt.available_slots(),
        registration_receipt.subscription_expiry(),
        Vec::new(),
        Vec::new(),
        vec![appointment.clone()],
    );

    wt_client
        .add_update_tower(tower_id.clone(), tower_net_addr.into(), &registration_receipt)
        .unwrap();
    wt_client.add_invalid_appointment(tower_id.clone(), &appointment);

    assert!(summary_of(&wt_client, &tower_id).is_some());
    assert_eq!(
        summary_of(&wt_client, &tower_id).unwrap(),
        summary_from_info(&tower_info)
    );
    assert_eq!(wt_client.load_tower_info(&tower_id).unwrap(), tower_info);
}

#[test]
fn test_move_pending_appointment_to_invalid() {
    let mut wt_client = fresh_client();

    let tower_id = get_random_user_id();
    let tower_net_addr = "talaia.watch";

    let registration_receipt = get_random_registration_receipt();
    let appointment = generate_random_appointment();

    wt_client
        .add_update_tower(tower_id.clone(), tower_net_addr.into(), &registration_receipt)
        .unwrap();
    wt_client.add_pending_appointment(tower_id.clone(), &appointment);

    // Check that the appointment can be moved from pending to invalid
    wt_client.add_invalid_appointment(tower_id.clone(), &appointment);
    wt_client.remove_pending_appointment(tower_id.clone(), appointment.locator.clone());

    assert!(!summary_of(&wt_client, &tower_id)
        .unwrap()
        .pending_appointments
        .contains(&appointment.locator));
    assert!(summary_of(&wt_client, &tower_id)
        .unwrap()
        .invalid_appointments
        .contains(&appointment.locator));
    assert!(!wt_client
        .dbm
        .load_appointment_locators(&tower_id, AppointmentStatus::Pending)
        .contains(&appointment.locator));
    assert!(wt_client
        .dbm
        .load_appointment_locators(&tower_id, AppointmentStatus::Invalid)
        .contains(&appointment.locator));
    assert!(wt_client.dbm.appointment_exists(&appointment.locator));
}

#[test]
fn test_move_pending_appointment_to_invalid_multiple_towers() {
    // Moving an appointment from pending to invalid works even if multiple towers reference it
    let mut wt_client = fresh_client();

    let tower_id = get_random_user_id();
    let another_tower_id = get_random_user_id();
    let tower_net_addr = "talaia.watch";

    let registration_receipt = get_random_registration_receipt();
    let appointment = generate_random_appointment();

    wt_client
        .add_update_tower(tower_id.clone(), tower_net_addr.into(), &registration_receipt)
        .unwrap();
    wt_client
        .add_update_tower(
            another_tower_id.clone(),
            tower_net_addr.into(),
            &registration_receipt,
        )
        .unwrap();
    wt_client.add_pending_appointment(tower_id.clone(), &appointment);
    wt_client.add_pending_appointment(another_tower_id.clone(), &appointment);

    // Check that the appointment can be moved from pending to invalid
    wt_client.add_invalid_appointment(tower_id.clone(), &appointment);
    wt_client.remove_pending_appointment(tower_id.clone(), appointment.locator.clone());

    // TOWER_ID CHECKS
    assert!(!summary_of(&wt_client, &tower_id)
        .unwrap()
        .pending_appointments
        .contains(&appointment.locator));
    assert!(summary_of(&wt_client, &tower_id)
        .unwrap()
        .invalid_appointments
        .contains(&appointment.locator));
    assert!(!wt_client
        .dbm
        .load_appointment_locators(&tower_id, AppointmentStatus::Pending)
        .contains(&appointment.locator));
    assert!(wt_client
        .dbm
        .load_appointment_locators(&tower_id, AppointmentStatus::Invalid)
        .contains(&appointment.locator));

    // ANOTHER_TOWER_ID CHECKS
    assert!(summary_of(&wt_client, &another_tower_id)
        .unwrap()
        .pending_appointments
        .contains(&appointment.locator));
    assert!(!summary_of(&wt_client, &another_tower_id)
        .unwrap()
        .invalid_appointments
        .contains(&appointment.locator));
    assert!(wt_client
        .dbm
        .load_appointment_locators(&another_tower_id, AppointmentStatus::Pending)
        .contains(&appointment.locator));
    assert!(!wt_client
        .dbm
        .load_appointment_locators(&another_tower_id, AppointmentStatus::Invalid)
        .contains(&appointment.locator));

    // GENERAL
    assert!(wt_client.dbm.appointment_exists(&appointment.locator));
}

#[test]
fn test_flag_misbehaving_tower() {
    let mut wt_client = fresh_client();

    let (tower_sk, tower_pk) = get_random_keypair();
    let tower_id = TowerId::from_vec(tower_pk);
    let tower_net_addr = "talaia.watch";

    // If we call this on an unknown tower it will simply do nothing
    let appointment = generate_random_appointment();
    let receipt = get_random_appointment_receipt(&tower_sk, &appointment.locator);
    let proof = MisbehaviorProof::new(
        appointment.locator.clone(),
        receipt.clone(),
        get_random_user_id(),
    );
    wt_client.flag_misbehaving_tower(tower_id.clone(), proof.clone());
    assert!(summary_of(&wt_client, &tower_id).is_none());

    // Add the tower to the state and try again
    let registration_receipt = get_random_registration_receipt();
    wt_client
        .add_update_tower(tower_id.clone(), tower_net_addr.into(), &registration_receipt)
        .unwrap();
    wt_client.flag_misbehaving_tower(tower_id.clone(), proof.clone());

    // Check data in memory
    let tower_summary = summary_of(&wt_client, &tower_id);
    assert!(tower_summary.is_some());
    assert_eq!(tower_summary.unwrap().status, TowerStatus::Misbehaving);

    // Check data in the store
    let loaded_info = wt_client.load_tower_info(&tower_id).unwrap();
    assert_eq!(loaded_info.status, TowerStatus::Misbehaving);
    assert_eq!(loaded_info.misbehaving_proof, Some(proof));
    // The receipt inside the proof is evidence only: flagging persists the
    // proof and flips the derived status, but records nothing as delivered.
    assert!(loaded_info.appointments.is_empty());
}

#[test]
fn test_restart_statuses_and_queue() {
    // Startup from a stored state: pending appointments make a tower wake up
    // temporarily unreachable and queued; others wake up reachable.
    let mut wt_client = fresh_client();
    let reachable_tower = get_random_user_id();
    let pending_tower = get_random_user_id();
    wt_client
        .add_update_tower(
            reachable_tower.clone(),
            "talaia.watch".into(),
            &get_random_registration_receipt(),
        )
        .unwrap();
    wt_client
        .add_update_tower(
            pending_tower.clone(),
            "talaia.watch".into(),
            &get_random_registration_receipt(),
        )
        .unwrap();
    wt_client.add_pending_appointment(pending_tower.clone(), &generate_random_appointment());

    // the bulk load derives the same statuses from the persisted image
    for (id, summary) in wt_client.dbm.load_towers() {
        if id == pending_tower {
            assert_eq!(summary.status, TowerStatus::TemporaryUnreachable);
        } else {
            assert_eq!(summary.status, TowerStatus::Reachable);
        }
    }

    // restart from the persisted image
    let restarted = WTClient::new(wt_client.dbm).unwrap();
    assert_eq!(
        restarted.tower_status(&reachable_tower).unwrap(),
        TowerStatus::Reachable
    );
    assert_eq!(
        restarted.tower_status(&pending_tower).unwrap(),
        TowerStatus::TemporaryUnreachable
    );
    // the pending tower is enqueued for the retrier exactly once
    assert_eq!(restarted.unreachable_towers.len(), 1);
    assert_eq!(restarted.unreachable_towers[0], pending_tower);
}

#[test]
fn test_registration_downgrade_rejected() {
    // A registration whose expiry or slots do not strictly grow is rejected
    // without mutating any state.
    let mut wt_client = fresh_client();
    let tower_id = get_random_user_id();
    let receipt = get_random_registration_receipt();
    wt_client
        .add_update_tower(tower_id.clone(), "talaia.watch".into(), &receipt)
        .unwrap();
    let before = wt_client.load_tower_info(&tower_id).unwrap();

    // same expiry: rejected
    let same = RegistrationReceipt::new(
        get_random_user_id(),
        receipt.available_slots() + 10,
        receipt.subscription_start(),
        receipt.subscription_expiry(),
    );
    assert_eq!(
        wt_client.add_update_tower(tower_id.clone(), "talaia.watch".into(), &same),
        Err(RegistrationError::Expiry)
    );

    // bigger expiry but no slot growth: rejected
    let fewer_slots = RegistrationReceipt::new(
        get_random_user_id(),
        receipt.available_slots(),
        receipt.subscription_start(),
        receipt.subscription_expiry() + 10,
    );
    assert_eq!(
        wt_client.add_update_tower(tower_id.clone(), "talaia.watch".into(), &fewer_slots),
        Err(RegistrationError::Slots)
    );

    assert_eq!(wt_client.load_tower_info(&tower_id).unwrap(), before);
}

#[test]
fn test_invalid_stored_key_fails_startup() {
    let mut store = Store::new();
    // an all-zero scalar is not a valid secp256k1 secret key
    store.store_client_key(&vec![0u8; 32]);
    match WTClient::new(store) {
        Ok(_) => panic!("an invalid stored key must fail startup"),
        Err(e) => assert_eq!(e, StartupError::InvalidStoredKey),
    }
}
