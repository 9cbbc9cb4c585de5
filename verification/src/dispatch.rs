//! The appointment dispatch pipeline: building an appointment from a
//! revocation, classifying a tower's reply, and applying the resulting
//! state transition and persistence in one step.

use vstd::prelude::*;
use crate::byteops::clone_bytes;
use crate::cryptography::{
    blob_key, cipher_of, decipher_of, encrypt, message_sig, pk_of, recovered_pk, sign, valid_sk,
};
use crate::receipts::{
    appointment_receipt_verifies, AppointmentReceipt, AppointmentReceiptView, MisbehaviorProof,
};
use crate::store::{delivered_added, invalid_added, pending_added, proof_set};
use crate::types::{
    appointment_bytes, locator_of, Appointment, Locator, TowerId, TowerStatus, TO_SELF_DELAY,
};
use crate::wt_client::WTClient;

verus! {

/// The error code a tower replies with when the signature or the
/// subscription is not acceptable; the one rejection the retrier works on.
pub const INVALID_SIGNATURE_OR_SUBSCRIPTION_ERROR: u8 = 32;

/// What the transport hands back for one `add_appointment` call.
pub enum AddAppointmentResponse {
    /// HTTP 2xx with a well-formed body.
    Accepted { available_slots: u32, start_block: u32, signature: Vec<u8> },
    /// HTTP 4xx with a typed error envelope.
    Rejected { error: String, error_code: u8 },
    /// Transport-level failure: DNS, refused, timeout, TLS, 5xx.
    ConnectionFailed,
    /// HTTP 2xx but the body does not parse.
    Malformed,
}

/// How one `add_appointment` reply is routed.
pub enum AddAppointmentOutcome {
    /// The tower accepted and its receipt verifies.
    Delivered { available_slots: u32, receipt: AppointmentReceipt },
    /// The tower accepted but the receipt recovers to a different key.
    Misbehavior { evidence: MisbehaviorProof },
    /// Rejected with the subscription error code: pending, retried after
    /// the user re-registers.
    SubscriptionIssue,
    /// Rejected with any other code: recorded invalid, never retried.
    Rejected,
    /// Connection failure: pending, retried.
    Unreachable,
    /// Malformed reply, or a receipt whose signature does not parse:
    /// fatal for this call, nothing recorded.
    ProtocolViolation,
}

/// Classifies a tower's reply to `add_appointment`.
///
/// An accepted reply is verified: the receipt must recover to the
/// advertised tower id over the canonical receipt bytes. A receipt that
/// recovers to another key becomes a misbehavior proof.
pub fn classify_add_appointment_response(
    tower_id: &TowerId,
    locator: &Locator,
    user_signature: &Vec<u8>,
    response: AddAppointmentResponse,
) -> (r: AddAppointmentOutcome)
    ensures
        match response {
            AddAppointmentResponse::Accepted { available_slots, start_block, signature } => {
                let rcpt = AppointmentReceiptView {
                    user_signature: user_signature@,
                    start_block,
                    signature: Some(signature@),
                };
                if appointment_receipt_verifies(rcpt, tower_id@, locator@) {
                    r matches AddAppointmentOutcome::Delivered { available_slots: s, receipt } && s
                        == available_slots && receipt@ == rcpt
                } else {
                    match recovered_pk(
                        crate::receipts::appointment_receipt_msg(locator@, rcpt),
                        signature@,
                    ) {
                        Some(pk) => r matches AddAppointmentOutcome::Misbehavior { evidence }
                            && evidence@.locator == locator@ && evidence@.appointment_receipt
                            == rcpt && evidence@.recovered_tower_id == pk,
                        None => r is ProtocolViolation,
                    }
                }
            },
            AddAppointmentResponse::Rejected { error, error_code } => if error_code
                == INVALID_SIGNATURE_OR_SUBSCRIPTION_ERROR {
                r is SubscriptionIssue
            } else {
                r is Rejected
            },
            AddAppointmentResponse::ConnectionFailed => r is Unreachable,
            AddAppointmentResponse::Malformed => r is ProtocolViolation,
        },
{
    match response {
        AddAppointmentResponse::Accepted { available_slots, start_block, signature } => {
            let receipt = AppointmentReceipt::with_signature(
                clone_bytes(user_signature),
                start_block,
                signature,
            );
            if receipt.verify(tower_id, locator) {
                AddAppointmentOutcome::Delivered { available_slots, receipt }
            } else {
                match receipt.recover_signer(locator) {
                    Some(pk) => {
                        let evidence = MisbehaviorProof::new(
                            locator.clone(),
                            receipt,
                            TowerId::from_vec(pk),
                        );
                        AddAppointmentOutcome::Misbehavior { evidence }
                    },
                    None => AddAppointmentOutcome::ProtocolViolation,
                }
            }
        },
        AddAppointmentResponse::Rejected { error: _, error_code } => {
            if error_code == INVALID_SIGNATURE_OR_SUBSCRIPTION_ERROR {
                AddAppointmentOutcome::SubscriptionIssue
            } else {
                AddAppointmentOutcome::Rejected
            }
        },
        AddAppointmentResponse::ConnectionFailed => AddAppointmentOutcome::Unreachable,
        AddAppointmentResponse::Malformed => AddAppointmentOutcome::ProtocolViolation,
    }
}

/// The status a tower moves to when one dispatch outcome lands on it.
/// Misbehaving and Abandoned absorb every outcome.
pub open spec fn next_status(current: TowerStatus, outcome: AddAppointmentOutcome) -> TowerStatus {
    if current is Misbehaving || current is Abandoned {
        current
    } else {
        match outcome {
            AddAppointmentOutcome::Delivered { .. } => current,
            AddAppointmentOutcome::Misbehavior { .. } => TowerStatus::Misbehaving,
            AddAppointmentOutcome::SubscriptionIssue => TowerStatus::SubscriptionError,
            AddAppointmentOutcome::Rejected => current,
            AddAppointmentOutcome::Unreachable => TowerStatus::TemporaryUnreachable,
            AddAppointmentOutcome::ProtocolViolation => current,
        }
    }
}

/// Misbehavior is sticky: once a tower is Misbehaving, no dispatch
/// outcome moves it to any other status.
pub proof fn lemma_misbehaving_sticky(current: TowerStatus, outcome: AddAppointmentOutcome)
    ensures
        current is Misbehaving ==> next_status(current, outcome) == TowerStatus::Misbehaving,
{
}

/// Errors building an appointment from a revocation.
#[derive(Clone, Copy, Debug, PartialEq, Eq, Structural)]
pub enum PrepareError {
    /// The penalty transaction could not be encrypted.
    Encryption,
    /// The client secret key is not a valid secp256k1 key.
    InvalidKey,
}

/// Builds the appointment for a revoked commitment and signs its
/// canonical bytes with the client key. Succeeds exactly when the key is
/// valid and the penalty transaction is below the cipher's length bound.
///
/// The locator is the txid's 16-byte prefix; the blob is the penalty
/// transaction encrypted under the key the txid derives, and decrypts
/// back to it under the same txid; `to_self_delay` is the fixed
/// `TO_SELF_DELAY`.
pub fn prepare_appointment(commitment_txid: &Vec<u8>, penalty_tx: &Vec<u8>, user_sk: &Vec<u8>) -> (r:
    Result<(Appointment, Vec<u8>), PrepareError>)
    requires
        commitment_txid@.len() == 32,
    ensures
        r is Ok <==> valid_sk(user_sk@) && penalty_tx@.len()
            < crate::cryptography::CHACHA_PLAINTEXT_MAX,
        r matches Ok((a, sig)) ==> {
            &&& a@.locator == locator_of(commitment_txid@)
            &&& a@.to_self_delay == TO_SELF_DELAY
            &&& a@.encrypted_blob == cipher_of(penalty_tx@, blob_key(commitment_txid@))
            &&& decipher_of(a@.encrypted_blob, blob_key(commitment_txid@)) == Some(penalty_tx@)
            &&& sig@ == message_sig(appointment_bytes(a@), user_sk@)
            &&& recovered_pk(appointment_bytes(a@), sig@) == Some(pk_of(user_sk@))
        },
        r matches Err(PrepareError::Encryption) <==> penalty_tx@.len()
            >= crate::cryptography::CHACHA_PLAINTEXT_MAX,
        r matches Err(PrepareError::InvalidKey) <==> penalty_tx@.len()
            < crate::cryptography::CHACHA_PLAINTEXT_MAX && !valid_sk(user_sk@),
{
    let locator = Locator::new(commitment_txid);
    let blob = match encrypt(penalty_tx, commitment_txid) {
        Some(b) => b,
        None => {
            return Err(PrepareError::Encryption);
        },
    };
    let appointment = Appointment::new(locator, blob, TO_SELF_DELAY);
    let msg = appointment.to_vec();
    match sign(&msg, user_sk) {
        Some(sig) => Ok((appointment, sig)),
        None => Err(PrepareError::InvalidKey),
    }
}

/// What the dispatch loop does with one tower, by its snapshot status:
/// send over the network, queue the appointment as pending, or skip the
/// tower entirely.
#[derive(Clone, Copy, Debug, PartialEq, Eq, Structural)]
pub enum DispatchAction {
    Send,
    Queue,
    Skip,
}

/// The dispatch routing of one revocation: reachable towers are sent to,
/// misbehaving and abandoned towers are skipped, every other tower has
/// the appointment queued as pending without a network call.
pub open spec fn dispatch_action_of(status: TowerStatus) -> DispatchAction {
    match status {
        TowerStatus::Reachable => DispatchAction::Send,
        TowerStatus::Misbehaving => DispatchAction::Skip,
        TowerStatus::Abandoned => DispatchAction::Skip,
        _ => DispatchAction::Queue,
    }
}

/// Routes one snapshot status.
pub fn dispatch_action(status: TowerStatus) -> (r: DispatchAction)
    ensures
        r == dispatch_action_of(status),
{
    match status {
        TowerStatus::Reachable => DispatchAction::Send,
        TowerStatus::Misbehaving | TowerStatus::Abandoned => DispatchAction::Skip,
        _ => DispatchAction::Queue,
    }
}

impl WTClient {
    /// The snapshot the dispatch loop iterates over: id, address and
    /// status of every tower, copied so no lock is held during network
    /// calls.
    pub fn dispatch_snapshot(&self) -> (r: Vec<(TowerId, String, TowerStatus)>)
        requires
            self.wf(),
        ensures
            r@.len() == self.dbm.towers@.len(),
            forall|j: int|
                0 <= j < self.dbm.towers@.len() ==> (#[trigger] r@[j]).0@
                    == self.dbm.towers@[j].tower_id@ && r@[j].1@ == self.dbm.towers@[j].net_addr@
                    && self.status_is(self.dbm.towers@[j].tower_id@, r@[j].2),
    {
        let mut r: Vec<(TowerId, String, TowerStatus)> = Vec::new();
        let mut i: usize = 0;
        while i < self.dbm.towers.len()
            invariant
                i <= self.dbm.towers@.len(),
                self.wf(),
                r@.len() == i,
                forall|j: int|
                    0 <= j < i ==> (#[trigger] r@[j]).0@ == self.dbm.towers@[j].tower_id@
                        && r@[j].1@ == self.dbm.towers@[j].net_addr@ && self.status_is(
                        self.dbm.towers@[j].tower_id@,
                        r@[j].2,
                    ),
            decreases self.dbm.towers@.len() - i,
        {
            let rec = &self.dbm.towers[i];
            let status = match crate::wt_client::find_status(&self.statuses, &rec.tower_id) {
                Some(k) => self.statuses[k].status,
                None => {
                    proof {
                        assert(crate::wt_client::has_status(
                            self.statuses@,
                            self.dbm.towers@[i as int].tower_id@,
                        ));
                        assert(false);
                    }
                    TowerStatus::Reachable
                },
            };
            r.push((rec.tower_id.clone(), rec.net_addr.clone(), status));
            i += 1;
        }
        r
    }

    /// Applies one classified `add_appointment` outcome to a tower: the
    /// status transition, the persistence call, and the retrier signal,
    /// in one step. Unknown towers are left alone.
    pub fn handle_add_appointment_outcome(
        &mut self,
        tower_id: TowerId,
        appointment: &Appointment,
        outcome: AddAppointmentOutcome,
    )
        requires
            old(self).wf(),
            outcome matches AddAppointmentOutcome::Delivered { receipt, .. } ==> receipt@.signature
                is Some,
        ensures
            final(self).wf(),
            final(self).user_sk == old(self).user_sk,
            final(self).user_id == old(self).user_id,
            final(self).dbm.client_key == old(self).dbm.client_key,
            !old(self).known(tower_id@) ==> *final(self) == *old(self),
            // the status moves exactly as the transition table says
            old(self).known(tower_id@) ==> final(self).statuses@.len() == old(
                self,
            ).statuses@.len() && (forall|j: int|
                0 <= j < old(self).statuses@.len() && (#[trigger] old(
                    self,
                ).statuses@[j]).tower_id@ != tower_id@ ==> final(self).statuses@[j] == old(
                    self,
                ).statuses@[j]) && (forall|j: int|
                0 <= j < old(self).statuses@.len() && (#[trigger] old(
                    self,
                ).statuses@[j]).tower_id@ == tower_id@ ==> final(self).statuses@[j].tower_id@
                    == tower_id@ && final(self).statuses@[j].status == next_status(
                    old(self).statuses@[j].status,
                    outcome,
                )),
            // the record moves with it
            old(self).known(tower_id@) ==> final(self).dbm.towers@.len() == old(
                self,
            ).dbm.towers@.len() && (forall|j: int|
                0 <= j < old(self).dbm.towers@.len() && (#[trigger] old(
                    self,
                ).dbm.towers@[j]).tower_id@ != tower_id@ ==> final(self).dbm.towers@[j] == old(
                    self,
                ).dbm.towers@[j]) && (forall|j: int|
                0 <= j < old(self).dbm.towers@.len() && (#[trigger] old(
                    self,
                ).dbm.towers@[j]).tower_id@ == tower_id@ ==> {
                    let new_rec = final(self).dbm.towers@[j];
                    let old_rec = old(self).dbm.towers@[j];
                    match outcome {
                        AddAppointmentOutcome::Delivered { available_slots, receipt } =>
                            delivered_added(
                            new_rec,
                            old_rec,
                            appointment@.locator,
                            available_slots,
                            receipt@,
                        ),
                        AddAppointmentOutcome::Misbehavior { evidence } => proof_set(
                            new_rec,
                            old_rec,
                            evidence@,
                        ),
                        AddAppointmentOutcome::SubscriptionIssue => pending_added(
                            new_rec,
                            old_rec,
                            appointment@.locator,
                        ),
                        AddAppointmentOutcome::Rejected => invalid_added(
                            new_rec,
                            old_rec,
                            appointment@.locator,
                        ),
                        AddAppointmentOutcome::Unreachable => pending_added(
                            new_rec,
                            old_rec,
                            appointment@.locator,
                        ),
                        AddAppointmentOutcome::ProtocolViolation => new_rec == old_rec,
                    }
                }),
            // connection failures and subscription errors signal the retrier
            old(self).known(tower_id@) && (outcome is Unreachable
                || outcome is SubscriptionIssue) ==> final(self).unreachable_towers@.len() == old(
                self,
            ).unreachable_towers@.len() + 1 && final(self).unreachable_towers@[old(
                self,
            ).unreachable_towers@.len() as int]@ == tower_id@ && (forall|k: int|
                0 <= k < old(self).unreachable_towers@.len() ==> final(self).unreachable_towers@[k]
                    == old(self).unreachable_towers@[k]),
            !(outcome is Unreachable || outcome is SubscriptionIssue) || !old(self).known(
                tower_id@,
            ) ==> final(self).unreachable_towers == old(self).unreachable_towers,
    {
        if crate::wt_client::find_status(&self.statuses, &tower_id).is_none() {
            return ;
        }
        match outcome {
            AddAppointmentOutcome::Delivered { available_slots, receipt } => {
                let locator = appointment.locator.clone();
                self.add_appointment_receipt(tower_id, locator, available_slots, &receipt);
            },
            AddAppointmentOutcome::Misbehavior { evidence } => {
                self.flag_misbehaving_tower(tower_id, evidence);
            },
            AddAppointmentOutcome::SubscriptionIssue => {
                self.set_tower_status(tower_id.clone(), TowerStatus::SubscriptionError);
                self.add_pending_appointment(tower_id.clone(), appointment);
                self.unreachable_towers.push(tower_id);
            },
            AddAppointmentOutcome::Rejected => {
                self.add_invalid_appointment(tower_id, appointment);
            },
            AddAppointmentOutcome::Unreachable => {
                self.set_tower_status(tower_id.clone(), TowerStatus::TemporaryUnreachable);
                self.add_pending_appointment(tower_id.clone(), appointment);
                self.unreachable_towers.push(tower_id);
            },
            AddAppointmentOutcome::ProtocolViolation => {},
        }
    }
}


/// The ASCII bytes of the fixed request prefix, "get appointment ".
pub open spec fn get_appointment_prefix() -> Seq<u8> {
    seq![103u8, 101u8, 116u8, 32u8, 97u8, 112u8, 112u8, 111u8, 105u8, 110u8, 116u8, 109u8, 101u8, 110u8, 116u8, 32u8]
}

/// The message the client signs when asking a tower for an appointment:
/// the prefix followed by the locator in lowercase hex.
pub open spec fn get_appointment_msg(locator: Seq<u8>) -> Seq<u8> {
    get_appointment_prefix() + crate::byteops::hex_of(locator)
}

/// Builds the `get_appointment` request message for a locator.
pub fn get_appointment_request_message(locator: &Locator) -> (r: Vec<u8>)
    ensures
        r@ == get_appointment_msg(locator@),
{
    let mut r: Vec<u8> = vec![
        103u8, 101u8, 116u8, 32u8, 97u8, 112u8, 112u8, 111u8, 105u8, 110u8, 116u8, 109u8, 101u8,
        110u8, 116u8, 32u8,
    ];
    proof {
        assert(r@ =~= get_appointment_prefix());
    }
    let hex = crate::byteops::to_hex(&locator.data);
    crate::byteops::extend_bytes(&mut r, &hex);
    r
}

} // verus!
