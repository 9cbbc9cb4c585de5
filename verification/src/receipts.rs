//! Receipts the towers hand back, their canonical byte layouts, and
//! signature verification against an advertised tower identity.

use vstd::prelude::*;
use crate::byteops::{clone_bytes, extend_bytes, u32_be, u32_to_be, bytes_eq};
use crate::cryptography::{recover, recovered_pk};
use crate::types::{Locator, TowerId, UserId};

verus! {

/// Proof that a subscription was granted: signed by the tower over the
/// user id, the slot count and the subscription window.
#[derive(Debug, PartialEq, Eq)]
pub struct RegistrationReceipt {
    pub user_id: UserId,
    pub available_slots: u32,
    pub subscription_start: u32,
    pub subscription_expiry: u32,
    pub signature: Option<Vec<u8>>,
}

/// The mathematical image of a registration receipt.
pub struct RegistrationReceiptView {
    pub user_id: Seq<u8>,
    pub available_slots: u32,
    pub subscription_start: u32,
    pub subscription_expiry: u32,
    pub signature: Option<Seq<u8>>,
}

impl View for RegistrationReceipt {
    type V = RegistrationReceiptView;

    open spec fn view(&self) -> RegistrationReceiptView {
        RegistrationReceiptView {
            user_id: self.user_id@,
            available_slots: self.available_slots,
            subscription_start: self.subscription_start,
            subscription_expiry: self.subscription_expiry,
            signature: match self.signature {
                Some(ref s) => Some(s@),
                None => None,
            },
        }
    }
}

/// The canonical byte layout a tower signs for a registration:
/// user id, then the three counters, big-endian.
pub open spec fn registration_msg(r: RegistrationReceiptView) -> Seq<u8> {
    r.user_id + u32_be(r.available_slots) + u32_be(r.subscription_start) + u32_be(
        r.subscription_expiry,
    )
}

/// Whether a registration receipt carries a signature that recovers to the
/// advertised tower identity.
pub open spec fn registration_verifies(r: RegistrationReceiptView, tower_id: Seq<u8>) -> bool {
    r.signature matches Some(s) && recovered_pk(registration_msg(r), s) == Some(tower_id)
}

impl RegistrationReceipt {
    /// An unsigned receipt from its fields.
    pub fn new(
        user_id: UserId,
        available_slots: u32,
        subscription_start: u32,
        subscription_expiry: u32,
    ) -> (r: RegistrationReceipt)
        ensures
            r@.user_id == user_id@,
            r@.available_slots == available_slots,
            r@.subscription_start == subscription_start,
            r@.subscription_expiry == subscription_expiry,
            r@.signature is None,
    {
        RegistrationReceipt {
            user_id,
            available_slots,
            subscription_start,
            subscription_expiry,
            signature: None,
        }
    }

    /// A signed receipt from its fields, as the tower returns it.
    pub fn with_signature(
        user_id: UserId,
        available_slots: u32,
        subscription_start: u32,
        subscription_expiry: u32,
        signature: Vec<u8>,
    ) -> (r: RegistrationReceipt)
        ensures
            r@.user_id == user_id@,
            r@.available_slots == available_slots,
            r@.subscription_start == subscription_start,
            r@.subscription_expiry == subscription_expiry,
            r@.signature == Some(signature@),
    {
        RegistrationReceipt {
            user_id,
            available_slots,
            subscription_start,
            subscription_expiry,
            signature: Some(signature),
        }
    }

    pub fn available_slots(&self) -> (r: u32)
        ensures
            r == self@.available_slots,
    {
        self.available_slots
    }

    pub fn subscription_start(&self) -> (r: u32)
        ensures
            r == self@.subscription_start,
    {
        self.subscription_start
    }

    pub fn subscription_expiry(&self) -> (r: u32)
        ensures
            r == self@.subscription_expiry,
    {
        self.subscription_expiry
    }

    /// The signature carried, if any.
    pub fn signature(&self) -> (r: Option<Vec<u8>>)
        ensures
            match r {
                Some(s) => self@.signature == Some(s@),
                None => self@.signature is None,
            },
    {
        match &self.signature {
            Some(s) => Some(clone_bytes(s)),
            None => None,
        }
    }

    /// The canonical serialization the tower signs.
    pub fn to_vec(&self) -> (r: Vec<u8>)
        ensures
            r@ == registration_msg(self@),
    {
        let mut r = self.user_id.to_vec();
        let slots = u32_to_be(self.available_slots);
        let start = u32_to_be(self.subscription_start);
        let expiry = u32_to_be(self.subscription_expiry);
        extend_bytes(&mut r, &slots);
        extend_bytes(&mut r, &start);
        extend_bytes(&mut r, &expiry);
        r
    }

    /// Recovers the signer of the receipt and compares it with the
    /// advertised tower identity.
    pub fn verify(&self, tower_id: &TowerId) -> (r: bool)
        ensures
            r == registration_verifies(self@, tower_id@),
    {
        match &self.signature {
            None => false,
            Some(sig) => {
                let msg = self.to_vec();
                match recover(&msg, sig) {
                    Some(pk) => bytes_eq(&pk, &tower_id.data),
                    None => false,
                }
            },
        }
    }
}

impl Clone for RegistrationReceipt {
    fn clone(&self) -> (r: Self)
        ensures
            r@ == self@,
    {
        RegistrationReceipt {
            user_id: self.user_id.clone(),
            available_slots: self.available_slots,
            subscription_start: self.subscription_start,
            subscription_expiry: self.subscription_expiry,
            signature: match &self.signature {
                Some(s) => Some(clone_bytes(s)),
                None => None,
            },
        }
    }
}

/// Proof that a tower accepted one appointment: signed by the tower over
/// the locator, the user's signature and the start block.
#[derive(Debug, PartialEq, Eq)]
pub struct AppointmentReceipt {
    pub user_signature: Vec<u8>,
    pub start_block: u32,
    pub signature: Option<Vec<u8>>,
}

/// The mathematical image of an appointment receipt.
pub struct AppointmentReceiptView {
    pub user_signature: Seq<u8>,
    pub start_block: u32,
    pub signature: Option<Seq<u8>>,
}

impl View for AppointmentReceipt {
    type V = AppointmentReceiptView;

    open spec fn view(&self) -> AppointmentReceiptView {
        AppointmentReceiptView {
            user_signature: self.user_signature@,
            start_block: self.start_block,
            signature: match self.signature {
                Some(ref s) => Some(s@),
                None => None,
            },
        }
    }
}

/// The canonical byte layout a tower signs for an accepted appointment:
/// the locator, the user's signature, then the start block big-endian.
pub open spec fn appointment_receipt_msg(locator: Seq<u8>, r: AppointmentReceiptView) -> Seq<u8> {
    locator + r.user_signature + u32_be(r.start_block)
}

/// Whether an appointment receipt carries a signature that recovers to the
/// advertised tower identity, for the appointment named by `locator`.
pub open spec fn appointment_receipt_verifies(
    r: AppointmentReceiptView,
    tower_id: Seq<u8>,
    locator: Seq<u8>,
) -> bool {
    r.signature matches Some(s) && recovered_pk(appointment_receipt_msg(locator, r), s) == Some(
        tower_id,
    )
}

impl AppointmentReceipt {
    /// An unsigned receipt from its fields.
    pub fn new(user_signature: Vec<u8>, start_block: u32) -> (r: AppointmentReceipt)
        ensures
            r@.user_signature == user_signature@,
            r@.start_block == start_block,
            r@.signature is None,
    {
        AppointmentReceipt { user_signature, start_block, signature: None }
    }

    /// A signed receipt from its fields, as the tower returns it.
    pub fn with_signature(user_signature: Vec<u8>, start_block: u32, signature: Vec<u8>) -> (r:
        AppointmentReceipt)
        ensures
            r@.user_signature == user_signature@,
            r@.start_block == start_block,
            r@.signature == Some(signature@),
    {
        AppointmentReceipt { user_signature, start_block, signature: Some(signature) }
    }

    pub fn start_block(&self) -> (r: u32)
        ensures
            r == self@.start_block,
    {
        self.start_block
    }

    /// The signature carried, if any.
    pub fn signature(&self) -> (r: Option<Vec<u8>>)
        ensures
            match r {
                Some(s) => self@.signature == Some(s@),
                None => self@.signature is None,
            },
    {
        match &self.signature {
            Some(s) => Some(clone_bytes(s)),
            None => None,
        }
    }

    /// The canonical serialization the tower signs, for the appointment
    /// named by `locator`.
    pub fn to_vec(&self, locator: &Locator) -> (r: Vec<u8>)
        ensures
            r@ == appointment_receipt_msg(locator@, self@),
    {
        let mut r = locator.to_vec();
        let block = u32_to_be(self.start_block);
        extend_bytes(&mut r, &self.user_signature);
        extend_bytes(&mut r, &block);
        r
    }

    /// Recovers the signer of the receipt and compares it with the
    /// advertised tower identity.
    pub fn verify(&self, tower_id: &TowerId, locator: &Locator) -> (r: bool)
        ensures
            r == appointment_receipt_verifies(self@, tower_id@, locator@),
    {
        match &self.signature {
            None => false,
            Some(sig) => {
                let msg = self.to_vec(locator);
                match recover(&msg, sig) {
                    Some(pk) => bytes_eq(&pk, &tower_id.data),
                    None => false,
                }
            },
        }
    }

    /// Recovers the signer of the receipt, whoever it is: the evidence a
    /// misbehavior proof carries.
    pub fn recover_signer(&self, locator: &Locator) -> (r: Option<Vec<u8>>)
        ensures
            match (r, self@.signature) {
                (Some(pk), Some(s)) => recovered_pk(
                    appointment_receipt_msg(locator@, self@),
                    s,
                ) == Some(pk@),
                (None, Some(s)) => recovered_pk(appointment_receipt_msg(locator@, self@), s)
                    is None,
                (None, None) => true,
                (Some(_), None) => false,
            },
    {
        match &self.signature {
            None => None,
            Some(sig) => {
                let msg = self.to_vec(locator);
                recover(&msg, sig)
            },
        }
    }
}

impl Clone for AppointmentReceipt {
    fn clone(&self) -> (r: Self)
        ensures
            r@ == self@,
    {
        AppointmentReceipt {
            user_signature: clone_bytes(&self.user_signature),
            start_block: self.start_block,
            signature: match &self.signature {
                Some(s) => Some(clone_bytes(s)),
                None => None,
            },
        }
    }
}

/// Evidence that a tower signed a receipt that recovers to a public key
/// different from the one it advertises.
#[derive(Debug, PartialEq, Eq)]
pub struct MisbehaviorProof {
    pub locator: Locator,
    pub appointment_receipt: AppointmentReceipt,
    pub recovered_tower_id: TowerId,
}

/// The mathematical image of a misbehavior proof.
pub struct MisbehaviorProofView {
    pub locator: Seq<u8>,
    pub appointment_receipt: AppointmentReceiptView,
    pub recovered_tower_id: Seq<u8>,
}

impl View for MisbehaviorProof {
    type V = MisbehaviorProofView;

    open spec fn view(&self) -> MisbehaviorProofView {
        MisbehaviorProofView {
            locator: self.locator@,
            appointment_receipt: self.appointment_receipt@,
            recovered_tower_id: self.recovered_tower_id@,
        }
    }
}

impl MisbehaviorProof {
    pub fn new(
        locator: Locator,
        appointment_receipt: AppointmentReceipt,
        recovered_tower_id: TowerId,
    ) -> (r: MisbehaviorProof)
        ensures
            r@.locator == locator@,
            r@.appointment_receipt == appointment_receipt@,
            r@.recovered_tower_id == recovered_tower_id@,
    {
        MisbehaviorProof { locator, appointment_receipt, recovered_tower_id }
    }
}

impl Clone for MisbehaviorProof {
    fn clone(&self) -> (r: Self)
        ensures
            r@ == self@,
    {
        MisbehaviorProof {
            locator: self.locator.clone(),
            appointment_receipt: self.appointment_receipt.clone(),
            recovered_tower_id: self.recovered_tower_id.clone(),
        }
    }
}

} // verus!
