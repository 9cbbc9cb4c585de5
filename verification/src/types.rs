//! Core wire types: tower identities, locators, appointments, tower status.

use vstd::prelude::*;
use crate::byteops::{bytes_eq, clone_bytes, u32_be, u32_to_be, extend_bytes};

verus! {

/// Length in bytes of a compressed secp256k1 public key, which identifies
/// a tower or a user.
pub const TOWER_ID_LEN: usize = 33;

/// Length in bytes of a locator: the prefix of a commitment transaction id.
pub const LOCATOR_LEN: usize = 16;

/// The `to_self_delay` carried by every appointment in this release.
pub const TO_SELF_DELAY: u32 = 42;

/// A 33-byte compressed secp256k1 public key identifying a tower.
/// Equality is by bytes.
#[derive(Debug, PartialEq, Eq)]
pub struct TowerId {
    pub data: Vec<u8>,
}

/// The client's own identity is the same kind of key as a tower's.
pub type UserId = TowerId;

impl View for TowerId {
    type V = Seq<u8>;

    open spec fn view(&self) -> Seq<u8> {
        self.data@
    }
}

impl TowerId {
    /// A well-formed id holds exactly 33 bytes.
    pub open spec fn wf(&self) -> bool {
        self@.len() == TOWER_ID_LEN
    }

    /// Wraps raw key bytes as an id.
    pub fn from_vec(data: Vec<u8>) -> (r: TowerId)
        ensures
            r@ == data@,
    {
        TowerId { data }
    }

    /// The raw key bytes.
    pub fn to_vec(&self) -> (r: Vec<u8>)
        ensures
            r@ == self@,
    {
        clone_bytes(&self.data)
    }

    /// Byte equality of two ids.
    pub fn same(&self, other: &TowerId) -> (r: bool)
        ensures
            r == (self@ == other@),
    {
        bytes_eq(&self.data, &other.data)
    }
}

impl Clone for TowerId {
    fn clone(&self) -> (r: Self)
        ensures
            r@ == self@,
    {
        TowerId { data: clone_bytes(&self.data) }
    }
}

/// The 16-byte prefix of a commitment transaction id: the stable handle by
/// which an appointment is addressed without revealing the commitment.
#[derive(Debug, PartialEq, Eq)]
pub struct Locator {
    pub data: Vec<u8>,
}

impl View for Locator {
    type V = Seq<u8>;

    open spec fn view(&self) -> Seq<u8> {
        self.data@
    }
}

/// The locator derived from a commitment transaction id: its first 16 bytes.
pub open spec fn locator_of(txid: Seq<u8>) -> Seq<u8> {
    txid.take(LOCATOR_LEN as int)
}

impl Locator {
    /// A well-formed locator holds exactly 16 bytes.
    pub open spec fn wf(&self) -> bool {
        self@.len() == LOCATOR_LEN
    }

    /// Derives the locator of a commitment transaction id. The result
    /// depends on the txid bytes alone.
    pub fn new(txid: &Vec<u8>) -> (r: Locator)
        requires
            txid@.len() >= LOCATOR_LEN,
        ensures
            r@ == locator_of(txid@),
            r.wf(),
    {
        let mut data: Vec<u8> = Vec::new();
        let mut i: usize = 0;
        while i < LOCATOR_LEN
            invariant
                i <= LOCATOR_LEN,
                txid@.len() >= LOCATOR_LEN,
                data@ == txid@.take(i as int),
            decreases LOCATOR_LEN - i,
        {
            data.push(txid[i]);
            i += 1;
            proof {
                assert(data@ =~= txid@.take(i as int));
            }
        }
        Locator { data }
    }

    /// Wraps raw locator bytes.
    pub fn from_vec(data: Vec<u8>) -> (r: Locator)
        ensures
            r@ == data@,
    {
        Locator { data }
    }

    /// The raw locator bytes.
    pub fn to_vec(&self) -> (r: Vec<u8>)
        ensures
            r@ == self@,
    {
        clone_bytes(&self.data)
    }

    /// Byte equality of two locators.
    pub fn same(&self, other: &Locator) -> (r: bool)
        ensures
            r == (self@ == other@),
    {
        bytes_eq(&self.data, &other.data)
    }
}

impl Clone for Locator {
    fn clone(&self) -> (r: Self)
        ensures
            r@ == self@,
    {
        Locator { data: clone_bytes(&self.data) }
    }
}

/// An instruction to a tower: a locator plus the penalty transaction,
/// encrypted so the tower can read it only after seeing the breach on-chain.
#[derive(Debug, PartialEq, Eq)]
pub struct Appointment {
    pub locator: Locator,
    pub encrypted_blob: Vec<u8>,
    pub to_self_delay: u32,
}

/// The mathematical image of an appointment.
pub struct AppointmentView {
    pub locator: Seq<u8>,
    pub encrypted_blob: Seq<u8>,
    pub to_self_delay: u32,
}

impl View for Appointment {
    type V = AppointmentView;

    open spec fn view(&self) -> AppointmentView {
        AppointmentView {
            locator: self.locator@,
            encrypted_blob: self.encrypted_blob@,
            to_self_delay: self.to_self_delay,
        }
    }
}

/// The canonical byte layout of an appointment, signed by the user:
/// locator, then the big-endian `to_self_delay`, then the encrypted blob.
pub open spec fn appointment_bytes(a: AppointmentView) -> Seq<u8> {
    a.locator + u32_be(a.to_self_delay) + a.encrypted_blob
}

impl Appointment {
    pub open spec fn wf(&self) -> bool {
        self.locator.wf()
    }

    /// Builds an appointment from its parts.
    pub fn new(locator: Locator, encrypted_blob: Vec<u8>, to_self_delay: u32) -> (r: Appointment)
        ensures
            r@.locator == locator@,
            r@.encrypted_blob == encrypted_blob@,
            r@.to_self_delay == to_self_delay,
    {
        Appointment { locator, encrypted_blob, to_self_delay }
    }

    /// The canonical serialization of the appointment.
    pub fn to_vec(&self) -> (r: Vec<u8>)
        ensures
            r@ == appointment_bytes(self@),
    {
        let mut r = self.locator.to_vec();
        let delay = u32_to_be(self.to_self_delay);
        extend_bytes(&mut r, &delay);
        extend_bytes(&mut r, &self.encrypted_blob);
        r
    }
}

impl Clone for Appointment {
    fn clone(&self) -> (r: Self)
        ensures
            r@ == self@,
    {
        Appointment {
            locator: self.locator.clone(),
            encrypted_blob: clone_bytes(&self.encrypted_blob),
            to_self_delay: self.to_self_delay,
        }
    }
}

/// The runtime status of a tower, as the client sees it.
#[derive(Clone, Copy, Debug, PartialEq, Eq, Structural)]
pub enum TowerStatus {
    /// The tower answers and accepts appointments.
    Reachable,
    /// A dispatch failed with a connection error; a retrier works on it.
    TemporaryUnreachable,
    /// The retrier gave up; only a manual retry resumes delivery.
    Unreachable,
    /// The tower rejected the subscription; delivery resumes after the
    /// user re-registers and a retry succeeds.
    SubscriptionError,
    /// The tower signed a receipt that does not recover to its advertised
    /// identity. Absorbing.
    Misbehaving,
    /// The user abandoned the tower while a retry was in flight; the
    /// retrier finalizes removal. Absorbing.
    Abandoned,
}

impl TowerStatus {
    /// True of the statuses that mean the tower cannot be reached now.
    pub fn is_unreachable(&self) -> (r: bool)
        ensures
            r == (*self is TemporaryUnreachable || *self is Unreachable),
    {
        matches!(self, TowerStatus::TemporaryUnreachable | TowerStatus::Unreachable)
    }

    pub fn is_reachable(&self) -> (r: bool)
        ensures
            r == (*self is Reachable),
    {
        matches!(self, TowerStatus::Reachable)
    }

    pub fn is_misbehaving(&self) -> (r: bool)
        ensures
            r == (*self is Misbehaving),
    {
        matches!(self, TowerStatus::Misbehaving)
    }

    pub fn is_subscription_error(&self) -> (r: bool)
        ensures
            r == (*self is SubscriptionError),
    {
        matches!(self, TowerStatus::SubscriptionError)
    }

    pub fn is_abandoned(&self) -> (r: bool)
        ensures
            r == (*self is Abandoned),
    {
        matches!(self, TowerStatus::Abandoned)
    }

    /// True of the absorbing statuses: towers that never receive further
    /// appointments.
    pub fn is_terminal(&self) -> (r: bool)
        ensures
            r == (*self is Misbehaving || *self is Abandoned),
    {
        matches!(self, TowerStatus::Misbehaving | TowerStatus::Abandoned)
    }
}

/// Which of the three per-tower sets a locator belongs to.
#[derive(Clone, Copy, Debug, PartialEq, Eq, Structural)]
pub enum AppointmentStatus {
    Pending,
    Invalid,
    Delivered,
}

} // verus!
