//! The watchtower client: the runtime registry of tower statuses, the
//! store behind it, the user's keys and the queue that signals the
//! retrier.

use vstd::prelude::*;
use crate::cryptography::{derive_public_key, get_random_keypair, pk_of, valid_sk};
use crate::receipts::{AppointmentReceipt, MisbehaviorProof, RegistrationReceipt};
use crate::store::{
    contains_del, delivered_added, has_tower, invalid_added, pending_added, pending_removed,
    proof_set, record_fresh, record_updated, contains_app, referenced, info_matches,
    RegistrationError, Store, TowerInfo, TowerSummary, clone_locs,
};
use crate::types::{Appointment, Locator, TowerId, TowerStatus, UserId};

verus! {

/// The in-memory status of one tower.
pub struct StatusEntry {
    pub tower_id: TowerId,
    pub status: TowerStatus,
}

/// Whether a status entry for `id` exists.
pub open spec fn has_status(s: Seq<StatusEntry>, id: Seq<u8>) -> bool {
    exists|i: int| 0 <= i < s.len() && s[i].tower_id@ == id
}

/// No tower id occurs twice among the status entries.
pub open spec fn unique_status_ids(s: Seq<StatusEntry>) -> bool {
    forall|i: int, j: int| 0 <= i < j < s.len() ==> s[i].tower_id@ != s[j].tower_id@
}

/// Whether a list of tower ids holds `id`.
pub open spec fn contains_id(s: Seq<TowerId>, id: Seq<u8>) -> bool {
    exists|i: int| 0 <= i < s.len() && s[i]@ == id
}

/// Two indices carrying the same tower id are the same index.
pub proof fn lemma_unique_status_index(s: Seq<StatusEntry>, i: int, j: int)
    requires
        unique_status_ids(s),
        0 <= i < s.len(),
        0 <= j < s.len(),
        s[i].tower_id@ == s[j].tower_id@,
    ensures
        i == j,
{
    if i < j {
        assert(s[i].tower_id@ != s[j].tower_id@);
    } else if j < i {
        assert(s[j].tower_id@ != s[i].tower_id@);
    }
}

/// The index of the status entry for `id`, if one exists.
pub fn find_status(s: &Vec<StatusEntry>, id: &TowerId) -> (r: Option<usize>)
    ensures
        match r {
            Some(i) => i < s@.len() && s@[i as int].tower_id@ == id@,
            None => !has_status(s@, id@),
        },
{
    let mut i: usize = 0;
    while i < s.len()
        invariant
            i <= s@.len(),
            forall|j: int| 0 <= j < i ==> s@[j].tower_id@ != id@,
        decreases s@.len() - i,
    {
        if s[i].tower_id.same(id) {
            return Some(i);
        }
        i += 1;
    }
    None
}

/// Failures at client startup.
#[derive(Clone, Copy, Debug, PartialEq, Eq, Structural)]
pub enum StartupError {
    /// The stored client key is not a valid secp256k1 secret key.
    InvalidStoredKey,
}

/// Errors the operator commands surface.
#[derive(Clone, Copy, Debug, PartialEq, Eq, Structural)]
pub enum ClientError {
    /// The tower id is not among the registered towers.
    UnknownTower,
    /// The tower is known but holds nothing under the given locator.
    NotFound,
}

/// Errors a manual retry is rejected with.
#[derive(Clone, Copy, Debug, PartialEq, Eq, Structural)]
pub enum RetryError {
    UnknownTower,
    /// The tower is temporarily unreachable: a retrier already works on it.
    AlreadyBeingRetried,
    /// Only an unreachable tower can be retried manually.
    NotUnreachable,
}

/// Errors a registration attempt surfaces.
#[derive(Clone, Copy, Debug, PartialEq, Eq, Structural)]
pub enum RegisterError {
    /// The receipt's signature does not recover to the advertised tower.
    InvalidSignature,
    /// The receipt does not extend the stored subscription.
    Registration(RegistrationError),
}

/// What abandoning a tower did.
#[derive(Clone, Copy, Debug, PartialEq, Eq, Structural)]
pub enum AbandonOutcome {
    /// All records were wiped at once.
    Removed,
    /// A retry was in flight: the tower is flagged Abandoned and the
    /// retrier finalizes the removal.
    Flagged,
}

/// The watchtower client state.
pub struct WTClient {
    /// The store: the durable side of every tower record.
    pub dbm: Store,
    /// The runtime status of each tower, one entry per stored tower.
    pub statuses: Vec<StatusEntry>,
    /// Tower ids queued for the retrier.
    pub unreachable_towers: Vec<TowerId>,
    /// The user secret key.
    pub user_sk: Vec<u8>,
    /// The user identifier: the public key derived from `user_sk`.
    pub user_id: UserId,
}

impl WTClient {
    /// Well-formedness: the store is well formed and the status entries
    /// correspond one to one with the stored towers.
    pub open spec fn wf(&self) -> bool {
        &&& self.dbm.wf()
        &&& unique_status_ids(self.statuses@)
        &&& forall|j: int|
            0 <= j < self.statuses@.len() ==> has_tower(
                self.dbm.towers@,
                (#[trigger] self.statuses@[j]).tower_id@,
            )
        &&& forall|j: int|
            0 <= j < self.dbm.towers@.len() ==> has_status(
                self.statuses@,
                (#[trigger] self.dbm.towers@[j]).tower_id@,
            )
    }

    /// Whether a tower is known to the client.
    pub open spec fn known(&self, id: Seq<u8>) -> bool {
        has_status(self.statuses@, id)
    }

    /// The status entries carry this status for `id`.
    pub open spec fn status_is(&self, id: Seq<u8>, st: TowerStatus) -> bool {
        exists|k: int|
            0 <= k < self.statuses@.len() && (#[trigger] self.statuses@[k]).tower_id@ == id
                && self.statuses@[k].status == st
    }

    /// Builds the client from the persisted state.
    ///
    /// The client key is loaded, or freshly generated and persisted when
    /// none was stored. Every tower with a misbehavior proof wakes up
    /// Misbehaving; every other tower with pending appointments wakes up
    /// TemporaryUnreachable and is queued for the retrier; every other
    /// tower wakes up Reachable.
    pub fn new(dbm: Store) -> (r: Result<WTClient, StartupError>)
        requires
            dbm.wf(),
        ensures
            r matches Ok(c) ==> {
                &&& c.wf()
                &&& c.dbm.towers == dbm.towers
                &&& c.dbm.appointments == dbm.appointments
                &&& (match dbm.client_key {
                    Some(sk) => c.user_sk@ == sk@ && valid_sk(sk@) && c.dbm.client_key
                        == dbm.client_key,
                    None => valid_sk(c.user_sk@) && (c.dbm.client_key matches Some(k) && k@
                        == c.user_sk@),
                })
                &&& c.user_id@ == pk_of(c.user_sk@)
                &&& c.statuses@.len() == dbm.towers@.len()
                &&& (forall|j: int|
                    0 <= j < dbm.towers@.len() ==> (#[trigger] c.statuses@[j]).tower_id@
                        == dbm.towers@[j].tower_id@ && c.statuses@[j].status
                        == dbm.towers@[j].derived_status())
                &&& (forall|j: int|
                    0 <= j < dbm.towers@.len() ==> (contains_id(
                        c.unreachable_towers@,
                        (#[trigger] dbm.towers@[j]).tower_id@,
                    ) <==> dbm.towers@[j].derived_status() is TemporaryUnreachable))
                &&& (forall|k: int|
                    0 <= k < c.unreachable_towers@.len() ==> has_tower(
                        dbm.towers@,
                        (#[trigger] c.unreachable_towers@[k])@,
                    ))
                &&& (forall|a: int, b: int|
                    0 <= a < b < c.unreachable_towers@.len() ==> c.unreachable_towers@[a]@
                        != c.unreachable_towers@[b]@)
            },
            r is Err <==> (dbm.client_key matches Some(sk) && !valid_sk(sk@)),
    {
        let mut dbm = dbm;
        let (user_sk, user_id) = match dbm.load_client_key() {
            Some(sk) => {
                match derive_public_key(&sk) {
                    Some(pk) => (sk, TowerId::from_vec(pk)),
                    None => {
                        return Err(StartupError::InvalidStoredKey);
                    },
                }
            },
            None => {
                let (sk, pk) = get_random_keypair();
                dbm.store_client_key(&sk);
                (sk, TowerId::from_vec(pk))
            },
        };
        let mut statuses: Vec<StatusEntry> = Vec::new();
        let mut unreachable_towers: Vec<TowerId> = Vec::new();
        let mut i: usize = 0;
        while i < dbm.towers.len()
            invariant
                i <= dbm.towers@.len(),
                dbm.wf(),
                statuses@.len() == i,
                forall|j: int|
                    0 <= j < i ==> (#[trigger] statuses@[j]).tower_id@
                        == dbm.towers@[j].tower_id@ && statuses@[j].status
                        == dbm.towers@[j].derived_status(),
                forall|j: int|
                    0 <= j < i ==> (contains_id(
                        unreachable_towers@,
                        (#[trigger] dbm.towers@[j]).tower_id@,
                    ) <==> dbm.towers@[j].derived_status() is TemporaryUnreachable),
                forall|k: int|
                    0 <= k < unreachable_towers@.len() ==> has_tower(
                        dbm.towers@.take(i as int),
                        (#[trigger] unreachable_towers@[k])@,
                    ),
                forall|a: int, b: int|
                    0 <= a < b < unreachable_towers@.len() ==> unreachable_towers@[a]@
                        != unreachable_towers@[b]@,
            decreases dbm.towers@.len() - i,
        {
            let rec = &dbm.towers[i];
            let status = if rec.misbehavior.is_some() {
                TowerStatus::Misbehaving
            } else if rec.pending.len() > 0 {
                TowerStatus::TemporaryUnreachable
            } else {
                TowerStatus::Reachable
            };
            let ghost queue_prev = unreachable_towers@;
            if matches!(status, TowerStatus::TemporaryUnreachable) {
                unreachable_towers.push(rec.tower_id.clone());
            }
            statuses.push(StatusEntry { tower_id: rec.tower_id.clone(), status });
            proof {
                let ii = i as int;
                assert(statuses@[ii].tower_id@ == dbm.towers@[ii].tower_id@);
                assert(statuses@[ii].status == dbm.towers@[ii].derived_status());
                assert forall|j: int| 0 <= j < ii implies (#[trigger] statuses@[j]).tower_id@
                    == dbm.towers@[j].tower_id@ && statuses@[j].status
                    == dbm.towers@[j].derived_status() by {
                    assert(statuses@[j] == statuses@.drop_last()[j]);
                }
                if dbm.towers@[ii].derived_status() is TemporaryUnreachable {
                    assert(unreachable_towers@[queue_prev.len() as int]@
                        == dbm.towers@[ii].tower_id@);
                    assert(contains_id(unreachable_towers@, dbm.towers@[ii].tower_id@));
                }
                assert forall|j: int| 0 <= j <= ii implies (contains_id(
                    unreachable_towers@,
                    (#[trigger] dbm.towers@[j]).tower_id@,
                ) <==> dbm.towers@[j].derived_status() is TemporaryUnreachable) by {
                    let id = dbm.towers@[j].tower_id@;
                    if contains_id(unreachable_towers@, id) {
                        let k = choose|k: int|
                            0 <= k < unreachable_towers@.len() && unreachable_towers@[k]@ == id;
                        if k < queue_prev.len() {
                            assert(queue_prev[k]@ == id);
                            assert(contains_id(queue_prev, id));
                            let m = choose|m: int|
                                0 <= m < ii && queue_prev[k]@ == dbm.towers@[m].tower_id@
                                    && dbm.towers@[m].derived_status() is TemporaryUnreachable;
                            crate::store::lemma_unique_tower_index(dbm.towers@, m, j);
                        } else {
                            assert(dbm.towers@[ii].tower_id@ == id);
                            crate::store::lemma_unique_tower_index(dbm.towers@, ii, j);
                        }
                    }
                    if dbm.towers@[j].derived_status() is TemporaryUnreachable {
                        if j < ii {
                            assert(contains_id(queue_prev, id));
                            let k = choose|k: int|
                                0 <= k < queue_prev.len() && queue_prev[k]@ == id;
                            assert(unreachable_towers@[k]@ == id);
                        }
                    }
                }
                assert forall|a: int, b: int|
                    0 <= a < b < unreachable_towers@.len() implies unreachable_towers@[a]@
                    != unreachable_towers@[b]@ by {
                    if b == queue_prev.len() {
                        // the id pushed at b belongs to the tower at ii, which by
                        // id uniqueness sits in no earlier prefix entry
                        assert(unreachable_towers@[a] == queue_prev[a]);
                        assert(unreachable_towers@[b]@ == dbm.towers@[ii].tower_id@);
                        assert(has_tower(dbm.towers@.take(ii), queue_prev[a]@));
                        let m = choose|m: int|
                            0 <= m < dbm.towers@.take(ii).len() && dbm.towers@.take(
                                ii,
                            )[m].tower_id@ == queue_prev[a]@;
                        assert(dbm.towers@[m].tower_id@ == queue_prev[a]@);
                        if queue_prev[a]@ == dbm.towers@[ii].tower_id@ {
                            crate::store::lemma_unique_tower_index(dbm.towers@, m, ii);
                        }
                    } else {
                        assert(unreachable_towers@[a] == queue_prev[a]);
                        assert(unreachable_towers@[b] == queue_prev[b]);
                    }
                }
                assert forall|k: int| 0 <= k < unreachable_towers@.len() implies has_tower(
                    dbm.towers@.take(ii + 1),
                    (#[trigger] unreachable_towers@[k])@,
                ) by {
                    let cur = dbm.towers@.take(ii + 1);
                    if k < queue_prev.len() {
                        assert(unreachable_towers@[k] == queue_prev[k]);
                        assert(has_tower(dbm.towers@.take(ii), queue_prev[k]@));
                        let m = choose|m: int|
                            0 <= m < dbm.towers@.take(ii).len() && dbm.towers@.take(
                                ii,
                            )[m].tower_id@ == queue_prev[k]@;
                        assert(cur[m].tower_id@ == queue_prev[k]@);
                    } else {
                        assert(unreachable_towers@[k]@ == dbm.towers@[ii].tower_id@);
                        assert(cur[ii].tower_id@ == dbm.towers@[ii].tower_id@);
                    }
                }
            }
            i += 1;
        }
        let c = WTClient { dbm, statuses, unreachable_towers, user_sk, user_id };
        proof {
            assert forall|j: int| 0 <= j < c.statuses@.len() implies has_tower(
                c.dbm.towers@,
                (#[trigger] c.statuses@[j]).tower_id@,
            ) by {
                assert(c.dbm.towers@[j].tower_id@ == c.statuses@[j].tower_id@);
            }
            assert forall|j: int| 0 <= j < c.dbm.towers@.len() implies has_status(
                c.statuses@,
                (#[trigger] c.dbm.towers@[j]).tower_id@,
            ) by {
                assert(c.statuses@[j].tower_id@ == c.dbm.towers@[j].tower_id@);
            }
            assert forall|a: int, b: int| 0 <= a < b < c.statuses@.len() implies c.statuses@[a].tower_id@
                != c.statuses@[b].tower_id@ by {
                assert(c.statuses@[a].tower_id@ == c.dbm.towers@[a].tower_id@);
                assert(c.statuses@[b].tower_id@ == c.dbm.towers@[b].tower_id@);
            }
            assert(c.dbm.towers@.take(c.dbm.towers@.len() as int) =~= c.dbm.towers@);
        }
        Ok(c)
    }

    /// Restart equivalence: starting from an on-disk state in which no
    /// tower has a misbehavior proof on record, every tower with pending
    /// appointments wakes up TemporaryUnreachable (and, by the contract of
    /// `WTClient::new`, is enqueued to the retrier), and every other tower
    /// wakes up Reachable.
    pub proof fn lemma_restart_equivalence(dbm: Store, j: int)
        requires
            dbm.wf(),
            0 <= j < dbm.towers@.len(),
            dbm.towers@[j].misbehavior is None,
        ensures
            dbm.towers@[j].derived_status() == (if dbm.towers@[j].pending@.len() > 0 {
                TowerStatus::TemporaryUnreachable
            } else {
                TowerStatus::Reachable
            }),
    {
    }

    /// Sets the runtime status of a known tower; unknown towers are left
    /// alone. The absorbing statuses Misbehaving and Abandoned are never
    /// overwritten.
    pub fn set_tower_status(&mut self, tower_id: TowerId, status: TowerStatus)
        requires
            old(self).wf(),
        ensures
            final(self).wf(),
            final(self).dbm == old(self).dbm,
            final(self).unreachable_towers == old(self).unreachable_towers,
            final(self).user_sk == old(self).user_sk,
            final(self).user_id == old(self).user_id,
            final(self).statuses@.len() == old(self).statuses@.len(),
            !old(self).known(tower_id@) ==> *final(self) == *old(self),
            forall|j: int|
                0 <= j < old(self).statuses@.len() && (#[trigger] old(
                    self,
                ).statuses@[j]).tower_id@ != tower_id@ ==> final(self).statuses@[j] == old(
                    self,
                ).statuses@[j],
            forall|j: int|
                0 <= j < old(self).statuses@.len() && (#[trigger] old(
                    self,
                ).statuses@[j]).tower_id@ == tower_id@ ==> final(self).statuses@[j].tower_id@
                    == tower_id@ && final(self).statuses@[j].status == (if old(
                    self,
                ).statuses@[j].status is Misbehaving || old(self).statuses@[j].status is Abandoned {
                    old(self).statuses@[j].status
                } else {
                    status
                }),
    {
        match find_status(&self.statuses, &tower_id) {
            None => {},
            Some(i) => {
                let current = self.statuses[i].status;
                if !current.is_terminal() {
                    self.statuses[i] = StatusEntry { tower_id, status };
                }
                proof {
                    let olds = old(self).statuses@;
                    let news = self.statuses@;
                    let ii = i as int;
                    assert forall|j: int|
                        0 <= j < olds.len() && (#[trigger] olds[j]).tower_id@
                            == tower_id@ implies j == ii by {
                        lemma_unique_status_index(olds, j, ii);
                    }
                    assert(news[ii].tower_id@ == tower_id@);
                    assert forall|a: int, b: int|
                        0 <= a < b < news.len() implies news[a].tower_id@ != news[b].tower_id@ by {
                        if a != ii {
                            assert(news[a] == olds[a]);
                        }
                        if b != ii {
                            assert(news[b] == olds[b]);
                        }
                        assert(olds[a].tower_id@ != olds[b].tower_id@);
                    }
                    assert forall|j: int| 0 <= j < news.len() implies has_tower(
                        self.dbm.towers@,
                        (#[trigger] news[j]).tower_id@,
                    ) by {
                        if j != ii {
                            assert(news[j] == olds[j]);
                        }
                        assert(news[j].tower_id@ == olds[j].tower_id@);
                    }
                    assert forall|j: int| 0 <= j < self.dbm.towers@.len() implies has_status(
                        news,
                        (#[trigger] self.dbm.towers@[j]).tower_id@,
                    ) by {
                        assert(has_status(olds, self.dbm.towers@[j].tower_id@));
                        let k = choose|k: int|
                            0 <= k < olds.len() && olds[k].tower_id@
                                == self.dbm.towers@[j].tower_id@;
                        assert(news[k].tower_id@ == olds[k].tower_id@);
                    }
                }
            },
        }
    }
}


impl WTClient {
    /// The parts of the client an operation on one tower's records leaves
    /// alone: the queue and the user keys.
    pub open spec fn same_queue_and_keys(&self, other: &WTClient) -> bool {
        &&& self.unreachable_towers == other.unreachable_towers
        &&& self.user_sk == other.user_sk
        &&& self.user_id == other.user_id
    }

    /// Adds or updates a tower entry from an accepted registration.
    ///
    /// A receipt that does not strictly extend the stored subscription and
    /// strictly grow the slot count is rejected, and nothing changes. A
    /// new tower starts Reachable; an existing tower keeps its status and
    /// its appointment sets.
    pub fn add_update_tower(
        &mut self,
        tower_id: TowerId,
        tower_net_addr: String,
        receipt: &RegistrationReceipt,
    ) -> (r: Result<(), RegistrationError>)
        requires
            old(self).wf(),
        ensures
            final(self).wf(),
            final(self).same_queue_and_keys(old(self)),
            final(self).dbm.client_key == old(self).dbm.client_key,
            final(self).dbm.appointments == old(self).dbm.appointments,
            r is Err ==> *final(self) == *old(self),
            r matches Err(RegistrationError::Expiry) <==> exists|j: int|
                0 <= j < old(self).dbm.towers@.len() && (#[trigger] old(
                    self,
                ).dbm.towers@[j]).tower_id@ == tower_id@ && receipt@.subscription_expiry <= old(
                    self,
                ).dbm.towers@[j].subscription_expiry,
            r matches Err(RegistrationError::Slots) <==> exists|j: int|
                0 <= j < old(self).dbm.towers@.len() && (#[trigger] old(
                    self,
                ).dbm.towers@[j]).tower_id@ == tower_id@ && receipt@.subscription_expiry > old(
                    self,
                ).dbm.towers@[j].subscription_expiry && receipt@.available_slots <= old(
                    self,
                ).dbm.towers@[j].available_slots,
            r is Ok ==> forall|j: int|
                0 <= j < old(self).dbm.towers@.len() && (#[trigger] old(
                    self,
                ).dbm.towers@[j]).tower_id@ != tower_id@ ==> final(self).dbm.towers@[j] == old(
                    self,
                ).dbm.towers@[j],
            r is Ok ==> forall|j: int|
                0 <= j < old(self).dbm.towers@.len() && (#[trigger] old(
                    self,
                ).dbm.towers@[j]).tower_id@ == tower_id@ ==> record_updated(
                    final(self).dbm.towers@[j],
                    old(self).dbm.towers@[j],
                    tower_net_addr@,
                    receipt@,
                ),
            r is Ok && !has_tower(old(self).dbm.towers@, tower_id@) ==> final(self).dbm.towers@.len() == old(self).dbm.towers@.len() + 1 && record_fresh(
                final(self).dbm.towers@[old(self).dbm.towers@.len() as int],
                tower_id@,
                tower_net_addr@,
                receipt@,
            ),
            r is Ok ==> final(self).known(tower_id@),
            r is Ok && old(self).known(tower_id@) ==> final(self).statuses == old(self).statuses,
            r is Ok && !old(self).known(tower_id@) ==> final(self).statuses@.len() == old(
                self,
            ).statuses@.len() + 1 && (forall|j: int|
                0 <= j < old(self).statuses@.len() ==> final(self).statuses@[j] == old(
                    self,
                ).statuses@[j]) && final(self).statuses@[old(self).statuses@.len() as int].tower_id@
                == tower_id@ && final(self).statuses@[old(self).statuses@.len() as int].status
                is Reachable,
            forall|id2: Seq<u8>|
                id2 != tower_id@ ==> #[trigger] final(self).known(id2) == old(self).known(id2),
    {
        proof {
            assert forall|id2: Seq<u8>| #[trigger] has_status(self.statuses@, id2) implies
                has_tower(self.dbm.towers@, id2) by {
                let k = choose|k: int|
                    0 <= k < self.statuses@.len() && self.statuses@[k].tower_id@ == id2;
            }
        }
        let r = self.dbm.store_tower_record(&tower_id, &tower_net_addr, receipt);
        match r {
            Err(e) => Err(e),
            Ok(()) => {
                match find_status(&self.statuses, &tower_id) {
                    Some(_) => {},
                    None => {
                        let ghost prev = self.statuses@;
                        self.statuses.push(
                            StatusEntry { tower_id, status: TowerStatus::Reachable },
                        );
                        proof {
                            assert(self.statuses@.drop_last() =~= prev);
                        }
                    },
                }
                proof {
                    let news = self.statuses@;
                    let olds = old(self).statuses@;
                    let tid = old(self).statuses@.len();
                    assert forall|a: int, b: int| 0 <= a < b < news.len() implies news[a].tower_id@
                        != news[b].tower_id@ by {
                        if b < olds.len() {
                        } else if b == olds.len() && news.len() == olds.len() + 1 {
                            assert(news[a] == olds[a]);
                            assert(!has_status(olds, news[b].tower_id@));
                        }
                    }
                    assert forall|j: int| 0 <= j < news.len() implies has_tower(
                        self.dbm.towers@,
                        (#[trigger] news[j]).tower_id@,
                    ) by {
                        if j < olds.len() {
                            assert(news[j] == olds[j]);
                            assert(has_tower(old(self).dbm.towers@, olds[j].tower_id@));
                            if olds[j].tower_id@ != self.dbm.towers@[0].tower_id@ {
                            }
                            assert(has_tower(self.dbm.towers@, olds[j].tower_id@));
                        } else {
                            assert(news[j].tower_id@ == *&tower_id@);
                            assert(has_tower(self.dbm.towers@, tower_id@));
                        }
                    }
                    assert forall|j: int| 0 <= j < self.dbm.towers@.len() implies has_status(
                        news,
                        (#[trigger] self.dbm.towers@[j]).tower_id@,
                    ) by {
                        let id = self.dbm.towers@[j].tower_id@;
                        if id == tower_id@ {
                            if has_status(olds, id) {
                                let k = choose|k: int|
                                    0 <= k < olds.len() && olds[k].tower_id@ == id;
                                assert(news[k].tower_id@ == id);
                            } else {
                                assert(news[news.len() - 1].tower_id@ == id);
                            }
                        } else {
                            assert(has_tower(self.dbm.towers@, id));
                            assert(has_tower(old(self).dbm.towers@, id));
                            let m = choose|m: int|
                                0 <= m < old(self).dbm.towers@.len() && old(
                                    self,
                                ).dbm.towers@[m].tower_id@ == id;
                            assert(has_status(olds, id));
                            let k = choose|k: int| 0 <= k < olds.len() && olds[k].tower_id@ == id;
                            assert(news[k].tower_id@ == id);
                        }
                    }
                    assert(final(self).known(tower_id@)) by {
                        if has_status(olds, tower_id@) {
                            let k = choose|k: int|
                                0 <= k < olds.len() && olds[k].tower_id@ == tower_id@;
                            assert(news[k].tower_id@ == tower_id@);
                        }
                    }
                    assert forall|id2: Seq<u8>| id2 != tower_id@ implies #[trigger] has_status(
                        news,
                        id2,
                    ) == has_status(olds, id2) by {
                        if has_status(news, id2) {
                            let k = choose|k: int|
                                0 <= k < news.len() && news[k].tower_id@ == id2;
                            if k < olds.len() {
                                assert(olds[k].tower_id@ == id2);
                            }
                        }
                        if has_status(olds, id2) {
                            let k = choose|k: int|
                                0 <= k < olds.len() && olds[k].tower_id@ == id2;
                            assert(news[k].tower_id@ == id2);
                        }
                    }
                }
                Ok(())
            },
        }
    }

    /// Proof bridge: a known tower has a record in the store.
    proof fn lemma_known_has_tower(&self, id: Seq<u8>)
        requires
            self.wf(),
            self.known(id),
        ensures
            has_tower(self.dbm.towers@, id),
    {
        let k = choose|k: int| 0 <= k < self.statuses@.len() && self.statuses@[k].tower_id@ == id;
    }

    /// Proof bridge: status entries are untouched, so the registry side of
    /// well-formedness survives a store change that keeps the tower ids.
    proof fn lemma_wf_after_store_change(old_c: &WTClient, new_c: &WTClient)
        requires
            old_c.wf(),
            new_c.dbm.wf(),
            new_c.statuses == old_c.statuses,
            forall|id2: Seq<u8>| #[trigger] has_tower(new_c.dbm.towers@, id2) == has_tower(
                old_c.dbm.towers@,
                id2,
            ),
            new_c.dbm.towers@.len() == old_c.dbm.towers@.len(),
            forall|j: int|
                0 <= j < old_c.dbm.towers@.len() ==> (#[trigger] new_c.dbm.towers@[j]).tower_id@
                    == old_c.dbm.towers@[j].tower_id@,
        ensures
            new_c.wf(),
    {
        assert forall|j: int| 0 <= j < new_c.statuses@.len() implies has_tower(
            new_c.dbm.towers@,
            (#[trigger] new_c.statuses@[j]).tower_id@,
        ) by {
            assert(has_tower(old_c.dbm.towers@, old_c.statuses@[j].tower_id@));
        }
        assert forall|j: int| 0 <= j < new_c.dbm.towers@.len() implies has_status(
            new_c.statuses@,
            (#[trigger] new_c.dbm.towers@[j]).tower_id@,
        ) by {
            assert(has_status(old_c.statuses@, old_c.dbm.towers@[j].tower_id@));
        }
    }

    /// Records a delivered appointment for a known tower: stores the
    /// receipt, moves the locator out of pending and invalid, and takes
    /// over the slot count the tower reported. Unknown towers are left
    /// alone.
    pub fn add_appointment_receipt(
        &mut self,
        tower_id: TowerId,
        locator: Locator,
        available_slots: u32,
        receipt: &AppointmentReceipt,
    )
        requires
            old(self).wf(),
            receipt@.signature is Some,
        ensures
            final(self).wf(),
            final(self).same_queue_and_keys(old(self)),
            final(self).statuses == old(self).statuses,
            final(self).dbm.client_key == old(self).dbm.client_key,
            final(self).dbm.appointments == old(self).dbm.appointments,
            !old(self).known(tower_id@) ==> final(self).dbm == old(self).dbm,
            old(self).known(tower_id@) ==> final(self).dbm.towers@.len() == old(
                self,
            ).dbm.towers@.len() && (forall|j: int|
                0 <= j < old(self).dbm.towers@.len() && (#[trigger] old(
                    self,
                ).dbm.towers@[j]).tower_id@ != tower_id@ ==> final(self).dbm.towers@[j] == old(
                    self,
                ).dbm.towers@[j]) && (forall|j: int|
                0 <= j < old(self).dbm.towers@.len() && (#[trigger] old(
                    self,
                ).dbm.towers@[j]).tower_id@ == tower_id@ ==> delivered_added(
                    final(self).dbm.towers@[j],
                    old(self).dbm.towers@[j],
                    locator@,
                    available_slots,
                    receipt@,
                )),
    {
        match find_status(&self.statuses, &tower_id) {
            None => {},
            Some(_) => {
                proof {
                    self.lemma_known_has_tower(tower_id@);
                }
                let ghost old_c = *self;
                self.dbm.store_appointment_receipt(&tower_id, &locator, available_slots, receipt);
                proof {
                    WTClient::lemma_wf_after_store_change(&old_c, self);
                }
            },
        }
    }

    /// Adds a pending appointment for a known tower; unknown towers are
    /// left alone.
    pub fn add_pending_appointment(&mut self, tower_id: TowerId, appointment: &Appointment)
        requires
            old(self).wf(),
        ensures
            final(self).wf(),
            final(self).same_queue_and_keys(old(self)),
            final(self).statuses == old(self).statuses,
            final(self).dbm.client_key == old(self).dbm.client_key,
            !old(self).known(tower_id@) ==> final(self).dbm == old(self).dbm,
            old(self).known(tower_id@) ==> final(self).dbm.towers@.len() == old(
                self,
            ).dbm.towers@.len() && (forall|j: int|
                0 <= j < old(self).dbm.towers@.len() && (#[trigger] old(
                    self,
                ).dbm.towers@[j]).tower_id@ != tower_id@ ==> final(self).dbm.towers@[j] == old(
                    self,
                ).dbm.towers@[j]) && (forall|j: int|
                0 <= j < old(self).dbm.towers@.len() && (#[trigger] old(
                    self,
                ).dbm.towers@[j]).tower_id@ == tower_id@ ==> pending_added(
                    final(self).dbm.towers@[j],
                    old(self).dbm.towers@[j],
                    appointment@.locator,
                )),
            old(self).known(tower_id@) ==> (forall|l2: Seq<u8>|
                l2 != appointment@.locator ==> contains_app(final(self).dbm.appointments@, l2)
                    == contains_app(old(self).dbm.appointments@, l2)) && (contains_app(
                old(self).dbm.appointments@,
                appointment@.locator,
            ) ==> contains_app(final(self).dbm.appointments@, appointment@.locator)),
    {
        match find_status(&self.statuses, &tower_id) {
            None => {},
            Some(_) => {
                proof {
                    self.lemma_known_has_tower(tower_id@);
                }
                let ghost old_c = *self;
                self.dbm.store_pending_appointment(&tower_id, appointment);
                proof {
                    WTClient::lemma_wf_after_store_change(&old_c, self);
                }
            },
        }
    }

    /// Removes a pending appointment from a known tower, collecting the
    /// body from the global table when the last reference goes. Unknown
    /// towers are left alone.
    pub fn remove_pending_appointment(&mut self, tower_id: TowerId, locator: Locator)
        requires
            old(self).wf(),
        ensures
            final(self).wf(),
            final(self).same_queue_and_keys(old(self)),
            final(self).statuses == old(self).statuses,
            final(self).dbm.client_key == old(self).dbm.client_key,
            !old(self).known(tower_id@) ==> final(self).dbm == old(self).dbm,
            old(self).known(tower_id@) ==> final(self).dbm.towers@.len() == old(
                self,
            ).dbm.towers@.len() && (forall|j: int|
                0 <= j < old(self).dbm.towers@.len() && (#[trigger] old(
                    self,
                ).dbm.towers@[j]).tower_id@ != tower_id@ ==> final(self).dbm.towers@[j] == old(
                    self,
                ).dbm.towers@[j]) && (forall|j: int|
                0 <= j < old(self).dbm.towers@.len() && (#[trigger] old(
                    self,
                ).dbm.towers@[j]).tower_id@ == tower_id@ ==> pending_removed(
                    final(self).dbm.towers@[j],
                    old(self).dbm.towers@[j],
                    locator@,
                )),
            old(self).known(tower_id@) ==> (forall|l2: Seq<u8>|
                l2 != locator@ ==> contains_app(final(self).dbm.appointments@, l2) == contains_app(
                    old(self).dbm.appointments@,
                    l2,
                )) && (contains_app(final(self).dbm.appointments@, locator@) == (contains_app(
                old(self).dbm.appointments@,
                locator@,
            ) && referenced(final(self).dbm.towers@, locator@))),
    {
        match find_status(&self.statuses, &tower_id) {
            None => {},
            Some(_) => {
                proof {
                    self.lemma_known_has_tower(tower_id@);
                }
                let ghost old_c = *self;
                self.dbm.delete_pending_appointment(&tower_id, &locator);
                proof {
                    WTClient::lemma_wf_after_store_change(&old_c, self);
                }
            },
        }
    }

    /// Records an appointment a known tower rejected as invalid; the
    /// locator moves out of pending into the invalid set. Unknown towers
    /// are left alone.
    pub fn add_invalid_appointment(&mut self, tower_id: TowerId, appointment: &Appointment)
        requires
            old(self).wf(),
        ensures
            final(self).wf(),
            final(self).same_queue_and_keys(old(self)),
            final(self).statuses == old(self).statuses,
            final(self).dbm.client_key == old(self).dbm.client_key,
            !old(self).known(tower_id@) ==> final(self).dbm == old(self).dbm,
            old(self).known(tower_id@) ==> final(self).dbm.towers@.len() == old(
                self,
            ).dbm.towers@.len() && (forall|j: int|
                0 <= j < old(self).dbm.towers@.len() && (#[trigger] old(
                    self,
                ).dbm.towers@[j]).tower_id@ != tower_id@ ==> final(self).dbm.towers@[j] == old(
                    self,
                ).dbm.towers@[j]) && (forall|j: int|
                0 <= j < old(self).dbm.towers@.len() && (#[trigger] old(
                    self,
                ).dbm.towers@[j]).tower_id@ == tower_id@ ==> invalid_added(
                    final(self).dbm.towers@[j],
                    old(self).dbm.towers@[j],
                    appointment@.locator,
                )),
    {
        match find_status(&self.statuses, &tower_id) {
            None => {},
            Some(_) => {
                proof {
                    self.lemma_known_has_tower(tower_id@);
                }
                let ghost old_c = *self;
                self.dbm.store_invalid_appointment(&tower_id, appointment);
                proof {
                    WTClient::lemma_wf_after_store_change(&old_c, self);
                }
            },
        }
    }

    /// Flags a known tower as misbehaving: persists the proof and locks
    /// the runtime status in Misbehaving. Unknown towers are left alone.
    pub fn flag_misbehaving_tower(&mut self, tower_id: TowerId, evidence: MisbehaviorProof)
        requires
            old(self).wf(),
        ensures
            final(self).wf(),
            final(self).same_queue_and_keys(old(self)),
            final(self).dbm.client_key == old(self).dbm.client_key,
            final(self).dbm.appointments == old(self).dbm.appointments,
            !old(self).known(tower_id@) ==> final(self).dbm == old(self).dbm && final(self).statuses == old(self).statuses,
            old(self).known(tower_id@) ==> final(self).dbm.towers@.len() == old(
                self,
            ).dbm.towers@.len() && (forall|j: int|
                0 <= j < old(self).dbm.towers@.len() && (#[trigger] old(
                    self,
                ).dbm.towers@[j]).tower_id@ != tower_id@ ==> final(self).dbm.towers@[j] == old(
                    self,
                ).dbm.towers@[j]) && (forall|j: int|
                0 <= j < old(self).dbm.towers@.len() && (#[trigger] old(
                    self,
                ).dbm.towers@[j]).tower_id@ == tower_id@ ==> proof_set(
                    final(self).dbm.towers@[j],
                    old(self).dbm.towers@[j],
                    evidence@,
                )),
            final(self).statuses@.len() == old(self).statuses@.len(),
            forall|j: int|
                0 <= j < old(self).statuses@.len() && (#[trigger] old(
                    self,
                ).statuses@[j]).tower_id@ != tower_id@ ==> final(self).statuses@[j] == old(
                    self,
                ).statuses@[j],
            old(self).known(tower_id@) ==> forall|j: int|
                0 <= j < old(self).statuses@.len() && (#[trigger] old(
                    self,
                ).statuses@[j]).tower_id@ == tower_id@ ==> final(self).statuses@[j].tower_id@
                    == tower_id@ && final(self).statuses@[j].status == (if old(
                    self,
                ).statuses@[j].status is Abandoned {
                    TowerStatus::Abandoned
                } else {
                    TowerStatus::Misbehaving
                }),
    {
        match find_status(&self.statuses, &tower_id) {
            None => {},
            Some(i) => {
                proof {
                    self.lemma_known_has_tower(tower_id@);
                }
                let ghost old_c = *self;
                self.dbm.store_misbehaving_proof(&tower_id, &evidence);
                proof {
                    WTClient::lemma_wf_after_store_change(&old_c, self);
                }
                let current = self.statuses[i].status;
                let ghost mid = *self;
                if !current.is_abandoned() {
                    self.statuses[i] = StatusEntry {
                        tower_id,
                        status: TowerStatus::Misbehaving,
                    };
                }
                proof {
                    let olds = old(self).statuses@;
                    let news = self.statuses@;
                    let ii = i as int;
                    assert forall|j: int|
                        0 <= j < olds.len() && (#[trigger] olds[j]).tower_id@
                            == tower_id@ implies j == ii by {
                        lemma_unique_status_index(olds, j, ii);
                    }
                    assert(news[ii].tower_id@ == tower_id@);
                    assert forall|a: int, b: int|
                        0 <= a < b < news.len() implies news[a].tower_id@ != news[b].tower_id@ by {
                        if a != ii {
                            assert(news[a] == olds[a]);
                        }
                        if b != ii {
                            assert(news[b] == olds[b]);
                        }
                        assert(olds[a].tower_id@ != olds[b].tower_id@);
                    }
                    assert forall|j: int| 0 <= j < news.len() implies has_tower(
                        self.dbm.towers@,
                        (#[trigger] news[j]).tower_id@,
                    ) by {
                        if j != ii {
                            assert(news[j] == olds[j]);
                        }
                        assert(news[j].tower_id@ == olds[j].tower_id@);
                        assert(has_tower(mid.dbm.towers@, mid.statuses@[j].tower_id@));
                    }
                    assert forall|j: int| 0 <= j < self.dbm.towers@.len() implies has_status(
                        news,
                        (#[trigger] self.dbm.towers@[j]).tower_id@,
                    ) by {
                        assert(has_status(mid.statuses@, self.dbm.towers@[j].tower_id@));
                        let k = choose|k: int|
                            0 <= k < olds.len() && olds[k].tower_id@
                                == self.dbm.towers@[j].tower_id@;
                        assert(news[k].tower_id@ == olds[k].tower_id@);
                    }
                }
            },
        }
    }

    /// Loads everything stored about one tower, under the status the
    /// persisted image implies.
    pub fn load_tower_info(&self, tower_id: &TowerId) -> (r: Option<TowerInfo>)
        requires
            self.wf(),
        ensures
            r is Some <==> has_tower(self.dbm.towers@, tower_id@),
            r matches Some(info) ==> forall|j: int|
                0 <= j < self.dbm.towers@.len() && (#[trigger] self.dbm.towers@[j]).tower_id@
                    == tower_id@ ==> info_matches(info, self.dbm.towers@[j], self.dbm.appointments@),
    {
        self.dbm.load_tower_record(tower_id)
    }

    /// The latest registration receipt stored for a tower.
    pub fn get_registration_receipt(&self, tower_id: &TowerId) -> (r: Option<RegistrationReceipt>)
        requires
            self.wf(),
        ensures
            r is Some <==> has_tower(self.dbm.towers@, tower_id@),
            r matches Some(rr) ==> forall|j: int|
                0 <= j < self.dbm.towers@.len() && (#[trigger] self.dbm.towers@[j]).tower_id@
                    == tower_id@ ==> rr@ == self.dbm.towers@[j].registration@,
    {
        self.dbm.get_registration_receipt(tower_id)
    }

    /// The receipt stored for one delivered appointment, or which of the
    /// two lookups failed.
    pub fn get_appointment_receipt(&self, tower_id: &TowerId, locator: &Locator) -> (r: Result<
        AppointmentReceipt,
        ClientError,
    >)
        requires
            self.wf(),
        ensures
            r matches Err(ClientError::UnknownTower) <==> !self.known(tower_id@),
            r matches Err(ClientError::NotFound) <==> self.known(tower_id@) && !(exists|j: int|
                0 <= j < self.dbm.towers@.len() && (#[trigger] self.dbm.towers@[j]).tower_id@
                    == tower_id@ && contains_del(self.dbm.towers@[j].delivered@, locator@)),
            r matches Ok(rcpt) ==> forall|j: int|
                0 <= j < self.dbm.towers@.len() && (#[trigger] self.dbm.towers@[j]).tower_id@
                    == tower_id@ ==> exists|k: int|
                    0 <= k < self.dbm.towers@[j].delivered@.len()
                        && (#[trigger] self.dbm.towers@[j].delivered@[k]).locator@ == locator@
                        && self.dbm.towers@[j].delivered@[k].receipt@ == rcpt@,
    {
        match find_status(&self.statuses, tower_id) {
            None => Err(ClientError::UnknownTower),
            Some(_) => {
                proof {
                    self.lemma_known_has_tower(tower_id@);
                }
                match self.dbm.get_appointment_receipt(tower_id, locator) {
                    Some(rcpt) => Ok(rcpt),
                    None => Err(ClientError::NotFound),
                }
            },
        }
    }

    /// The runtime status of a tower.
    pub fn tower_status(&self, tower_id: &TowerId) -> (r: Option<TowerStatus>)
        ensures
            r is Some <==> self.known(tower_id@),
            r matches Some(st) ==> self.status_is(tower_id@, st),
    {
        match find_status(&self.statuses, tower_id) {
            None => None,
            Some(i) => Some(self.statuses[i].status),
        }
    }

    /// The one-line view of every registered tower, each under its
    /// runtime status.
    pub fn towers(&self) -> (r: Vec<(TowerId, TowerSummary)>)
        requires
            self.wf(),
        ensures
            r@.len() == self.dbm.towers@.len(),
            forall|j: int|
                0 <= j < self.dbm.towers@.len() ==> {
                    let rec = self.dbm.towers@[j];
                    let sm = (#[trigger] r@[j]).1;
                    &&& r@[j].0@ == rec.tower_id@
                    &&& sm.net_addr == rec.net_addr
                    &&& sm.available_slots == rec.available_slots
                    &&& sm.subscription_expiry == rec.subscription_expiry
                    &&& self.status_is(rec.tower_id@, sm.status)
                    &&& sm.pending_appointments@.len() == rec.pending@.len()
                    &&& (forall|k: int|
                        0 <= k < rec.pending@.len() ==> (#[trigger] sm.pending_appointments@[k])@
                            == rec.pending@[k]@)
                    &&& sm.invalid_appointments@.len() == rec.invalid@.len()
                    &&& (forall|k: int|
                        0 <= k < rec.invalid@.len() ==> (#[trigger] sm.invalid_appointments@[k])@
                            == rec.invalid@[k]@)
                },
    {
        let mut r: Vec<(TowerId, TowerSummary)> = Vec::new();
        let mut i: usize = 0;
        while i < self.dbm.towers.len()
            invariant
                i <= self.dbm.towers@.len(),
                self.wf(),
                r@.len() == i,
                forall|j: int|
                    0 <= j < i ==> {
                        let rec = self.dbm.towers@[j];
                        let sm = (#[trigger] r@[j]).1;
                        &&& r@[j].0@ == rec.tower_id@
                        &&& sm.net_addr == rec.net_addr
                        &&& sm.available_slots == rec.available_slots
                        &&& sm.subscription_expiry == rec.subscription_expiry
                        &&& self.status_is(rec.tower_id@, sm.status)
                        &&& sm.pending_appointments@.len() == rec.pending@.len()
                        &&& (forall|k: int|
                            0 <= k < rec.pending@.len() ==> (
                            #[trigger] sm.pending_appointments@[k])@ == rec.pending@[k]@)
                        &&& sm.invalid_appointments@.len() == rec.invalid@.len()
                        &&& (forall|k: int|
                            0 <= k < rec.invalid@.len() ==> (
                            #[trigger] sm.invalid_appointments@[k])@ == rec.invalid@[k]@)
                    },
            decreases self.dbm.towers@.len() - i,
        {
            let rec = &self.dbm.towers[i];
            let status = match find_status(&self.statuses, &rec.tower_id) {
                Some(k) => self.statuses[k].status,
                None => {
                    proof {
                        assert(has_status(self.statuses@, self.dbm.towers@[i as int].tower_id@));
                        assert(false);
                    }
                    TowerStatus::Reachable
                },
            };
            let summary = TowerSummary {
                net_addr: rec.net_addr.clone(),
                available_slots: rec.available_slots,
                subscription_expiry: rec.subscription_expiry,
                status,
                pending_appointments: clone_locs(&rec.pending),
                invalid_appointments: clone_locs(&rec.invalid),
            };
            r.push((rec.tower_id.clone(), summary));
            i += 1;
        }
        r
    }

    /// Queues an unreachable tower for a manual retry. Rejected for
    /// unknown towers, towers already being retried, and towers in any
    /// other status.
    pub fn retry_tower(&mut self, tower_id: &TowerId) -> (r: Result<(), RetryError>)
        requires
            old(self).wf(),
        ensures
            final(self).wf(),
            final(self).dbm == old(self).dbm,
            final(self).statuses == old(self).statuses,
            final(self).user_sk == old(self).user_sk,
            final(self).user_id == old(self).user_id,
            r matches Err(RetryError::UnknownTower) <==> !old(self).known(tower_id@),
            r matches Err(RetryError::AlreadyBeingRetried) <==> old(self).status_is(
                tower_id@,
                TowerStatus::TemporaryUnreachable,
            ),
            r is Ok <==> old(self).status_is(tower_id@, TowerStatus::Unreachable),
            r is Ok ==> final(self).unreachable_towers@.len() == old(
                self,
            ).unreachable_towers@.len() + 1 && (forall|k: int|
                0 <= k < old(self).unreachable_towers@.len() ==> final(self).unreachable_towers@[k]
                    == old(self).unreachable_towers@[k]) && final(self).unreachable_towers@[old(
                self,
            ).unreachable_towers@.len() as int]@ == tower_id@,
            r is Err ==> final(self).unreachable_towers == old(self).unreachable_towers,
    {
        match find_status(&self.statuses, tower_id) {
            None => Err(RetryError::UnknownTower),
            Some(i) => {
                let status = self.statuses[i].status;
                proof {
                    assert forall|k: int|
                        0 <= k < self.statuses@.len() && (#[trigger] self.statuses@[k]).tower_id@
                            == tower_id@ implies k == i as int by {
                        lemma_unique_status_index(self.statuses@, k, i as int);
                    }
                }
                if status.is_unreachable() {
                    if matches!(status, TowerStatus::TemporaryUnreachable) {
                        return Err(RetryError::AlreadyBeingRetried);
                    }
                    self.unreachable_towers.push(tower_id.clone());
                    Ok(())
                } else {
                    Err(RetryError::NotUnreachable)
                }
            },
        }
    }

    /// Wipes a known tower from the registry and the store.
    pub fn remove_tower(&mut self, tower_id: &TowerId) -> (r: Result<(), ClientError>)
        requires
            old(self).wf(),
        ensures
            final(self).wf(),
            final(self).same_queue_and_keys(old(self)),
            final(self).dbm.client_key == old(self).dbm.client_key,
            r is Err <==> !old(self).known(tower_id@),
            r is Err ==> *final(self) == *old(self),
            r is Ok ==> !final(self).known(tower_id@) && !has_tower(
                final(self).dbm.towers@,
                tower_id@,
            ),
            r is Ok ==> forall|id2: Seq<u8>|
                id2 != tower_id@ ==> #[trigger] final(self).known(id2) == old(self).known(id2),
            r is Ok ==> exists|k: int|
                0 <= k < old(self).dbm.towers@.len() && (#[trigger] old(
                    self,
                ).dbm.towers@[k]).tower_id@ == tower_id@ && final(self).dbm.towers@ == old(
                    self,
                ).dbm.towers@.remove(k),
            r is Ok ==> forall|l: Seq<u8>|
                #[trigger] contains_app(final(self).dbm.appointments@, l) == (contains_app(
                    old(self).dbm.appointments@,
                    l,
                ) && referenced(final(self).dbm.towers@, l)),
    {
        match find_status(&self.statuses, tower_id) {
            None => Err(ClientError::UnknownTower),
            Some(i) => {
                proof {
                    self.lemma_known_has_tower(tower_id@);
                }
                self.dbm.remove_tower_record(tower_id);
                let ghost olds = self.statuses@;
                self.statuses.remove(i);
                proof {
                    let news = self.statuses@;
                    let ii = i as int;
                    assert forall|a: int, b: int|
                        0 <= a < b < news.len() implies news[a].tower_id@ != news[b].tower_id@ by {
                        if b < ii {
                        } else if a < ii {
                            assert(news[a] == olds[a] && news[b] == olds[b + 1]);
                        } else {
                            assert(news[a] == olds[a + 1] && news[b] == olds[b + 1]);
                        }
                    }
                    assert forall|id2: Seq<u8>| id2 != tower_id@ implies #[trigger] has_status(
                        news,
                        id2,
                    ) == has_status(olds, id2) by {
                        if has_status(news, id2) {
                            let k = choose|k: int|
                                0 <= k < news.len() && news[k].tower_id@ == id2;
                            if k < ii {
                                assert(olds[k].tower_id@ == id2);
                            } else {
                                assert(olds[k + 1].tower_id@ == id2);
                            }
                        }
                        if has_status(olds, id2) {
                            let k = choose|k: int|
                                0 <= k < olds.len() && olds[k].tower_id@ == id2;
                            assert(k != ii) by {
                                if k == ii {
                                    assert(olds[ii].tower_id@ == id2);
                                }
                            }
                            if k < ii {
                                assert(news[k].tower_id@ == id2);
                            } else {
                                assert(news[k - 1].tower_id@ == id2);
                            }
                        }
                    }
                    assert(!has_status(news, tower_id@)) by {
                        if has_status(news, tower_id@) {
                            let k = choose|k: int|
                                0 <= k < news.len() && news[k].tower_id@ == tower_id@;
                            if k < ii {
                                lemma_unique_status_index(olds, k, ii);
                            } else {
                                lemma_unique_status_index(olds, k + 1, ii);
                            }
                        }
                    }
                    assert forall|j: int| 0 <= j < news.len() implies has_tower(
                        self.dbm.towers@,
                        (#[trigger] news[j]).tower_id@,
                    ) by {
                        let id = news[j].tower_id@;
                        if j < ii {
                            assert(news[j] == olds[j]);
                        } else {
                            assert(news[j] == olds[j + 1]);
                        }
                        assert(id != tower_id@) by {
                            if id == tower_id@ {
                                if j < ii {
                                    lemma_unique_status_index(olds, j, ii);
                                } else {
                                    lemma_unique_status_index(olds, j + 1, ii);
                                }
                            }
                        }
                        assert(has_status(olds, id));
                        assert(has_tower(old(self).dbm.towers@, id));
                    }
                    assert forall|j: int| 0 <= j < self.dbm.towers@.len() implies has_status(
                        news,
                        (#[trigger] self.dbm.towers@[j]).tower_id@,
                    ) by {
                        let id = self.dbm.towers@[j].tower_id@;
                        assert(has_tower(self.dbm.towers@, id));
                        assert(id != tower_id@);
                        assert(has_tower(old(self).dbm.towers@, id));
                        assert(has_status(olds, id));
                        let k = choose|k: int| 0 <= k < olds.len() && olds[k].tower_id@ == id;
                        assert(k != ii) by {
                            if k == ii {
                                assert(olds[ii].tower_id@ == id);
                            }
                        }
                        if k < ii {
                            assert(news[k].tower_id@ == id);
                        } else {
                            assert(news[k - 1].tower_id@ == id);
                        }
                    }
                }
                Ok(())
            },
        }
    }

    /// Abandons a tower. A tower in the middle of a retry is flagged
    /// Abandoned for the retrier to finalize; any other known tower is
    /// wiped at once.
    pub fn abandon_tower(&mut self, tower_id: &TowerId) -> (r: Result<AbandonOutcome, ClientError>)
        requires
            old(self).wf(),
        ensures
            final(self).wf(),
            final(self).user_sk == old(self).user_sk,
            final(self).user_id == old(self).user_id,
            final(self).unreachable_towers == old(self).unreachable_towers,
            r is Err <==> !old(self).known(tower_id@),
            r is Err ==> *final(self) == *old(self),
            r matches Ok(AbandonOutcome::Flagged) <==> old(self).status_is(
                tower_id@,
                TowerStatus::TemporaryUnreachable,
            ),
            r matches Ok(AbandonOutcome::Flagged) ==> final(self).dbm == old(self).dbm && final(self).status_is(tower_id@, TowerStatus::Abandoned),
            r matches Ok(AbandonOutcome::Removed) ==> !final(self).known(tower_id@) && !has_tower(
                final(self).dbm.towers@,
                tower_id@,
            ) && (forall|id2: Seq<u8>|
                id2 != tower_id@ ==> #[trigger] final(self).known(id2) == old(self).known(id2)),
    {
        match find_status(&self.statuses, tower_id) {
            None => Err(ClientError::UnknownTower),
            Some(i) => {
                let status = self.statuses[i].status;
                proof {
                    assert forall|k: int|
                        0 <= k < self.statuses@.len() && (#[trigger] self.statuses@[k]).tower_id@
                            == tower_id@ implies k == i as int by {
                        lemma_unique_status_index(self.statuses@, k, i as int);
                    }
                }
                if matches!(status, TowerStatus::TemporaryUnreachable) {
                    self.set_tower_status(tower_id.clone(), TowerStatus::Abandoned);
                    proof {
                        assert(self.statuses@[i as int].status is Abandoned);
                    }
                    Ok(AbandonOutcome::Flagged)
                } else {
                    match self.remove_tower(tower_id) {
                        Ok(()) => Ok(AbandonOutcome::Removed),
                        Err(e) => {
                            proof {
                                assert(false);
                            }
                            Err(e)
                        },
                    }
                }
            },
        }
    }
}


impl WTClient {
    /// Processes a tower's registration reply: builds the receipt over the
    /// client's user id, verifies that it recovers to the advertised tower
    /// id, and stores the tower record, rejecting receipts that do not
    /// strictly extend the stored subscription.
    pub fn process_registration(
        &mut self,
        tower_id: &TowerId,
        net_addr: String,
        available_slots: u32,
        subscription_start: u32,
        subscription_expiry: u32,
        signature: Vec<u8>,
    ) -> (r: Result<RegistrationReceipt, RegisterError>)
        requires
            old(self).wf(),
        ensures
            final(self).wf(),
            final(self).same_queue_and_keys(old(self)),
            r is Err ==> *final(self) == *old(self),
            ({
                let rrv = crate::receipts::RegistrationReceiptView {
                    user_id: old(self).user_id@,
                    available_slots,
                    subscription_start,
                    subscription_expiry,
                    signature: Some(signature@),
                };
                &&& (r matches Err(RegisterError::InvalidSignature)
                    <==> !crate::receipts::registration_verifies(rrv, tower_id@))
                &&& (r matches Err(RegisterError::Registration(RegistrationError::Expiry))
                    <==> crate::receipts::registration_verifies(rrv, tower_id@) && exists|j: int|
                    0 <= j < old(self).dbm.towers@.len() && (#[trigger] old(
                        self,
                    ).dbm.towers@[j]).tower_id@ == tower_id@ && subscription_expiry <= old(
                        self,
                    ).dbm.towers@[j].subscription_expiry)
                &&& (r matches Err(RegisterError::Registration(RegistrationError::Slots))
                    <==> crate::receipts::registration_verifies(rrv, tower_id@) && exists|j: int|
                    0 <= j < old(self).dbm.towers@.len() && (#[trigger] old(
                        self,
                    ).dbm.towers@[j]).tower_id@ == tower_id@ && subscription_expiry > old(
                        self,
                    ).dbm.towers@[j].subscription_expiry && available_slots <= old(
                        self,
                    ).dbm.towers@[j].available_slots)
                &&& (r matches Ok(receipt) ==> receipt@ == rrv
                    && crate::receipts::registration_verifies(rrv, tower_id@) && final(self).known(
                    tower_id@,
                ))
                &&& (r is Ok ==> forall|j: int|
                    0 <= j < old(self).dbm.towers@.len() && (#[trigger] old(
                        self,
                    ).dbm.towers@[j]).tower_id@ == tower_id@ ==> record_updated(
                        final(self).dbm.towers@[j],
                        old(self).dbm.towers@[j],
                        net_addr@,
                        rrv,
                    ))
                &&& (r is Ok && !has_tower(old(self).dbm.towers@, tower_id@) ==> record_fresh(
                    final(self).dbm.towers@[old(self).dbm.towers@.len() as int],
                    tower_id@,
                    net_addr@,
                    rrv,
                ))
            }),
    {
        let receipt = RegistrationReceipt::with_signature(
            self.user_id.clone(),
            available_slots,
            subscription_start,
            subscription_expiry,
            signature,
        );
        if !receipt.verify(tower_id) {
            return Err(RegisterError::InvalidSignature);
        }
        match self.add_update_tower(tower_id.clone(), net_addr, &receipt) {
            Ok(()) => Ok(receipt),
            Err(e) => Err(RegisterError::Registration(e)),
        }
    }
}

} // verus!
