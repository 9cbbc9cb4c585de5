//! The persistent store's logical surface: client key, tower records,
//! delivered receipts, pending and invalid appointments, misbehavior
//! proofs.
//!
//! The store models the durable state as verified data. Every operation is
//! atomic: it leaves the store well formed, and in particular keeps the
//! per-tower delivered, pending and invalid sets pairwise disjoint.

use vstd::prelude::*;
use crate::byteops::clone_bytes;
use crate::receipts::{AppointmentReceipt, MisbehaviorProof, RegistrationReceipt};
use crate::types::{Appointment, AppointmentStatus, Locator, TowerId, TowerStatus};

verus! {

/// One delivered appointment: the tower's receipt and the slot count the
/// tower reported with it.
#[derive(Debug, PartialEq, Eq)]
pub struct DeliveredRow {
    pub locator: Locator,
    pub available_slots: u32,
    pub receipt: AppointmentReceipt,
}

impl Clone for DeliveredRow {
    fn clone(&self) -> (r: Self)
        ensures
            r.locator@ == self.locator@,
            r.available_slots == self.available_slots,
            r.receipt@ == self.receipt@,
    {
        DeliveredRow {
            locator: self.locator.clone(),
            available_slots: self.available_slots,
            receipt: self.receipt.clone(),
        }
    }
}

/// Everything the store keeps about one tower.
#[derive(Debug, PartialEq, Eq)]
pub struct TowerRecord {
    pub tower_id: TowerId,
    pub net_addr: String,
    pub available_slots: u32,
    pub subscription_start: u32,
    pub subscription_expiry: u32,
    /// The latest registration receipt accepted for this tower.
    pub registration: RegistrationReceipt,
    pub delivered: Vec<DeliveredRow>,
    pub pending: Vec<Locator>,
    pub invalid: Vec<Locator>,
    pub misbehavior: Option<MisbehaviorProof>,
}

/// Whether a sequence of locators holds `l`.
pub open spec fn contains_loc(s: Seq<Locator>, l: Seq<u8>) -> bool {
    exists|i: int| 0 <= i < s.len() && s[i]@ == l
}

/// No locator occurs twice.
pub open spec fn unique_locs(s: Seq<Locator>) -> bool {
    forall|i: int, j: int| 0 <= i < j < s.len() ==> s[i]@ != s[j]@
}

/// Whether a sequence of delivered rows holds `l`.
pub open spec fn contains_del(s: Seq<DeliveredRow>, l: Seq<u8>) -> bool {
    exists|i: int| 0 <= i < s.len() && s[i].locator@ == l
}

/// No delivered row's locator occurs twice.
pub open spec fn unique_dels(s: Seq<DeliveredRow>) -> bool {
    forall|i: int, j: int| 0 <= i < j < s.len() ==> s[i].locator@ != s[j].locator@
}

/// Whether the global appointment table holds a body for `l`.
pub open spec fn contains_app(s: Seq<Appointment>, l: Seq<u8>) -> bool {
    exists|i: int| 0 <= i < s.len() && s[i]@.locator == l
}

/// No appointment body's locator occurs twice.
pub open spec fn unique_apps(s: Seq<Appointment>) -> bool {
    forall|i: int, j: int| 0 <= i < j < s.len() ==> s[i]@.locator != s[j]@.locator
}

/// Whether a tower record for `id` exists.
pub open spec fn has_tower(s: Seq<TowerRecord>, id: Seq<u8>) -> bool {
    exists|i: int| 0 <= i < s.len() && s[i].tower_id@ == id
}

/// No tower id occurs twice.
pub open spec fn unique_towers(s: Seq<TowerRecord>) -> bool {
    forall|i: int, j: int| 0 <= i < j < s.len() ==> s[i].tower_id@ != s[j].tower_id@
}

/// Whether any tower's pending or invalid set references `l`.
pub open spec fn referenced(s: Seq<TowerRecord>, l: Seq<u8>) -> bool {
    exists|i: int|
        0 <= i < s.len() && (contains_loc(#[trigger] s[i].pending@, l) || contains_loc(
            s[i].invalid@,
            l,
        ))
}

impl TowerRecord {
    /// Locator uniqueness: within one tower the delivered, pending and
    /// invalid sets hold no duplicates and are pairwise disjoint.
    pub open spec fn wf(&self) -> bool {
        &&& unique_locs(self.pending@)
        &&& unique_locs(self.invalid@)
        &&& unique_dels(self.delivered@)
        &&& forall|l: Seq<u8>|
            #[trigger] contains_loc(self.pending@, l) ==> !contains_loc(self.invalid@, l)
                && !contains_del(self.delivered@, l)
        &&& forall|l: Seq<u8>| #[trigger] contains_loc(self.invalid@, l) ==> !contains_del(
            self.delivered@,
            l,
        )
        &&& forall|i: int|
            0 <= i < self.delivered@.len() ==> (#[trigger] self.delivered@[i]).receipt@.signature
                is Some
    }

    /// The status the persisted image of a tower implies: misbehaving when
    /// a proof is on record; otherwise temporarily unreachable exactly when
    /// appointments are still pending.
    pub open spec fn derived_status(&self) -> TowerStatus {
        if self.misbehavior is Some {
            TowerStatus::Misbehaving
        } else if self.pending@.len() > 0 {
            TowerStatus::TemporaryUnreachable
        } else {
            TowerStatus::Reachable
        }
    }
}

/// Every pending or invalid locator of this record has a body in `apps`.
pub open spec fn tower_refs_covered(t: TowerRecord, apps: Seq<Appointment>) -> bool {
    forall|l: Seq<u8>|
        #![trigger contains_loc(t.pending@, l)]
        #![trigger contains_loc(t.invalid@, l)]
        contains_loc(t.pending@, l) || contains_loc(t.invalid@, l) ==> contains_app(apps, l)
}

/// The store: the client key, one record per tower, and the global
/// appointment table, in which the body of a pending or invalid
/// appointment is kept once, keyed by locator.
pub struct Store {
    pub client_key: Option<Vec<u8>>,
    pub towers: Vec<TowerRecord>,
    pub appointments: Vec<Appointment>,
}

impl Store {
    /// Well-formedness: unique keys everywhere, each record well formed,
    /// and every pending or invalid locator backed by a body in the table.
    pub open spec fn wf(&self) -> bool {
        &&& unique_towers(self.towers@)
        &&& forall|i: int| 0 <= i < self.towers@.len() ==> (#[trigger] self.towers@[i]).wf()
        &&& unique_apps(self.appointments@)
        &&& forall|i: int|
            0 <= i < self.towers@.len() ==> tower_refs_covered(
                #[trigger] self.towers@[i],
                self.appointments@,
            )
    }

    /// An empty store, as on first run.
    pub fn new() -> (r: Store)
        ensures
            r.wf(),
            r.client_key is None,
            r.towers@.len() == 0,
            r.appointments@.len() == 0,
    {
        Store { client_key: None, towers: Vec::new(), appointments: Vec::new() }
    }

    /// The persisted client secret key, if one was stored.
    pub fn load_client_key(&self) -> (r: Option<Vec<u8>>)
        ensures
            match r {
                Some(k) => self.client_key matches Some(k0) && k0@ == k@,
                None => self.client_key is None,
            },
    {
        match &self.client_key {
            Some(k) => Some(clone_bytes(k)),
            None => None,
        }
    }

    /// Persists the client secret key.
    pub fn store_client_key(&mut self, sk: &Vec<u8>)
        requires
            old(self).wf(),
        ensures
            final(self).wf(),
            final(self).client_key matches Some(k) && k@ == sk@,
            final(self).towers == old(self).towers,
            final(self).appointments == old(self).appointments,
    {
        self.client_key = Some(clone_bytes(sk));
    }
}

/// The index of the record for `id`, if one exists.
pub fn find_tower(towers: &Vec<TowerRecord>, id: &TowerId) -> (r: Option<usize>)
    ensures
        match r {
            Some(i) => i < towers@.len() && towers@[i as int].tower_id@ == id@,
            None => !has_tower(towers@, id@),
        },
{
    let mut i: usize = 0;
    while i < towers.len()
        invariant
            i <= towers@.len(),
            forall|j: int| 0 <= j < i ==> towers@[j].tower_id@ != id@,
        decreases towers@.len() - i,
    {
        if towers[i].tower_id.same(id) {
            return Some(i);
        }
        i += 1;
    }
    None
}

/// The index of `l` in a locator list, if present.
pub fn find_loc(s: &Vec<Locator>, l: &Locator) -> (r: Option<usize>)
    ensures
        match r {
            Some(i) => i < s@.len() && s@[i as int]@ == l@,
            None => !contains_loc(s@, l@),
        },
{
    let mut i: usize = 0;
    while i < s.len()
        invariant
            i <= s@.len(),
            forall|j: int| 0 <= j < i ==> s@[j]@ != l@,
        decreases s@.len() - i,
    {
        if s[i].same(l) {
            return Some(i);
        }
        i += 1;
    }
    None
}

/// The index of the delivered row for `l`, if present.
pub fn find_del(s: &Vec<DeliveredRow>, l: &Locator) -> (r: Option<usize>)
    ensures
        match r {
            Some(i) => i < s@.len() && s@[i as int].locator@ == l@,
            None => !contains_del(s@, l@),
        },
{
    let mut i: usize = 0;
    while i < s.len()
        invariant
            i <= s@.len(),
            forall|j: int| 0 <= j < i ==> s@[j].locator@ != l@,
        decreases s@.len() - i,
    {
        if s[i].locator.same(l) {
            return Some(i);
        }
        i += 1;
    }
    None
}

/// The index of the appointment body for `l`, if present.
pub fn find_app(s: &Vec<Appointment>, l: &Locator) -> (r: Option<usize>)
    ensures
        match r {
            Some(i) => i < s@.len() && s@[i as int]@.locator == l@,
            None => !contains_app(s@, l@),
        },
{
    let mut i: usize = 0;
    while i < s.len()
        invariant
            i <= s@.len(),
            forall|j: int| 0 <= j < i ==> s@[j]@.locator != l@,
        decreases s@.len() - i,
    {
        if s[i].locator.same(l) {
            return Some(i);
        }
        i += 1;
    }
    None
}




/// Removes `l` from a locator list, if present.
pub fn remove_loc(s: &mut Vec<Locator>, l: &Locator)
    requires
        unique_locs(old(s)@),
    ensures
        unique_locs(final(s)@),
        !contains_loc(final(s)@, l@),
        forall|l2: Seq<u8>| l2 != l@ ==> contains_loc(final(s)@, l2) == contains_loc(old(s)@, l2),
        forall|l2: Seq<u8>| #[trigger] contains_loc(final(s)@, l2) ==> contains_loc(old(s)@, l2),
{
    let ghost olds = s@;
    let mut out: Vec<Locator> = Vec::new();
    let mut i: usize = 0;
    while i < s.len()
        invariant
            i <= olds.len(),
            s@ == olds,
            unique_locs(olds),
            unique_locs(out@),
            !contains_loc(out@, l@),
            forall|l2: Seq<u8>| l2 != l@ ==> contains_loc(out@, l2) == contains_loc(
                olds.take(i as int),
                l2,
            ),
            forall|l2: Seq<u8>| #[trigger] contains_loc(out@, l2) ==> contains_loc(olds, l2),
        decreases olds.len() - i,
    {
        let ghost outprev = out@;
        let ghost prev = olds.take(i as int);
        let keep = !s[i].same(l);
        if keep {
            out.push(s[i].clone());
        }
        proof {
            let cur = olds.take(i as int + 1);
            let x = olds[i as int];
            assert forall|l2: Seq<u8>| #[trigger] contains_loc(cur, l2) implies (contains_loc(
                prev,
                l2,
            ) || x@ == l2) by {
                let k = choose|k: int| 0 <= k < cur.len() && cur[k]@ == l2;
                if k < prev.len() {
                    assert(prev[k]@ == l2);
                }
            }
            assert forall|l2: Seq<u8>| contains_loc(prev, l2) implies #[trigger] contains_loc(
                cur,
                l2,
            ) by {
                let k = choose|k: int| 0 <= k < prev.len() && prev[k]@ == l2;
                assert(cur[k]@ == l2);
            }
            assert(cur[i as int]@ == x@);
            assert(contains_loc(cur, x@));
            if keep {
                assert(out@.len() == outprev.len() + 1);
                assert(forall|k: int| 0 <= k < outprev.len() ==> out@[k] == outprev[k]);
                assert(out@[outprev.len() as int]@ == x@);
                assert(contains_loc(out@, x@));
                assert forall|l2: Seq<u8>| #[trigger] contains_loc(out@, l2) implies (contains_loc(
                    outprev,
                    l2,
                ) || x@ == l2) by {
                    let k = choose|k: int| 0 <= k < out@.len() && out@[k]@ == l2;
                    if k < outprev.len() {
                        assert(outprev[k]@ == l2);
                    }
                }
                assert forall|l2: Seq<u8>| contains_loc(outprev, l2) implies #[trigger] contains_loc(
                    out@,
                    l2,
                ) by {
                    let k = choose|k: int| 0 <= k < outprev.len() && outprev[k]@ == l2;
                    assert(out@[k]@ == l2);
                }
                // the locator at i is new to `out`: it does not sit in the prefix
                assert(!contains_loc(outprev, x@)) by {
                    if contains_loc(outprev, x@) {
                        assert(contains_loc(prev, x@));
                        let k = choose|k: int| 0 <= k < prev.len() && prev[k]@ == x@;
                        assert(olds[k]@ == olds[i as int]@);
                        assert(false);
                    }
                }
                assert forall|a: int, b: int| 0 <= a < b < out@.len() implies out@[a]@
                    != out@[b]@ by {
                    if b == outprev.len() {
                        assert(out@[a]@ == outprev[a]@);
                        assert(outprev[a]@ != x@);
                    }
                }
            } else {
                assert(x@ == l@);
            }
        }
        i += 1;
    }
    proof {
        assert(olds.take(olds.len() as int) =~= olds);
    }
    *s = out;
}


/// Pushing a locator adds exactly that locator to the set.
pub proof fn lemma_loc_push(s: Seq<Locator>, x: Locator)
    ensures
        forall|l2: Seq<u8>| #[trigger] contains_loc(s.push(x), l2) == (contains_loc(s, l2) || x@
            == l2),
{
    assert forall|l2: Seq<u8>| #[trigger] contains_loc(s.push(x), l2) implies (contains_loc(s, l2)
        || x@ == l2) by {
        let k = choose|k: int| 0 <= k < s.push(x).len() && s.push(x)[k]@ == l2;
        if k < s.len() {
            assert(s[k]@ == l2);
        }
    }
    assert forall|l2: Seq<u8>| (contains_loc(s, l2) || x@ == l2) implies #[trigger] contains_loc(
        s.push(x),
        l2,
    ) by {
        if contains_loc(s, l2) {
            let k = choose|k: int| 0 <= k < s.len() && s[k]@ == l2;
            assert(s.push(x)[k]@ == l2);
        } else {
            assert(s.push(x)[s.len() as int]@ == l2);
        }
    }
}

/// Pushing a delivered row adds exactly its locator to the set.
pub proof fn lemma_del_push(s: Seq<DeliveredRow>, x: DeliveredRow)
    ensures
        forall|l2: Seq<u8>| #[trigger] contains_del(s.push(x), l2) == (contains_del(s, l2)
            || x.locator@ == l2),
{
    assert forall|l2: Seq<u8>| #[trigger] contains_del(s.push(x), l2) implies (contains_del(s, l2)
        || x.locator@ == l2) by {
        let k = choose|k: int| 0 <= k < s.push(x).len() && s.push(x)[k].locator@ == l2;
        if k < s.len() {
            assert(s[k].locator@ == l2);
        }
    }
    assert forall|l2: Seq<u8>| (contains_del(s, l2) || x.locator@ == l2) implies
        #[trigger] contains_del(s.push(x), l2) by {
        if contains_del(s, l2) {
            let k = choose|k: int| 0 <= k < s.len() && s[k].locator@ == l2;
            assert(s.push(x)[k].locator@ == l2);
        } else {
            assert(s.push(x)[s.len() as int].locator@ == l2);
        }
    }
}

/// Pushing an appointment body adds exactly its locator to the table.
pub proof fn lemma_app_push(s: Seq<Appointment>, x: Appointment)
    ensures
        forall|l2: Seq<u8>| #[trigger] contains_app(s.push(x), l2) == (contains_app(s, l2)
            || x@.locator == l2),
{
    assert forall|l2: Seq<u8>| #[trigger] contains_app(s.push(x), l2) implies (contains_app(s, l2)
        || x@.locator == l2) by {
        let k = choose|k: int| 0 <= k < s.push(x).len() && s.push(x)[k]@.locator == l2;
        if k < s.len() {
            assert(s[k]@.locator == l2);
        }
    }
    assert forall|l2: Seq<u8>| (contains_app(s, l2) || x@.locator == l2) implies
        #[trigger] contains_app(s.push(x), l2) by {
        if contains_app(s, l2) {
            let k = choose|k: int| 0 <= k < s.len() && s[k]@.locator == l2;
            assert(s.push(x)[k]@.locator == l2);
        } else {
            assert(s.push(x)[s.len() as int]@.locator == l2);
        }
    }
}

/// Removing a record at `i` and inserting another at the same place is a
/// pointwise update.
pub proof fn lemma_remove_insert(s: Seq<TowerRecord>, i: int, rec: TowerRecord)
    requires
        0 <= i < s.len(),
    ensures
        s.remove(i).insert(i, rec) =~= s.update(i, rec),
{
}

/// Two indices carrying the same tower id are the same index.
pub proof fn lemma_unique_tower_index(s: Seq<TowerRecord>, i: int, j: int)
    requires
        unique_towers(s),
        0 <= i < s.len(),
        0 <= j < s.len(),
        s[i].tower_id@ == s[j].tower_id@,
    ensures
        i == j,
{
    if i < j {
        assert(s[i].tower_id@ != s[j].tower_id@);
    } else if j < i {
        assert(s[j].tower_id@ != s[i].tower_id@);
    }
}

/// Errors a registration can be rejected with: the receipt does not extend
/// the subscription, or does not grow the slot count.
#[derive(Clone, Copy, Debug, PartialEq, Eq, Structural)]
pub enum RegistrationError {
    /// The receipt's `subscription_expiry` is not above the stored one.
    Expiry,
    /// The receipt's `available_slots` is not above the stored count.
    Slots,
}

impl RegistrationError {
    pub fn is_expiry(&self) -> (r: bool)
        ensures
            r == (*self is Expiry),
    {
        matches!(self, RegistrationError::Expiry)
    }
}

/// How an existing record changes when a new registration is accepted:
/// the address, counters and receipt are replaced; the appointment sets
/// and any misbehavior proof stay.
pub open spec fn record_updated(
    new: TowerRecord,
    old_r: TowerRecord,
    addr: Seq<char>,
    rcpt: crate::receipts::RegistrationReceiptView,
) -> bool {
    &&& new.tower_id@ == old_r.tower_id@
    &&& new.net_addr@ == addr
    &&& new.available_slots == rcpt.available_slots
    &&& new.subscription_start == rcpt.subscription_start
    &&& new.subscription_expiry == rcpt.subscription_expiry
    &&& new.registration@ == rcpt
    &&& new.delivered == old_r.delivered
    &&& new.pending == old_r.pending
    &&& new.invalid == old_r.invalid
    &&& new.misbehavior == old_r.misbehavior
}

/// A record as first registration creates it: empty sets, no proof.
pub open spec fn record_fresh(
    new: TowerRecord,
    tid: Seq<u8>,
    addr: Seq<char>,
    rcpt: crate::receipts::RegistrationReceiptView,
) -> bool {
    &&& new.tower_id@ == tid
    &&& new.net_addr@ == addr
    &&& new.available_slots == rcpt.available_slots
    &&& new.subscription_start == rcpt.subscription_start
    &&& new.subscription_expiry == rcpt.subscription_expiry
    &&& new.registration@ == rcpt
    &&& new.delivered@.len() == 0
    &&& new.pending@.len() == 0
    &&& new.invalid@.len() == 0
    &&& new.misbehavior is None
}

impl Store {
    /// Upserts a tower record from an accepted registration receipt.
    ///
    /// A receipt whose `subscription_expiry` or `available_slots` does not
    /// strictly exceed the stored values is rejected, and nothing changes.
    pub fn store_tower_record(
        &mut self,
        tower_id: &TowerId,
        net_addr: &String,
        receipt: &RegistrationReceipt,
    ) -> (r: Result<(), RegistrationError>)
        requires
            old(self).wf(),
        ensures
            final(self).wf(),
            final(self).client_key == old(self).client_key,
            final(self).appointments == old(self).appointments,
            r is Err ==> *final(self) == *old(self),
            r matches Err(RegistrationError::Expiry) <==> exists|j: int|
                0 <= j < old(self).towers@.len() && (#[trigger] old(self).towers@[j]).tower_id@
                    == tower_id@ && receipt@.subscription_expiry
                    <= old(self).towers@[j].subscription_expiry,
            r matches Err(RegistrationError::Slots) <==> exists|j: int|
                0 <= j < old(self).towers@.len() && (#[trigger] old(self).towers@[j]).tower_id@
                    == tower_id@ && receipt@.subscription_expiry
                    > old(self).towers@[j].subscription_expiry && receipt@.available_slots
                    <= old(self).towers@[j].available_slots,
            r is Ok ==> final(self).towers@.len() == (if has_tower(old(self).towers@, tower_id@) {
                old(self).towers@.len()
            } else {
                old(self).towers@.len() + 1
            }),
            r is Ok ==> forall|j: int|
                0 <= j < old(self).towers@.len() && (#[trigger] old(self).towers@[j]).tower_id@
                    != tower_id@ ==> final(self).towers@[j] == old(self).towers@[j],
            r is Ok ==> forall|j: int|
                0 <= j < old(self).towers@.len() && (#[trigger] old(self).towers@[j]).tower_id@
                    == tower_id@ ==> record_updated(
                    final(self).towers@[j],
                    old(self).towers@[j],
                    net_addr@,
                    receipt@,
                ),
            r is Ok && !has_tower(old(self).towers@, tower_id@) ==> record_fresh(
                final(self).towers@[old(self).towers@.len() as int],
                tower_id@,
                net_addr@,
                receipt@,
            ),
            has_tower(final(self).towers@, tower_id@) <==> (r is Ok || has_tower(
                old(self).towers@,
                tower_id@,
            )),
            forall|id2: Seq<u8>|
                id2 != tower_id@ ==> #[trigger] has_tower(final(self).towers@, id2) == has_tower(
                    old(self).towers@,
                    id2,
                ),
    {
        match find_tower(&self.towers, tower_id) {
            Some(i) => {
                if receipt.subscription_expiry <= self.towers[i].subscription_expiry {
                    return Err(RegistrationError::Expiry);
                }
                if receipt.available_slots <= self.towers[i].available_slots {
                    return Err(RegistrationError::Slots);
                }
                let mut rec = self.towers.remove(i);
                rec.net_addr = net_addr.clone();
                rec.available_slots = receipt.available_slots();
                rec.subscription_start = receipt.subscription_start();
                rec.subscription_expiry = receipt.subscription_expiry();
                rec.registration = receipt.clone();
                self.towers.insert(i, rec);
                proof {
                    lemma_remove_insert(old(self).towers@, i as int, self.towers@[i as int]);
                    assert(self.towers@ =~= old(self).towers@.update(
                        i as int,
                        self.towers@[i as int],
                    ));
                    let olds = old(self).towers@;
                    let news = self.towers@;
                    let ii = i as int;
                    assert forall|j: int|
                        0 <= j < olds.len() && (#[trigger] olds[j]).tower_id@
                            == tower_id@ implies j == ii by {
                        lemma_unique_tower_index(olds, j, ii);
                    }
                    assert(olds[ii].wf());
                    assert(news[ii].wf());
                    assert forall|j: int| 0 <= j < news.len() implies (#[trigger] news[j]).wf() by {
                        if j != ii {
                            assert(news[j] == olds[j]);
                        }
                    }
                    assert forall|a: int, b: int| 0 <= a < b < news.len() implies news[a].tower_id@
                        != news[b].tower_id@ by {
                        assert(news[ii].tower_id@ == olds[ii].tower_id@);
                        if a != ii {
                            assert(news[a] == olds[a]);
                        }
                        if b != ii {
                            assert(news[b] == olds[b]);
                        }
                        assert(olds[a].tower_id@ != olds[b].tower_id@);
                    }
                    assert forall|id2: Seq<u8>| id2 != tower_id@ implies #[trigger] has_tower(
                        news,
                        id2,
                    ) == has_tower(olds, id2) by {
                        if has_tower(news, id2) {
                            let k = choose|k: int| 0 <= k < news.len() && news[k].tower_id@ == id2;
                            assert(k != ii);
                            assert(news[k] == olds[k]);
                        }
                        if has_tower(olds, id2) {
                            let k = choose|k: int| 0 <= k < olds.len() && olds[k].tower_id@ == id2;
                            assert(k != ii);
                            assert(news[k] == olds[k]);
                        }
                    }
                    assert forall|j: int, l: Seq<u8>|
                        0 <= j < news.len() && (#[trigger] contains_loc(news[j].pending@, l)
                            || #[trigger] contains_loc(news[j].invalid@, l)) implies contains_app(
                        self.appointments@,
                        l,
                    ) by {
                        if j == ii {
                            assert(news[ii].pending == olds[ii].pending);
                            assert(news[ii].invalid == olds[ii].invalid);
                            assert(contains_loc(olds[j].pending@, l) || contains_loc(
                                olds[j].invalid@,
                                l,
                            ));
                        } else {
                            assert(news[j] == olds[j]);
                            assert(contains_loc(olds[j].pending@, l) || contains_loc(
                                olds[j].invalid@,
                                l,
                            ));
                        }
                    }
                }
                Ok(())
            },
            None => {
                let rec = TowerRecord {
                    tower_id: tower_id.clone(),
                    net_addr: net_addr.clone(),
                    available_slots: receipt.available_slots(),
                    subscription_start: receipt.subscription_start(),
                    subscription_expiry: receipt.subscription_expiry(),
                    registration: receipt.clone(),
                    delivered: Vec::new(),
                    pending: Vec::new(),
                    invalid: Vec::new(),
                    misbehavior: None,
                };
                self.towers.push(rec);
                proof {
                    let olds = old(self).towers@;
                    let news = self.towers@;
                    let n = olds.len() as int;
                    assert(news[n].tower_id@ == tower_id@);
                    assert(news[n].wf());
                    assert forall|j: int| 0 <= j < news.len() implies (#[trigger] news[j]).wf() by {
                        if j < n {
                            assert(news[j] == olds[j]);
                        }
                    }
                    assert forall|a: int, b: int| 0 <= a < b < news.len() implies news[a].tower_id@
                        != news[b].tower_id@ by {
                        if b < n {
                            assert(olds[a].tower_id@ != olds[b].tower_id@);
                        } else {
                            assert(news[a] == olds[a]);
                            assert(!has_tower(olds, tower_id@));
                        }
                    }
                    assert forall|id2: Seq<u8>| id2 != tower_id@ implies #[trigger] has_tower(
                        news,
                        id2,
                    ) == has_tower(olds, id2) by {
                        if has_tower(news, id2) {
                            let k = choose|k: int| 0 <= k < news.len() && news[k].tower_id@ == id2;
                            assert(k != n);
                            assert(news[k] == olds[k]);
                        }
                        if has_tower(olds, id2) {
                            let k = choose|k: int| 0 <= k < olds.len() && olds[k].tower_id@ == id2;
                            assert(news[k] == olds[k]);
                        }
                    }
                    assert forall|j: int, l: Seq<u8>|
                        0 <= j < news.len() && (#[trigger] contains_loc(news[j].pending@, l)
                            || #[trigger] contains_loc(news[j].invalid@, l)) implies contains_app(
                        self.appointments@,
                        l,
                    ) by {
                        if j < n {
                            assert(news[j] == olds[j]);
                            assert(contains_loc(olds[j].pending@, l) || contains_loc(
                                olds[j].invalid@,
                                l,
                            ));
                        }
                    }
                }
                Ok(())
            },
        }
    }
}


/// Updating one record in place, keeping its id well formed, keeps the
/// tower list well formed.
pub proof fn lemma_towers_update(pre: Seq<TowerRecord>, post: Seq<TowerRecord>, i: int)
    requires
        unique_towers(pre),
        forall|j: int| 0 <= j < pre.len() ==> (#[trigger] pre[j]).wf(),
        0 <= i < pre.len(),
        post == pre.update(i, post[i]),
        post[i].wf(),
        post[i].tower_id@ == pre[i].tower_id@,
    ensures
        unique_towers(post),
        forall|j: int| 0 <= j < post.len() ==> (#[trigger] post[j]).wf(),
        forall|id: Seq<u8>| #[trigger] has_tower(post, id) == has_tower(pre, id),
{
    assert forall|j: int| 0 <= j < post.len() implies (#[trigger] post[j]).wf() by {
        if j != i {
            assert(post[j] == pre[j]);
        }
    }
    assert forall|a: int, b: int| 0 <= a < b < post.len() implies post[a].tower_id@
        != post[b].tower_id@ by {
        if a != i {
            assert(post[a] == pre[a]);
        }
        if b != i {
            assert(post[b] == pre[b]);
        }
        assert(pre[a].tower_id@ != pre[b].tower_id@);
    }
    assert forall|id: Seq<u8>| #[trigger] has_tower(post, id) == has_tower(pre, id) by {
        if has_tower(post, id) {
            let k = choose|k: int| 0 <= k < post.len() && post[k].tower_id@ == id;
            assert(pre[k].tower_id@ == id);
        }
        if has_tower(pre, id) {
            let k = choose|k: int| 0 <= k < pre.len() && pre[k].tower_id@ == id;
            assert(post[k].tower_id@ == id);
        }
    }
}

/// Removing an appointment body removes exactly its locator from the table.
pub proof fn lemma_app_remove(s: Seq<Appointment>, k: int)
    requires
        unique_apps(s),
        0 <= k < s.len(),
    ensures
        unique_apps(s.remove(k)),
        !contains_app(s.remove(k), s[k]@.locator),
        forall|l2: Seq<u8>| l2 != s[k]@.locator ==> contains_app(s.remove(k), l2) == contains_app(
            s,
            l2,
        ),
        forall|j: int|
            0 <= j < s.remove(k).len() ==> exists|m: int|
                0 <= m < s.len() && #[trigger] s.remove(k)[j] == s[m],
{
    let post = s.remove(k);
    assert forall|j: int|
        0 <= j < post.len() implies exists|m: int| 0 <= m < s.len() && #[trigger] post[j]
        == s[m] by {
        if j < k {
            assert(post[j] == s[j]);
        } else {
            assert(post[j] == s[j + 1]);
        }
    }
    assert forall|a: int, b: int| 0 <= a < b < post.len() implies post[a]@.locator
        != post[b]@.locator by {
        if b < k {
        } else if a < k {
            assert(post[a] == s[a] && post[b] == s[b + 1]);
        } else {
            assert(post[a] == s[a + 1] && post[b] == s[b + 1]);
        }
    }
    assert forall|l2: Seq<u8>| #[trigger] contains_app(post, l2) implies contains_app(s, l2) && (l2
        == s[k]@.locator ==> false) by {
        let j = choose|j: int| 0 <= j < post.len() && post[j]@.locator == l2;
        if j < k {
            assert(s[j]@.locator == l2);
            if l2 == s[k]@.locator {
                assert(s[j]@.locator == s[k]@.locator);
                assert(false);
            }
        } else {
            assert(s[j + 1]@.locator == l2);
            if l2 == s[k]@.locator {
                assert(false);
            }
        }
    }
    assert forall|l2: Seq<u8>| l2 != s[k]@.locator && contains_app(s, l2) implies
        #[trigger] contains_app(post, l2) by {
        let j = choose|j: int| 0 <= j < s.len() && s[j]@.locator == l2;
        if j < k {
            assert(post[j]@.locator == l2);
        } else {
            assert(j != k);
            assert(post[j - 1]@.locator == l2);
        }
    }
}

/// Whether any tower still references `l` from its pending or invalid set.
pub fn is_referenced(towers: &Vec<TowerRecord>, l: &Locator) -> (r: bool)
    ensures
        r == referenced(towers@, l@),
{
    let mut i: usize = 0;
    while i < towers.len()
        invariant
            i <= towers@.len(),
            forall|j: int| 0 <= j < i ==> !contains_loc(#[trigger] towers@[j].pending@, l@),
            forall|j: int| 0 <= j < i ==> !contains_loc(#[trigger] towers@[j].invalid@, l@),
        decreases towers@.len() - i,
    {
        let pend_hit = find_loc(&towers[i].pending, l);
        let inv_hit = find_loc(&towers[i].invalid, l);
        if pend_hit.is_some() || inv_hit.is_some() {
            return true;
        }
        proof {
            assert(!contains_loc(towers@[i as int].pending@, l@));
            assert(!contains_loc(towers@[i as int].invalid@, l@));
        }
        i += 1;
    }
    false
}

/// How one record changes when an appointment is recorded delivered: the
/// locator moves out of pending and invalid into delivered, and the slot
/// count the tower reported replaces the stored one.
pub open spec fn delivered_added(
    new: TowerRecord,
    old_r: TowerRecord,
    l: Seq<u8>,
    slots: u32,
    rcpt: crate::receipts::AppointmentReceiptView,
) -> bool {
    &&& new.tower_id@ == old_r.tower_id@
    &&& new.net_addr == old_r.net_addr
    &&& new.available_slots == slots
    &&& new.subscription_start == old_r.subscription_start
    &&& new.subscription_expiry == old_r.subscription_expiry
    &&& new.registration == old_r.registration
    &&& new.misbehavior == old_r.misbehavior
    &&& !contains_loc(new.pending@, l)
    &&& forall|l2: Seq<u8>| l2 != l ==> contains_loc(new.pending@, l2) == contains_loc(
        old_r.pending@,
        l2,
    )
    &&& !contains_loc(new.invalid@, l)
    &&& forall|l2: Seq<u8>| l2 != l ==> contains_loc(new.invalid@, l2) == contains_loc(
        old_r.invalid@,
        l2,
    )
    &&& contains_del(new.delivered@, l)
    &&& forall|l2: Seq<u8>| l2 != l ==> contains_del(new.delivered@, l2) == contains_del(
        old_r.delivered@,
        l2,
    )
    &&& !contains_del(old_r.delivered@, l) ==> exists|k: int|
        0 <= k < new.delivered@.len() && (#[trigger] new.delivered@[k]).locator@ == l
            && new.delivered@[k].receipt@ == rcpt && new.delivered@[k].available_slots == slots
}

/// How one record changes when an appointment becomes pending: nothing, if
/// the locator is already tracked anywhere for this tower; otherwise the
/// locator joins the pending set.
pub open spec fn pending_added(new: TowerRecord, old_r: TowerRecord, l: Seq<u8>) -> bool {
    &&& new.tower_id@ == old_r.tower_id@
    &&& new.net_addr == old_r.net_addr
    &&& new.available_slots == old_r.available_slots
    &&& new.subscription_start == old_r.subscription_start
    &&& new.subscription_expiry == old_r.subscription_expiry
    &&& new.registration == old_r.registration
    &&& new.delivered == old_r.delivered
    &&& new.invalid == old_r.invalid
    &&& new.misbehavior == old_r.misbehavior
    &&& if contains_loc(old_r.pending@, l) || contains_loc(old_r.invalid@, l) || contains_del(
        old_r.delivered@,
        l,
    ) {
        new.pending == old_r.pending
    } else {
        contains_loc(new.pending@, l) && forall|l2: Seq<u8>|
            l2 != l ==> contains_loc(new.pending@, l2) == contains_loc(old_r.pending@, l2)
    }
}

/// How one record changes when an appointment is recorded invalid: the
/// locator leaves pending and, unless it was already delivered, joins the
/// invalid set.
pub open spec fn invalid_added(new: TowerRecord, old_r: TowerRecord, l: Seq<u8>) -> bool {
    &&& new.tower_id@ == old_r.tower_id@
    &&& new.net_addr == old_r.net_addr
    &&& new.available_slots == old_r.available_slots
    &&& new.subscription_start == old_r.subscription_start
    &&& new.subscription_expiry == old_r.subscription_expiry
    &&& new.registration == old_r.registration
    &&& new.delivered == old_r.delivered
    &&& new.misbehavior == old_r.misbehavior
    &&& !contains_loc(new.pending@, l)
    &&& forall|l2: Seq<u8>| l2 != l ==> contains_loc(new.pending@, l2) == contains_loc(
        old_r.pending@,
        l2,
    )
    &&& if contains_del(old_r.delivered@, l) {
        new.invalid == old_r.invalid
    } else {
        contains_loc(new.invalid@, l) && forall|l2: Seq<u8>|
            l2 != l ==> contains_loc(new.invalid@, l2) == contains_loc(old_r.invalid@, l2)
    }
}

/// How one record changes when a pending appointment is deleted.
pub open spec fn pending_removed(new: TowerRecord, old_r: TowerRecord, l: Seq<u8>) -> bool {
    &&& new.tower_id@ == old_r.tower_id@
    &&& new.net_addr == old_r.net_addr
    &&& new.available_slots == old_r.available_slots
    &&& new.subscription_start == old_r.subscription_start
    &&& new.subscription_expiry == old_r.subscription_expiry
    &&& new.registration == old_r.registration
    &&& new.delivered == old_r.delivered
    &&& new.invalid == old_r.invalid
    &&& new.misbehavior == old_r.misbehavior
    &&& !contains_loc(new.pending@, l)
    &&& forall|l2: Seq<u8>| l2 != l ==> contains_loc(new.pending@, l2) == contains_loc(
        old_r.pending@,
        l2,
    )
}

/// How one record changes when a misbehavior proof is persisted: the
/// proof is set, everything else stays.
pub open spec fn proof_set(
    new: TowerRecord,
    old_r: TowerRecord,
    ev: crate::receipts::MisbehaviorProofView,
) -> bool {
    &&& new.tower_id@ == old_r.tower_id@
    &&& new.net_addr == old_r.net_addr
    &&& new.available_slots == old_r.available_slots
    &&& new.subscription_start == old_r.subscription_start
    &&& new.subscription_expiry == old_r.subscription_expiry
    &&& new.registration == old_r.registration
    &&& new.delivered == old_r.delivered
    &&& new.pending == old_r.pending
    &&& new.invalid == old_r.invalid
    &&& new.misbehavior matches Some(p) && p@ == ev
}

impl Store {
    /// Records a delivered appointment: stores the tower's receipt, moves
    /// the locator out of pending and invalid, and takes over the slot
    /// count the tower reported.
    pub fn store_appointment_receipt(
        &mut self,
        tower_id: &TowerId,
        locator: &Locator,
        available_slots: u32,
        receipt: &AppointmentReceipt,
    )
        requires
            old(self).wf(),
            has_tower(old(self).towers@, tower_id@),
            receipt@.signature is Some,
        ensures
            final(self).wf(),
            final(self).client_key == old(self).client_key,
            final(self).appointments == old(self).appointments,
            final(self).towers@.len() == old(self).towers@.len(),
            forall|j: int|
                0 <= j < old(self).towers@.len() && (#[trigger] old(self).towers@[j]).tower_id@
                    != tower_id@ ==> final(self).towers@[j] == old(self).towers@[j],
            forall|id2: Seq<u8>|
                #[trigger] has_tower(final(self).towers@, id2) == has_tower(old(self).towers@, id2),
            forall|j: int|
                0 <= j < old(self).towers@.len() && (#[trigger] old(self).towers@[j]).tower_id@
                    == tower_id@ ==> delivered_added(
                    final(self).towers@[j],
                    old(self).towers@[j],
                    locator@,
                    available_slots,
                    receipt@,
                ),
    {
        match find_tower(&self.towers, tower_id) {
            None => {
                proof {
                    assert(false);
                }
            },
            Some(i) => {
                let mut rec = self.towers.remove(i);
                let ghost old_rec = old(self).towers@[i as int];
                remove_loc(&mut rec.pending, locator);
                remove_loc(&mut rec.invalid, locator);
                rec.available_slots = available_slots;
                if find_del(&rec.delivered, locator).is_none() {
                    let ghost dels = rec.delivered@;
                    rec.delivered.push(
                        DeliveredRow {
                            locator: locator.clone(),
                            available_slots,
                            receipt: receipt.clone(),
                        },
                    );
                    proof {
                        lemma_del_push(dels, rec.delivered@.last());
                    }
                }
                self.towers.insert(i, rec);
                proof {
                    lemma_remove_insert(old(self).towers@, i as int, self.towers@[i as int]);
                    assert(self.towers@ =~= old(self).towers@.update(
                        i as int,
                        self.towers@[i as int],
                    ));
                    let olds = old(self).towers@;
                    let news = self.towers@;
                    let ii = i as int;
                    assert forall|j: int|
                        0 <= j < olds.len() && (#[trigger] olds[j]).tower_id@
                            == tower_id@ implies j == ii by {
                        lemma_unique_tower_index(olds, j, ii);
                    }
                    assert(news[ii].wf());
                    lemma_towers_update(olds, news, ii);
                    assert forall|j: int, l: Seq<u8>|
                        0 <= j < news.len() && (#[trigger] contains_loc(news[j].pending@, l)
                            || #[trigger] contains_loc(news[j].invalid@, l)) implies contains_app(
                        self.appointments@,
                        l,
                    ) by {
                        if j == ii {
                            assert(contains_loc(olds[ii].pending@, l) || contains_loc(
                                olds[ii].invalid@,
                                l,
                            ));
                            assert(tower_refs_covered(olds[ii], old(self).appointments@));
                        } else {
                            assert(news[j] == olds[j]);
                            assert(contains_loc(olds[j].pending@, l) || contains_loc(
                                olds[j].invalid@,
                                l,
                            ));
                            assert(tower_refs_covered(olds[j], old(self).appointments@));
                        }
                    }
                    assert(delivered_added(news[ii], olds[ii], locator@, available_slots, receipt@));
                }
            },
        }
    }

    /// Stores a pending appointment for a tower, keeping its body once in
    /// the global table. A locator already tracked for the tower is left
    /// where it is.
    pub fn store_pending_appointment(&mut self, tower_id: &TowerId, appointment: &Appointment)
        requires
            old(self).wf(),
            has_tower(old(self).towers@, tower_id@),
        ensures
            final(self).wf(),
            final(self).client_key == old(self).client_key,
            final(self).towers@.len() == old(self).towers@.len(),
            forall|j: int|
                0 <= j < old(self).towers@.len() && (#[trigger] old(self).towers@[j]).tower_id@
                    != tower_id@ ==> final(self).towers@[j] == old(self).towers@[j],
            forall|id2: Seq<u8>|
                #[trigger] has_tower(final(self).towers@, id2) == has_tower(old(self).towers@, id2),
            forall|j: int|
                0 <= j < old(self).towers@.len() && (#[trigger] old(self).towers@[j]).tower_id@
                    == tower_id@ ==> pending_added(
                    final(self).towers@[j],
                    old(self).towers@[j],
                    appointment@.locator,
                ),
            forall|l2: Seq<u8>|
                l2 != appointment@.locator ==> contains_app(final(self).appointments@, l2)
                    == contains_app(old(self).appointments@, l2),
            contains_app(old(self).appointments@, appointment@.locator) ==> contains_app(
                final(self).appointments@,
                appointment@.locator,
            ),
            !contains_app(old(self).appointments@, appointment@.locator) && contains_app(
                final(self).appointments@,
                appointment@.locator,
            ) ==> exists|k: int|
                0 <= k < final(self).appointments@.len() && (#[trigger] final(self).appointments@[k])@ == appointment@,
    {
        match find_tower(&self.towers, tower_id) {
            None => {
                proof {
                    assert(false);
                }
            },
            Some(i) => {
                let mut rec = self.towers.remove(i);
                let already = find_loc(&rec.pending, &appointment.locator).is_some() || find_loc(
                    &rec.invalid,
                    &appointment.locator,
                ).is_some() || find_del(&rec.delivered, &appointment.locator).is_some();
                if !already {
                    let ghost pend = rec.pending@;
                    rec.pending.push(appointment.locator.clone());
                    proof {
                        lemma_loc_push(pend, rec.pending@.last());
                    }
                }
                self.towers.insert(i, rec);
                if !already {
                    if find_app(&self.appointments, &appointment.locator).is_none() {
                        let ghost apps = self.appointments@;
                        self.appointments.push(appointment.clone());
                        proof {
                            lemma_app_push(apps, self.appointments@.last());
                        }
                    }
                }
                proof {
                    lemma_remove_insert(old(self).towers@, i as int, self.towers@[i as int]);
                    assert(self.towers@ =~= old(self).towers@.update(
                        i as int,
                        self.towers@[i as int],
                    ));
                    let olds = old(self).towers@;
                    let news = self.towers@;
                    let ii = i as int;
                    assert forall|j: int|
                        0 <= j < olds.len() && (#[trigger] olds[j]).tower_id@
                            == tower_id@ implies j == ii by {
                        lemma_unique_tower_index(olds, j, ii);
                    }
                    assert(news[ii].wf());
                    lemma_towers_update(olds, news, ii);
                    assert forall|j: int, l: Seq<u8>|
                        0 <= j < news.len() && (#[trigger] contains_loc(news[j].pending@, l)
                            || #[trigger] contains_loc(news[j].invalid@, l)) implies contains_app(
                        self.appointments@,
                        l,
                    ) by {
                        if j == ii {
                            if contains_loc(news[ii].pending@, l) && l == appointment@.locator
                                && !already {
                                assert(contains_app(self.appointments@, l));
                            } else {
                                assert(contains_loc(olds[ii].pending@, l) || contains_loc(
                                    olds[ii].invalid@,
                                    l,
                                ));
                                assert(tower_refs_covered(olds[ii], old(self).appointments@));
                                assert(contains_app(old(self).appointments@, l));
                            }
                        } else {
                            assert(news[j] == olds[j]);
                            assert(contains_loc(olds[j].pending@, l) || contains_loc(
                                olds[j].invalid@,
                                l,
                            ));
                            assert(tower_refs_covered(olds[j], old(self).appointments@));
                            assert(contains_app(old(self).appointments@, l));
                        }
                    }
                    assert(pending_added(news[ii], olds[ii], appointment@.locator));
                }
            },
        }
    }

    /// Records an appointment the tower rejected as invalid: the locator
    /// moves out of pending into the invalid set, its body staying in the
    /// global table.
    pub fn store_invalid_appointment(&mut self, tower_id: &TowerId, appointment: &Appointment)
        requires
            old(self).wf(),
            has_tower(old(self).towers@, tower_id@),
        ensures
            final(self).wf(),
            final(self).client_key == old(self).client_key,
            final(self).towers@.len() == old(self).towers@.len(),
            forall|j: int|
                0 <= j < old(self).towers@.len() && (#[trigger] old(self).towers@[j]).tower_id@
                    != tower_id@ ==> final(self).towers@[j] == old(self).towers@[j],
            forall|id2: Seq<u8>|
                #[trigger] has_tower(final(self).towers@, id2) == has_tower(old(self).towers@, id2),
            forall|j: int|
                0 <= j < old(self).towers@.len() && (#[trigger] old(self).towers@[j]).tower_id@
                    == tower_id@ ==> invalid_added(
                    final(self).towers@[j],
                    old(self).towers@[j],
                    appointment@.locator,
                ),
            forall|l2: Seq<u8>|
                l2 != appointment@.locator ==> contains_app(final(self).appointments@, l2)
                    == contains_app(old(self).appointments@, l2),
            contains_app(old(self).appointments@, appointment@.locator) ==> contains_app(
                final(self).appointments@,
                appointment@.locator,
            ),
            !contains_app(old(self).appointments@, appointment@.locator) && contains_app(
                final(self).appointments@,
                appointment@.locator,
            ) ==> exists|k: int|
                0 <= k < final(self).appointments@.len() && (#[trigger] final(self).appointments@[k])@ == appointment@,
    {
        match find_tower(&self.towers, tower_id) {
            None => {
                proof {
                    assert(false);
                }
            },
            Some(i) => {
                let mut rec = self.towers.remove(i);
                remove_loc(&mut rec.pending, &appointment.locator);
                let already = find_loc(&rec.invalid, &appointment.locator).is_some() || find_del(
                    &rec.delivered,
                    &appointment.locator,
                ).is_some();
                if !already {
                    let ghost inv = rec.invalid@;
                    rec.invalid.push(appointment.locator.clone());
                    proof {
                        lemma_loc_push(inv, rec.invalid@.last());
                    }
                }
                self.towers.insert(i, rec);
                if !already {
                    if find_app(&self.appointments, &appointment.locator).is_none() {
                        let ghost apps = self.appointments@;
                        self.appointments.push(appointment.clone());
                        proof {
                            lemma_app_push(apps, self.appointments@.last());
                        }
                    }
                }
                proof {
                    lemma_remove_insert(old(self).towers@, i as int, self.towers@[i as int]);
                    assert(self.towers@ =~= old(self).towers@.update(
                        i as int,
                        self.towers@[i as int],
                    ));
                    let olds = old(self).towers@;
                    let news = self.towers@;
                    let ii = i as int;
                    assert forall|j: int|
                        0 <= j < olds.len() && (#[trigger] olds[j]).tower_id@
                            == tower_id@ implies j == ii by {
                        lemma_unique_tower_index(olds, j, ii);
                    }
                    assert(news[ii].wf());
                    lemma_towers_update(olds, news, ii);
                    assert forall|j: int, l: Seq<u8>|
                        0 <= j < news.len() && (#[trigger] contains_loc(news[j].pending@, l)
                            || #[trigger] contains_loc(news[j].invalid@, l)) implies contains_app(
                        self.appointments@,
                        l,
                    ) by {
                        if j == ii {
                            if contains_loc(news[ii].invalid@, l) && l == appointment@.locator
                                && !already {
                                assert(contains_app(self.appointments@, l));
                            } else {
                                if contains_loc(news[ii].pending@, l) {
                                    assert(l != appointment@.locator);
                                    assert(contains_loc(olds[ii].pending@, l));
                                } else {
                                    assert(contains_loc(news[ii].invalid@, l));
                                    if already {
                                        assert(news[ii].invalid == olds[ii].invalid);
                                        assert(contains_loc(olds[ii].invalid@, l));
                                    } else {
                                        assert(l != appointment@.locator);
                                        assert(contains_loc(olds[ii].invalid@, l));
                                    }
                                }
                                assert(tower_refs_covered(olds[ii], old(self).appointments@));
                                assert(contains_app(old(self).appointments@, l));
                            }
                        } else {
                            assert(news[j] == olds[j]);
                            assert(contains_loc(olds[j].pending@, l) || contains_loc(
                                olds[j].invalid@,
                                l,
                            ));
                            assert(tower_refs_covered(olds[j], old(self).appointments@));
                            assert(contains_app(old(self).appointments@, l));
                        }
                    }
                    assert(invalid_added(news[ii], olds[ii], appointment@.locator));
                }
            },
        }
    }

    /// Deletes a pending appointment for a tower. When the last reference
    /// to the body goes, the body is collected from the global table.
    pub fn delete_pending_appointment(&mut self, tower_id: &TowerId, locator: &Locator)
        requires
            old(self).wf(),
            has_tower(old(self).towers@, tower_id@),
        ensures
            final(self).wf(),
            final(self).client_key == old(self).client_key,
            final(self).towers@.len() == old(self).towers@.len(),
            forall|j: int|
                0 <= j < old(self).towers@.len() && (#[trigger] old(self).towers@[j]).tower_id@
                    != tower_id@ ==> final(self).towers@[j] == old(self).towers@[j],
            forall|id2: Seq<u8>|
                #[trigger] has_tower(final(self).towers@, id2) == has_tower(old(self).towers@, id2),
            forall|j: int|
                0 <= j < old(self).towers@.len() && (#[trigger] old(self).towers@[j]).tower_id@
                    == tower_id@ ==> pending_removed(
                    final(self).towers@[j],
                    old(self).towers@[j],
                    locator@,
                ),
            forall|l2: Seq<u8>|
                l2 != locator@ ==> contains_app(final(self).appointments@, l2) == contains_app(
                    old(self).appointments@,
                    l2,
                ),
            contains_app(final(self).appointments@, locator@) == (contains_app(
                old(self).appointments@,
                locator@,
            ) && referenced(final(self).towers@, locator@)),
    {
        match find_tower(&self.towers, tower_id) {
            None => {
                proof {
                    assert(false);
                }
            },
            Some(i) => {
                let mut rec = self.towers.remove(i);
                remove_loc(&mut rec.pending, locator);
                self.towers.insert(i, rec);
                proof {
                    lemma_remove_insert(old(self).towers@, i as int, self.towers@[i as int]);
                    assert(self.towers@ =~= old(self).towers@.update(
                        i as int,
                        self.towers@[i as int],
                    ));
                    let olds = old(self).towers@;
                    let news = self.towers@;
                    let ii = i as int;
                    assert forall|j: int|
                        0 <= j < olds.len() && (#[trigger] olds[j]).tower_id@
                            == tower_id@ implies j == ii by {
                        lemma_unique_tower_index(olds, j, ii);
                    }
                    assert(news[ii].wf());
                    lemma_towers_update(olds, news, ii);
                    assert forall|j: int, l: Seq<u8>|
                        0 <= j < news.len() && (#[trigger] contains_loc(news[j].pending@, l)
                            || #[trigger] contains_loc(news[j].invalid@, l)) implies contains_app(
                        old(self).appointments@,
                        l,
                    ) by {
                        if j == ii {
                            assert(contains_loc(olds[ii].pending@, l) || contains_loc(
                                olds[ii].invalid@,
                                l,
                            ));
                            assert(tower_refs_covered(olds[ii], old(self).appointments@));
                        } else {
                            assert(news[j] == olds[j]);
                            assert(contains_loc(olds[j].pending@, l) || contains_loc(
                                olds[j].invalid@,
                                l,
                            ));
                            assert(tower_refs_covered(olds[j], old(self).appointments@));
                        }
                    }
                    assert(pending_removed(news[ii], olds[ii], locator@));
                }
                if !is_referenced(&self.towers, locator) {
                    match find_app(&self.appointments, locator) {
                        Some(k) => {
                            let ghost apps = self.appointments@;
                            self.appointments.remove(k);
                            proof {
                                lemma_app_remove(apps, k as int);
                                assert forall|j: int, l: Seq<u8>|
                                    0 <= j < self.towers@.len() && (#[trigger] contains_loc(
                                        self.towers@[j].pending@,
                                        l,
                                    ) || #[trigger] contains_loc(
                                        self.towers@[j].invalid@,
                                        l,
                                    )) implies contains_app(self.appointments@, l) by {
                                    assert(contains_app(apps, l));
                                    assert(l != locator@) by {
                                        if l == locator@ {
                                            assert(referenced(self.towers@, locator@));
                                        }
                                    }
                                }
                            }
                        },
                        None => {},
                    }
                } else {
                }
            },
        }
    }

    /// Persists a misbehavior proof for a tower; the persisted status a
    /// load derives is Misbehaving from here on.
    pub fn store_misbehaving_proof(&mut self, tower_id: &TowerId, evidence: &MisbehaviorProof)
        requires
            old(self).wf(),
            has_tower(old(self).towers@, tower_id@),
        ensures
            final(self).wf(),
            final(self).client_key == old(self).client_key,
            final(self).appointments == old(self).appointments,
            final(self).towers@.len() == old(self).towers@.len(),
            forall|j: int|
                0 <= j < old(self).towers@.len() && (#[trigger] old(self).towers@[j]).tower_id@
                    != tower_id@ ==> final(self).towers@[j] == old(self).towers@[j],
            forall|id2: Seq<u8>|
                #[trigger] has_tower(final(self).towers@, id2) == has_tower(old(self).towers@, id2),
            forall|j: int|
                0 <= j < old(self).towers@.len() && (#[trigger] old(self).towers@[j]).tower_id@
                    == tower_id@ ==> proof_set(
                    final(self).towers@[j],
                    old(self).towers@[j],
                    evidence@,
                ),
    {
        match find_tower(&self.towers, tower_id) {
            None => {
                proof {
                    assert(false);
                }
            },
            Some(i) => {
                let mut rec = self.towers.remove(i);
                rec.misbehavior = Some(evidence.clone());
                self.towers.insert(i, rec);
                proof {
                    lemma_remove_insert(old(self).towers@, i as int, self.towers@[i as int]);
                    assert(self.towers@ =~= old(self).towers@.update(
                        i as int,
                        self.towers@[i as int],
                    ));
                    let olds = old(self).towers@;
                    let news = self.towers@;
                    let ii = i as int;
                    assert forall|j: int|
                        0 <= j < olds.len() && (#[trigger] olds[j]).tower_id@
                            == tower_id@ implies j == ii by {
                        lemma_unique_tower_index(olds, j, ii);
                    }
                    assert(news[ii].wf());
                    lemma_towers_update(olds, news, ii);
                    assert forall|j: int, l: Seq<u8>|
                        0 <= j < news.len() && (#[trigger] contains_loc(news[j].pending@, l)
                            || #[trigger] contains_loc(news[j].invalid@, l)) implies contains_app(
                        self.appointments@,
                        l,
                    ) by {
                        if j == ii {
                            assert(contains_loc(olds[ii].pending@, l) || contains_loc(
                                olds[ii].invalid@,
                                l,
                            ));
                            assert(tower_refs_covered(olds[ii], old(self).appointments@));
                        } else {
                            assert(news[j] == olds[j]);
                            assert(contains_loc(olds[j].pending@, l) || contains_loc(
                                olds[j].invalid@,
                                l,
                            ));
                            assert(tower_refs_covered(olds[j], old(self).appointments@));
                        }
                    }
                }
            },
        }
    }

    /// Whether the global table still holds a body for `locator`.
    pub fn appointment_exists(&self, locator: &Locator) -> (r: bool)
        ensures
            r == contains_app(self.appointments@, locator@),
    {
        find_app(&self.appointments, locator).is_some()
    }
}


/// The in-memory one-line view of a tower: what `listtowers` shows.
#[derive(Debug, PartialEq, Eq)]
pub struct TowerSummary {
    pub net_addr: String,
    pub available_slots: u32,
    pub subscription_expiry: u32,
    pub status: TowerStatus,
    pub pending_appointments: Vec<Locator>,
    pub invalid_appointments: Vec<Locator>,
}

impl TowerSummary {
    /// A summary for a freshly registered tower: reachable, nothing queued.
    pub fn new(net_addr: String, available_slots: u32, subscription_expiry: u32) -> (r:
        TowerSummary)
        ensures
            r.net_addr@ == net_addr@,
            r.available_slots == available_slots,
            r.subscription_expiry == subscription_expiry,
            r.status is Reachable,
            r.pending_appointments@.len() == 0,
            r.invalid_appointments@.len() == 0,
    {
        TowerSummary {
            net_addr,
            available_slots,
            subscription_expiry,
            status: TowerStatus::Reachable,
            pending_appointments: Vec::new(),
            invalid_appointments: Vec::new(),
        }
    }

    /// The same summary under another status.
    pub fn with_status(self, status: TowerStatus) -> (r: TowerSummary)
        ensures
            r.net_addr == self.net_addr,
            r.available_slots == self.available_slots,
            r.subscription_expiry == self.subscription_expiry,
            r.status == status,
            r.pending_appointments == self.pending_appointments,
            r.invalid_appointments == self.invalid_appointments,
    {
        TowerSummary { status, ..self }
    }
}

impl Clone for TowerSummary {
    fn clone(&self) -> (r: Self)
        ensures
            r.net_addr@ == self.net_addr@,
            r.available_slots == self.available_slots,
            r.subscription_expiry == self.subscription_expiry,
            r.status == self.status,
            r.pending_appointments@.len() == self.pending_appointments@.len(),
            forall|k: int|
                0 <= k < self.pending_appointments@.len() ==> r.pending_appointments@[k]@
                    == (#[trigger] self.pending_appointments@[k])@,
            r.invalid_appointments@.len() == self.invalid_appointments@.len(),
            forall|k: int|
                0 <= k < self.invalid_appointments@.len() ==> r.invalid_appointments@[k]@
                    == (#[trigger] self.invalid_appointments@[k])@,
    {
        TowerSummary {
            net_addr: self.net_addr.clone(),
            available_slots: self.available_slots,
            subscription_expiry: self.subscription_expiry,
            status: self.status,
            pending_appointments: clone_locs(&self.pending_appointments),
            invalid_appointments: clone_locs(&self.invalid_appointments),
        }
    }
}

/// The one-line view a full tower info collapses to: the locators of the
/// pending and invalid bodies, everything else copied.
pub fn summary_from_info(info: &TowerInfo) -> (r: TowerSummary)
    ensures
        r.net_addr@ == info.net_addr@,
        r.available_slots == info.available_slots,
        r.subscription_expiry == info.subscription_expiry,
        r.status == info.status,
        r.pending_appointments@.len() == info.pending_appointments@.len(),
        forall|k: int|
            0 <= k < info.pending_appointments@.len() ==> (#[trigger] r.pending_appointments@[k])@
                == info.pending_appointments@[k]@.locator,
        r.invalid_appointments@.len() == info.invalid_appointments@.len(),
        forall|k: int|
            0 <= k < info.invalid_appointments@.len() ==> (#[trigger] r.invalid_appointments@[k])@
                == info.invalid_appointments@[k]@.locator,
{
    let mut pending: Vec<Locator> = Vec::new();
    let mut i: usize = 0;
    while i < info.pending_appointments.len()
        invariant
            i <= info.pending_appointments@.len(),
            pending@.len() == i,
            forall|k: int|
                0 <= k < i ==> (#[trigger] pending@[k])@ == info.pending_appointments@[k]@.locator,
        decreases info.pending_appointments@.len() - i,
    {
        pending.push(info.pending_appointments[i].locator.clone());
        i += 1;
    }
    let mut invalid: Vec<Locator> = Vec::new();
    let mut i: usize = 0;
    while i < info.invalid_appointments.len()
        invariant
            i <= info.invalid_appointments@.len(),
            invalid@.len() == i,
            forall|k: int|
                0 <= k < i ==> (#[trigger] invalid@[k])@ == info.invalid_appointments@[k]@.locator,
        decreases info.invalid_appointments@.len() - i,
    {
        invalid.push(info.invalid_appointments[i].locator.clone());
        i += 1;
    }
    TowerSummary {
        net_addr: info.net_addr.clone(),
        available_slots: info.available_slots,
        subscription_expiry: info.subscription_expiry,
        status: info.status,
        pending_appointments: pending,
        invalid_appointments: invalid,
    }
}

/// Everything the store holds about one tower: what `gettowerinfo` shows.
#[derive(Debug, PartialEq, Eq)]
pub struct TowerInfo {
    pub net_addr: String,
    pub available_slots: u32,
    pub subscription_expiry: u32,
    pub status: TowerStatus,
    /// Delivered appointments: locator and the tower signature receipted.
    pub appointments: Vec<(Locator, Vec<u8>)>,
    pub pending_appointments: Vec<Appointment>,
    pub invalid_appointments: Vec<Appointment>,
    pub misbehaving_proof: Option<MisbehaviorProof>,
}

impl TowerInfo {
    /// Builds a tower info from its parts, reachable, without a proof.
    pub fn new(
        net_addr: String,
        available_slots: u32,
        subscription_expiry: u32,
        appointments: Vec<(Locator, Vec<u8>)>,
        pending_appointments: Vec<Appointment>,
        invalid_appointments: Vec<Appointment>,
    ) -> (r: TowerInfo)
        ensures
            r.net_addr == net_addr,
            r.available_slots == available_slots,
            r.subscription_expiry == subscription_expiry,
            r.status is Reachable,
            r.appointments == appointments,
            r.pending_appointments == pending_appointments,
            r.invalid_appointments == invalid_appointments,
            r.misbehaving_proof is None,
    {
        TowerInfo {
            net_addr,
            available_slots,
            subscription_expiry,
            status: TowerStatus::Reachable,
            appointments,
            pending_appointments,
            invalid_appointments,
            misbehaving_proof: None,
        }
    }

    /// A tower info with no appointments at all.
    pub fn empty(net_addr: String, available_slots: u32, subscription_expiry: u32) -> (r:
        TowerInfo)
        ensures
            r.net_addr == net_addr,
            r.available_slots == available_slots,
            r.subscription_expiry == subscription_expiry,
            r.status is Reachable,
            r.appointments@.len() == 0,
            r.pending_appointments@.len() == 0,
            r.invalid_appointments@.len() == 0,
            r.misbehaving_proof is None,
    {
        TowerInfo::new(
            net_addr,
            available_slots,
            subscription_expiry,
            Vec::new(),
            Vec::new(),
            Vec::new(),
        )
    }

    /// The same info under another status.
    pub fn with_status(self, status: TowerStatus) -> (r: TowerInfo)
        ensures
            r.net_addr == self.net_addr,
            r.available_slots == self.available_slots,
            r.subscription_expiry == self.subscription_expiry,
            r.status == status,
            r.appointments == self.appointments,
            r.pending_appointments == self.pending_appointments,
            r.invalid_appointments == self.invalid_appointments,
            r.misbehaving_proof == self.misbehaving_proof,
    {
        TowerInfo { status, ..self }
    }
}

/// A fresh vector of the same locators.
pub fn clone_locs(s: &Vec<Locator>) -> (r: Vec<Locator>)
    ensures
        r@.len() == s@.len(),
        forall|k: int| 0 <= k < s@.len() ==> r@[k]@ == (#[trigger] s@[k])@,
{
    let mut r: Vec<Locator> = Vec::new();
    let mut i: usize = 0;
    while i < s.len()
        invariant
            i <= s@.len(),
            r@.len() == i,
            forall|k: int| 0 <= k < i ==> r@[k]@ == (#[trigger] s@[k])@,
        decreases s@.len() - i,
    {
        r.push(s[i].clone());
        i += 1;
    }
    r
}

/// The appointment body stored for `locator`.
pub fn get_app(apps: &Vec<Appointment>, locator: &Locator) -> (r: Appointment)
    requires
        contains_app(apps@, locator@),
    ensures
        r@.locator == locator@,
        exists|m: int| 0 <= m < apps@.len() && (#[trigger] apps@[m])@ == r@,
{
    match find_app(apps, locator) {
        Some(k) => {
            let r = apps[k].clone();
            proof {
                assert(apps@[k as int]@ == r@);
            }
            r
        },
        None => {
            proof {
                assert(false);
            }
            let r = apps[0].clone();
            proof {
                assert(apps@[0]@ == r@);
            }
            r
        },
    }
}

/// What a loaded tower info states about a record: the fields, the status
/// the persisted image implies, and the three appointment sets, bodies
/// taken from the global table.
pub open spec fn info_matches(info: TowerInfo, rec: TowerRecord, apps: Seq<Appointment>) -> bool {
    &&& info.net_addr == rec.net_addr
    &&& info.available_slots == rec.available_slots
    &&& info.subscription_expiry == rec.subscription_expiry
    &&& info.status == rec.derived_status()
    &&& info.appointments@.len() == rec.delivered@.len()
    &&& forall|k: int|
        0 <= k < rec.delivered@.len() ==> (#[trigger] info.appointments@[k]).0@
            == rec.delivered@[k].locator@ && rec.delivered@[k].receipt@.signature == Some(
            info.appointments@[k].1@,
        )
    &&& info.pending_appointments@.len() == rec.pending@.len()
    &&& forall|k: int|
        0 <= k < rec.pending@.len() ==> (#[trigger] info.pending_appointments@[k])@.locator
            == rec.pending@[k]@ && exists|m: int|
            0 <= m < apps.len() && (#[trigger] apps[m])@ == info.pending_appointments@[k]@
    &&& info.invalid_appointments@.len() == rec.invalid@.len()
    &&& forall|k: int|
        0 <= k < rec.invalid@.len() ==> (#[trigger] info.invalid_appointments@[k])@.locator
            == rec.invalid@[k]@ && exists|m: int|
            0 <= m < apps.len() && (#[trigger] apps[m])@ == info.invalid_appointments@[k]@
    &&& match (info.misbehaving_proof, rec.misbehavior) {
        (Some(p), Some(q)) => p@ == q@,
        (None, None) => true,
        _ => false,
    }
}

/// What a summary states about a record, under the status the persisted
/// image implies.
pub open spec fn summary_matches(sm: TowerSummary, rec: TowerRecord) -> bool {
    &&& sm.net_addr == rec.net_addr
    &&& sm.available_slots == rec.available_slots
    &&& sm.subscription_expiry == rec.subscription_expiry
    &&& sm.status == rec.derived_status()
    &&& sm.pending_appointments@.len() == rec.pending@.len()
    &&& forall|k: int|
        0 <= k < rec.pending@.len() ==> (#[trigger] sm.pending_appointments@[k])@
            == rec.pending@[k]@
    &&& sm.invalid_appointments@.len() == rec.invalid@.len()
    &&& forall|k: int|
        0 <= k < rec.invalid@.len() ==> (#[trigger] sm.invalid_appointments@[k])@
            == rec.invalid@[k]@
}

impl Store {
    /// Loads everything stored about one tower, or nothing for an unknown
    /// id. The status is the one the persisted image implies.
    pub fn load_tower_record(&self, tower_id: &TowerId) -> (r: Option<TowerInfo>)
        requires
            self.wf(),
        ensures
            r is Some <==> has_tower(self.towers@, tower_id@),
            r matches Some(info) ==> forall|j: int|
                0 <= j < self.towers@.len() && (#[trigger] self.towers@[j]).tower_id@ == tower_id@
                    ==> info_matches(info, self.towers@[j], self.appointments@),
    {
        match find_tower(&self.towers, tower_id) {
            None => None,
            Some(i) => {
                let rec = &self.towers[i];
                let mut delivered: Vec<(Locator, Vec<u8>)> = Vec::new();
                let mut k: usize = 0;
                while k < rec.delivered.len()
                    invariant
                        k <= rec.delivered@.len(),
                        rec.wf(),
                        delivered@.len() == k,
                        forall|m: int|
                            0 <= m < k ==> (#[trigger] delivered@[m]).0@
                                == rec.delivered@[m].locator@ && rec.delivered@[m].receipt@.signature
                                == Some(delivered@[m].1@),
                    decreases rec.delivered@.len() - k,
                {
                    let row = &rec.delivered[k];
                    match row.receipt.signature() {
                        Some(sig) => {
                            delivered.push((row.locator.clone(), sig));
                        },
                        None => {
                            proof {
                                assert(false);
                            }
                        },
                    }
                    k += 1;
                }
                let mut pending: Vec<Appointment> = Vec::new();
                let mut k: usize = 0;
                while k < rec.pending.len()
                    invariant
                        k <= rec.pending@.len(),
                        self.wf(),
                        0 <= i < self.towers@.len(),
                        rec == self.towers@[i as int],
                        pending@.len() == k,
                        forall|m: int|
                            0 <= m < k ==> (#[trigger] pending@[m])@.locator == rec.pending@[m]@
                                && exists|n: int|
                                0 <= n < self.appointments@.len() && (#[trigger] self.appointments@[n])@
                                    == pending@[m]@,
                    decreases rec.pending@.len() - k,
                {
                    proof {
                        assert(contains_loc(rec.pending@, rec.pending@[k as int]@));
                        assert(tower_refs_covered(self.towers@[i as int], self.appointments@));
                    }
                    let body = get_app(&self.appointments, &rec.pending[k]);
                    pending.push(body);
                    k += 1;
                }
                let mut invalid: Vec<Appointment> = Vec::new();
                let mut k: usize = 0;
                while k < rec.invalid.len()
                    invariant
                        k <= rec.invalid@.len(),
                        self.wf(),
                        0 <= i < self.towers@.len(),
                        rec == self.towers@[i as int],
                        invalid@.len() == k,
                        forall|m: int|
                            0 <= m < k ==> (#[trigger] invalid@[m])@.locator == rec.invalid@[m]@
                                && exists|n: int|
                                0 <= n < self.appointments@.len() && (#[trigger] self.appointments@[n])@
                                    == invalid@[m]@,
                    decreases rec.invalid@.len() - k,
                {
                    proof {
                        assert(contains_loc(rec.invalid@, rec.invalid@[k as int]@));
                        assert(tower_refs_covered(self.towers@[i as int], self.appointments@));
                    }
                    let body = get_app(&self.appointments, &rec.invalid[k]);
                    invalid.push(body);
                    k += 1;
                }
                let status = if rec.misbehavior.is_some() {
                    TowerStatus::Misbehaving
                } else if rec.pending.len() > 0 {
                    TowerStatus::TemporaryUnreachable
                } else {
                    TowerStatus::Reachable
                };
                let misbehaving_proof = match &rec.misbehavior {
                    Some(p) => Some(p.clone()),
                    None => None,
                };
                let info = TowerInfo {
                    net_addr: rec.net_addr.clone(),
                    available_slots: rec.available_slots,
                    subscription_expiry: rec.subscription_expiry,
                    status,
                    appointments: delivered,
                    pending_appointments: pending,
                    invalid_appointments: invalid,
                    misbehaving_proof,
                };
                proof {
                    assert(info.net_addr@ == self.towers@[i as int].net_addr@);
                    assert(info.net_addr == self.towers@[i as int].net_addr);
                    assert(info_matches(info, self.towers@[i as int], self.appointments@));
                    assert forall|j: int|
                        0 <= j < self.towers@.len() && (#[trigger] self.towers@[j]).tower_id@
                            == tower_id@ implies info_matches(
                        info,
                        self.towers@[j],
                        self.appointments@,
                    ) by {
                        lemma_unique_tower_index(self.towers@, j, i as int);
                    }
                }
                Some(info)
            },
        }
    }

    /// Loads the one-line view of every tower, each under the status its
    /// persisted image implies.
    pub fn load_towers(&self) -> (r: Vec<(TowerId, TowerSummary)>)
        requires
            self.wf(),
        ensures
            r@.len() == self.towers@.len(),
            forall|j: int|
                0 <= j < self.towers@.len() ==> (#[trigger] r@[j]).0@ == self.towers@[j].tower_id@
                    && summary_matches(r@[j].1, self.towers@[j]),
    {
        let mut r: Vec<(TowerId, TowerSummary)> = Vec::new();
        let mut i: usize = 0;
        while i < self.towers.len()
            invariant
                i <= self.towers@.len(),
                self.wf(),
                r@.len() == i,
                forall|j: int|
                    0 <= j < i ==> (#[trigger] r@[j]).0@ == self.towers@[j].tower_id@
                        && summary_matches(r@[j].1, self.towers@[j]),
            decreases self.towers@.len() - i,
        {
            let rec = &self.towers[i];
            let status = if rec.misbehavior.is_some() {
                TowerStatus::Misbehaving
            } else if rec.pending.len() > 0 {
                TowerStatus::TemporaryUnreachable
            } else {
                TowerStatus::Reachable
            };
            let summary = TowerSummary {
                net_addr: rec.net_addr.clone(),
                available_slots: rec.available_slots,
                subscription_expiry: rec.subscription_expiry,
                status,
                pending_appointments: clone_locs(&rec.pending),
                invalid_appointments: clone_locs(&rec.invalid),
            };
            r.push((rec.tower_id.clone(), summary));
            i += 1;
        }
        r
    }

    /// The locators of one kind tracked for a tower; empty for an unknown
    /// id.
    pub fn load_appointment_locators(&self, tower_id: &TowerId, status: AppointmentStatus) -> (r:
        Vec<Locator>)
        requires
            self.wf(),
        ensures
            !has_tower(self.towers@, tower_id@) ==> r@.len() == 0,
            forall|j: int|
                0 <= j < self.towers@.len() && (#[trigger] self.towers@[j]).tower_id@ == tower_id@
                    ==> {
                    let rec = self.towers@[j];
                    match status {
                        AppointmentStatus::Pending => r@.len() == rec.pending@.len()
                            && forall|k: int|
                            0 <= k < rec.pending@.len() ==> (#[trigger] r@[k])@
                                == rec.pending@[k]@,
                        AppointmentStatus::Invalid => r@.len() == rec.invalid@.len()
                            && forall|k: int|
                            0 <= k < rec.invalid@.len() ==> (#[trigger] r@[k])@
                                == rec.invalid@[k]@,
                        AppointmentStatus::Delivered => r@.len() == rec.delivered@.len()
                            && forall|k: int|
                            0 <= k < rec.delivered@.len() ==> (#[trigger] r@[k])@
                                == rec.delivered@[k].locator@,
                    }
                },
    {
        match find_tower(&self.towers, tower_id) {
            None => Vec::new(),
            Some(i) => {
                let rec = &self.towers[i];
                let out = match status {
                    AppointmentStatus::Pending => clone_locs(&rec.pending),
                    AppointmentStatus::Invalid => clone_locs(&rec.invalid),
                    AppointmentStatus::Delivered => {
                        let mut out: Vec<Locator> = Vec::new();
                        let mut k: usize = 0;
                        while k < rec.delivered.len()
                            invariant
                                k <= rec.delivered@.len(),
                                out@.len() == k,
                                forall|m: int|
                                    0 <= m < k ==> (#[trigger] out@[m])@
                                        == rec.delivered@[m].locator@,
                            decreases rec.delivered@.len() - k,
                        {
                            out.push(rec.delivered[k].locator.clone());
                            k += 1;
                        }
                        out
                    },
                };
                proof {
                    assert forall|j: int|
                        0 <= j < self.towers@.len() && (#[trigger] self.towers@[j]).tower_id@
                            == tower_id@ implies j == i as int by {
                        lemma_unique_tower_index(self.towers@, j, i as int);
                    }
                }
                out
            },
        }
    }

    /// The latest registration receipt stored for a tower.
    pub fn get_registration_receipt(&self, tower_id: &TowerId) -> (r: Option<RegistrationReceipt>)
        requires
            self.wf(),
        ensures
            r is Some <==> has_tower(self.towers@, tower_id@),
            r matches Some(rr) ==> forall|j: int|
                0 <= j < self.towers@.len() && (#[trigger] self.towers@[j]).tower_id@ == tower_id@
                    ==> rr@ == self.towers@[j].registration@,
    {
        match find_tower(&self.towers, tower_id) {
            None => None,
            Some(i) => {
                let rr = self.towers[i].registration.clone();
                proof {
                    assert forall|j: int|
                        0 <= j < self.towers@.len() && (#[trigger] self.towers@[j]).tower_id@
                            == tower_id@ implies rr@ == self.towers@[j].registration@ by {
                        lemma_unique_tower_index(self.towers@, j, i as int);
                    }
                }
                Some(rr)
            },
        }
    }

    /// The receipt stored for one delivered appointment of a tower.
    pub fn get_appointment_receipt(&self, tower_id: &TowerId, locator: &Locator) -> (r: Option<
        AppointmentReceipt,
    >)
        requires
            self.wf(),
        ensures
            r is Some <==> (exists|j: int|
                0 <= j < self.towers@.len() && (#[trigger] self.towers@[j]).tower_id@ == tower_id@
                    && contains_del(self.towers@[j].delivered@, locator@)),
            r matches Some(rcpt) ==> forall|j: int|
                0 <= j < self.towers@.len() && (#[trigger] self.towers@[j]).tower_id@ == tower_id@
                    ==> exists|k: int|
                    0 <= k < self.towers@[j].delivered@.len()
                        && (#[trigger] self.towers@[j].delivered@[k]).locator@ == locator@
                        && self.towers@[j].delivered@[k].receipt@ == rcpt@,
    {
        match find_tower(&self.towers, tower_id) {
            None => None,
            Some(i) => {
                match find_del(&self.towers[i].delivered, locator) {
                    None => {
                        proof {
                            assert forall|j: int|
                                0 <= j < self.towers@.len() && (#[trigger] self.towers@[j]).tower_id@
                                    == tower_id@ implies !contains_del(
                                self.towers@[j].delivered@,
                                locator@,
                            ) by {
                                lemma_unique_tower_index(self.towers@, j, i as int);
                            }
                        }
                        None
                    },
                    Some(k) => {
                        let rcpt = self.towers[i].delivered[k].receipt.clone();
                        proof {
                            assert(contains_del(self.towers@[i as int].delivered@, locator@));
                            assert forall|j: int|
                                0 <= j < self.towers@.len() && (#[trigger] self.towers@[j]).tower_id@
                                    == tower_id@ implies exists|m: int|
                                0 <= m < self.towers@[j].delivered@.len()
                                    && (#[trigger] self.towers@[j].delivered@[m]).locator@
                                    == locator@ && self.towers@[j].delivered@[m].receipt@
                                    == rcpt@ by {
                                lemma_unique_tower_index(self.towers@, j, i as int);
                                assert(0 <= k < self.towers@[j].delivered@.len()
                                    && self.towers@[j].delivered@[k as int].locator@ == locator@
                                    && self.towers@[j].delivered@[k as int].receipt@ == rcpt@);
                            }
                        }
                        Some(rcpt)
                    },
                }
            },
        }
    }

    /// Wipes a tower record and collects every appointment body that no
    /// remaining tower references.
    pub fn remove_tower_record(&mut self, tower_id: &TowerId)
        requires
            old(self).wf(),
            has_tower(old(self).towers@, tower_id@),
        ensures
            final(self).wf(),
            final(self).client_key == old(self).client_key,
            !has_tower(final(self).towers@, tower_id@),
            exists|k: int|
                0 <= k < old(self).towers@.len() && (#[trigger] old(self).towers@[k]).tower_id@
                    == tower_id@ && final(self).towers@ == old(self).towers@.remove(k),
            forall|id2: Seq<u8>|
                id2 != tower_id@ ==> #[trigger] has_tower(final(self).towers@, id2) == has_tower(
                    old(self).towers@,
                    id2,
                ),
            forall|l: Seq<u8>|
                #[trigger] contains_app(final(self).appointments@, l) == (contains_app(
                    old(self).appointments@,
                    l,
                ) && referenced(final(self).towers@, l)),
    {
        match find_tower(&self.towers, tower_id) {
            None => {
                proof {
                    assert(false);
                }
            },
            Some(i) => {
                self.towers.remove(i);
                proof {
                    let olds = old(self).towers@;
                    let news = self.towers@;
                    let ii = i as int;
                    assert forall|j: int|
                        0 <= j < news.len() implies (#[trigger] news[j]).wf() && (exists|m: int|
                        0 <= m < olds.len() && news[j] == #[trigger] olds[m]) by {
                        if j < ii {
                            assert(news[j] == olds[j]);
                        } else {
                            assert(news[j] == olds[j + 1]);
                        }
                    }
                    assert forall|a: int, b: int| 0 <= a < b < news.len() implies news[a].tower_id@
                        != news[b].tower_id@ by {
                        if b < ii {
                        } else if a < ii {
                            assert(news[a] == olds[a] && news[b] == olds[b + 1]);
                        } else {
                            assert(news[a] == olds[a + 1] && news[b] == olds[b + 1]);
                        }
                    }
                    assert forall|id: Seq<u8>| #[trigger] has_tower(news, id) implies has_tower(
                        olds,
                        id,
                    ) by {
                        let j = choose|j: int| 0 <= j < news.len() && news[j].tower_id@ == id;
                        if j < ii {
                            assert(olds[j].tower_id@ == id);
                        } else {
                            assert(olds[j + 1].tower_id@ == id);
                        }
                    }
                    assert forall|id2: Seq<u8>| id2 != tower_id@ implies #[trigger] has_tower(
                        news,
                        id2,
                    ) == has_tower(olds, id2) by {
                        if has_tower(news, id2) {
                            let j = choose|j: int| 0 <= j < news.len() && news[j].tower_id@ == id2;
                            if j < ii {
                                assert(olds[j].tower_id@ == id2);
                            } else {
                                assert(olds[j + 1].tower_id@ == id2);
                            }
                        }
                        if has_tower(olds, id2) {
                            let j = choose|j: int| 0 <= j < olds.len() && olds[j].tower_id@ == id2;
                            assert(j != ii);
                            if j < ii {
                                assert(news[j] == olds[j]);
                            } else {
                                assert(news[j - 1] == olds[j]);
                            }
                        }
                    }
                    assert(!has_tower(news, tower_id@)) by {
                        if has_tower(news, tower_id@) {
                            let j = choose|j: int|
                                0 <= j < news.len() && news[j].tower_id@ == tower_id@;
                            if j < ii {
                                lemma_unique_tower_index(olds, j, ii);
                            } else {
                                lemma_unique_tower_index(olds, j + 1, ii);
                            }
                        }
                    }
                    assert forall|l: Seq<u8>| #[trigger] referenced(news, l) implies referenced(
                        olds,
                        l,
                    ) by {
                        let j = choose|j: int|
                            0 <= j < news.len() && (contains_loc(news[j].pending@, l)
                                || contains_loc(news[j].invalid@, l));
                        if j < ii {
                            assert(news[j] == olds[j]);
                            assert(contains_loc(olds[j].pending@, l) || contains_loc(
                                olds[j].invalid@,
                                l,
                            ));
                        } else {
                            assert(news[j] == olds[j + 1]);
                            assert(contains_loc(olds[j + 1].pending@, l) || contains_loc(
                                olds[j + 1].invalid@,
                                l,
                            ));
                        }
                    }
                }
                let ghost apps_before = self.appointments@;
                let mut kept: Vec<Appointment> = Vec::new();
                let mut k: usize = 0;
                while k < self.appointments.len()
                    invariant
                        k <= self.appointments@.len(),
                        self.appointments@ == apps_before,
                        unique_apps(apps_before),
                        unique_apps(kept@),
                        forall|l: Seq<u8>|
                            #[trigger] contains_app(kept@, l) == (contains_app(
                                apps_before.take(k as int),
                                l,
                            ) && referenced(self.towers@, l)),
                    decreases self.appointments@.len() - k,
                {
                    let ghost keptprev = kept@;
                    let ghost prev = apps_before.take(k as int);
                    let ghost cur = apps_before.take(k as int + 1);
                    let keep = is_referenced(&self.towers, &self.appointments[k].locator);
                    if keep {
                        kept.push(self.appointments[k].clone());
                    }
                    proof {
                        let x = apps_before[k as int];
                        assert forall|l2: Seq<u8>| #[trigger] contains_app(cur, l2) implies (
                        contains_app(prev, l2) || x@.locator == l2) by {
                            let m = choose|m: int| 0 <= m < cur.len() && cur[m]@.locator == l2;
                            if m < prev.len() {
                                assert(prev[m]@.locator == l2);
                            }
                        }
                        assert forall|l2: Seq<u8>| contains_app(prev, l2) implies
                            #[trigger] contains_app(cur, l2) by {
                            let m = choose|m: int| 0 <= m < prev.len() && prev[m]@.locator == l2;
                            assert(cur[m]@.locator == l2);
                        }
                        assert(cur[k as int]@.locator == x@.locator);
                        assert(contains_app(cur, x@.locator));
                        if keep {
                            assert(kept@.len() == keptprev.len() + 1);
                            assert(forall|m: int|
                                0 <= m < keptprev.len() ==> kept@[m] == keptprev[m]);
                            assert(kept@[keptprev.len() as int]@ == x@);
                            assert forall|l2: Seq<u8>| #[trigger] contains_app(kept@, l2) implies (
                            contains_app(keptprev, l2) || x@.locator == l2) by {
                                let m = choose|m: int|
                                    0 <= m < kept@.len() && kept@[m]@.locator == l2;
                                if m < keptprev.len() {
                                    assert(keptprev[m]@.locator == l2);
                                }
                            }
                            assert forall|l2: Seq<u8>| contains_app(keptprev, l2) implies
                                #[trigger] contains_app(kept@, l2) by {
                                let m = choose|m: int|
                                    0 <= m < keptprev.len() && keptprev[m]@.locator == l2;
                                assert(kept@[m]@.locator == l2);
                            }
                            assert(!contains_app(keptprev, x@.locator)) by {
                                if contains_app(keptprev, x@.locator) {
                                    assert(contains_app(prev, x@.locator));
                                    let m = choose|m: int|
                                        0 <= m < prev.len() && prev[m]@.locator == x@.locator;
                                    assert(apps_before[m]@.locator
                                        == apps_before[k as int]@.locator);
                                    assert(false);
                                }
                            }
                            assert forall|a: int, b: int|
                                0 <= a < b < kept@.len() implies kept@[a]@.locator
                                != kept@[b]@.locator by {
                                if b == keptprev.len() {
                                    assert(kept@[a]@.locator == keptprev[a]@.locator);
                                }
                            }
                            assert(contains_app(kept@, x@.locator));
                        } else {
                            assert(!referenced(self.towers@, x@.locator));
                        }
                    }
                    k += 1;
                }
                proof {
                    assert(apps_before.take(apps_before.len() as int) =~= apps_before);
                    assert(apps_before == old(self).appointments@);
                }
                self.appointments = kept;
                proof {
                    assert forall|j: int|
                        0 <= j < self.towers@.len() implies tower_refs_covered(
                        #[trigger] self.towers@[j],
                        self.appointments@,
                    ) by {
                        assert forall|l: Seq<u8>|
                            contains_loc(self.towers@[j].pending@, l) || contains_loc(
                                self.towers@[j].invalid@,
                                l,
                            ) implies contains_app(self.appointments@, l) by {
                            assert(referenced(self.towers@, l));
                            assert(contains_app(old(self).appointments@, l)) by {
                                assert(referenced(old(self).towers@, l));
                                let m = choose|m: int|
                                    0 <= m < old(self).towers@.len() && (contains_loc(
                                        old(self).towers@[m].pending@,
                                        l,
                                    ) || contains_loc(old(self).towers@[m].invalid@, l));
                                assert(tower_refs_covered(
                                    old(self).towers@[m],
                                    old(self).appointments@,
                                ));
                            }
                        }
                    }
                }
            },
        }
    }
}


/// Locator uniqueness per tower: for every tower, the delivered, pending
/// and invalid sets are pairwise disjoint at every well-formed state.
pub proof fn lemma_locator_uniqueness(s: &Store, j: int, l: Seq<u8>)
    requires
        s.wf(),
        0 <= j < s.towers@.len(),
    ensures
        !(contains_loc(s.towers@[j].pending@, l) && contains_loc(s.towers@[j].invalid@, l)),
        !(contains_loc(s.towers@[j].pending@, l) && contains_del(s.towers@[j].delivered@, l)),
        !(contains_loc(s.towers@[j].invalid@, l) && contains_del(s.towers@[j].delivered@, l)),
{
    assert(s.towers@[j].wf());
}

} // verus!
