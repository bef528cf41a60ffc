//! The manager of the active bucket: it remembers which epoch and counter
//! are current, detects when the reference clock has crossed the bucket's
//! end, and rolls the state over to the new bucket.

use vstd::prelude::*;

use crate::dadded::{
    dad_idx, get_or_create_dad_from_epoch, get_or_create_dad_model, increament_dadded,
    increament_dadded_model,
};
use crate::epochs::{
    epoch_lower, epochs_between, get_next_epoch_bound, get_or_create_epoch,
    get_or_create_epoch_model, instant_in_range, next_epoch_bound_model, width_in_range,
};
use crate::errors::Error;
use crate::records::{db_wf, Database, DaddedRecord, DbModel, EpochRecord};

verus! {

/// The in-memory state of the manager: the current epoch and counter ids,
/// the instant at which the current bucket ends, and whether a rollover
/// has ever been observed during this process's lifetime.
#[derive(Debug, Clone, Copy, PartialEq, Eq, Structural)]
pub struct DaddedManager {
    pub epoch_id: u32,
    pub next_epoch: i64,
    pub dadded_id: u32,
    pub awake_since_last_epoch: bool,
}

/// The model of `check_for_epoch_update`: at or before the bucket's end
/// nothing changes; past it, the three-step sequence (find-or-create the
/// epoch, compute the next bound, find-or-create the counter) replaces
/// the whole manager state and marks the rollover.
pub open spec fn check_for_epoch_update_model(
    m: DbModel,
    mgr: DaddedManager,
    now: int,
    w: int,
) -> (DbModel, DaddedManager, Result<(), Error>) {
    if now <= mgr.next_epoch {
        (m, mgr, Ok(()))
    } else {
        let (m1, r1) = get_or_create_epoch_model(m, now, w);
        match r1 {
            Err(e) => (m1, mgr, Err(e)),
            Ok(ep) => match next_epoch_bound_model(m1, ep.id, w) {
                Err(e) => (m1, mgr, Err(e)),
                Ok(nb) => {
                    let (m2, r2) = get_or_create_dad_model(m1, ep.id);
                    match r2 {
                        Err(e) => (m2, mgr, Err(e)),
                        Ok(d) => (
                            m2,
                            DaddedManager {
                                epoch_id: ep.id,
                                next_epoch: nb,
                                dadded_id: d.id,
                                awake_since_last_epoch: true,
                            },
                            Ok(()),
                        ),
                    }
                },
            },
        }
    }
}

impl DaddedManager {
    /// Starts tracking the given epoch and counter; no rollover has been
    /// observed yet.
    pub fn new(epoch_id: u32, next_epoch: i64, dadded_id: u32) -> (r: DaddedManager)
        ensures
            r == (DaddedManager { epoch_id, next_epoch, dadded_id, awake_since_last_epoch: false }),
    {
        DaddedManager { epoch_id, next_epoch, dadded_id, awake_since_last_epoch: false }
    }

    /// The id of the bucket currently counted into.
    pub fn epoch_id(&self) -> (r: u32)
        ensures
            r == self.epoch_id,
    {
        self.epoch_id
    }

    /// The instant at which the current bucket ends.
    pub fn next_epoch(&self) -> (r: i64)
        ensures
            r == self.next_epoch,
    {
        self.next_epoch
    }

    /// The id of the counter of the current bucket.
    pub fn dadded_id(&self) -> (r: u32)
        ensures
            r == self.dadded_id,
    {
        self.dadded_id
    }

    /// Whether a rollover has ever been observed since this manager was
    /// created.
    pub fn awake_since_last_epoch(&self) -> (r: bool)
        ensures
            r == self.awake_since_last_epoch,
    {
        self.awake_since_last_epoch
    }

    /// Checks the reference clock against the current bucket's end and,
    /// when the clock has passed it, rolls the manager over to the bucket
    /// containing `now`.
    pub fn check_for_epoch_update(&mut self, db: &mut Database, now: i64, epoch_len: i64) -> (r:
        Result<(), Error>)
        requires
            instant_in_range(now as int),
            epoch_len <= 0x10_0000_0000_0000,
            db_wf(old(db)@),
            old(db)@.next_epoch_id < u32::MAX,
            old(db)@.next_dadded_id < u32::MAX,
        ensures
            (final(db)@, *final(self), r) == check_for_epoch_update_model(
                old(db)@,
                *old(self),
                now as int,
                epoch_len as int,
            ),
            db_wf(final(db)@),
    {
        if now <= self.next_epoch {
            return Ok(());
        }
        let new_epoch = match get_or_create_epoch(db, now, epoch_len) {
            Ok(e) => e,
            Err(e) => {
                return Err(e);
            },
        };
        let next_bound = match get_next_epoch_bound(db, new_epoch.id, epoch_len) {
            Ok(b) => b,
            Err(e) => {
                return Err(e);
            },
        };
        let new_dadded = match get_or_create_dad_from_epoch(db, new_epoch.id) {
            Ok(d) => d,
            Err(e) => {
                return Err(e);
            },
        };
        self.epoch_id = new_epoch.id;
        self.next_epoch = next_bound;
        self.dadded_id = new_dadded.id;
        if !self.awake_since_last_epoch {
            self.awake_since_last_epoch = true;
        }
        Ok(())
    }

    /// Increments the counter of the current bucket by one and returns
    /// the updated record.
    pub fn increment_dadded(&mut self, db: &mut Database) -> (r: Result<DaddedRecord, Error>)
        requires
            ({
                let k = dad_idx(old(db)@.dadded, old(self).dadded_id);
                k < old(db)@.dadded.len() ==> old(db)@.dadded[k].count < u32::MAX
            }),
        ensures
            (final(db)@, r) == increament_dadded_model(old(db)@, old(self).dadded_id),
            *final(self) == *old(self),
            db_wf(old(db)@) ==> db_wf(final(db)@),
    {
        increament_dadded(db, self.dadded_id)
    }

    /// Re-fetches the counter of the current bucket (creating it when it
    /// is missing), so that concurrent increments through other handles
    /// on the same store are reflected.
    pub fn get_current_dad(&mut self, db: &mut Database) -> (r: Result<DaddedRecord, Error>)
        requires
            old(db)@.next_dadded_id < u32::MAX,
        ensures
            (final(db)@, r) == get_or_create_dad_model(old(db)@, old(self).epoch_id),
            *final(self) == *old(self),
            db_wf(old(db)@) ==> db_wf(final(db)@),
    {
        get_or_create_dad_from_epoch(db, self.epoch_id)
    }
}

/// The model of `initialize`: the three-step sequence against `now`, with
/// no rollover observed yet.
pub open spec fn initialize_model(m: DbModel, now: int, w: int) -> (DbModel, Result<
    DaddedManager,
    Error,
>) {
    let (m1, r1) = get_or_create_epoch_model(m, now, w);
    match r1 {
        Err(e) => (m1, Err(e)),
        Ok(ep) => match next_epoch_bound_model(m1, ep.id, w) {
            Err(e) => (m1, Err(e)),
            Ok(nb) => {
                let (m2, r2) = get_or_create_dad_model(m1, ep.id);
                match r2 {
                    Err(e) => (m2, Err(e)),
                    Ok(d) => (
                        m2,
                        Ok(
                            DaddedManager {
                                epoch_id: ep.id,
                                next_epoch: nb,
                                dadded_id: d.id,
                                awake_since_last_epoch: false,
                            },
                        ),
                    ),
                }
            },
        },
    }
}

/// Builds a manager for the bucket containing `now`: finds or creates the
/// epoch and its counter and computes where the bucket ends.
pub fn initialize(db: &mut Database, now: i64, epoch_len: i64) -> (r: Result<DaddedManager, Error>)
    requires
        instant_in_range(now as int),
        epoch_len <= 0x10_0000_0000_0000,
        db_wf(old(db)@),
        old(db)@.next_epoch_id < u32::MAX,
        old(db)@.next_dadded_id < u32::MAX,
    ensures
        (final(db)@, r) == initialize_model(old(db)@, now as int, epoch_len as int),
        db_wf(final(db)@),
{
    let epoch = match get_or_create_epoch(db, now, epoch_len) {
        Ok(e) => e,
        Err(e) => {
            return Err(e);
        },
    };
    let next_bound = match get_next_epoch_bound(db, epoch.id, epoch_len) {
        Ok(b) => b,
        Err(e) => {
            return Err(e);
        },
    };
    let dadded = match get_or_create_dad_from_epoch(db, epoch.id) {
        Ok(d) => d,
        Err(e) => {
            return Err(e);
        },
    };
    Ok(DaddedManager::new(epoch.id, next_bound, dadded.id))
}

/// The rollover flag never falls back: once a tick has observed a
/// rollover, every later tick leaves the flag set, whatever it does to
/// the rest of the state.
pub proof fn lemma_rollover_flag_monotonic(m: DbModel, mgr: DaddedManager, now: int, w: int)
    ensures
        mgr.awake_since_last_epoch ==> check_for_epoch_update_model(
            m,
            mgr,
            now,
            w,
        ).1.awake_since_last_epoch,
{
}

/// Rollover count reset: when a tick crosses into a bucket that no stored
/// epoch covers yet, the tick succeeds and the counter the manager then
/// reads is a fresh one whose count is zero, whatever count the prior
/// bucket had reached.
pub proof fn lemma_rollover_resets_count(m: DbModel, mgr: DaddedManager, now: int, w: int)
    requires
        db_wf(m),
        width_in_range(w),
        instant_in_range(now),
        now > mgr.next_epoch,
        epochs_between(m.epochs, epoch_lower(now, w), epoch_lower(now, w) + w).len() == 0,
    ensures
        ({
            let (m2, mgr2, r) = check_for_epoch_update_model(m, mgr, now, w);
            &&& r is Ok
            &&& get_or_create_dad_model(m2, mgr2.epoch_id).1 matches Ok(d) && d.count == 0
        }),
{
    let lo = epoch_lower(now, w);
    let (m1, r1) = get_or_create_epoch_model(m, now, w);
    let rec = EpochRecord { id: m.next_epoch_id, epoch: lo as i64 };
    assert(r1 == Ok::<EpochRecord, Error>(rec));
    assert(m1.epochs == m.epochs.push(rec));
    assert forall|j: int| 0 <= j < m.epochs.len() implies (#[trigger] m1.epochs[j]).id
        != rec.id by {
        assert(m1.epochs[j] == m.epochs[j]);
        assert(m.epochs[j].id < m.next_epoch_id);
    }
    assert(m1.epochs[m.epochs.len() as int] == rec);
    crate::epochs::lemma_epoch_with_id_of(m1.epochs, rec.id, m.epochs.len() as int);
    assert(next_epoch_bound_model(m1, rec.id, w) is Ok);
    assert(m1.dadded == m.dadded);
    assert forall|j: int| 0 <= j < m1.dadded.len() implies (#[trigger] m1.dadded[j]).epoch_id
        != rec.id by {
        assert(m1.dadded[j] == m.dadded[j]);
        assert(m.dadded[j].epoch_id < m.next_epoch_id);
    }
    crate::dadded::lemma_dad_for_epoch_absent(m1.dadded, rec.id);
    let (m2, r2) = get_or_create_dad_model(m1, rec.id);
    let d = DaddedRecord { id: m1.next_dadded_id, epoch_id: rec.id, count: 0 };
    assert(r2 == Ok::<DaddedRecord, Error>(d));
    assert(m2.dadded == m1.dadded.push(d));
    assert(m2.epochs == m1.epochs);
    assert forall|j: int| 0 <= j < m1.dadded.len() implies (#[trigger] m2.dadded[j]).epoch_id
        != rec.id by {
        assert(m2.dadded[j] == m1.dadded[j]);
    }
    assert(m2.dadded[m1.dadded.len() as int] == d);
    crate::dadded::lemma_dad_for_epoch_found_at(m2.dadded, rec.id, m1.dadded.len() as int);
}

} // verus!
