//! The two-table store: epoch records and their dadded counter records,
//! held in memory, with the well-formedness invariant that the store
//! operations preserve.

use vstd::prelude::*;

use crate::epochs::stored_instant_in_range;
use crate::errors::Error;

verus! {

/// One persisted epoch record: a bucket identified by its id, holding the
/// canonical lower bound of the bucket window in milliseconds.
#[derive(Debug, Clone, Copy, PartialEq, Eq, Structural)]
pub struct EpochRecord {
    pub id: u32,
    pub epoch: i64,
}

/// One persisted dadded counter record, tied one-to-one to an epoch.
#[derive(Debug, Clone, Copy, PartialEq, Eq, Structural)]
pub struct DaddedRecord {
    pub id: u32,
    pub epoch_id: u32,
    pub count: u32,
}

/// The in-memory store holding both tables and the next free ids.
/// Ids are assigned from 1 upward, as a SQL autoincrement column would
/// hand them out.
#[derive(Debug, Clone)]
pub struct Database {
    pub epochs: Vec<EpochRecord>,
    pub dadded: Vec<DaddedRecord>,
    pub next_epoch_id: u32,
    pub next_dadded_id: u32,
}

/// The mathematical model of the store: both tables as sequences, plus
/// the id counters.
pub struct DbModel {
    pub epochs: Seq<EpochRecord>,
    pub dadded: Seq<DaddedRecord>,
    pub next_epoch_id: u32,
    pub next_dadded_id: u32,
}

impl View for Database {
    type V = DbModel;

    open spec fn view(&self) -> DbModel {
        DbModel {
            epochs: self.epochs@,
            dadded: self.dadded@,
            next_epoch_id: self.next_epoch_id,
            next_dadded_id: self.next_dadded_id,
        }
    }
}

/// Well-formedness of the store: ids are at least 1, below the next free
/// id, and unique per table; each counter references an already assigned
/// epoch id, and no two counters share an epoch (the one-to-one shape);
/// stored bucket bounds stay in the range bucket arithmetic can handle.
pub open spec fn db_wf(m: DbModel) -> bool {
    &&& 1 <= m.next_epoch_id
    &&& 1 <= m.next_dadded_id
    &&& (forall|i: int|
        0 <= i < m.epochs.len() ==> 1 <= (#[trigger] m.epochs[i]).id < m.next_epoch_id)
    &&& (forall|i: int|
        0 <= i < m.epochs.len() ==> stored_instant_in_range((#[trigger] m.epochs[i]).epoch as int))
    &&& (forall|i: int, j: int|
        0 <= i < j < m.epochs.len() ==> (#[trigger] m.epochs[i]).id != (#[trigger] m.epochs[j]).id)
    &&& (forall|i: int|
        0 <= i < m.dadded.len() ==> 1 <= (#[trigger] m.dadded[i]).id < m.next_dadded_id)
    &&& (forall|i: int|
        0 <= i < m.dadded.len() ==> 1 <= (#[trigger] m.dadded[i]).epoch_id < m.next_epoch_id)
    &&& (forall|i: int, j: int|
        0 <= i < j < m.dadded.len() ==> (#[trigger] m.dadded[i]).id != (#[trigger] m.dadded[j]).id)
    &&& (forall|i: int, j: int|
        0 <= i < j < m.dadded.len() ==> (#[trigger] m.dadded[i]).epoch_id != (#[trigger] m.dadded[j]).epoch_id)
}

/// Creates an empty store, as a fresh in-memory database would be after
/// its two tables are set up.
pub fn create_inmemory_db() -> (db: Database)
    ensures
        db@.epochs.len() == 0,
        db@.dadded.len() == 0,
        db@.next_epoch_id == 1,
        db@.next_dadded_id == 1,
        db_wf(db@),
{
    Database { epochs: Vec::new(), dadded: Vec::new(), next_epoch_id: 1, next_dadded_id: 1 }
}

impl Database {
    /// Inserts an epoch record with the given bucket bound, assigning the
    /// next free id, and returns the stored record.
    pub fn insert_epoch(&mut self, epoch: i64) -> (r: EpochRecord)
        requires
            old(self)@.next_epoch_id < u32::MAX,
        ensures
            r == (EpochRecord { id: old(self)@.next_epoch_id, epoch }),
            final(self)@.epochs == old(self)@.epochs.push(r),
            final(self)@.dadded == old(self)@.dadded,
            final(self)@.next_epoch_id == old(self)@.next_epoch_id + 1,
            final(self)@.next_dadded_id == old(self)@.next_dadded_id,
            db_wf(old(self)@) && stored_instant_in_range(epoch as int) ==> db_wf(final(self)@),
    {
        let rec = EpochRecord { id: self.next_epoch_id, epoch };
        self.epochs.push(rec);
        self.next_epoch_id = self.next_epoch_id + 1;
        proof {
            if db_wf(old(self)@) && stored_instant_in_range(epoch as int) {
                let m0 = old(self)@;
                let m1 = self@;
                assert forall|i: int| 0 <= i < m1.epochs.len() implies 1 <= (
                #[trigger] m1.epochs[i]).id < m1.next_epoch_id && stored_instant_in_range(
                    m1.epochs[i].epoch as int,
                ) by {
                    if i < m0.epochs.len() {
                        assert(m1.epochs[i] == m0.epochs[i]);
                    } else {
                        assert(m1.epochs[i] == rec);
                    }
                }
                assert forall|i: int, j: int| 0 <= i < j < m1.epochs.len() implies (
                #[trigger] m1.epochs[i]).id != (#[trigger] m1.epochs[j]).id by {
                    assert(m1.epochs[i] == m0.epochs[i]);
                    if j < m0.epochs.len() {
                        assert(m1.epochs[j] == m0.epochs[j]);
                    } else {
                        assert(m1.epochs[j] == rec);
                    }
                }
                assert(m1.dadded == m0.dadded);
                assert forall|i: int| 0 <= i < m1.dadded.len() implies 1 <= (
                #[trigger] m1.dadded[i]).id < m1.next_dadded_id && 1 <= m1.dadded[i].epoch_id
                    < m1.next_epoch_id by {
                    assert(m1.dadded[i] == m0.dadded[i]);
                    assert(1 <= m0.dadded[i].id < m0.next_dadded_id);
                    assert(1 <= m0.dadded[i].epoch_id < m0.next_epoch_id);
                }
                assert forall|i: int, j: int| 0 <= i < j < m1.dadded.len() implies (
                #[trigger] m1.dadded[i]).id != (#[trigger] m1.dadded[j]).id && m1.dadded[i].epoch_id
                    != m1.dadded[j].epoch_id by {
                    assert(m1.dadded[i] == m0.dadded[i]);
                    assert(m1.dadded[j] == m0.dadded[j]);
                }
                assert(db_wf(m1));
            }
        }
        rec
    }

    /// Inserts a dadded counter record for an existing epoch, assigning
    /// the next free id; fails when the epoch id is not stored.  The
    /// caller keeps the one-to-one shape: no counter for that epoch may
    /// exist yet.
    pub fn insert_dadded(&mut self, epoch_id: u32, count: u32) -> (r: Result<DaddedRecord, Error>)
        requires
            old(self)@.next_dadded_id < u32::MAX,
            forall|i: int|
                0 <= i < old(self)@.dadded.len() ==> (#[trigger] old(
                    self,
                )@.dadded[i]).epoch_id != epoch_id,
        ensures
            match r {
                Ok(d) => {
                    &&& (exists|i: int|
                        0 <= i < old(self)@.epochs.len() && (#[trigger] old(
                            self,
                        )@.epochs[i]).id == epoch_id)
                    &&& d == (DaddedRecord { id: old(self)@.next_dadded_id, epoch_id, count })
                    &&& final(self)@.dadded == old(self)@.dadded.push(d)
                    &&& final(self)@.epochs == old(self)@.epochs
                    &&& final(self)@.next_dadded_id == old(self)@.next_dadded_id + 1
                    &&& final(self)@.next_epoch_id == old(self)@.next_epoch_id
                    &&& (db_wf(old(self)@) ==> db_wf(final(self)@))
                },
                Err(e) => {
                    &&& e == (Error::EpochNotFound { id: epoch_id })
                    &&& final(self)@ == old(self)@
                    &&& (forall|i: int|
                        0 <= i < old(self)@.epochs.len() ==> (#[trigger] old(
                            self,
                        )@.epochs[i]).id != epoch_id)
                },
            },
    {
        let mut found: bool = false;
        let n = self.epochs.len();
        for i in 0..n
            invariant
                n == self.epochs.len(),
                found <==> exists|j: int|
                    0 <= j < i && (#[trigger] self.epochs@[j]).id == epoch_id,
        {
            if self.epochs[i].id == epoch_id {
                found = true;
            }
        }
        if !found {
            return Err(Error::EpochNotFound { id: epoch_id });
        }
        let rec = DaddedRecord { id: self.next_dadded_id, epoch_id, count };
        self.dadded.push(rec);
        self.next_dadded_id = self.next_dadded_id + 1;
        proof {
            if db_wf(old(self)@) {
                let m0 = old(self)@;
                let m1 = self@;
                assert(forall|i: int|
                    0 <= i < m0.dadded.len() ==> m1.dadded[i] == #[trigger] m0.dadded[i]);
                assert(m1.dadded[m0.dadded.len() as int] == rec);
                let w = choose|i: int|
                    0 <= i < m0.epochs.len() && (#[trigger] m0.epochs[i]).id == epoch_id;
                assert(1 <= m0.epochs[w].id < m0.next_epoch_id);
                assert(db_wf(m1));
            }
        }
        Ok(rec)
    }
}

} // verus!
