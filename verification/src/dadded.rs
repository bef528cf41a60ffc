//! The dadded counter store operations: fetching or creating the
//! one-to-one counter of an epoch, and incrementing a counter by one.

use vstd::prelude::*;

use crate::epochs::{epoch_with_id, find_epoch_by_id};
use crate::errors::Error;
use crate::records::{db_wf, Database, DaddedRecord, DbModel};

verus! {

/// The first stored counter tied to the given epoch, if any.
pub open spec fn dad_for_epoch(s: Seq<DaddedRecord>, epoch_id: u32) -> Option<DaddedRecord>
    decreases s.len(),
{
    if s.len() == 0 {
        None
    } else if s[0].epoch_id == epoch_id {
        Some(s[0])
    } else {
        dad_for_epoch(s.subrange(1, s.len() as int), epoch_id)
    }
}

/// The index of the first stored counter with the given id, or the table
/// length when there is none.
pub open spec fn dad_idx(s: Seq<DaddedRecord>, id: u32) -> int
    decreases s.len(),
{
    if s.len() == 0 {
        0
    } else if s[0].id == id {
        0
    } else {
        1 + dad_idx(s.subrange(1, s.len() as int), id)
    }
}

/// What `dad_idx` finds: an in-range index pointing at the first counter
/// carrying the id, or the table length when no counter carries it.
pub proof fn lemma_dad_idx_spec(s: Seq<DaddedRecord>, id: u32)
    ensures
        0 <= dad_idx(s, id) <= s.len(),
        dad_idx(s, id) < s.len() ==> s[dad_idx(s, id)].id == id,
        forall|j: int| 0 <= j < dad_idx(s, id) ==> (#[trigger] s[j]).id != id,
    decreases s.len(),
{
    if s.len() > 0 && s[0].id != id {
        let tail = s.subrange(1, s.len() as int);
        lemma_dad_idx_spec(tail, id);
        if dad_idx(s, id) < s.len() {
            assert(s[dad_idx(s, id)] == tail[dad_idx(tail, id)]);
        }
        assert forall|j: int| 0 <= j < dad_idx(s, id) implies (#[trigger] s[j]).id != id by {
            if j > 0 {
                assert(s[j] == tail[j - 1]);
            }
        }
    }
}

/// The converse: any index that is the first to carry the id is the one
/// `dad_idx` finds.
pub proof fn lemma_dad_idx_of(s: Seq<DaddedRecord>, id: u32, k: int)
    requires
        0 <= k < s.len(),
        s[k].id == id,
        forall|j: int| 0 <= j < k ==> (#[trigger] s[j]).id != id,
    ensures
        dad_idx(s, id) == k,
    decreases s.len(),
{
    if s[0].id != id {
        let tail = s.subrange(1, s.len() as int);
        assert forall|j: int| 0 <= j < k - 1 implies (#[trigger] tail[j]).id != id by {
            assert(tail[j] == s[j + 1]);
        }
        assert(tail[k - 1] == s[k]);
        lemma_dad_idx_of(tail, id, k - 1);
    }
}

/// The converse characterization: the first index whose counter is tied
/// to the epoch is the record that `dad_for_epoch` finds.
pub(crate) proof fn lemma_dad_for_epoch_found_at(s: Seq<DaddedRecord>, epoch_id: u32, k: int)
    requires
        0 <= k < s.len(),
        s[k].epoch_id == epoch_id,
        forall|j: int| 0 <= j < k ==> (#[trigger] s[j]).epoch_id != epoch_id,
    ensures
        dad_for_epoch(s, epoch_id) == Some(s[k]),
    decreases s.len(),
{
    if s[0].epoch_id != epoch_id {
        let tail = s.subrange(1, s.len() as int);
        assert forall|j: int| 0 <= j < k - 1 implies (#[trigger] tail[j]).epoch_id != epoch_id by {
            assert(tail[j] == s[j + 1]);
        }
        assert(tail[k - 1] == s[k]);
        lemma_dad_for_epoch_found_at(tail, epoch_id, k - 1);
    }
}

/// When no stored counter is tied to the epoch, none is found.
pub(crate) proof fn lemma_dad_for_epoch_absent(s: Seq<DaddedRecord>, epoch_id: u32)
    requires
        forall|j: int| 0 <= j < s.len() ==> (#[trigger] s[j]).epoch_id != epoch_id,
    ensures
        dad_for_epoch(s, epoch_id) is None,
    decreases s.len(),
{
    if s.len() > 0 {
        let tail = s.subrange(1, s.len() as int);
        assert forall|j: int| 0 <= j < tail.len() implies (#[trigger] tail[j]).epoch_id
            != epoch_id by {
            assert(tail[j] == s[j + 1]);
        }
        lemma_dad_for_epoch_absent(tail, epoch_id);
    }
}

/// When no counter of the epoch is found, no stored counter is tied to it.
proof fn lemma_dad_for_epoch_none(s: Seq<DaddedRecord>, epoch_id: u32)
    requires
        dad_for_epoch(s, epoch_id) is None,
    ensures
        forall|j: int| 0 <= j < s.len() ==> (#[trigger] s[j]).epoch_id != epoch_id,
    decreases s.len(),
{
    if s.len() > 0 {
        let tail = s.subrange(1, s.len() as int);
        lemma_dad_for_epoch_none(tail, epoch_id);
        assert forall|j: int| 0 <= j < s.len() implies (#[trigger] s[j]).epoch_id != epoch_id by {
            if j > 0 {
                assert(tail[j - 1] == s[j]);
            }
        }
    }
}

/// The model of `get_or_create_dad_from_epoch`: the table afterwards and
/// the outcome.  A fresh counter takes the next free id and starts at 0.
pub open spec fn get_or_create_dad_model(m: DbModel, epoch_id: u32) -> (DbModel, Result<
    DaddedRecord,
    Error,
>) {
    if epoch_with_id(m.epochs, epoch_id) is None {
        (m, Err(Error::EpochNotFound { id: epoch_id }))
    } else {
        match dad_for_epoch(m.dadded, epoch_id) {
            Some(d) => (m, Ok(d)),
            None => {
                let d = DaddedRecord { id: m.next_dadded_id, epoch_id, count: 0 };
                let m1 = DbModel {
                    epochs: m.epochs,
                    dadded: m.dadded.push(d),
                    next_epoch_id: m.next_epoch_id,
                    next_dadded_id: (m.next_dadded_id + 1) as u32,
                };
                (m1, Ok(d))
            },
        }
    }
}

/// Returns the one counter of the epoch `epoch_id`, creating it with
/// count 0 when the epoch has none yet; fails when the epoch itself is
/// not stored.
pub fn get_or_create_dad_from_epoch(db: &mut Database, epoch_id: u32) -> (r: Result<
    DaddedRecord,
    Error,
>)
    requires
        old(db)@.next_dadded_id < u32::MAX,
    ensures
        (final(db)@, r) == get_or_create_dad_model(old(db)@, epoch_id),
        db_wf(old(db)@) ==> db_wf(final(db)@),
{
    if find_epoch_by_id(db, epoch_id).is_none() {
        return Err(Error::EpochNotFound { id: epoch_id });
    }
    let ghost s = db@.dadded;
    let n = db.dadded.len();
    proof {
        assert(s.subrange(0, n as int) =~= s);
    }
    for i in 0..n
        invariant
            db@ == old(db)@,
            n == db.dadded.len(),
            s == db@.dadded,
            epoch_with_id(db@.epochs, epoch_id) is Some,
            dad_for_epoch(s, epoch_id) == dad_for_epoch(s.subrange(i as int, n as int), epoch_id),
    {
        let d = db.dadded[i];
        proof {
            assert(s.subrange(i as int, n as int)[0] == d);
            assert(s.subrange(i as int, n as int).subrange(
                1,
                (n - i) as int,
            ) =~= s.subrange(i as int + 1, n as int));
        }
        if d.epoch_id == epoch_id {
            return Ok(d);
        }
    }
    proof {
        assert(s.subrange(n as int, n as int).len() == 0);
        lemma_dad_for_epoch_none(s, epoch_id);
    }
    match db.insert_dadded(epoch_id, 0) {
        Ok(d) => Ok(d),
        Err(e) => {
            proof {
                crate::epochs::lemma_epoch_with_id_is_stored(old(db)@.epochs, epoch_id);
            }
            Err(e)
        },
    }
}

/// The model of `increament_dadded`: the table afterwards and the
/// outcome.  The counter is replaced by a copy whose count is one higher.
pub open spec fn increament_dadded_model(m: DbModel, dadded_id: u32) -> (DbModel, Result<
    DaddedRecord,
    Error,
>) {
    let k = dad_idx(m.dadded, dadded_id);
    if k == m.dadded.len() {
        (m, Err(Error::DaddedNotFound { id: dadded_id }))
    } else {
        let d0 = m.dadded[k];
        let d1 = DaddedRecord {
            id: d0.id,
            epoch_id: d0.epoch_id,
            count: (d0.count + 1) as u32,
        };
        let m1 = DbModel {
            epochs: m.epochs,
            dadded: m.dadded.update(k, d1),
            next_epoch_id: m.next_epoch_id,
            next_dadded_id: m.next_dadded_id,
        };
        (m1, Ok(d1))
    }
}

/// Reads the counter `dadded_id`, writes back its count plus one, and
/// returns the updated record; fails when the id is not stored.
pub fn increament_dadded(db: &mut Database, dadded_id: u32) -> (r: Result<DaddedRecord, Error>)
    requires
        ({
            let k = dad_idx(old(db)@.dadded, dadded_id);
            k < old(db)@.dadded.len() ==> old(db)@.dadded[k].count < u32::MAX
        }),
    ensures
        (final(db)@, r) == increament_dadded_model(old(db)@, dadded_id),
        db_wf(old(db)@) ==> db_wf(final(db)@),
{
    let ghost s = db@.dadded;
    let n = db.dadded.len();
    let mut i: usize = 0;
    while i < n
        invariant
            db@ == old(db)@,
            n == db.dadded.len(),
            s == db@.dadded,
            0 <= i <= n,
            forall|j: int| 0 <= j < i ==> (#[trigger] s[j]).id != dadded_id,
        ensures
            db@ == old(db)@,
            n == db.dadded.len(),
            s == db@.dadded,
            0 <= i <= n,
            forall|j: int| 0 <= j < i ==> (#[trigger] s[j]).id != dadded_id,
            i < n ==> s[i as int].id == dadded_id,
        decreases n - i,
    {
        if db.dadded[i].id == dadded_id {
            break ;
        }
        i = i + 1;
    }
    if i == n {
        proof {
            lemma_dad_idx_spec(s, dadded_id);
        }
        return Err(Error::DaddedNotFound { id: dadded_id });
    }
    proof {
        lemma_dad_idx_of(s, dadded_id, i as int);
    }
    let d = db.dadded[i];
    let updated = DaddedRecord { id: d.id, epoch_id: d.epoch_id, count: d.count + 1 };
    db.dadded.set(i, updated);
    proof {
        if db_wf(old(db)@) {
            let m0 = old(db)@;
            let m1 = db@;
            assert(m1.epochs == m0.epochs);
            assert forall|a: int| 0 <= a < m1.dadded.len() implies (#[trigger] m1.dadded[a]).id
                == m0.dadded[a].id && m1.dadded[a].epoch_id == m0.dadded[a].epoch_id by {
                if a != i {
                    assert(m1.dadded[a] == m0.dadded[a]);
                }
            }
            assert forall|a: int| 0 <= a < m1.dadded.len() implies 1 <= (
            #[trigger] m1.dadded[a]).id < m1.next_dadded_id && 1 <= m1.dadded[a].epoch_id
                < m1.next_epoch_id by {
                assert(m1.dadded[a].id == m0.dadded[a].id);
                assert(1 <= m0.dadded[a].id < m0.next_dadded_id);
                assert(1 <= m0.dadded[a].epoch_id < m0.next_epoch_id);
            }
            assert forall|a: int, b: int| 0 <= a < b < m1.dadded.len() implies (
            #[trigger] m1.dadded[a]).id != (#[trigger] m1.dadded[b]).id && m1.dadded[a].epoch_id
                != m1.dadded[b].epoch_id by {
                assert(m1.dadded[a].id == m0.dadded[a].id);
                assert(m1.dadded[b].id == m0.dadded[b].id);
                assert(m0.dadded[a].id != m0.dadded[b].id);
                assert(m0.dadded[a].epoch_id != m0.dadded[b].epoch_id);
            }
            assert forall|a: int| 0 <= a < m1.epochs.len() implies 1 <= (
            #[trigger] m1.epochs[a]).id < m1.next_epoch_id && crate::epochs::stored_instant_in_range(
                m1.epochs[a].epoch as int,
            ) by {
                assert(m1.epochs[a] == m0.epochs[a]);
            }
            assert forall|a: int, b: int| 0 <= a < b < m1.epochs.len() implies (
            #[trigger] m1.epochs[a]).id != (#[trigger] m1.epochs[b]).id by {
                assert(m1.epochs[a] == m0.epochs[a]);
                assert(m1.epochs[b] == m0.epochs[b]);
            }
            assert(db_wf(m1));
        }
    }
    Ok(updated)
}

/// Monotonic increment: two increments of one counter with no rollover in
/// between succeed and return counts that step up by exactly one.
pub proof fn lemma_increment_monotonic(m: DbModel, dadded_id: u32)
    requires
        dad_idx(m.dadded, dadded_id) < m.dadded.len(),
        m.dadded[dad_idx(m.dadded, dadded_id)].count + 2 <= u32::MAX,
    ensures
        ({
            let (m1, r1) = increament_dadded_model(m, dadded_id);
            let (m2, r2) = increament_dadded_model(m1, dadded_id);
            &&& r1 is Ok
            &&& r2 is Ok
            &&& r1->Ok_0.count == m.dadded[dad_idx(m.dadded, dadded_id)].count + 1
            &&& r2->Ok_0.count == r1->Ok_0.count + 1
        }),
{
    let k = dad_idx(m.dadded, dadded_id);
    lemma_dad_idx_spec(m.dadded, dadded_id);
    let (m1, r1) = increament_dadded_model(m, dadded_id);
    assert(forall|j: int| 0 <= j < k ==> m1.dadded[j] == #[trigger] m.dadded[j]);
    assert(m1.dadded[k].id == dadded_id);
    assert forall|j: int| 0 <= j < k implies (#[trigger] m1.dadded[j]).id != dadded_id by {
        assert(m1.dadded[j] == m.dadded[j]);
    }
    lemma_dad_idx_of(m1.dadded, dadded_id, k);
}

} // verus!
