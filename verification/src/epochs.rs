//! The epoch boundary calculator and the epoch store operations:
//! truncating an instant to the canonical bucket that contains it, finding
//! or creating the bucket record of an instant, and computing the bound at
//! which the next bucket starts.

use vstd::arithmetic::div_mod::{
    lemma_fundamental_div_mod, lemma_fundamental_div_mod_converse_mod,
    lemma_mod_division_less_than_divisor, lemma_mod_multiples_basic,
};
use vstd::prelude::*;

use crate::errors::Error;
use crate::records::{Database, DbModel, EpochRecord};

verus! {

/// The canonical `[lower, upper)` bucket bounds of one instant, in
/// milliseconds since the Unix epoch.
#[derive(Debug, Clone, Copy, PartialEq, Eq, Structural)]
pub struct EpochBounds {
    pub lower: i64,
    pub upper: i64,
}

/// Instants handled by the library stay within this magnitude (about 36
/// million years in milliseconds), so that bucket arithmetic cannot
/// overflow an `i64`.
pub open spec fn instant_in_range(t: int) -> bool {
    -0x1000_0000_0000_0000 <= t <= 0x1000_0000_0000_0000
}

/// Positive bucket widths handled by the library, in milliseconds (up to
/// about 142 thousand years), so that bucket arithmetic cannot overflow.
pub open spec fn width_in_range(w: int) -> bool {
    0 < w <= 0x10_0000_0000_0000
}

/// Bucket bounds that can sit in the store: the canonical lower bound of
/// any in-range instant stays within this slightly wider magnitude, and
/// truncating such a stored bound is still overflow-free.
pub open spec fn stored_instant_in_range(t: int) -> bool {
    -0x1010_0000_0000_0000 <= t <= 0x1010_0000_0000_0000
}

/// The canonical lower bound of the bucket of width `w` containing `t`:
/// `t` rounded down to the nearest multiple of `w`.  (`%` on `int` is
/// Euclidean, so this rounds down for negative `t` as well.)
pub open spec fn epoch_lower(t: int, w: int) -> int {
    t - (t % w)
}

/// Bucket containment: every instant lies inside the canonical bucket
/// computed for it.
pub proof fn lemma_bucket_containment(t: int, w: int)
    requires
        w > 0,
    ensures
        epoch_lower(t, w) <= t < epoch_lower(t, w) + w,
{
    lemma_mod_division_less_than_divisor(t, w);
}

/// The canonical lower bound is a multiple of the width.
pub proof fn lemma_lower_is_multiple(t: int, w: int)
    requires
        w > 0,
    ensures
        epoch_lower(t, w) % w == 0,
{
    lemma_fundamental_div_mod(t, w);
    assert(epoch_lower(t, w) == w * (t / w));
    assert(w * (t / w) == (t / w) * w) by (nonlinear_arith);
    lemma_mod_multiples_basic(t / w, w);
}

/// Idempotent truncation: truncating an instant that already is a
/// canonical lower bound returns that instant unchanged.
pub proof fn lemma_truncation_idempotent(t: int, w: int)
    requires
        w > 0,
    ensures
        epoch_lower(epoch_lower(t, w), w) == epoch_lower(t, w),
{
    lemma_lower_is_multiple(t, w);
}

/// Two instants fall in the same canonical bucket exactly when their
/// lower bounds agree.
pub open spec fn same_bucket(t1: int, t2: int, w: int) -> bool {
    epoch_lower(t1, w) == epoch_lower(t2, w)
}

/// Computes the canonical `[lower, upper)` bucket of `date` for the bucket
/// width `epoch_len`; rejects non-positive widths.
pub fn get_epoch_boundry(date: i64, epoch_len: i64) -> (r: Result<EpochBounds, Error>)
    requires
        stored_instant_in_range(date as int),
        epoch_len <= 0x10_0000_0000_0000,
    ensures
        match r {
            Ok(b) => {
                &&& width_in_range(epoch_len as int)
                &&& b.lower == epoch_lower(date as int, epoch_len as int)
                &&& b.upper == b.lower + epoch_len
                &&& b.lower <= date < b.upper
            },
            Err(e) => e == Error::InvalidWidth && epoch_len <= 0,
        },
{
    if epoch_len <= 0 {
        return Err(Error::InvalidWidth);
    }
    proof {
        lemma_mod_division_less_than_divisor(date as int, epoch_len as int);
    }
    // Exec `%` truncates toward zero, while `epoch_lower` is defined with
    // the Euclidean remainder, so compute the remainder of a negative
    // instant from the non-negative value `-(date + 1)`.
    let rem: i64 = if date >= 0 {
        date % epoch_len
    } else {
        let k: i64 = (-(date + 1)) % epoch_len;
        proof {
            let t = date as int;
            let w = epoch_len as int;
            let u = -(t + 1);
            lemma_fundamental_div_mod(u, w);
            lemma_mod_division_less_than_divisor(u, w);
            let q = -(u / w) - 1;
            assert(t == q * w + (w - 1 - u % w)) by (nonlinear_arith)
                requires u == -(t + 1) && q == -(u / w) - 1 && u == w * (u / w) + u % w;
            lemma_fundamental_div_mod_converse_mod(t, w, q, w - 1 - u % w);
        }
        epoch_len - 1 - k
    };
    assert(rem == (date as int) % (epoch_len as int));
    let lower: i64 = date - rem;
    Ok(EpochBounds { lower, upper: lower + epoch_len })
}

/// The predicate selecting epoch records whose bound lies in `[lo, hi]`,
/// both ends included: one canonical bucket is expected to hold at most
/// one record, so the wider query is harmless and tolerates records that
/// sit exactly on the upper bound.
pub open spec fn between_filter(lo: int, hi: int) -> spec_fn(EpochRecord) -> bool {
    |e: EpochRecord| lo <= e.epoch <= hi
}

/// All epoch records of the table whose bound lies in `[lo, hi]`, in
/// table order.
pub open spec fn epochs_between(s: Seq<EpochRecord>, lo: int, hi: int) -> Seq<EpochRecord> {
    s.filter(between_filter(lo, hi))
}

/// The predicate selecting epoch records in `[lo, hi]` other than the
/// record with id `id`.
pub open spec fn other_filter(lo: int, hi: int, id: u32) -> spec_fn(EpochRecord) -> bool {
    |e: EpochRecord| lo <= e.epoch <= hi && e.id != id
}

/// All epoch records in `[lo, hi]` other than the one with id `id`.
pub open spec fn other_epochs_between(s: Seq<EpochRecord>, lo: int, hi: int, id: u32) -> Seq<
    EpochRecord,
> {
    s.filter(other_filter(lo, hi, id))
}

/// One unfolding step of `filter` along a prefix, used by the search
/// loops below.
proof fn lemma_filter_take_step(s: Seq<EpochRecord>, pred: spec_fn(EpochRecord) -> bool, i: int)
    requires
        0 <= i < s.len(),
    ensures
        s.take(i + 1).filter(pred) == (if pred(s[i]) {
            s.take(i).filter(pred).push(s[i])
        } else {
            s.take(i).filter(pred)
        }),
{
    reveal_with_fuel(Seq::<EpochRecord>::filter, 2);
    assert(s.take(i + 1).drop_last() =~= s.take(i));
    assert(s.take(i + 1).last() == s[i]);
}

/// The first stored epoch record with the given id, if any.
pub open spec fn epoch_with_id(s: Seq<EpochRecord>, id: u32) -> Option<EpochRecord>
    decreases s.len(),
{
    if s.len() == 0 {
        None
    } else if s[0].id == id {
        Some(s[0])
    } else {
        epoch_with_id(s.subrange(1, s.len() as int), id)
    }
}

/// The converse characterization: the first index carrying an id is the
/// record that `epoch_with_id` finds.
pub(crate) proof fn lemma_epoch_with_id_of(s: Seq<EpochRecord>, id: u32, k: int)
    requires
        0 <= k < s.len(),
        s[k].id == id,
        forall|j: int| 0 <= j < k ==> (#[trigger] s[j]).id != id,
    ensures
        epoch_with_id(s, id) == Some(s[k]),
    decreases s.len(),
{
    if s[0].id != id {
        let tail = s.subrange(1, s.len() as int);
        assert forall|j: int| 0 <= j < k - 1 implies (#[trigger] tail[j]).id != id by {
            assert(tail[j] == s[j + 1]);
        }
        assert(tail[k - 1] == s[k]);
        lemma_epoch_with_id_of(tail, id, k - 1);
    }
}

/// Looks an epoch record up by id.
pub(crate) fn find_epoch_by_id(db: &Database, id: u32) -> (r: Option<EpochRecord>)
    ensures
        r == epoch_with_id(db@.epochs, id),
{
    let ghost s = db@.epochs;
    let n = db.epochs.len();
    proof {
        assert(s.subrange(0, n as int) =~= s);
    }
    for i in 0..n
        invariant
            n == db.epochs.len(),
            s == db@.epochs,
            0 <= i <= n,
            epoch_with_id(s, id) == epoch_with_id(s.subrange(i as int, n as int), id),
    {
        let e = db.epochs[i];
        proof {
            assert(s.subrange(i as int, n as int)[0] == e);
            assert(s.subrange(i as int, n as int).subrange(
                1,
                (n - i) as int,
            ) =~= s.subrange(i as int + 1, n as int));
        }
        if e.id == id {
            return Some(e);
        }
    }
    proof {
        assert(s.subrange(n as int, n as int).len() == 0);
    }
    None
}

/// Collects the epoch records whose bound lies in `[bounds.lower,
/// bounds.upper]`, in table order: the store's range query.
pub fn filter_epochs_by_date_time(db: &Database, bounds: EpochBounds) -> (r: Vec<EpochRecord>)
    ensures
        r@ == epochs_between(db@.epochs, bounds.lower as int, bounds.upper as int),
{
    let ghost s = db@.epochs;
    let ghost pred = between_filter(bounds.lower as int, bounds.upper as int);
    let mut found: Vec<EpochRecord> = Vec::new();
    let n = db.epochs.len();
    for i in 0..n
        invariant
            n == db.epochs.len(),
            s == db@.epochs,
            pred == between_filter(bounds.lower as int, bounds.upper as int),
            found@ == s.take(i as int).filter(pred),
    {
        let e = db.epochs[i];
        proof {
            lemma_filter_take_step(s, pred, i as int);
        }
        if bounds.lower <= e.epoch && e.epoch <= bounds.upper {
            found.push(e);
        }
    }
    proof {
        assert(s.take(n as int) =~= s);
    }
    found
}

/// The model of `find_epoch_by_datetime`: the outcome of looking the
/// canonical bucket of `t` up in the table.
pub open spec fn find_epoch_model(m: DbModel, t: int, w: int) -> Result<
    Option<EpochRecord>,
    Error,
> {
    if w <= 0 {
        Err(Error::InvalidWidth)
    } else {
        let lo = epoch_lower(t, w);
        let ms = epochs_between(m.epochs, lo, lo + w);
        if ms.len() >= 2 {
            Err(Error::TooManyEpochs)
        } else if ms.len() == 1 {
            Ok(Some(ms[0]))
        } else {
            Ok(None)
        }
    }
}

/// Finds the epoch record of the canonical bucket containing `date`, if
/// the table holds one; rejects non-positive widths, and reports a store
/// consistency violation when several records match one bucket.
pub fn find_epoch_by_datetime(db: &Database, date: i64, epoch_len: i64) -> (r: Result<
    Option<EpochRecord>,
    Error,
>)
    requires
        instant_in_range(date as int),
        epoch_len <= 0x10_0000_0000_0000,
    ensures
        r == find_epoch_model(db@, date as int, epoch_len as int),
{
    let bounds = match get_epoch_boundry(date, epoch_len) {
        Ok(b) => b,
        Err(e) => {
            return Err(e);
        },
    };
    let mut epochs = filter_epochs_by_date_time(db, bounds);
    if epochs.len() >= 2 {
        Err(Error::TooManyEpochs)
    } else if epochs.len() == 1 {
        let e = epochs[0];
        Ok(Some(e))
    } else {
        Ok(None)
    }
}

/// The model of `get_or_create_epoch`: the table afterwards and the
/// outcome.  A fresh record takes the next free id and the canonical
/// lower bound of `t`.
pub open spec fn get_or_create_epoch_model(m: DbModel, t: int, w: int) -> (DbModel, Result<
    EpochRecord,
    Error,
>) {
    match find_epoch_model(m, t, w) {
        Err(e) => (m, Err(e)),
        Ok(Some(e)) => (m, Ok(e)),
        Ok(None) => {
            let rec = EpochRecord { id: m.next_epoch_id, epoch: epoch_lower(t, w) as i64 };
            let m1 = DbModel {
                epochs: m.epochs.push(rec),
                dadded: m.dadded,
                next_epoch_id: (m.next_epoch_id + 1) as u32,
                next_dadded_id: m.next_dadded_id,
            };
            (m1, Ok(rec))
        },
    }
}

/// Returns the epoch record of the canonical bucket containing
/// `cur_time`, creating it when the table has none.  The store enforces
/// no uniqueness of bounds, so this works find-before-create and reports
/// a consistency violation instead of repairing one.
pub fn get_or_create_epoch(db: &mut Database, cur_time: i64, epoch_len: i64) -> (r: Result<
    EpochRecord,
    Error,
>)
    requires
        instant_in_range(cur_time as int),
        epoch_len <= 0x10_0000_0000_0000,
        old(db)@.next_epoch_id < u32::MAX,
    ensures
        (final(db)@, r) == get_or_create_epoch_model(old(db)@, cur_time as int, epoch_len as int),
        crate::records::db_wf(old(db)@) ==> crate::records::db_wf(final(db)@),
{
    match find_epoch_by_datetime(db, cur_time, epoch_len) {
        Err(e) => Err(e),
        Ok(Some(e)) => Ok(e),
        Ok(None) => {
            let bounds = match get_epoch_boundry(cur_time, epoch_len) {
                Ok(b) => b,
                Err(e) => {
                    return Err(e);
                },
            };
            let rec = db.insert_epoch(bounds.lower);
            Ok(rec)
        },
    }
}

/// The smallest stored bound among the given records (`0` for an empty
/// sequence, which the callers rule out).
pub open spec fn min_epoch_value(s: Seq<EpochRecord>) -> int
    decreases s.len(),
{
    if s.len() == 0 {
        0
    } else if s.len() == 1 {
        s[0].epoch as int
    } else {
        let m = min_epoch_value(s.drop_last());
        if (s.last().epoch as int) < m {
            s.last().epoch as int
        } else {
            m
        }
    }
}

/// The model of `get_next_epoch_bound`: the bound of the earliest other
/// record inside the current bucket's canonical range, or the canonical
/// upper bound when there is none.
pub open spec fn next_epoch_bound_model(m: DbModel, cur_epoch_id: u32, w: int) -> Result<
    i64,
    Error,
> {
    match epoch_with_id(m.epochs, cur_epoch_id) {
        None => Err(Error::EpochNotFound { id: cur_epoch_id }),
        Some(cur) => {
            if w <= 0 {
                Err(Error::InvalidWidth)
            } else {
                let lo = epoch_lower(cur.epoch as int, w);
                let others = other_epochs_between(m.epochs, lo, lo + w, cur_epoch_id);
                if others.len() == 0 {
                    Ok((lo + w) as i64)
                } else {
                    Ok(min_epoch_value(others) as i64)
                }
            }
        },
    }
}

/// Computes where the bucket of the epoch `cur_epoch_id` ends: the bound
/// of the nearest other stored epoch inside the canonical range when one
/// exists (tolerating externally created, non-canonical records), else
/// the canonical upper bound.
pub fn get_next_epoch_bound(db: &Database, cur_epoch_id: u32, epoch_len: i64) -> (r: Result<
    i64,
    Error,
>)
    requires
        epoch_len <= 0x10_0000_0000_0000,
        crate::records::db_wf(db@),
    ensures
        r == next_epoch_bound_model(db@, cur_epoch_id, epoch_len as int),
{
    let cur_epoch = match find_epoch_by_id(db, cur_epoch_id) {
        Some(e) => e,
        None => {
            return Err(Error::EpochNotFound { id: cur_epoch_id });
        },
    };
    proof {
        lemma_epoch_with_id_is_stored(db@.epochs, cur_epoch_id);
    }
    let bounds = match get_epoch_boundry(cur_epoch.epoch, epoch_len) {
        Ok(b) => b,
        Err(e) => {
            return Err(e);
        },
    };
    let ghost s = db@.epochs;
    let ghost pred = other_filter(bounds.lower as int, bounds.upper as int, cur_epoch_id);
    let mut found_epochs: Vec<EpochRecord> = Vec::new();
    let n = db.epochs.len();
    for i in 0..n
        invariant
            n == db.epochs.len(),
            s == db@.epochs,
            pred == other_filter(bounds.lower as int, bounds.upper as int, cur_epoch_id),
            found_epochs@ == s.take(i as int).filter(pred),
    {
        let e = db.epochs[i];
        proof {
            lemma_filter_take_step(s, pred, i as int);
        }
        if bounds.lower <= e.epoch && e.epoch <= bounds.upper && e.id != cur_epoch_id {
            found_epochs.push(e);
        }
    }
    proof {
        assert(s.take(n as int) =~= s);
    }
    if found_epochs.len() == 0 {
        return Ok(bounds.upper);
    }
    let ghost others = found_epochs@;
    let mut min: i64 = found_epochs[0].epoch;
    let k = found_epochs.len();
    for i in 1..k
        invariant
            k == found_epochs.len(),
            others == found_epochs@,
            1 <= i <= k,
            0 < k,
            min == min_epoch_value(others.take(i as int)),
    {
        proof {
            assert(others.take(i as int + 1).drop_last() =~= others.take(i as int));
            assert(others.take(i as int + 1).last() == others[i as int]);
        }
        if found_epochs[i].epoch < min {
            min = found_epochs[i].epoch;
        }
    }
    proof {
        assert(others.take(k as int) =~= others);
    }
    Ok(min)
}

/// A record found by id is a stored record, so its bound is in the
/// stored range whenever the store is well formed.
pub(crate) proof fn lemma_epoch_with_id_is_stored(s: Seq<EpochRecord>, id: u32)
    ensures
        match epoch_with_id(s, id) {
            Some(e) => exists|i: int| 0 <= i < s.len() && s[i] == e && e.id == id,
            None => true,
        },
    decreases s.len(),
{
    if s.len() > 0 && s[0].id != id {
        lemma_epoch_with_id_is_stored(s.subrange(1, s.len() as int), id);
        if let Some(e) = epoch_with_id(s, id) {
            let i = choose|i: int|
                0 <= i < s.len() - 1 && s.subrange(1, s.len() as int)[i] == e && e.id == id;
            assert(s[i + 1] == e);
        }
    }
}

/// Find-or-create convergence: when a first find-or-create call succeeds
/// for an instant, a second call for any instant of the same canonical
/// bucket succeeds on the resulting store and returns a record with the
/// same id (and the same bound).
pub proof fn lemma_find_or_create_converges(m: DbModel, t1: int, t2: int, w: int)
    requires
        width_in_range(w),
        instant_in_range(t1),
        instant_in_range(t2),
        same_bucket(t1, t2, w),
        get_or_create_epoch_model(m, t1, w).1 is Ok,
    ensures
        get_or_create_epoch_model(get_or_create_epoch_model(m, t1, w).0, t2, w).1
            == get_or_create_epoch_model(m, t1, w).1,
{
    let lo = epoch_lower(t1, w);
    let ms = epochs_between(m.epochs, lo, lo + w);
    let (m1, r1) = get_or_create_epoch_model(m, t1, w);
    if ms.len() == 0 {
        let rec = r1->Ok_0;
        assert(m1.epochs == m.epochs.push(rec));
        lemma_bucket_containment(t1, w);
        assert(rec.epoch == lo);
        assert(between_filter(lo, lo + w)(rec));
        lemma_filter_take_step(m1.epochs, between_filter(lo, lo + w), m.epochs.len() as int);
        assert(m1.epochs.take(m.epochs.len() as int) =~= m.epochs);
        assert(m1.epochs.take(m.epochs.len() as int + 1) =~= m1.epochs);
        assert(epochs_between(m1.epochs, lo, lo + w) == ms.push(rec));
    }
}

} // verus!
