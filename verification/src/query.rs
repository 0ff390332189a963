//! Transition queries: which of a zone's recorded transitions are relevant to
//! a requested year, or to no year at all.

use vstd::prelude::*;
use crate::calendar::{
    utc_midnight_instant, utc_year_of_instant, year_begin_ts, year_end_ts, year_of_ts,
    CHRONO_MAX_YEAR, CHRONO_MIN_YEAR, SAFE_INSTANT_BOUND,
};
use crate::error::TzError;
use crate::zone::{Tz, TzModel};

verus! {

/// A corrupt placeholder timestamp observed in some real-world files,
/// excluded from whole-table queries so that converting the result to a
/// calendar date cannot overflow.
pub const SENTINEL_INSTANT: i64 = -576460752303423488;

/// One transition, denormalized: the instant, and the UTC offset, DST flag
/// and abbreviation of the local-time type it switches to. A value copy with
/// no link back to the zone.
#[derive(Debug, PartialEq)]
pub struct TransitionTime {
    /// The instant of the transition, in seconds since the epoch
    pub time: i64,
    /// The upcoming offset to UTC, in seconds
    pub utc_offset: isize,
    /// Is the upcoming change DST?
    pub isdst: bool,
    /// Abbreviation of the upcoming local-time type
    pub abbreviation: String,
}

/// The mathematical content of a `TransitionTime`.
#[verifier::ext_equal]
pub ghost struct TransitionTimeModel {
    pub time: i64,
    pub utc_offset: isize,
    pub isdst: bool,
    pub abbreviation: Seq<char>,
}

impl View for TransitionTime {
    type V = TransitionTimeModel;

    open spec fn view(&self) -> TransitionTimeModel {
        TransitionTimeModel {
            time: self.time,
            utc_offset: self.utc_offset,
            isdst: self.isdst,
            abbreviation: self.abbreviation@,
        }
    }
}

/// Transition `i` of the zone joined against its local-time type and the
/// abbreviation table.
pub open spec fn spec_project(m: TzModel, i: int) -> TransitionTimeModel {
    let ty = m.types[m.indices[i] as int];
    TransitionTimeModel {
        time: m.data[i],
        utc_offset: ty.tt_utoff,
        isdst: ty.tt_isdst == 1,
        abbreviation: m.abbr[ty.tt_abbrind as int],
    }
}

/// The indices `t < n` whose instant lies strictly between `lo` and `hi`, in
/// ascending order.
pub open spec fn window_indices(data: Seq<i64>, n: int, lo: int, hi: int) -> Seq<int>
    decreases n,
{
    if n <= 0 {
        Seq::empty()
    } else if lo < data[n - 1] < hi {
        window_indices(data, n - 1, lo, hi).push(n - 1)
    } else {
        window_indices(data, n - 1, lo, hi)
    }
}

/// The indices `t < n` whose instant is not the sentinel, in ascending order.
pub open spec fn kept_indices(data: Seq<i64>, n: int) -> Seq<int>
    decreases n,
{
    if n <= 0 {
        Seq::empty()
    } else if data[n - 1] != SENTINEL_INSTANT {
        kept_indices(data, n - 1).push(n - 1)
    } else {
        kept_indices(data, n - 1)
    }
}

/// The last index `t < n` (in scan order) whose instant precedes `lo`, or 0
/// when no instant among the first `n` precedes `lo`.
pub open spec fn nearest_before(data: Seq<i64>, n: int, lo: int) -> int
    decreases n,
{
    if n <= 0 {
        0
    } else if data[n - 1] < lo {
        n - 1
    } else {
        nearest_before(data, n - 1, lo)
    }
}

/// The indices `transition_times` selects for a non-empty zone: every
/// non-sentinel transition when no year is requested; otherwise the
/// transitions strictly inside the requested year's window, or, when the
/// window is empty, the single nearest transition preceding the window
/// (index 0 when none precedes it).
pub open spec fn spec_selected(m: TzModel, y: Option<i32>, now: int) -> Seq<int> {
    match y {
        None => kept_indices(m.data, m.data.len() as int),
        Some(yy) => {
            let year = if yy == 0 {
                year_of_ts(now)
            } else {
                yy as int
            };
            let lo = year_begin_ts(year);
            let hi = year_end_ts(year);
            let w = window_indices(m.data, m.data.len() as int, lo, hi);
            if w.len() > 0 {
                w
            } else {
                seq![nearest_before(m.data, m.data.len() as int, lo)]
            }
        },
    }
}

/// Every index `spec_selected` yields lies within the transition table.
pub proof fn lemma_selected_in_range(m: TzModel, y: Option<i32>, now: int)
    requires
        m.data.len() > 0,
    ensures
        forall|k: int|
            0 <= k < spec_selected(m, y, now).len() ==> 0 <= #[trigger] spec_selected(
                m,
                y,
                now,
            )[k] < m.data.len(),
{
    let n = m.data.len() as int;
    match y {
        None => {
            lemma_kept_in_range(m.data, n);
        },
        Some(yy) => {
            let year = if yy == 0 {
                year_of_ts(now)
            } else {
                yy as int
            };
            let lo = year_begin_ts(year);
            let hi = year_end_ts(year);
            lemma_window_in_range(m.data, n, lo, hi);
            lemma_nearest_in_range(m.data, n, lo);
        },
    }
}

proof fn lemma_window_in_range(data: Seq<i64>, n: int, lo: int, hi: int)
    ensures
        forall|k: int|
            0 <= k < window_indices(data, n, lo, hi).len() ==> 0 <= #[trigger] window_indices(
                data,
                n,
                lo,
                hi,
            )[k] < n,
    decreases n,
{
    if n > 0 {
        lemma_window_in_range(data, n - 1, lo, hi);
        let w1 = window_indices(data, n - 1, lo, hi);
        let w = window_indices(data, n, lo, hi);
        assert forall|k: int| 0 <= k < w.len() implies 0 <= #[trigger] w[k] < n by {
            if k < w1.len() {
                assert(w[k] == w1[k]);
            }
        }
    }
}

proof fn lemma_kept_in_range(data: Seq<i64>, n: int)
    ensures
        forall|k: int|
            0 <= k < kept_indices(data, n).len() ==> 0 <= #[trigger] kept_indices(data, n)[k] < n,
    decreases n,
{
    if n > 0 {
        lemma_kept_in_range(data, n - 1);
        let w1 = kept_indices(data, n - 1);
        let w = kept_indices(data, n);
        assert forall|k: int| 0 <= k < w.len() implies 0 <= #[trigger] w[k] < n by {
            if k < w1.len() {
                assert(w[k] == w1[k]);
            }
        }
    }
}

/// The whole-table query's selection excludes exactly the sentinel
/// timestamps: every selected transition is a non-sentinel one, every
/// non-sentinel transition is selected, and the table's order is kept.
pub proof fn lemma_kept_indices_sound(data: Seq<i64>, n: int)
    requires
        0 <= n <= data.len(),
    ensures
        forall|k: int|
            0 <= k < kept_indices(data, n).len() ==> data[#[trigger] kept_indices(data, n)[k]]
                != SENTINEL_INSTANT,
        forall|k1: int, k2: int|
            0 <= k1 < k2 < kept_indices(data, n).len() ==> #[trigger] kept_indices(data, n)[k1]
                < #[trigger] kept_indices(data, n)[k2],
        forall|t: int|
            0 <= t < n && data[t] != SENTINEL_INSTANT ==> kept_indices(data, n).contains(t),
    decreases n,
{
    if n > 0 {
        lemma_kept_indices_sound(data, n - 1);
        lemma_kept_in_range(data, n - 1);
        let w1 = kept_indices(data, n - 1);
        let w = kept_indices(data, n);
        assert forall|k: int|
            0 <= k < w.len() implies data[#[trigger] w[k]] != SENTINEL_INSTANT by {
            if k < w1.len() {
                assert(w[k] == w1[k]);
            }
        }
        assert forall|k1: int, k2: int|
            0 <= k1 < k2 < w.len() implies #[trigger] w[k1] < #[trigger] w[k2] by {
            if k2 < w1.len() {
                assert(w[k1] == w1[k1] && w[k2] == w1[k2]);
            } else {
                assert(w[k1] == w1[k1]);
            }
        }
        assert forall|t: int|
            0 <= t < n && data[t] != SENTINEL_INSTANT implies w.contains(t) by {
            if t < n - 1 {
                let k = choose|k: int| 0 <= k < w1.len() && w1[k] == t;
                assert(w[k] == t);
            } else {
                assert(w[w.len() - 1] == t);
            }
        }
    }
}

proof fn lemma_nearest_in_range(data: Seq<i64>, n: int, lo: int)
    requires
        n > 0,
    ensures
        0 <= nearest_before(data, n, lo) < n,
    decreases n,
{
    if data[n - 1] < lo {
    } else if n > 1 {
        lemma_nearest_in_range(data, n - 1, lo);
    } else {
        assert(nearest_before(data, 0, lo) == 0);
    }
}

impl Tz {
    /// Projects transition `i` into a self-contained `TransitionTime`.
    fn project(&self, i: usize) -> (r: TransitionTime)
        requires
            self@.wf(),
            i < self@.data.len(),
        ensures
            r@ == spec_project(self@, i as int),
    {
        let idx = self.tzh_timecnt_indices[i] as usize;
        let ty = &self.tzh_typecnt[idx];
        TransitionTime {
            time: self.tzh_timecnt_data[i],
            utc_offset: ty.tt_utoff,
            isdst: ty.tt_isdst == 1,
            abbreviation: self.tz_abbr[ty.tt_abbrind as usize].clone(),
        }
    }

    /// Returns the transitions relevant to `y`, each joined against its
    /// local-time type: for `None` the whole table except sentinel
    /// timestamps; for `Some(0)` the transitions of the year `now` falls in;
    /// for any other `Some(yy)` the transitions of year `yy`. A year's window
    /// is strict on both sides (nothing on January 1 at midnight, nothing
    /// from December 31 onward); a year with an empty window yields the
    /// single transition that carries the zone's parameters into that year.
    /// Fails with `NoData` exactly when the zone has no transitions at all.
    pub fn transition_times(&self, y: Option<i32>, now: i64) -> (r: Result<
        Vec<TransitionTime>,
        TzError,
    >)
        requires
            self@.wf(),
            y matches Some(yy) ==> (yy == 0 || CHRONO_MIN_YEAR <= yy <= CHRONO_MAX_YEAR),
            y == Some(0i32) ==> -SAFE_INSTANT_BOUND <= now <= SAFE_INSTANT_BOUND,
        ensures
            r is Err <==> self@.data.len() == 0,
            r is Err ==> r == Err::<Vec<TransitionTime>, TzError>(TzError::NoData),
            r is Ok ==> {
                let sel = spec_selected(self@, y, now as int);
                &&& r->Ok_0@.len() == sel.len()
                &&& forall|k: int|
                    0 <= k < sel.len() ==> (#[trigger] r->Ok_0@[k])@ == spec_project(self@, sel[k])
            },
    {
        let n = self.tzh_timecnt_data.len();
        if n == 0 {
            return Err(TzError::NoData);
        }
        let mut out: Vec<TransitionTime> = Vec::new();
        match y {
            None => {
                let mut t: usize = 0;
                while t < n
                    invariant
                        self@.wf(),
                        t <= n == self@.data.len(),
                        out@.len() == kept_indices(self@.data, t as int).len(),
                        forall|k: int|
                            0 <= k < out@.len() ==> (#[trigger] out@[k])@ == spec_project(
                                self@,
                                kept_indices(self@.data, t as int)[k],
                            ),
                    decreases n - t,
                {
                    if self.tzh_timecnt_data[t] != SENTINEL_INSTANT {
                        out.push(self.project(t));
                    }
                    t = t + 1;
                }
                Ok(out)
            },
            Some(yy) => {
                let year: i32 = if yy == 0 {
                    match utc_year_of_instant(now) {
                        Some(v) => v,
                        None => {
                            proof {
                                assert(false);
                            }
                            return Err(TzError::NoData);
                        },
                    }
                } else {
                    yy
                };
                let ghost gyear = (if yy == 0 {
                    year_of_ts(now as int)
                } else {
                    yy as int
                });
                assert(year == gyear);
                let yearbeg: i64 = match utc_midnight_instant(year, 1, 1) {
                    Some(v) => v,
                    None => {
                        proof {
                            assert(false);
                        }
                        return Err(TzError::NoData);
                    },
                };
                let yearend: i64 = match utc_midnight_instant(year, 12, 31) {
                    Some(v) => v,
                    None => {
                        proof {
                            assert(false);
                        }
                        return Err(TzError::NoData);
                    },
                };
                let ghost lo = year_begin_ts(gyear);
                let ghost hi = year_end_ts(gyear);
                let mut nearest: usize = 0;
                let mut t: usize = 0;
                while t < n
                    invariant
                        self@.wf(),
                        t <= n == self@.data.len(),
                        n > 0,
                        yearbeg == lo,
                        yearend == hi,
                        nearest < n,
                        nearest as int == nearest_before(self@.data, t as int, lo),
                        out@.len() == window_indices(self@.data, t as int, lo, hi).len(),
                        forall|k: int|
                            0 <= k < out@.len() ==> (#[trigger] out@[k])@ == spec_project(
                                self@,
                                window_indices(self@.data, t as int, lo, hi)[k],
                            ),
                    decreases n - t,
                {
                    let v = self.tzh_timecnt_data[t];
                    if v > yearbeg && v < yearend {
                        out.push(self.project(t));
                    }
                    if v < yearbeg {
                        nearest = t;
                    }
                    t = t + 1;
                }
                if out.len() == 0 {
                    out.push(self.project(nearest));
                }
                Ok(out)
            },
        }
    }
}

} // verus!
