//! Zone-state resolution: from the transitions relevant to "now" to the
//! currently applicable UTC offset, DST flag, abbreviation and week number.

use vstd::prelude::*;
use crate::calendar::{iso_week_of, utc_iso_week_of_instant, SAFE_INSTANT_BOUND};
use crate::error::TzError;
use crate::query::{lemma_selected_in_range, spec_project, spec_selected};
use crate::zone::{Tz, TzModel};

verus! {

/// Convenient, denormalized information about a zone at one instant.
/// Offsets are seconds east of UTC: `raw_offset` outside DST, `dst_offset`
/// during DST, `utc_offset` whichever of the two is in effect at
/// `utc_datetime`; `datetime` is `utc_datetime` shifted by `utc_offset`.
#[derive(Debug, PartialEq)]
pub struct Tzinfo {
    /// UTC time, seconds since the epoch
    pub utc_datetime: i64,
    /// Local time: UTC shifted by the offset in effect
    pub datetime: i64,
    /// Start of the DST period, when one is in progress this year
    pub dst_from: Option<i64>,
    /// End of the DST period, when one is in progress this year
    pub dst_until: Option<i64>,
    /// Does `utc_datetime` fall inside the DST period?
    pub dst_period: bool,
    /// Normal offset to UTC, in seconds
    pub raw_offset: isize,
    /// Offset to UTC during daylight saving time, in seconds
    pub dst_offset: isize,
    /// The offset in effect at `utc_datetime`, in seconds
    pub utc_offset: isize,
    /// Abbreviation of the local-time type in effect
    pub abbreviation: String,
    /// ISO 8601 week number of the local time
    pub week_number: i32,
}

/// The mathematical content of a `Tzinfo`.
#[verifier::ext_equal]
pub ghost struct TzinfoModel {
    pub utc_datetime: i64,
    pub datetime: i64,
    pub dst_from: Option<i64>,
    pub dst_until: Option<i64>,
    pub dst_period: bool,
    pub raw_offset: isize,
    pub dst_offset: isize,
    pub utc_offset: isize,
    pub abbreviation: Seq<char>,
    pub week_number: i32,
}

impl View for Tzinfo {
    type V = TzinfoModel;

    open spec fn view(&self) -> TzinfoModel {
        TzinfoModel {
            utc_datetime: self.utc_datetime,
            datetime: self.datetime,
            dst_from: self.dst_from,
            dst_until: self.dst_until,
            dst_period: self.dst_period,
            raw_offset: self.raw_offset,
            dst_offset: self.dst_offset,
            utc_offset: self.utc_offset,
            abbreviation: self.abbreviation@,
            week_number: self.week_number,
        }
    }
}

/// Everything `zoneinfo` does, as a function of zone and instant alone. The
/// state machine runs on how many transitions the current year holds: two is
/// a standard annual DST pair (in DST exactly when `now` lies strictly
/// between them; the first names the DST parameters, the second the standard
/// ones); one is a single change with no DST concept; none at all (a zone
/// with an empty transition table) reads the zone's first local-time type;
/// any other count is refused as `NoData`, never guessed at.
pub open spec fn spec_zoneinfo(m: TzModel, now: i64) -> Result<TzinfoModel, TzError> {
    let sel = if m.data.len() == 0 {
        Seq::<int>::empty()
    } else {
        spec_selected(m, Some(0i32), now as int)
    };
    if sel.len() == 2 {
        let v0 = spec_project(m, sel[0]);
        let v1 = spec_project(m, sel[1]);
        let dst = v0.time < now < v1.time;
        let off = if dst {
            v0.utc_offset
        } else {
            v1.utc_offset
        };
        Ok(
            TzinfoModel {
                utc_datetime: now,
                datetime: (now + off) as i64,
                dst_from: Some(v0.time),
                dst_until: Some(v1.time),
                dst_period: dst,
                raw_offset: v1.utc_offset,
                dst_offset: v0.utc_offset,
                utc_offset: off,
                abbreviation: if dst {
                    v0.abbreviation
                } else {
                    v1.abbreviation
                },
                week_number: iso_week_of(now + off) as i32,
            },
        )
    } else if sel.len() == 1 {
        let v0 = spec_project(m, sel[0]);
        Ok(
            TzinfoModel {
                utc_datetime: now,
                datetime: (now + v0.utc_offset) as i64,
                dst_from: None,
                dst_until: None,
                dst_period: false,
                raw_offset: v0.utc_offset,
                dst_offset: 0,
                utc_offset: v0.utc_offset,
                abbreviation: v0.abbreviation,
                week_number: iso_week_of(now + v0.utc_offset) as i32,
            },
        )
    } else if m.data.len() == 0 {
        let ty = m.types[0];
        Ok(
            TzinfoModel {
                utc_datetime: now,
                datetime: (now + ty.tt_utoff) as i64,
                dst_from: None,
                dst_until: None,
                dst_period: false,
                raw_offset: ty.tt_utoff,
                dst_offset: 0,
                utc_offset: ty.tt_utoff,
                abbreviation: m.abbr[ty.tt_abbrind as int],
                week_number: iso_week_of(now + ty.tt_utoff) as i32,
            },
        )
    } else {
        Err(TzError::NoData)
    }
}

/// When the current year holds exactly two transitions, the zone is in DST
/// exactly when `now` lies strictly between them, and the resolved state then
/// carries the first transition's offset and abbreviation (the DST ones),
/// otherwise the second's (the standard ones); the DST period's endpoints are
/// the two instants either way.
pub proof fn lemma_dst_pair_resolution(m: TzModel, now: i64)
    requires
        m.data.len() > 0,
        spec_selected(m, Some(0i32), now as int).len() == 2,
    ensures
        ({
            let sel = spec_selected(m, Some(0i32), now as int);
            let v0 = spec_project(m, sel[0]);
            let v1 = spec_project(m, sel[1]);
            let st = spec_zoneinfo(m, now)->Ok_0;
            &&& spec_zoneinfo(m, now) is Ok
            &&& st.dst_period == (v0.time < now < v1.time)
            &&& st.utc_offset == (if st.dst_period {
                v0.utc_offset
            } else {
                v1.utc_offset
            })
            &&& st.abbreviation == (if st.dst_period {
                v0.abbreviation
            } else {
                v1.abbreviation
            })
            &&& st.dst_offset == v0.utc_offset
            &&& st.raw_offset == v1.utc_offset
            &&& st.dst_from == Some(v0.time)
            &&& st.dst_until == Some(v1.time)
        }),
{
}

impl Tz {
    /// Resolves the zone's state at `now`: queries the transitions of the
    /// year `now` falls in, then applies the state machine of
    /// `spec_zoneinfo`. The instant must stay a day clear of the calendar
    /// library's range, and every local-time type's offset must be less than
    /// a day in magnitude, so that shifting `now` by an offset stays
    /// representable.
    pub fn zoneinfo(&self, now: i64) -> (r: Result<Tzinfo, TzError>)
        requires
            self@.wf(),
            -SAFE_INSTANT_BOUND + 86400 <= now <= SAFE_INSTANT_BOUND - 86400,
            forall|j: int|
                0 <= j < self@.types.len() ==> -86400 < (#[trigger] self@.types[j].tt_utoff)
                    < 86400,
        ensures
            (match r {
                Ok(z) => spec_zoneinfo(self@, now) is Ok && z@ == spec_zoneinfo(self@, now)->Ok_0,
                Err(e) => spec_zoneinfo(self@, now) == Err::<TzinfoModel, TzError>(e),
            }),
    {
        let parsed = match self.transition_times(Some(0), now) {
            Ok(p) => p,
            Err(_) => Vec::new(),
        };
        proof {
            if self@.data.len() > 0 {
                lemma_selected_in_range(self@, Some(0i32), now as int);
            }
        }
        if parsed.len() == 2 {
            let t0 = &parsed[0];
            let t1 = &parsed[1];
            let dst = now > t0.time && now < t1.time;
            let off = if dst {
                t0.utc_offset
            } else {
                t1.utc_offset
            };
            let local = now + off as i64;
            let week = match utc_iso_week_of_instant(local) {
                Some(w) => w,
                None => {
                    proof {
                        assert(false);
                    }
                    return Err(TzError::NoData);
                },
            };
            Ok(
                Tzinfo {
                    utc_datetime: now,
                    datetime: local,
                    dst_from: Some(t0.time),
                    dst_until: Some(t1.time),
                    dst_period: dst,
                    raw_offset: t1.utc_offset,
                    dst_offset: t0.utc_offset,
                    utc_offset: off,
                    abbreviation: if dst {
                        t0.abbreviation.clone()
                    } else {
                        t1.abbreviation.clone()
                    },
                    week_number: week as i32,
                },
            )
        } else if parsed.len() == 1 {
            let t0 = &parsed[0];
            let local = now + t0.utc_offset as i64;
            let week = match utc_iso_week_of_instant(local) {
                Some(w) => w,
                None => {
                    proof {
                        assert(false);
                    }
                    return Err(TzError::NoData);
                },
            };
            Ok(
                Tzinfo {
                    utc_datetime: now,
                    datetime: local,
                    dst_from: None,
                    dst_until: None,
                    dst_period: false,
                    raw_offset: t0.utc_offset,
                    dst_offset: 0,
                    utc_offset: t0.utc_offset,
                    abbreviation: t0.abbreviation.clone(),
                    week_number: week as i32,
                },
            )
        } else if parsed.len() == 0 {
            let ty = &self.tzh_typecnt[0];
            let local = now + ty.tt_utoff as i64;
            let week = match utc_iso_week_of_instant(local) {
                Some(w) => w,
                None => {
                    proof {
                        assert(false);
                    }
                    return Err(TzError::NoData);
                },
            };
            Ok(
                Tzinfo {
                    utc_datetime: now,
                    datetime: local,
                    dst_from: None,
                    dst_until: None,
                    dst_period: false,
                    raw_offset: ty.tt_utoff,
                    dst_offset: 0,
                    utc_offset: ty.tt_utoff,
                    abbreviation: self.tz_abbr[ty.tt_abbrind as usize].clone(),
                    week_number: week as i32,
                },
            )
        } else {
            Err(TzError::NoData)
        }
    }
}

} // verus!
