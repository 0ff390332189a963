//! Second decode stage: the transition timestamps, the transition type
//! indices, the local-time types, and the abbreviation table, all sliced out
//! of one buffer according to the header's counts.

use vstd::prelude::*;
use crate::bytes::{be_i32_at, be_i64_at, read_be_i32, read_be_i64, read_be_u32};
use crate::error::TzError;
use crate::header::{spec_parse_header, Header, MAGIC};
use crate::text::{
    lemma_pieces_len_strict, nul_pieces, nul_tail, spec_abbreviations, split_abbreviations,
};

verus! {

/// One local-time type: UTC offset in seconds, DST flag as stored (1 = DST),
/// and the resolved index into the zone's abbreviation list (not the raw byte
/// offset stored in the file).
#[derive(Debug, PartialEq, Eq, Structural, Clone, Copy)]
pub struct Ttinfo {
    pub tt_utoff: isize,
    pub tt_isdst: u8,
    pub tt_abbrind: u32,
}

/// A decoded zone: transition timestamps in file order, the type index of
/// each transition, the local-time types, and the abbreviation table.
#[derive(Debug, PartialEq)]
pub struct Tz {
    /// transition times timestamps table
    pub tzh_timecnt_data: Vec<i64>,
    /// indices into `tzh_typecnt`, one per transition
    pub tzh_timecnt_indices: Vec<u8>,
    /// the local-time types: UTC offset, DST flag, abbreviation index
    pub tzh_typecnt: Vec<Ttinfo>,
    /// abbreviations table
    pub tz_abbr: Vec<String>,
}

/// The mathematical content of a `Tz`.
#[verifier::ext_equal]
pub ghost struct TzModel {
    pub data: Seq<i64>,
    pub indices: Seq<u8>,
    pub types: Seq<Ttinfo>,
    pub abbr: Seq<Seq<char>>,
}

impl View for Tz {
    type V = TzModel;

    open spec fn view(&self) -> TzModel {
        TzModel {
            data: self.tzh_timecnt_data@,
            indices: self.tzh_timecnt_indices@,
            types: self.tzh_typecnt@,
            abbr: Seq::new(self.tz_abbr@.len(), |k: int| self.tz_abbr@[k]@),
        }
    }
}

impl TzModel {
    /// The structural invariants every decoded zone satisfies: one type index
    /// per transition, each within the type table; at least one local-time
    /// type; and every abbreviation index within the abbreviation table.
    pub open spec fn wf(self) -> bool {
        &&& self.data.len() == self.indices.len()
        &&& self.types.len() >= 1
        &&& forall|t: int|
            0 <= t < self.indices.len() ==> (#[trigger] self.indices[t] as int) < self.types.len()
        &&& forall|j: int|
            0 <= j < self.types.len() ==> (#[trigger] self.types[j].tt_abbrind as int)
                < self.abbr.len()
    }
}

/// Byte offset where the 64-bit body's transition timestamps begin.
pub open spec fn data_start(h: Header) -> int {
    44 + h.v2_header_start
}

/// Byte offset where the transition type indices begin.
pub open spec fn index_start(h: Header) -> int {
    data_start(h) + 8 * h.tzh_timecnt
}

/// Byte offset just past the transition type indices.
pub open spec fn times_end(h: Header) -> int {
    data_start(h) + 9 * h.tzh_timecnt
}

/// Byte offset just past the local-time type records.
pub open spec fn types_end(h: Header) -> int {
    times_end(h) + 6 * h.tzh_typecnt
}

/// Byte offset just past the leap-second records (skipped; only their length
/// matters).
pub open spec fn leaps_end(h: Header) -> int {
    types_end(h) + 12 * h.tzh_leapcnt
}

/// Byte offset just past the abbreviation character blob.
pub open spec fn chars_end(h: Header) -> int {
    leaps_end(h) + h.tzh_charcnt
}

/// The abbreviation character blob.
pub open spec fn abbr_blob(b: Seq<u8>, h: Header) -> Seq<u8> {
    b.subrange(leaps_end(h), chars_end(h))
}

/// The local-time type record `j` of the body, with its raw abbreviation byte
/// offset translated to a list index by counting the NUL bytes that occur in
/// the blob strictly before that byte offset.
pub open spec fn spec_type_at(b: Seq<u8>, h: Header, j: int) -> Ttinfo {
    Ttinfo {
        tt_utoff: be_i32_at(b, times_end(h) + 6 * j) as isize,
        tt_isdst: b[times_end(h) + 6 * j + 4],
        tt_abbrind: nul_pieces(abbr_blob(b, h), b[times_end(h) + 6 * j + 5] as int).len() as u32,
    }
}

/// The decoded zone as a function of buffer and header alone.
pub open spec fn spec_zone_model(b: Seq<u8>, h: Header) -> TzModel {
    TzModel {
        data: Seq::new(h.tzh_timecnt as nat, |t: int| be_i64_at(b, data_start(h) + 8 * t) as i64),
        indices: Seq::new(h.tzh_timecnt as nat, |t: int| b[index_start(h) + t]),
        types: Seq::new(h.tzh_typecnt as nat, |j: int| spec_type_at(b, h, j)),
        abbr: spec_abbreviations(abbr_blob(b, h))->Ok_0,
    }
}

/// Everything `parse_data` does, as a function of buffer and header alone:
/// a buffer shorter than the computed ranges is `BoundsError`; a header with
/// no local-time type, a raw abbreviation offset outside the blob, or a
/// transition type index outside the type table is `ParseError`; the
/// abbreviation blob's own failures are as `spec_abbreviations` gives them.
pub open spec fn spec_parse_data(b: Seq<u8>, h: Header) -> Result<TzModel, TzError> {
    if chars_end(h) > b.len() {
        Err(TzError::BoundsError)
    } else if h.tzh_typecnt == 0 {
        Err(TzError::ParseError)
    } else {
        match spec_abbreviations(abbr_blob(b, h)) {
            Err(e) => Err(e),
            Ok(abbr) => {
                if !(forall|j: int|
                    0 <= j < h.tzh_typecnt ==> (#[trigger] b[times_end(h) + 6 * j + 5] as int)
                        < h.tzh_charcnt) {
                    Err(TzError::ParseError)
                } else if !(forall|t: int|
                    0 <= t < h.tzh_timecnt ==> (#[trigger] b[index_start(h) + t] as int)
                        < h.tzh_typecnt) {
                    Err(TzError::ParseError)
                } else {
                    Ok(spec_zone_model(b, h))
                }
            },
        }
    }
}

/// Header parsing followed by body parsing: everything `Tz::new` does, as a
/// function of the buffer alone.
pub open spec fn spec_new(b: Seq<u8>) -> Result<TzModel, TzError> {
    match spec_parse_header(b) {
        Err(e) => Err(e),
        Ok(h) => spec_parse_data(b, h),
    }
}

/// A zone the decoder accepts satisfies the structural invariants: every
/// transition's type index is within the type table, the type table is not
/// empty, and every type's abbreviation index is within the abbreviation
/// table.
pub proof fn lemma_spec_parse_data_wf(b: Seq<u8>, h: Header)
    requires
        spec_parse_data(b, h) is Ok,
    ensures
        spec_parse_data(b, h)->Ok_0.wf(),
{
    let m = spec_parse_data(b, h)->Ok_0;
    let blob = abbr_blob(b, h);
    let abbr = spec_abbreviations(blob)->Ok_0;
    assert(nul_tail(blob, blob.len() as int).len() == 0);
    assert forall|j: int| 0 <= j < m.types.len() implies (
    #[trigger] m.types[j].tt_abbrind as int) < m.abbr.len() by {
        let raw = b[times_end(h) + 6 * j + 5] as int;
        assert(raw < h.tzh_charcnt);
        assert(blob.len() == h.tzh_charcnt);
        assert(blob[blob.len() - 1] == 0) by {
            if blob[blob.len() - 1] != 0 {
                assert(nul_tail(blob, blob.len() as int).len() > 0);
            }
        }
        lemma_pieces_len_strict(blob, raw, blob.len() as int);
        assert(m.types[j] == spec_type_at(b, h, j));
    }
}

/// Two decodes of one buffer cannot disagree: the accepted zone is a function
/// of the buffer alone, so any two zones that satisfy the decoder's contract
/// for the same buffer are structurally equal.
pub proof fn lemma_decode_deterministic(b: Seq<u8>, m1: TzModel, m2: TzModel)
    requires
        spec_new(b) is Ok,
        m1 == spec_new(b)->Ok_0,
        m2 == spec_new(b)->Ok_0,
    ensures
        m1 == m2,
{
}

impl Tz {
    /// Validates the magic tag and the version byte, then decodes the six
    /// counts of the 32-bit sub-header purely to locate the 64-bit sub-header,
    /// and re-reads the counts there as the authoritative header. A buffer
    /// shorter than any range this touches is reported as `BoundsError`.
    pub fn parse_header(buffer: &Vec<u8>) -> (r: Result<Header, TzError>)
        ensures
            r == spec_parse_header(buffer@),
    {
        if buffer.len() < 4 {
            return Err(TzError::BoundsError);
        }
        let magic = read_be_u32(buffer, 0);
        if magic != MAGIC {
            return Err(TzError::InvalidMagic);
        }
        if buffer.len() < 5 {
            return Err(TzError::BoundsError);
        }
        let version = buffer[4];
        if version != 50 && version != 51 {
            return Err(TzError::UnsupportedFormat);
        }
        if buffer.len() < 44 {
            return Err(TzError::BoundsError);
        }
        let timecnt = read_be_u32(buffer, 0x20) as u64;
        let typecnt = read_be_u32(buffer, 0x24) as u64;
        let leapcnt = read_be_u32(buffer, 0x1C) as u64;
        let charcnt = read_be_u32(buffer, 0x28) as u64;
        let stdcnt = read_be_u32(buffer, 0x18) as u64;
        let utcnt = read_be_u32(buffer, 0x14) as u64;
        let s: u64 = timecnt * 5 + typecnt * 6 + leapcnt * 8 + charcnt + stdcnt + utcnt + 44;
        if s + 44 > buffer.len() as u64 {
            return Err(TzError::BoundsError);
        }
        let base = s as usize;
        Ok(Header {
            tzh_ttisutcnt: read_be_u32(buffer, base + 0x14) as usize,
            tzh_ttisstdcnt: read_be_u32(buffer, base + 0x18) as usize,
            tzh_leapcnt: read_be_u32(buffer, base + 0x1C) as usize,
            tzh_timecnt: read_be_u32(buffer, base + 0x20) as usize,
            tzh_typecnt: read_be_u32(buffer, base + 0x24) as usize,
            tzh_charcnt: read_be_u32(buffer, base + 0x28) as usize,
            v2_header_start: base,
        })
    }

    /// Decodes a TZif buffer: validates the header, then decodes the body.
    pub fn new(buf: Vec<u8>) -> (r: Result<Tz, TzError>)
        ensures
            (match r {
                Ok(z) => {
                    &&& spec_new(buf@) is Ok
                    &&& z@ == spec_new(buf@)->Ok_0
                    &&& z@.wf()
                },
                Err(e) => spec_new(buf@) == Err::<TzModel, TzError>(e),
            }),
    {
        let header = match Tz::parse_header(&buf) {
            Ok(h) => h,
            Err(e) => {
                return Err(e);
            },
        };
        Tz::parse_data(&buf, header)
    }

    /// Decodes the body ranges the header describes. The counts and the body
    /// offset must be small enough for the range arithmetic not to overflow;
    /// every header `Tz::parse_header` accepts satisfies that.
    pub fn parse_data(buffer: &Vec<u8>, header: Header) -> (r: Result<Tz, TzError>)
        requires
            header.tzh_timecnt <= u32::MAX,
            header.tzh_typecnt <= u32::MAX,
            header.tzh_leapcnt <= u32::MAX,
            header.tzh_charcnt <= u32::MAX,
            header.v2_header_start <= 0x20_0000_0000,
        ensures
            (match r {
                Ok(z) => {
                    &&& spec_parse_data(buffer@, header) is Ok
                    &&& z@ == spec_parse_data(buffer@, header)->Ok_0
                    &&& z@.wf()
                },
                Err(e) => spec_parse_data(buffer@, header) == Err::<TzModel, TzError>(e),
            }),
    {
        let timecnt = header.tzh_timecnt as u64;
        let typecnt = header.tzh_typecnt as u64;
        let data_start64 = 44 + header.v2_header_start as u64;
        let index_start64 = data_start64 + 8 * timecnt;
        let times_end64 = data_start64 + 9 * timecnt;
        let types_end64 = times_end64 + 6 * typecnt;
        let leaps_end64 = types_end64 + 12 * (header.tzh_leapcnt as u64);
        let chars_end64 = leaps_end64 + header.tzh_charcnt as u64;
        if chars_end64 > buffer.len() as u64 {
            return Err(TzError::BoundsError);
        }
        if header.tzh_typecnt == 0 {
            return Err(TzError::ParseError);
        }
        let n_time = header.tzh_timecnt;
        let n_type = header.tzh_typecnt;
        let n_char = header.tzh_charcnt;
        let p_data = data_start64 as usize;
        let p_index = index_start64 as usize;
        let p_times_end = times_end64 as usize;
        let p_leaps_end = leaps_end64 as usize;
        let p_chars_end = chars_end64 as usize;
        let ghost blob = abbr_blob(buffer@, header);

        let tz_abbr = match split_abbreviations(buffer, p_leaps_end, p_chars_end) {
            Ok(v) => v,
            Err(e) => {
                return Err(e);
            },
        };

        let mut tzh_timecnt_data: Vec<i64> = Vec::new();
        let mut t: usize = 0;
        while t < n_time
            invariant
                t <= n_time,
                n_time == header.tzh_timecnt,
                p_data == data_start(header),
                p_data + 8 * n_time <= buffer.len(),
                tzh_timecnt_data@.len() == t,
                forall|k: int|
                    0 <= k < t ==> #[trigger] tzh_timecnt_data@[k] == be_i64_at(
                        buffer@,
                        data_start(header) + 8 * k,
                    ) as i64,
            decreases n_time - t,
        {
            tzh_timecnt_data.push(read_be_i64(buffer, p_data + 8 * t));
            t = t + 1;
        }

        let mut tzh_typecnt: Vec<Ttinfo> = Vec::new();
        let mut j: usize = 0;
        while j < n_type
            invariant
                j <= n_type,
                n_type == header.tzh_typecnt,
                n_char == header.tzh_charcnt,
                p_times_end == times_end(header),
                p_leaps_end == leaps_end(header),
                p_chars_end == chars_end(header),
                p_times_end + 6 * n_type <= p_leaps_end <= p_chars_end <= buffer.len(),
                blob == abbr_blob(buffer@, header),
                chars_end(header) <= buffer@.len(),
                header.tzh_typecnt > 0,
                spec_abbreviations(abbr_blob(buffer@, header)) is Ok,
                tzh_typecnt@.len() == j,
                forall|k: int|
                    0 <= k < j ==> #[trigger] tzh_typecnt@[k] == spec_type_at(buffer@, header, k),
                forall|k: int|
                    0 <= k < j ==> (#[trigger] buffer@[times_end(header) + 6 * k + 5] as int)
                        < header.tzh_charcnt,
            decreases n_type - j,
        {
            let rec = p_times_end + 6 * j;
            let utoff = read_be_i32(buffer, rec) as isize;
            let isdst = buffer[rec + 4];
            let raw = buffer[rec + 5];
            if raw as usize >= n_char {
                proof {
                    assert(!(forall|k: int|
                        0 <= k < header.tzh_typecnt ==> (#[trigger] buffer@[times_end(header) + 6
                            * k + 5] as int) < header.tzh_charcnt)) by {
                        assert(buffer@[times_end(header) + 6 * (j as int) + 5] == raw);
                    }
                }
                return Err(TzError::ParseError);
            }
            let mut c: u32 = 0;
            let mut k: usize = 0;
            while k < raw as usize
                invariant
                    k <= raw as usize,
                    (raw as usize) < n_char,
                    n_char == header.tzh_charcnt,
                    p_leaps_end == leaps_end(header),
                    p_leaps_end + n_char <= buffer.len(),
                    blob == abbr_blob(buffer@, header),
                    c <= k,
                    c == nul_pieces(blob, k as int).len(),
                decreases raw as usize - k,
            {
                assert(blob[k as int] == buffer@[leaps_end(header) + k]);
                if buffer[p_leaps_end + k] == 0 {
                    c = c + 1;
                }
                k = k + 1;
            }
            tzh_typecnt.push(Ttinfo { tt_utoff: utoff, tt_isdst: isdst, tt_abbrind: c });
            assert(tzh_typecnt@[j as int] == spec_type_at(buffer@, header, j as int));
            j = j + 1;
        }

        let mut tzh_timecnt_indices: Vec<u8> = Vec::new();
        let mut t: usize = 0;
        while t < n_time
            invariant
                t <= n_time,
                n_time == header.tzh_timecnt,
                n_type == header.tzh_typecnt,
                p_index == index_start(header),
                p_index + n_time <= buffer.len(),
                chars_end(header) <= buffer@.len(),
                header.tzh_typecnt > 0,
                spec_abbreviations(abbr_blob(buffer@, header)) is Ok,
                forall|k: int|
                    0 <= k < header.tzh_typecnt ==> (#[trigger] buffer@[times_end(header) + 6 * k
                        + 5] as int) < header.tzh_charcnt,
                tzh_timecnt_indices@.len() == t,
                forall|k: int|
                    0 <= k < t ==> #[trigger] tzh_timecnt_indices@[k] == buffer@[index_start(header)
                        + k],
                forall|k: int|
                    0 <= k < t ==> (#[trigger] buffer@[index_start(header) + k] as int)
                        < header.tzh_typecnt,
            decreases n_time - t,
        {
            let idx = buffer[p_index + t];
            if idx as usize >= n_type {
                proof {
                    assert(!(forall|k: int|
                        0 <= k < header.tzh_timecnt ==> (#[trigger] buffer@[index_start(header)
                            + k] as int) < header.tzh_typecnt)) by {
                        assert(buffer@[index_start(header) + t as int] == idx);
                    }
                }
                return Err(TzError::ParseError);
            }
            tzh_timecnt_indices.push(idx);
            t = t + 1;
        }

        let z = Tz { tzh_timecnt_data, tzh_timecnt_indices, tzh_typecnt, tz_abbr };
        proof {
            let m = spec_zone_model(buffer@, header);
            assert(z@.data =~= m.data);
            assert(z@.indices =~= m.indices);
            assert(z@.types =~= m.types);
            assert(z@.abbr =~= m.abbr);
            assert(z@ =~= m);
            lemma_spec_parse_data_wf(buffer@, header);
        }
        Ok(z)
    }
}

} // verus!
