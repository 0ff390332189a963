//! Deriving a zone's display name (for instance `Europe/Paris`) from the path
//! of the file it was read from: the last two path components, with a leading
//! `zoneinfo` component elided.

use vstd::prelude::*;
use crate::error::TzError;

verus! {

/// Index of the last `/` in `p[0..n)`, or -1 when it has none.
pub open spec fn last_sep(p: Seq<char>, n: int) -> int
    decreases n,
{
    if n <= 0 {
        -1
    } else if p[n - 1] == '/' {
        n - 1
    } else {
        last_sep(p, n - 1)
    }
}

/// Everything `zone_name_from_path` does, as a function of the path alone:
/// with fewer than three `/`-separated components the path names no zone;
/// otherwise the name is the last two components joined by `/`, or only the
/// last one when the one before it is `zoneinfo`.
pub open spec fn spec_zone_name(p: Seq<char>) -> Result<Seq<char>, TzError> {
    let p2 = last_sep(p, p.len() as int);
    let p1 = last_sep(p, p2);
    if p1 < 0 {
        Err(TzError::InvalidTimezone)
    } else {
        let a = p.subrange(p1 + 1, p2);
        let b = p.subrange(p2 + 1, p.len() as int);
        if a == "zoneinfo"@ {
            Ok(b)
        } else {
            Ok(a + "/"@ + b)
        }
    }
}

/// A found separator index is within range and the positions before it hold
/// no later separator.
proof fn lemma_last_sep_range(p: Seq<char>, n: int)
    requires
        0 <= n <= p.len(),
    ensures
        -1 <= last_sep(p, n) < n || (n == 0 && last_sep(p, n) == -1),
    decreases n,
{
    if n > 0 && p[n - 1] != '/' {
        lemma_last_sep_range(p, n - 1);
    }
}

/// Character-wise string equality.
fn str_eq(a: &str, b: &str) -> (r: bool)
    ensures
        r == (a@ == b@),
{
    let na = a.unicode_len();
    let nb = b.unicode_len();
    if na != nb {
        return false;
    }
    let mut i: usize = 0;
    while i < na
        invariant
            i <= na,
            na == a@.len(),
            na == b@.len(),
            forall|k: int| 0 <= k < i ==> a@[k] == b@[k],
        decreases na - i,
    {
        if a.get_char(i) != b.get_char(i) {
            return false;
        }
        i = i + 1;
    }
    proof {
        assert(a@ =~= b@);
    }
    true
}

/// Derives the zone name from the path of the zone's file: the last two
/// `/`-separated components, joined by `/`, with a `zoneinfo` component
/// before the final one elided. A path of fewer than three components is
/// refused as `InvalidTimezone`.
pub fn zone_name_from_path(path: &str) -> (r: Result<String, TzError>)
    ensures
        (match r {
            Ok(s) => spec_zone_name(path@) is Ok && s@ == spec_zone_name(path@)->Ok_0,
            Err(e) => spec_zone_name(path@) == Err::<Seq<char>, TzError>(e),
        }),
{
    let n = path.unicode_len();
    let mut found2 = false;
    let mut found1 = false;
    let mut p1: usize = 0;
    let mut p2: usize = 0;
    let mut i: usize = 0;
    while i < n
        invariant
            i <= n == path@.len(),
            found2 == (last_sep(path@, i as int) >= 0),
            found2 ==> p2 == last_sep(path@, i as int) && p2 < i,
            found1 == (found2 && last_sep(path@, p2 as int) >= 0),
            found1 ==> p1 == last_sep(path@, p2 as int) && p1 < p2,
        decreases n - i,
    {
        if path.get_char(i) == '/' {
            if found2 {
                p1 = p2;
                found1 = true;
            }
            p2 = i;
            found2 = true;
        }
        i = i + 1;
    }
    if !found1 {
        return Err(TzError::InvalidTimezone);
    }
    let a = path.substring_char(p1 + 1, p2);
    let b = path.substring_char(p2 + 1, n);
    proof {
        lemma_last_sep_range(path@, path@.len() as int);
    }
    if str_eq(a, "zoneinfo") {
        Ok(b.to_owned())
    } else {
        let mut s = String::from_str(a);
        s.append("/");
        s.append(b);
        proof {
            reveal_strlit("/");
            assert(s@ =~= a@ + "/"@ + b@);
        }
        Ok(s)
    }
}

} // verus!
