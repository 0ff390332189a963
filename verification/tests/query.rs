//! Tests of the transition query on fixture buffers.

use libtzfile::{TransitionTime, Tz, TzError};

fn phoenix_buf() -> Vec<u8> {
    vec![84,90,105,102,50,0,0,0,0,0,0,0,0,0,0,0,0,0,0,0,0,0,0,5,0,0,0,5,0,0,0,0,0,0,0,11,0,0,0,5,0,0,0,16,0,0,0,0,0,0,0,0,0,0,0,0,0,0,0,0,0,0,0,0,0,0,0,0,0,0,0,0,0,0,0,0,0,0,0,0,0,0,0,0,0,0,0,0,0,0,0,0,0,0,0,0,0,0,0,0,0,0,0,0,0,0,0,0,0,0,0,0,0,0,0,0,0,0,0,0,0,0,0,0,0,0,0,0,0,0,0,0,0,0,0,0,0,0,0,0,0,0,0,0,0,0,0,0,0,0,0,0,0,0,0,84,90,105,102,50,0,0,0,0,0,0,0,0,0,0,0,0,0,0,0,0,0,0,5,0,0,0,5,0,0,0,0,0,0,0,11,0,0,0,5,0,0,0,16,255,255,255,255,94,4,12,176,255,255,255,255,158,166,58,144,255,255,255,255,159,187,7,128,255,255,255,255,160,134,28,144,255,255,255,255,161,154,233,128,255,255,255,255,203,137,12,144,255,255,255,255,207,23,223,28,255,255,255,255,207,143,229,172,255,255,255,255,208,129,26,28,255,255,255,255,250,248,117,16,255,255,255,255,251,232,88,0,4,1,2,1,2,3,2,3,2,1,2,255,255,150,238,0,0,255,255,171,160,1,4,255,255,157,144,0,8,255,255,171,160,1,12,255,255,157,144,0,8,76,77,84,0,77,68,84,0,77,83,84,0,77,87,84,0]
}

fn paris_buf() -> Vec<u8> {
    vec![84,90,105,102,50,0,0,0,0,0,0,0,0,0,0,0,0,0,0,0,0,0,0,2,0,0,0,2,0,0,0,0,0,0,0,2,0,0,0,2,0,0,0,9,0,0,0,0,0,0,0,0,0,0,0,0,0,0,0,0,0,0,0,0,0,0,0,0,0,0,0,0,0,0,0,0,0,0,0,84,90,105,102,50,0,0,0,0,0,0,0,0,0,0,0,0,0,0,0,0,0,0,2,0,0,0,2,0,0,0,0,0,0,0,2,0,0,0,2,0,0,0,9,0,0,0,0,92,160,17,16,0,0,0,0,93,180,236,16,1,0,0,0,14,16,0,5,0,0,28,32,1,0,67,69,83,84,0,67,69,84,0]
}

fn est_buf() -> Vec<u8> {
    vec![84,90,105,102,50,0,0,0,0,0,0,0,0,0,0,0,0,0,0,0,0,0,0,1,0,0,0,1,0,0,0,0,0,0,0,0,0,0,0,1,0,0,0,4,0,0,0,0,0,0,0,0,0,0,0,0,84,90,105,102,50,0,0,0,0,0,0,0,0,0,0,0,0,0,0,0,0,0,0,1,0,0,0,1,0,0,0,0,0,0,0,0,0,0,0,1,0,0,0,4,255,255,185,176,0,0,69,83,84,0]
}

fn sentinel_buf() -> Vec<u8> {
    vec![84,90,105,102,50,0,0,0,0,0,0,0,0,0,0,0,0,0,0,0,0,0,0,2,0,0,0,2,0,0,0,0,0,0,0,3,0,0,0,2,0,0,0,8,0,0,0,0,0,0,0,0,0,0,0,0,0,0,0,0,0,0,0,0,0,0,0,0,0,0,0,0,0,0,0,0,0,0,0,0,0,0,0,84,90,105,102,50,0,0,0,0,0,0,0,0,0,0,0,0,0,0,0,0,0,0,2,0,0,0,2,0,0,0,0,0,0,0,3,0,0,0,2,0,0,0,8,248,0,0,0,0,0,0,0,0,0,0,0,0,0,0,100,0,0,0,0,0,0,0,200,0,0,1,0,0,0,0,0,0,0,0,14,16,1,4,65,65,65,0,66,66,66,0]
}

fn tt(time: i64, utc_offset: isize, isdst: bool, abbreviation: &str) -> TransitionTime {
    TransitionTime { time, utc_offset, isdst, abbreviation: abbreviation.to_string() }
}

#[test]
fn partial_timechanges() {
    let tt = vec![
        tt(1553994000, 7200, true, "CEST"),
        tt(1572138000, 3600, false, "CET"),
    ];
    let tz = Tz::new(paris_buf()).unwrap();
    assert_eq!(tz.transition_times(Some(2019), 0).unwrap(), tt);
}

#[test]
fn total_timechanges() {
    let want = vec![
        tt(-2717643600, -25200, false, "MST"),
        tt(-1633273200, -21600, true, "MDT"),
        tt(-1615132800, -25200, false, "MST"),
        tt(-1601823600, -21600, true, "MDT"),
        tt(-1583683200, -25200, false, "MST"),
        tt(-880210800, -21600, true, "MWT"),
        tt(-820519140, -25200, false, "MST"),
        tt(-812653140, -21600, true, "MWT"),
        tt(-796845540, -25200, false, "MST"),
        tt(-84380400, -21600, true, "MDT"),
        tt(-68659200, -25200, false, "MST"),
    ];
    let tz = Tz::new(phoenix_buf()).unwrap();
    assert_eq!(tz.transition_times(None, 0).unwrap(), want);
}

#[test]
fn emptytt() {
    assert_eq!(
        Err(TzError::NoData),
        Tz::new(est_buf()).unwrap().transition_times(None, 0)
    );
}

#[test]
fn year_zero_means_current_year() {
    // 2019-07-01T00:00:00Z
    let now = 1561939200;
    let tz = Tz::new(paris_buf()).unwrap();
    assert_eq!(
        tz.transition_times(Some(0), now).unwrap(),
        tz.transition_times(Some(2019), 0).unwrap()
    );
}

#[test]
fn sentinel_excluded_from_whole_table() {
    let tz = Tz::new(sentinel_buf()).unwrap();
    let all = tz.transition_times(None, 0).unwrap();
    assert_eq!(all.len(), 2);
    assert_eq!(all[0].time, 100);
    assert_eq!(all[1].time, 200);
    assert_eq!(all[0].abbreviation, "AAA");
    assert_eq!(all[1].abbreviation, "BBB");
}

#[test]
fn sentinel_kept_in_year_window_fallback() {
    // A requested year long after every transition selects the nearest
    // preceding one, here the last real transition.
    let tz = Tz::new(sentinel_buf()).unwrap();
    let v = tz.transition_times(Some(2019), 0).unwrap();
    assert_eq!(v.len(), 1);
    assert_eq!(v[0].time, 200);
}

#[test]
fn year_without_transitions_carries_last_forward() {
    // Phoenix's last transition is in 1967; 1980 has none of its own.
    let tz = Tz::new(phoenix_buf()).unwrap();
    let v = tz.transition_times(Some(1980), 0).unwrap();
    assert_eq!(v.len(), 1);
    assert_eq!(v[0].time, -68659200);
    assert_eq!(v[0].utc_offset, -25200);
    assert_eq!(v[0].isdst, false);
    assert_eq!(v[0].abbreviation, "MST");
}

#[test]
fn year_before_all_transitions_defaults_to_first() {
    // No transition precedes 1800: the fallback still selects index 0, even
    // though that transition is far from the requested year.
    let tz = Tz::new(phoenix_buf()).unwrap();
    let v = tz.transition_times(Some(1800), 0).unwrap();
    assert_eq!(v.len(), 1);
    assert_eq!(v[0].time, -2717643600);
}

fn boundary_buf() -> Vec<u8> {
    vec![84,90,105,102,50,0,0,0,0,0,0,0,0,0,0,0,0,0,0,0,0,0,0,2,0,0,0,2,0,0,0,0,0,0,0,3,0,0,0,2,0,0,0,9,0,0,0,0,0,0,0,0,0,0,0,0,0,0,0,0,0,0,0,0,0,0,0,0,0,0,0,0,0,0,0,0,0,0,0,0,0,0,0,0,84,90,105,102,50,0,0,0,0,0,0,0,0,0,0,0,0,0,0,0,0,0,0,2,0,0,0,2,0,0,0,0,0,0,0,3,0,0,0,2,0,0,0,9,0,0,0,0,94,11,225,0,0,0,0,0,94,197,121,128,0,0,0,0,95,237,20,128,0,1,0,0,0,14,16,0,5,0,0,28,32,1,0,67,69,83,84,0,67,69,84,0]
}

#[test]
fn year_window_excludes_exact_endpoints() {
    // Transitions exactly at 2020-01-01T00:00:00Z and 2020-12-31T00:00:00Z
    // sit on the strict window's edges and are excluded; only the one
    // strictly inside remains.
    let tz = Tz::new(boundary_buf()).unwrap();
    let v = tz.transition_times(Some(2020), 0).unwrap();
    assert_eq!(v.len(), 1);
    assert_eq!(v[0].time, 1590000000);
}

#[test]
fn year_after_boundary_carries_forward() {
    // For 2021 nothing is inside the window; the transition at
    // 2020-12-31T00:00:00Z is the nearest preceding one.
    let tz = Tz::new(boundary_buf()).unwrap();
    let v = tz.transition_times(Some(2021), 0).unwrap();
    assert_eq!(v.len(), 1);
    assert_eq!(v[0].time, 1609372800);
}
