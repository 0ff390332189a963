//! Tests of zone-state resolution on fixture buffers.

use libtzfile::{Tz, TzError};

fn paris_buf() -> Vec<u8> {
    vec![84,90,105,102,50,0,0,0,0,0,0,0,0,0,0,0,0,0,0,0,0,0,0,2,0,0,0,2,0,0,0,0,0,0,0,2,0,0,0,2,0,0,0,9,0,0,0,0,0,0,0,0,0,0,0,0,0,0,0,0,0,0,0,0,0,0,0,0,0,0,0,0,0,0,0,0,0,0,0,84,90,105,102,50,0,0,0,0,0,0,0,0,0,0,0,0,0,0,0,0,0,0,2,0,0,0,2,0,0,0,0,0,0,0,2,0,0,0,2,0,0,0,9,0,0,0,0,92,160,17,16,0,0,0,0,93,180,236,16,1,0,0,0,14,16,0,5,0,0,28,32,1,0,67,69,83,84,0,67,69,84,0]
}

fn paris3_buf() -> Vec<u8> {
    vec![84,90,105,102,50,0,0,0,0,0,0,0,0,0,0,0,0,0,0,0,0,0,0,2,0,0,0,2,0,0,0,0,0,0,0,3,0,0,0,2,0,0,0,9,0,0,0,0,0,0,0,0,0,0,0,0,0,0,0,0,0,0,0,0,0,0,0,0,0,0,0,0,0,0,0,0,0,0,0,0,0,0,0,0,84,90,105,102,50,0,0,0,0,0,0,0,0,0,0,0,0,0,0,0,0,0,0,2,0,0,0,2,0,0,0,0,0,0,0,3,0,0,0,2,0,0,0,9,0,0,0,0,92,160,17,16,0,0,0,0,93,26,158,128,0,0,0,0,93,180,236,16,1,0,1,0,0,14,16,0,5,0,0,28,32,1,0,67,69,83,84,0,67,69,84,0]
}

fn est_buf() -> Vec<u8> {
    vec![84,90,105,102,50,0,0,0,0,0,0,0,0,0,0,0,0,0,0,0,0,0,0,1,0,0,0,1,0,0,0,0,0,0,0,0,0,0,0,1,0,0,0,4,0,0,0,0,0,0,0,0,0,0,0,0,84,90,105,102,50,0,0,0,0,0,0,0,0,0,0,0,0,0,0,0,0,0,0,1,0,0,0,1,0,0,0,0,0,0,0,0,0,0,0,1,0,0,0,4,255,255,185,176,0,0,69,83,84,0]
}

#[test]
fn zoneinfo() {
    // 2019-07-01T00:00:00Z, between the two 2019 transitions
    let now = 1561939200;
    let tztest = Tz::new(paris_buf()).unwrap().zoneinfo(now).unwrap();
    assert_eq!(tztest.raw_offset, 3600);
    assert_eq!(tztest.dst_offset, 7200);
    assert_eq!(
        libtzfile::zone_name_from_path("/usr/share/zoneinfo/Europe/Paris").unwrap(),
        String::from("Europe/Paris")
    );
}

#[test]
fn dst_period_inside_window() {
    let now = 1561939200;
    let info = Tz::new(paris_buf()).unwrap().zoneinfo(now).unwrap();
    assert!(info.dst_period);
    assert_eq!(info.utc_offset, 7200);
    assert_eq!(info.abbreviation, "CEST");
    assert_eq!(info.dst_from, Some(1553994000));
    assert_eq!(info.dst_until, Some(1572138000));
    assert_eq!(info.utc_datetime, now);
    assert_eq!(info.datetime, now + 7200);
    assert_eq!(info.week_number, 27);
}

#[test]
fn dst_period_outside_window() {
    // 2019-02-01T00:00:00Z, before the DST period
    let now = 1548979200;
    let info = Tz::new(paris_buf()).unwrap().zoneinfo(now).unwrap();
    assert!(!info.dst_period);
    assert_eq!(info.utc_offset, 3600);
    assert_eq!(info.abbreviation, "CET");
    assert_eq!(info.raw_offset, 3600);
    assert_eq!(info.dst_offset, 7200);
}

#[test]
fn zoneinfo_fixed_offset_zone() {
    let now = 1561939200;
    let info = Tz::new(est_buf()).unwrap().zoneinfo(now).unwrap();
    assert_eq!(info.raw_offset, -18000);
    assert_eq!(info.dst_offset, 0);
    assert_eq!(info.utc_offset, -18000);
    assert!(!info.dst_period);
    assert_eq!(info.dst_from, None);
    assert_eq!(info.dst_until, None);
    assert_eq!(info.abbreviation, "EST");
    assert_eq!(info.datetime, now - 18000);
}

#[test]
fn zoneinfo_refuses_odd_transition_count() {
    let now = 1561939200;
    assert_eq!(
        Tz::new(paris3_buf()).unwrap().zoneinfo(now),
        Err(TzError::NoData)
    );
}
