use std::collections::HashMap;

use bruss_data::{
    sequence_hash, AreaType, Direction, DirectionParseError, NormalizeError, RawStopTime, RawTrip,
    Schedule, ScheduleHints, StopTime, Trip,
};

fn st(sequence: u32, stop: u16, arrival: i32, departure: i32) -> RawStopTime {
    RawStopTime { sequence, stop, arrival, departure }
}

fn hm(h: i32, m: i32) -> i32 {
    h * 3600 + m * 60
}

fn raw(stop_times: Vec<RawStopTime>) -> RawTrip {
    RawTrip {
        id: String::from("T1"),
        delay: Some(42),
        direction: 1,
        next_stop: 20,
        last_stop: 10,
        bus_id: Some(301),
        route: 5,
        stop_times,
        ty: AreaType::U,
        headsign: String::from("Centro"),
        last_event: Some(1_700_000_000),
    }
}

#[test]
fn early_reference_departure_rolls_over() {
    let r = raw(vec![st(1, 10, hm(2, 29), hm(2, 30)), st(2, 20, hm(2, 40), hm(2, 41))]);
    let (_, dep) = Trip::from_tt(r).unwrap();
    assert_eq!(dep, 86400 + hm(2, 30) as i64);
}

#[test]
fn late_reference_departure_stays() {
    let r = raw(vec![st(1, 10, hm(4, 59), hm(5, 0)), st(2, 20, hm(5, 10), hm(5, 11))]);
    let (_, dep) = Trip::from_tt(r).unwrap();
    assert_eq!(dep, hm(5, 0) as i64);
}

#[test]
fn rollover_boundary_at_four() {
    let r = raw(vec![st(1, 10, hm(4, 0), hm(4, 0))]);
    assert_eq!(Trip::from_tt(r).unwrap().1, hm(4, 0) as i64);
    let r = raw(vec![st(1, 10, hm(3, 59), hm(3, 59))]);
    assert_eq!(Trip::from_tt(r).unwrap().1, 86400 + hm(3, 59) as i64);
}

#[test]
fn omitted_delay_is_zero_and_zero_pointer_is_absent() {
    let mut r = raw(vec![st(1, 10, hm(6, 0), hm(6, 0))]);
    r.delay = None;
    r.next_stop = 0;
    r.last_stop = 0;
    let (t, _) = Trip::from_tt(r).unwrap();
    assert_eq!(t.delay, 0);
    assert_eq!(t.next_stop, None);
    assert_eq!(t.last_stop, None);
}

#[test]
fn normalized_fields_are_copied() {
    let r = raw(vec![st(1, 10, hm(6, 0), hm(6, 1)), st(2, 20, hm(6, 10), hm(6, 12)), st(3, 30, hm(6, 20), hm(6, 20))]);
    let (t, dep) = Trip::from_tt(r).unwrap();
    assert_eq!(dep, hm(6, 1) as i64);
    assert_eq!(t.id, "T1");
    assert_eq!(t.delay, 42);
    assert_eq!(t.direction, Direction::Backward);
    assert_eq!(t.next_stop, Some(20));
    assert_eq!(t.last_stop, Some(10));
    assert_eq!(t.bus_id, Some(301));
    assert_eq!(t.route, 5);
    assert_eq!(t.headsign, "Centro");
    assert_eq!(t.ty, AreaType::U);
    assert_eq!(t.last_event, Some(1_700_000_000));
    assert_eq!(t.path, sequence_hash(AreaType::U, &vec![10, 20, 30]));
    assert_eq!(t.times.len(), 3);
    assert_eq!(t.times.get(&10), Some(&StopTime { arrival: -60, departure: 0 }));
    assert_eq!(t.times.get(&20), Some(&StopTime { arrival: 540, departure: 660 }));
    assert_eq!(t.times.get(&30), Some(&StopTime { arrival: 1140, departure: 1140 }));
}

#[test]
fn reference_need_not_be_first_entry() {
    let r = raw(vec![st(2, 20, hm(7, 10), hm(7, 10)), st(1, 10, hm(7, 0), hm(7, 0))]);
    let (t, dep) = Trip::from_tt(r).unwrap();
    assert_eq!(dep, hm(7, 0) as i64);
    assert_eq!(t.times.get(&20), Some(&StopTime { arrival: 600, departure: 600 }));
    assert_eq!(t.path, sequence_hash(AreaType::U, &vec![20, 10]));
}

#[test]
fn duplicate_stop_keeps_last_entry() {
    let r = raw(vec![st(1, 10, hm(8, 0), hm(8, 0)), st(2, 20, hm(8, 5), hm(8, 5)), st(3, 10, hm(8, 30), hm(8, 31))]);
    let (t, _) = Trip::from_tt(r).unwrap();
    assert_eq!(t.times.len(), 2);
    assert_eq!(t.times.get(&10), Some(&StopTime { arrival: 1800, departure: 1860 }));
    assert_eq!(t.path, sequence_hash(AreaType::U, &vec![10, 20, 10]));
}

#[test]
fn missing_reference_stop_is_an_error() {
    let r = raw(vec![st(2, 10, hm(8, 0), hm(8, 0))]);
    assert_eq!(Trip::from_tt(r).err(), Some(NormalizeError::MissingReferenceStop));
    assert_eq!(Trip::from_tt(raw(vec![])).err(), Some(NormalizeError::MissingReferenceStop));
}

#[test]
fn unknown_direction_is_an_error() {
    let mut r = raw(vec![st(1, 10, hm(8, 0), hm(8, 0))]);
    r.direction = 7;
    assert_eq!(Trip::from_tt(r).err(), Some(NormalizeError::UnknownDirection(7)));
}

#[test]
fn missing_reference_reported_before_direction() {
    let mut r = raw(vec![st(3, 10, hm(8, 0), hm(8, 0))]);
    r.direction = 9;
    assert_eq!(Trip::from_tt(r).err(), Some(NormalizeError::MissingReferenceStop));
}

fn trip(id: &str, delay: i32, next: u16, times: Vec<(u16, i64, i64)>) -> Trip {
    let mut m = HashMap::new();
    for (k, a, d) in times {
        m.insert(k, StopTime { arrival: a, departure: d });
    }
    Trip::new(
        String::from(id),
        delay,
        Direction::Forward,
        next,
        9,
        Some(4),
        3,
        String::from("Nord"),
        String::from("abc"),
        m,
        AreaType::E,
        None,
    )
}

#[test]
fn new_normalizes_zero_pointers() {
    let t = trip("A", 0, 0, vec![]);
    assert_eq!(t.next_stop, None);
    assert_eq!(t.last_stop, Some(9));
}

#[test]
fn merge_takes_live_fields_only() {
    let current = trip("A", 10, 5, vec![(1, 0, 0), (2, 60, 60)]);
    let mut incoming = trip("A", -30, 0, vec![(1, 0, 0)]);
    incoming.path = String::from("other");
    incoming.bus_id = Some(77);
    incoming.last_stop = None;
    incoming.headsign = String::from("Sud");
    let m = current.merge(incoming);
    assert_eq!(m.path, "abc");
    assert_eq!(m.times.len(), 2);
    assert_eq!(m.times.get(&2), Some(&StopTime { arrival: 60, departure: 60 }));
    assert_eq!(m.headsign, "Nord");
    assert_eq!(m.delay, -30);
    assert_eq!(m.next_stop, None);
    assert_eq!(m.last_stop, None);
    assert_eq!(m.bus_id, Some(77));
}

#[test]
fn deep_cmp_sees_one_time_entry() {
    let a = trip("A", 10, 5, vec![(1, 0, 0), (2, 60, 60)]);
    let b = trip("A", 10, 5, vec![(1, 0, 0), (2, 60, 61)]);
    let c = trip("A", 10, 5, vec![(2, 60, 60), (1, 0, 0)]);
    assert!(!a.deep_cmp(&b));
    assert!(a == b);
    assert!(a.deep_cmp(&c));
}

#[test]
fn deep_cmp_sees_each_field() {
    let a = trip("A", 10, 5, vec![(1, 0, 0)]);
    let b = trip("A", 11, 5, vec![(1, 0, 0)]);
    assert!(!a.deep_cmp(&b));
    let b = trip("A", 10, 6, vec![(1, 0, 0)]);
    assert!(!a.deep_cmp(&b));
    let mut b = trip("A", 10, 5, vec![(1, 0, 0)]);
    b.last_event = Some(5);
    assert!(!a.deep_cmp(&b));
    let b = trip("B", 10, 5, vec![(1, 0, 0)]);
    assert!(!a.deep_cmp(&b));
    assert!(a != b);
}

#[test]
fn direction_codes_and_tags() {
    assert_eq!(Direction::from_code(0), Some(Direction::Forward));
    assert_eq!(Direction::from_code(1), Some(Direction::Backward));
    assert_eq!(Direction::from_code(2), None);
    assert_eq!(Direction::Forward.as_char(), 'f');
    assert_eq!(Direction::Backward.as_str(), "b");
    assert_eq!("f".parse::<Direction>(), Ok(Direction::Forward));
    assert_eq!(Direction::parse("b"), Ok(Direction::Backward));
    assert_eq!(Direction::parse("x"), Err(DirectionParseError));
    assert_eq!(Direction::parse("ff"), Err(DirectionParseError));
    assert_eq!(Direction::parse(""), Err(DirectionParseError));
}

#[test]
fn schedule_arrives_at_final_stop() {
    let t = trip("A", 0, 5, vec![(1, 0, 0), (2, 600, 620), (3, 1200, 1200)]);
    let s = Schedule::from_trip(&t, 1_000_000);
    assert_eq!(s.id, "A");
    assert_eq!(s.departure, 1_000_000);
    assert_eq!(s.arrival, 1_001_200);
    assert_eq!(s.hints, ScheduleHints::from_trip(&t));
    assert_eq!(s.hints.route, 3);
    assert_eq!(s.hints.direction, Direction::Forward);
}

#[test]
fn schedule_equality_by_id_and_departure() {
    let t = trip("A", 0, 5, vec![(1, 0, 0), (2, 600, 600)]);
    let u = trip("A", 0, 5, vec![(1, 0, 0), (2, 900, 900)]);
    assert!(Schedule::from_trip(&t, 100) == Schedule::from_trip(&u, 100));
    assert!(Schedule::from_trip(&t, 100) != Schedule::from_trip(&t, 200));
}
