use bruss_data::digest::to_hex_lower;
use bruss_data::{sequence_hash, AreaType, Path, RoutingType};

#[test]
fn map_sequence_hash_test() {
    assert_eq!(sequence_hash(AreaType::E, &vec![1, 2, 3]), sequence_hash(AreaType::E, &vec![1, 2, 3]));
    assert_ne!(sequence_hash(AreaType::U, &vec![1, 2, 3]), sequence_hash(AreaType::E, &vec![1, 2, 3]));
    assert_ne!(sequence_hash(AreaType::E, &vec![1, 2, 3]), sequence_hash(AreaType::E, &vec![3, 2, 1]));
}

#[test]
fn map_path_test_from_segments() {
    let p1 = Path::new(vec![12, 15, 18, 20], AreaType::E, RoutingType::Bus);
    let p2 = Path::new_from_segments(vec![(12, 15), (15, 18), (18, 20)], AreaType::E);

    assert_eq!(p1.sequence, p2.sequence);
}

#[test]
fn segment_sequence_hash_test() {
    assert_eq!(sequence_hash(AreaType::E, &vec![1, 2, 3]), sequence_hash(AreaType::E, &vec![1, 2, 3]));
    assert_ne!(sequence_hash(AreaType::U, &vec![1, 2, 3]), sequence_hash(AreaType::E, &vec![1, 2, 3]));
    assert_ne!(sequence_hash(AreaType::E, &vec![1, 2, 3]), sequence_hash(AreaType::E, &vec![3, 2, 1]));
}

#[test]
fn segment_path_test_from_segments() {
    let p1 = Path::new(vec![12, 15, 18, 20], AreaType::E, RoutingType::Bus);
    let p2 = Path::new_from_segments(vec![(12, 15), (15, 18), (18, 20)], AreaType::E);

    assert_eq!(p1.sequence, p2.sequence);
}

#[test]
fn fingerprint_known_values() {
    assert_eq!(sequence_hash(AreaType::E, &vec![1, 2, 3]), "f2f4d99ae9c058ad640aed26742930a76ac8e946");
    assert_eq!(sequence_hash(AreaType::U, &vec![1, 2, 3]), "25b04fb9ae6c4380edefa691fda092bde47a394f");
    assert_eq!(sequence_hash(AreaType::E, &vec![3, 2, 1]), "bdd9c84731b3b52a124c2d7f7db17a2635a1249a");
    assert_eq!(sequence_hash(AreaType::U, &vec![258]), "f8c9e322713add2aa48d6b46723d5680dc9f699e");
}

#[test]
fn fingerprint_of_empty_sequence_hashes_header_only() {
    assert_eq!(sequence_hash(AreaType::E, &vec![]), "3c556a0fdacfff5aa792ed5265e33b510b28774d");
}

#[test]
fn fingerprint_is_forty_lowercase_hex_digits() {
    let h = sequence_hash(AreaType::U, &vec![65535, 1, 300]);
    assert_eq!(h.len(), 40);
    assert!(h.chars().all(|c| c.is_ascii_digit() || ('a'..='f').contains(&c)));
}

#[test]
fn encoding_puts_header_and_separators() {
    let b = bruss_data::path::encode_path_bytes(AreaType::E, &vec![258, 3]);
    assert_eq!(b, vec![0x65, 0, 0, 1, 2, 0, 0, 3]);
    let b = bruss_data::path::encode_path_bytes(AreaType::U, &vec![]);
    assert_eq!(b, vec![0x75, 0, 0]);
}

#[test]
fn hex_rendering_is_lowercase() {
    assert_eq!(to_hex_lower(&vec![0x00, 0xab, 0x1f, 0xff]), "00ab1fff");
    assert_eq!(to_hex_lower(&vec![]), "");
}

#[test]
fn sequence_from_pairs_chain() {
    let s = Path::segments_to_sequence(vec![(12, 15), (15, 18), (18, 20)]);
    assert_eq!(s, vec![12, 15, 18, 20]);
    let direct = Path::new(vec![12, 15, 18, 20], AreaType::E, RoutingType::Bus);
    let built = Path::new_from_segments(vec![(12, 15), (15, 18), (18, 20)], AreaType::E);
    assert_eq!(built.id, direct.id);
    assert_eq!(built.id, "165c06be9b06b32ff0902c006fbd3c4bbee2ac63");
    assert_eq!(built.rty, RoutingType::Bus);
}

#[test]
fn sequence_from_no_pairs_is_empty() {
    assert_eq!(Path::segments_to_sequence(vec![]), Vec::<u16>::new());
}

#[test]
fn single_pair_gives_two_stops() {
    assert_eq!(Path::segments_to_sequence(vec![(4, 9)]), vec![4, 9]);
}

#[test]
fn path_segments_are_consecutive_pairs() {
    let p = Path::new(vec![12, 15, 18, 20], AreaType::U, RoutingType::Railway);
    assert_eq!(p.segments(), vec![(12, 15), (15, 18), (18, 20)]);
    let single = Path::new(vec![7], AreaType::U, RoutingType::Bus);
    assert_eq!(single.segments(), Vec::<(u16, u16)>::new());
}

#[test]
fn path_with_type_keeps_routing_type() {
    let p = Path::new_from_segments_with_type(vec![(1, 2)], AreaType::U, RoutingType::Cableway);
    assert_eq!(p.rty, RoutingType::Cableway);
    assert_eq!(p.sequence, vec![1, 2]);
    assert_eq!(p.id, sequence_hash(AreaType::U, &vec![1, 2]));
}

#[test]
fn path_equality_by_id_or_sequence() {
    let a = Path::new(vec![1, 2, 3], AreaType::E, RoutingType::Bus);
    let b = Path::new(vec![1, 2, 3], AreaType::U, RoutingType::Bus);
    let c = Path::new(vec![3, 2, 1], AreaType::E, RoutingType::Bus);
    assert!(a == b);
    assert!(a != c);
    assert!(a == vec![1, 2, 3]);
    assert!(a != vec![1, 2]);
}

#[test]
fn routing_type_defaults_to_bus() {
    assert_eq!(RoutingType::default(), RoutingType::Bus);
}
