//! Tests of the identifier generator.

use std::collections::HashSet;

use telemetry_batteries::ReducedIdGenerator;

#[test]
fn trace_ids_are_collision_free_and_64_bit() {
    let generator = ReducedIdGenerator;
    let mut seen: HashSet<u128> = HashSet::with_capacity(100_000);
    for _ in 0..100_000 {
        let id = generator.new_trace_id();
        assert_ne!(id, 0, "the all-zero id is reserved for absence");
        assert_eq!(id >> 64, 0, "bits above the compatibility width must be zero");
        assert!(seen.insert(id), "duplicate trace id generated");
    }
}

#[test]
fn span_ids_are_collision_free() {
    let generator = ReducedIdGenerator;
    let mut seen: HashSet<u64> = HashSet::with_capacity(100_000);
    for _ in 0..100_000 {
        let id = generator.new_span_id();
        assert_ne!(id, 0, "the all-zero id is reserved for absence");
        assert!(seen.insert(id), "duplicate span id generated");
    }
}
