//! Tests of the shared identifier generator.

use genanki_rs::IdGenerator;

#[test]
fn first_identifier_equals_seed() {
    let mut gen = IdGenerator::new(1700000000000);
    assert_eq!(gen.next(), 1700000000000);
}

#[test]
fn identifiers_are_unique_and_increasing() {
    let mut gen = IdGenerator::new(42);
    let mut drawn: Vec<u64> = Vec::new();
    for _ in 0..100 {
        drawn.push(gen.next());
    }
    for i in 0..drawn.len() {
        for j in (i + 1)..drawn.len() {
            assert!(drawn[i] < drawn[j]);
        }
    }
    assert_eq!(drawn[0], 42);
    assert_eq!(drawn[99], 141);
}

#[test]
fn draw_block_hands_out_consecutive_values() {
    let mut gen = IdGenerator::new(7);
    let ids = gen.draw_block(3);
    assert_eq!(ids, vec![7, 8, 9]);
    assert_eq!(gen.next(), 10);
}
