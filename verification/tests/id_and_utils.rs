//! Identifiers, the small utilities, and the containers.

use std::collections::HashSet;

use client_core::collections::{IdMap, IdSet};
use client_core::utils::{pop_set, rand_id, rand_id_unsafe, time, Id};

#[derive(Debug)]
struct UnitKind;
#[derive(Debug)]
struct ShellKind;

#[test]
fn equal_values_compare_equal_regardless_of_order() {
    let a: Id<UnitKind> = Id::new(12345);
    let b: Id<UnitKind> = Id::new(12345);
    let c: Id<UnitKind> = Id::new(54321);
    assert_eq!(a, b);
    assert_eq!(b, a);
    assert_ne!(a, c);
    assert_eq!(a.value, 12345);
}

#[test]
fn random_ids_are_practically_distinct() {
    let mut seen: HashSet<u32> = HashSet::new();
    for _ in 0..100 {
        let id: Id<UnitKind> = rand_id();
        seen.insert(id.value);
    }
    // 100 draws from 2^32 values: a collision here is a defect for
    // all practical purposes.
    assert_eq!(seen.len(), 100);
}

#[test]
fn ids_of_different_kinds_are_separate_types() {
    let a: Id<UnitKind> = Id::new(1);
    let b: Id<ShellKind> = Id::new(1);
    // Only values of the same kind can even be compared.
    assert_eq!(a.value, b.value);
}

#[test]
fn short_code_is_base62_of_little_endian_bytes() {
    // 0xEFBEADDE little-endian is the bytes DE AD BE EF, whose
    // base-62 rendering is published by the encoder's own examples.
    let id: Id<UnitKind> = Id::new(0xEFBEADDE);
    assert_eq!(id.short_code(), "JsoUl8");
    // Four little-endian bytes always go in, so even zero encodes to
    // something, and only alphabet characters come out.
    let zero: Id<UnitKind> = Id::new(0);
    let code = zero.short_code();
    assert!(!code.is_empty());
    for c in code.chars() {
        assert!(c.is_ascii_alphanumeric());
    }
}

#[test]
fn clone_and_copy_preserve_value() {
    let a: Id<UnitKind> = Id::new(77);
    let b = a;
    let c = a.clone();
    assert_eq!(b.value, 77);
    assert_eq!(c.value, 77);
}

#[test]
fn random_short_strings_use_the_alphabet() {
    let s = rand_id_unsafe();
    assert_eq!(s.len(), 5);
    for c in s.chars() {
        assert!(c.is_ascii_alphanumeric());
    }
    let t = rand_id_unsafe();
    assert_eq!(t.chars().count(), 5);
}

#[test]
fn pop_set_drains_a_hash_set() {
    let mut s: HashSet<u32> = HashSet::new();
    s.insert(1);
    s.insert(2);
    s.insert(3);
    let mut popped: HashSet<u32> = HashSet::new();
    popped.insert(pop_set(&mut s));
    popped.insert(pop_set(&mut s));
    popped.insert(pop_set(&mut s));
    assert!(s.is_empty());
    assert_eq!(popped.len(), 3);
    assert!(popped.contains(&1) && popped.contains(&2) && popped.contains(&3));
}

#[test]
fn time_reports_some_duration() {
    let us = time(|| {
        let mut acc: u64 = 0;
        for i in 0..1000u64 {
            acc = acc.wrapping_add(i);
        }
        acc
    });
    assert!(us < 60_000_000);
}

#[test]
fn id_map_insert_get_overwrite() {
    let mut m: IdMap<i64> = IdMap::new();
    assert!(m.get(5).is_none());
    m.insert(5, 50);
    m.insert(6, 60);
    assert_eq!(*m.get(5).unwrap(), 50);
    assert_eq!(*m.get(6).unwrap(), 60);
    m.insert(5, 51);
    assert_eq!(*m.get(5).unwrap(), 51);
    assert!(m.contains_key(6));
    assert!(!m.contains_key(7));
    m.clear();
    assert!(m.get(5).is_none());
}

#[test]
fn id_set_membership_and_difference() {
    let mut s = IdSet::new();
    assert!(s.is_empty());
    s.insert(1);
    s.insert(2);
    s.insert(2);
    assert!(s.contains(1) && s.contains(2) && !s.contains(3));
    let mut dead = IdSet::new();
    dead.insert(2);
    dead.insert(9);
    s.remove_all(&dead);
    assert!(s.contains(1) && !s.contains(2));
    s.remove(1);
    assert!(s.is_empty());
    let mut t = IdSet::new();
    t.insert(8);
    let u = t.duplicate();
    assert!(u.contains(8));
    assert_eq!(u.to_vec(), vec![8]);
}
