use ferris_files::top_entries::TopEntries;

// Test Invariant 1: Largest entries always appear first
#[test]
fn test_descending_order_is_always_maintained() {
    let mut top = TopEntries::new(5);

    // Insert in random order
    top.insert("d".to_string(), 40);
    top.insert("a".to_string(), 100);
    top.insert("c".to_string(), 60);
    top.insert("e".to_string(), 20);
    top.insert("b".to_string(), 80);

    let entries = top.get_entries();

    // Verify strict descending order
    for i in 1..entries.len() {
        assert!(
            entries[i - 1].1 >= entries[i].1,
            "Entry at position {} ({}) should be larger than or equal to entry at position {} ({})",
            i - 1,
            entries[i - 1].1,
            i,
            entries[i].1
        );
    }

    // Verify exact ordering
    assert_eq!(entries[0].1, 100);
    assert_eq!(entries[1].1, 80);
    assert_eq!(entries[2].1, 60);
    assert_eq!(entries[3].1, 40);
    assert_eq!(entries[4].1, 20);
}

// Test Invariant 2: When capacity is exceeded, only largest entries remain
#[test]
fn test_capacity_enforcement_keeps_largest() {
    let mut top = TopEntries::new(3);

    // Insert more items than capacity
    top.insert("d".to_string(), 40);
    top.insert("a".to_string(), 100);
    top.insert("c".to_string(), 60);
    top.insert("e".to_string(), 20); // Should be dropped
    top.insert("b".to_string(), 80);

    let entries = top.get_entries();

    // Verify only capacity number of items remain
    assert_eq!(entries.len(), 3, "Should only keep top 3 entries");

    // Verify they're the largest ones in descending order
    assert_eq!(entries[0].1, 100, "First entry should be largest (100)");
    assert_eq!(entries[1].1, 80, "Second entry should be second largest (80)");
    assert_eq!(entries[2].1, 60, "Third entry should be third largest (60)");

    // Verify smaller values were dropped
    assert!(
        !entries.iter().any(|(_, val)| *val == 40 || *val == 20),
        "Smaller values should have been dropped"
    );
}

#[test]
fn test_order_maintenance_with_updates() {
    let mut top = TopEntries::new(3);

    // Fill to capacity
    top.insert("a".to_string(), 100);
    top.insert("b".to_string(), 80);
    top.insert("c".to_string(), 60);

    // Insert larger value
    top.insert("d".to_string(), 90);

    let entries = top.get_entries();
    assert_eq!(entries[0].1, 100);
    assert_eq!(entries[1].1, 90);
    assert_eq!(entries[2].1, 80);

    // Insert smaller value (should be ignored)
    top.insert("e".to_string(), 70);

    let entries = top.get_entries();
    assert_eq!(entries[0].1, 100);
    assert_eq!(entries[1].1, 90);
    assert_eq!(entries[2].1, 80);
}

#[test]
fn test_equal_values_maintain_order() {
    let mut top = TopEntries::new(4);

    top.insert("a".to_string(), 100);
    top.insert("b".to_string(), 100);
    top.insert("c".to_string(), 80);
    top.insert("d".to_string(), 80);

    let entries = top.get_entries();
    assert_eq!(entries.len(), 4);
    assert_eq!(entries[0].1, 100);
    assert_eq!(entries[1].1, 100);
    assert_eq!(entries[2].1, 80);
    assert_eq!(entries[3].1, 80);
}

#[test]
fn test_capacity_edge_cases() {
    // Test with capacity 1
    let mut top = TopEntries::new(1);

    top.insert("a".to_string(), 50);
    top.insert("b".to_string(), 100);
    top.insert("c".to_string(), 75);

    let entries = top.get_entries();
    assert_eq!(entries.len(), 1);
    assert_eq!(entries[0].1, 100, "Should keep only the largest value");

    // Test with repeated updates at capacity
    let mut top = TopEntries::new(2);

    top.insert("a".to_string(), 100);
    top.insert("b".to_string(), 80);
    top.insert("c".to_string(), 90); // Should replace 80
    top.insert("d".to_string(), 85); // Should replace nothing

    let entries = top.get_entries();
    assert_eq!(entries[0].1, 100);
    assert_eq!(entries[1].1, 90);
}

#[test]
fn test_large_volume_maintains_invariants() {
    let mut top = TopEntries::new(5);

    // Insert 1000 items in reverse order
    for i in (0..1000).rev() {
        top.insert(format!("item_{}", i), i as u64);
    }

    let entries = top.get_entries();

    // Verify top 5 were retained
    assert_eq!(entries.len(), 5);

    // Verify they're the largest in descending order
    for i in 0..5 {
        assert_eq!(entries[i].1, 999 - i as u64);
    }

    top.insert("new1".to_string(), 999); // Should be first (equal to existing max)
    top.insert("new2".to_string(), 994); // Should be last (smaller than existing values)

    let entries = top.get_entries();

    // Verify the values are still in descending order
    for i in 1..entries.len() {
        assert!(
            entries[i - 1].1 >= entries[i].1,
            "Values should be in descending order: {} should be >= {}",
            entries[i - 1].1,
            entries[i].1
        );
    }

    // Verify 5 entries
    assert_eq!(entries.len(), 5);

    // Verify the range of values is correct (between 999 and 995)
    assert!(
        entries.iter().all(|(_, val)| *val >= 995 && *val <= 999),
        "All values should be between 995 and 999"
    );
}

// Scenario: capacity 2 keeps the two largest of three inserts, in order.
#[test]
fn test_two_largest_of_three() {
    let mut top = TopEntries::new(2);

    top.insert("large".to_string(), 100);
    top.insert("medium".to_string(), 80);
    top.insert("small".to_string(), 25);

    let entries = top.get_entries();
    assert_eq!(entries.len(), 2);
    assert_eq!(entries[0], ("large".to_string(), 100));
    assert_eq!(entries[1], ("medium".to_string(), 80));
}

// Scenario: capacity 1 keeps exactly the single largest insert.
#[test]
fn test_single_capacity_keeps_largest() {
    let mut top = TopEntries::new(1);

    top.insert("a".to_string(), 50);
    top.insert("b".to_string(), 100);
    top.insert("c".to_string(), 75);

    let entries = top.get_entries();
    assert_eq!(entries.len(), 1);
    assert_eq!(entries[0], ("b".to_string(), 100));
}

// Scenario: two entries of identical size both within the capacity both
// appear in the final contents, under their own paths.
#[test]
fn test_equal_sizes_both_kept() {
    let mut top = TopEntries::new(3);

    top.insert("first".to_string(), 70);
    top.insert("twin_a".to_string(), 90);
    top.insert("twin_b".to_string(), 90);

    let entries = top.get_entries();
    assert_eq!(entries.len(), 3);
    assert_eq!(entries[0].1, 90);
    assert_eq!(entries[1].1, 90);
    assert_eq!(entries[2], ("first".to_string(), 70));
    assert!(entries.iter().any(|(p, _)| p == "twin_a"));
    assert!(entries.iter().any(|(p, _)| p == "twin_b"));
}

// A tie inserted at the capacity boundary bounces off without evicting the
// equal entry already kept.
#[test]
fn test_boundary_tie_keeps_existing() {
    let mut top = TopEntries::new(2);

    top.insert("a".to_string(), 100);
    top.insert("b".to_string(), 60);
    top.insert("c".to_string(), 60); // equal to the kept minimum: rejected

    let entries = top.get_entries();
    assert_eq!(entries.len(), 2);
    assert_eq!(entries[0], ("a".to_string(), 100));
    assert_eq!(entries[1], ("b".to_string(), 60));
}
