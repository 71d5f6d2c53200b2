use logbench::bench::Strategy;
use logbench::bench::blob_sizes;
use logbench::bench::decide_winner;
use logbench::bench::total_size;
use logbench::bench::winner_savings;

#[test]
fn total_size_exact() {
    assert_eq!(total_size(&vec![]), Some(0));
    assert_eq!(total_size(&vec![1, 2, 3]), Some(6));
    assert_eq!(total_size(&vec![u64::MAX]), Some(u64::MAX));
}

#[test]
fn total_size_overflow_is_none() {
    assert_eq!(total_size(&vec![u64::MAX, 1]), None);
    assert_eq!(total_size(&vec![u64::MAX / 2 + 1, u64::MAX / 2 + 1]), None);
}

#[test]
fn blob_sizes_exact() {
    let blobs = vec![b"".to_vec(), b"ab".to_vec(), b"hello".to_vec()];
    assert_eq!(blob_sizes(&blobs), vec![0, 2, 5]);
}

#[test]
fn tie_goes_to_per_unit() {
    assert_eq!(decide_winner(1000, 1000), Strategy::PerUnit);
    assert_eq!(winner_savings(1000, 1000), 0);
}

#[test]
fn archive_wins_when_one_byte_smaller() {
    assert_eq!(decide_winner(999, 1000), Strategy::Archive);
    assert_eq!(winner_savings(999, 1000), 1);
}

#[test]
fn per_unit_wins_when_smaller() {
    assert_eq!(decide_winner(1000, 999), Strategy::PerUnit);
    assert_eq!(winner_savings(1000, 999), 1);
}

#[test]
fn empty_corpus_tie_rule() {
    // With no records both totals are zero; the tie resolves to per-unit.
    let per_unit_total = total_size(&blob_sizes(&Vec::new())).unwrap();
    assert_eq!(per_unit_total, 0);
    assert_eq!(decide_winner(0, per_unit_total), Strategy::PerUnit);
}
