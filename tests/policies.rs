use page_replacements::{Fifo, Lru, LruPage, Optimal, PageMinMax, SecondChance, SecondChancePage};
use std::sync::Arc;

fn run_fifo(size: usize, trace: &[u64]) -> (Fifo, Vec<bool>) {
    let mut t = Fifo::new(size);
    let faults = trace.iter().map(|&p| t.handle_page_request(p)).collect();
    (t, faults)
}

#[test]
fn fifo_fills_then_evicts_oldest() {
    let (t, faults) = run_fifo(3, &[1, 2, 3, 4]);
    assert_eq!(faults, vec![true, true, true, true]);
    assert_eq!(t.pages(), vec![Some(4), Some(2), Some(3)]);
}

#[test]
fn fifo_hit_does_not_promote() {
    let (t, faults) = run_fifo(3, &[1, 2, 3, 1, 4, 1]);
    assert_eq!(faults, vec![true, true, true, false, true, true]);
    // 4 replaced 1 although 1 was just used; then 1 replaced 2
    assert_eq!(t.pages(), vec![Some(4), Some(1), Some(3)]);
}

#[test]
fn fifo_new_is_empty() {
    let t = Fifo::new(4);
    assert_eq!(t.pages(), vec![None, None, None, None]);
}

#[test]
fn fifo_single_slot() {
    let (t, faults) = run_fifo(1, &[7, 7, 8, 7]);
    assert_eq!(faults, vec![true, false, true, true]);
    assert_eq!(t.pages(), vec![Some(7)]);
}

#[test]
fn lru_evicts_least_recently_used() {
    let mut t = Lru::new(3);
    let faults: Vec<bool> = [1, 2, 3].iter().map(|&p| t.handle_page_request(p)).collect();
    assert_eq!(faults, vec![true, true, true]);
    assert_eq!(t.pages(), vec![Some(1), Some(2), Some(3)]);
    assert!(!t.handle_page_request(1));
    assert!(t.handle_page_request(4));
    assert_eq!(t.pages(), vec![Some(1), Some(4), Some(3)]);
}

#[test]
fn lru_new_is_empty() {
    let t = Lru::new(2);
    assert_eq!(t.pages(), vec![None, None]);
    let _ = LruPage::new();
    let _ = PageMinMax::new();
}

#[test]
fn lru_page_zero_is_a_page() {
    let mut t = Lru::new(2);
    assert!(t.handle_page_request(0));
    assert!(!t.handle_page_request(0));
    assert_eq!(t.pages(), vec![Some(0), None]);
}

#[test]
fn second_chance_spares_referenced_page() {
    let mut t = SecondChance::new(3);
    let faults: Vec<bool> = [1, 2, 3, 1, 4].iter().map(|&p| t.handle_page_request(p)).collect();
    assert_eq!(faults, vec![true, true, true, false, true]);
    assert_eq!(t.pages(), vec![Some(1), Some(4), Some(3)]);
    // the cursor is on 3; once 3 is referenced it is spared, and 1, whose
    // bit was cleared when 4 came in, goes
    assert!(!t.handle_page_request(3));
    assert!(t.handle_page_request(5));
    assert_eq!(t.pages(), vec![Some(5), Some(4), Some(3)]);
    assert!(t.handle_page_request(6));
    assert_eq!(t.pages(), vec![Some(5), Some(6), Some(3)]);
}

#[test]
fn second_chance_all_referenced_full_circuit() {
    let mut t = SecondChance::new(2);
    for p in [1, 2, 1, 2] {
        t.handle_page_request(p);
    }
    assert!(t.handle_page_request(3));
    // both bits cleared in one pass, then the first slot goes
    assert_eq!(t.pages(), vec![Some(3), Some(2)]);
    let _ = SecondChancePage::new();
}

#[test]
fn optimal_belady_example() {
    let trace: Vec<u64> = vec![1, 2, 3, 4, 1, 2, 5, 1, 2, 3, 4, 5];
    let mut t = Optimal::new(3, Some(Arc::new(trace.clone()))).unwrap();
    let faults: Vec<bool> = trace.iter().map(|&p| t.handle_page_request(p)).collect();
    assert_eq!(
        faults,
        vec![true, true, true, true, false, false, true, false, false, true, true, false]
    );
    assert_eq!(faults.iter().filter(|&&f| f).count(), 7);
    assert_eq!(t.pages(), vec![Some(4), Some(2), Some(5)]);
}

#[test]
fn optimal_evicts_page_never_used_again() {
    let trace: Vec<u64> = vec![1, 2, 3, 2, 1];
    let mut t = Optimal::new(2, Some(Arc::new(trace.clone()))).unwrap();
    for &p in &trace[..3] {
        t.handle_page_request(p);
    }
    // at 3 the future is [2, 1]: 1 is needed after 2, so 1 goes
    assert_eq!(t.pages(), vec![Some(3), Some(2)]);
}

#[test]
fn optimal_without_trace_fails() {
    assert_eq!(
        Optimal::new(3, None).err(),
        Some(page_replacements::Error::MissingTrace)
    );
}

#[test]
fn lru_fills_empty_slots_in_order() {
    let mut t = Lru::new(3);
    assert!(t.handle_page_request(9));
    assert_eq!(t.pages(), vec![Some(9), None, None]);
    assert!(t.handle_page_request(8));
    assert_eq!(t.pages(), vec![Some(9), Some(8), None]);
}
