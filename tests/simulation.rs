use page_replacements::{parse_trace, AlgorithmKind, Error, HitRate, Simulation};
use std::sync::Arc;

fn lines(tokens: &[&str]) -> Vec<String> {
    tokens.iter().map(|t| t.to_string()).collect()
}

#[test]
fn misses_never_exceed_requests() {
    for name in ["fifo", "lru", "sc", "second_chance"] {
        for size in 1..5 {
            let mut sim = Simulation::new(size, name, None).unwrap();
            let faults = sim.replay(&lines(&["1", "2", "3", "1", "4", "2", "2", "5"]));
            assert_eq!(faults.len(), 8);
            assert!(sim.num_misses() <= sim.num_requests());
            let rate = sim.get_hit_rate().unwrap();
            assert!(rate.hits <= rate.requests);
            assert_eq!(rate.requests, 8);
        }
    }
}

#[test]
fn lru_hit_rate_exact() {
    let mut sim = Simulation::new(3, "lru", None).unwrap();
    let faults = sim.replay(&lines(&["1", "2", "3", "1", "4"]));
    assert_eq!(faults, vec![true, true, true, false, true]);
    assert_eq!(sim.get_hit_rate(), Some(HitRate { hits: 1, requests: 5 }));
}

#[test]
fn invalid_tokens_are_skipped() {
    let mut sim = Simulation::new(2, "fifo", None).unwrap();
    assert_eq!(sim.page_request("abc"), None);
    assert_eq!(sim.page_request("0"), None);
    assert_eq!(sim.page_request("-3"), None);
    assert_eq!(sim.page_request(""), None);
    assert_eq!(sim.page_request(" 5"), None);
    assert_eq!(sim.page_request("5"), Some(true));
    assert_eq!(sim.page_request("+5"), Some(false));
    assert_eq!(sim.num_requests(), 2);
    assert_eq!(sim.num_misses(), 1);
}

#[test]
fn parse_line_values() {
    let sim = Simulation::new(1, "fifo", None).unwrap();
    assert_eq!(sim.parse_line("42"), Some(42));
    assert_eq!(sim.parse_line("+7"), Some(7));
    assert_eq!(sim.parse_line("007"), Some(7));
    assert_eq!(sim.parse_line("18446744073709551615"), Some(u64::MAX));
    assert_eq!(sim.parse_line("18446744073709551616"), None);
    assert_eq!(sim.parse_line("0"), None);
    assert_eq!(sim.parse_line("+"), None);
    assert_eq!(sim.parse_line("1.5"), None);
    assert_eq!(sim.parse_line("12\r"), None);
}

#[test]
fn zero_requests_has_no_hit_rate() {
    let mut sim = Simulation::new(3, "lru", None).unwrap();
    assert_eq!(sim.get_hit_rate(), None);
    let faults = sim.replay(&lines(&["x", "", "0", "-1"]));
    assert!(faults.is_empty());
    assert_eq!(sim.num_requests(), 0);
    assert_eq!(sim.get_hit_rate(), None);
}

#[test]
fn replay_is_deterministic() {
    let trace = lines(&["3", "1", "4", "1", "5", "9", "2", "6", "5", "3", "5"]);
    for name in ["fifo", "lru", "sc", "optimal"] {
        let parsed = Arc::new(parse_trace(&trace));
        let mut a = Simulation::new(3, name, Some(parsed.clone())).unwrap();
        let mut b = Simulation::new(3, name, Some(parsed)).unwrap();
        let fa = a.replay(&trace);
        let fb = b.replay(&trace);
        assert_eq!(fa, fb);
        assert_eq!(a.get_hit_rate(), b.get_hit_rate());
    }
}

#[test]
fn optimal_simulation_skips_invalid_tokens_in_trace() {
    let trace = lines(&["1", "2", "junk", "3", "1"]);
    let parsed = parse_trace(&trace);
    assert_eq!(parsed, vec![1, 2, 3, 1]);
    let mut sim = Simulation::new(2, "optimal", Some(Arc::new(parsed))).unwrap();
    let faults = sim.replay(&trace);
    // at 3 the future is [1]: 2 is never used again and goes
    assert_eq!(faults, vec![true, true, true, false]);
    assert_eq!(sim.get_hit_rate(), Some(HitRate { hits: 1, requests: 4 }));
}

#[test]
fn construction_errors() {
    assert_eq!(Simulation::new(3, "random", None).err(), Some(Error::UnknownAlgorithm));
    assert_eq!(Simulation::new(3, "FIFO", None).err(), Some(Error::UnknownAlgorithm));
    assert_eq!(Simulation::new(0, "fifo", None).err(), Some(Error::ZeroTableSize));
    assert_eq!(Simulation::new(0, "nope", None).err(), Some(Error::UnknownAlgorithm));
    assert_eq!(Simulation::new(3, "optimal", None).err(), Some(Error::MissingTrace));
    assert!(Simulation::new(3, "optimal", Some(Arc::new(vec![1]))).is_ok());
}

#[test]
fn algorithm_names() {
    assert_eq!(AlgorithmKind::from_name("fifo"), Some(AlgorithmKind::Fifo));
    assert_eq!(AlgorithmKind::from_name("lru"), Some(AlgorithmKind::Lru));
    assert_eq!(AlgorithmKind::from_name("sc"), Some(AlgorithmKind::SecondChance));
    assert_eq!(
        AlgorithmKind::from_name("second_chance"),
        Some(AlgorithmKind::SecondChance)
    );
    assert_eq!(AlgorithmKind::from_name("optimal"), Some(AlgorithmKind::Optimal));
    assert_eq!(AlgorithmKind::from_name("fif"), None);
}

#[test]
fn error_descriptions() {
    assert_eq!(
        Error::MissingTrace.description(),
        "Must run optimal with page requests as an input file"
    );
    assert_eq!(
        Error::InvalidRange.description(),
        "Max table size cannot be lower than table size"
    );
}
