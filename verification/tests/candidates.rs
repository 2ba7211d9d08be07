use nscan::addr::Ipv4;
use nscan::candidates::{enumerate_candidates, CandidateSet};
use nscan::probe::{probe, ProbeOutcome, ProbeRun};

fn hosts_by_ipnet(text: &str) -> Vec<Ipv4> {
    let net: ipnet::Ipv4Net = text.parse().unwrap();
    net.hosts().map(|a| Ipv4::from_bits(a.into())).collect()
}

#[test]
fn block_of_24_has_254_candidates() {
    let set = enumerate_candidates(Ipv4::new(192, 168, 1, 10), 24);
    assert_eq!(set.len(), 254);
    assert_eq!(set.get(0), Ipv4::new(192, 168, 1, 1));
    assert_eq!(set.get(253), Ipv4::new(192, 168, 1, 254));
    assert!(!set.contains(Ipv4::new(192, 168, 1, 0)));
    assert!(!set.contains(Ipv4::new(192, 168, 1, 255)));
    assert!(set.contains(Ipv4::new(192, 168, 1, 10)));
    assert!(!set.contains(Ipv4::new(192, 168, 2, 10)));
    assert_eq!(set.to_vec(), hosts_by_ipnet("192.168.1.10/24"));
}

#[test]
fn count_is_two_to_the_host_bits_less_two() {
    let base = Ipv4::new(10, 20, 30, 40);
    assert_eq!(enumerate_candidates(base, 30).to_vec(), vec![Ipv4::new(10, 20, 30, 41), Ipv4::new(10, 20, 30, 42)]);
    assert_eq!(enumerate_candidates(base, 29).len(), 6);
    assert_eq!(enumerate_candidates(base, 25).len(), 126);
    assert_eq!(enumerate_candidates(base, 20).len(), 4094);
    assert_eq!(enumerate_candidates(base, 16).len(), 65534);
    let wide = enumerate_candidates(base, 16);
    assert_eq!(wide.get(0), Ipv4::new(10, 20, 0, 1));
    assert_eq!(wide.get(65533), Ipv4::new(10, 20, 255, 254));
}

#[test]
fn blocks_of_one_or_two_addresses_have_no_candidates() {
    assert_eq!(enumerate_candidates(Ipv4::new(10, 0, 0, 0), 31).len(), 0);
    assert_eq!(enumerate_candidates(Ipv4::new(10, 0, 0, 1), 31).len(), 0);
    assert_eq!(enumerate_candidates(Ipv4::new(10, 0, 0, 7), 32).len(), 0);
}

#[test]
fn set_from_a_list_is_ascending_without_repeats() {
    let list = vec![
        Ipv4::new(10, 0, 0, 9),
        Ipv4::new(10, 0, 0, 1),
        Ipv4::new(192, 168, 0, 1),
        Ipv4::new(10, 0, 0, 9),
        Ipv4::new(9, 255, 255, 255),
    ];
    let set = CandidateSet::from_addresses(&list);
    assert_eq!(
        set.to_vec(),
        vec![
            Ipv4::new(9, 255, 255, 255),
            Ipv4::new(10, 0, 0, 1),
            Ipv4::new(10, 0, 0, 9),
            Ipv4::new(192, 168, 0, 1),
        ]
    );
    assert_eq!(set.position(Ipv4::new(10, 0, 0, 9)), Some(2));
    assert_eq!(set.position(Ipv4::new(10, 0, 0, 2)), None);
    assert_eq!(set.rank(Ipv4::new(10, 0, 0, 2)), 2);
    assert_eq!(CandidateSet::empty().len(), 0);
}

#[test]
fn insert_and_intersect() {
    let mut set = CandidateSet::empty();
    assert!(set.insert(Ipv4::new(1, 1, 1, 3)));
    assert!(set.insert(Ipv4::new(1, 1, 1, 1)));
    assert!(!set.insert(Ipv4::new(1, 1, 1, 3)));
    assert!(set.insert(Ipv4::new(1, 1, 1, 2)));
    assert_eq!(set.len(), 3);
    let other = CandidateSet::from_addresses(&vec![Ipv4::new(1, 1, 1, 2), Ipv4::new(1, 1, 1, 9), Ipv4::new(1, 1, 1, 1)]);
    assert_eq!(set.intersect(&other).to_vec(), vec![Ipv4::new(1, 1, 1, 1), Ipv4::new(1, 1, 1, 2)]);
}

#[test]
fn probe_result_is_a_subset_of_the_candidates() {
    let candidates = enumerate_candidates(Ipv4::new(192, 168, 1, 10), 24);
    let outcomes = vec![
        ProbeOutcome { addr: Ipv4::new(192, 168, 1, 50), replied: true },
        ProbeOutcome { addr: Ipv4::new(192, 168, 2, 1), replied: true },
        ProbeOutcome { addr: Ipv4::new(192, 168, 1, 1), replied: true },
        ProbeOutcome { addr: Ipv4::new(192, 168, 1, 7), replied: false },
        ProbeOutcome { addr: Ipv4::new(192, 168, 1, 7), replied: true },
        ProbeOutcome { addr: Ipv4::new(192, 168, 1, 255), replied: true },
        ProbeOutcome { addr: Ipv4::new(192, 168, 1, 10), replied: true },
        ProbeOutcome { addr: Ipv4::new(192, 168, 1, 1), replied: true },
    ];
    let up = probe(&candidates, &outcomes);
    assert_eq!(up, vec![Ipv4::new(192, 168, 1, 1), Ipv4::new(192, 168, 1, 10), Ipv4::new(192, 168, 1, 50)]);
    for a in &up {
        assert!(candidates.contains(*a));
    }
}

#[test]
fn run_is_over_when_every_candidate_has_an_outcome() {
    let candidates = enumerate_candidates(Ipv4::new(10, 0, 0, 1), 30);
    let mut run = ProbeRun::new(candidates);
    assert_eq!(run.total(), 2);
    assert_eq!(run.settled(), 0);
    assert!(!run.is_complete());
    assert!(run.record(Ipv4::new(10, 0, 0, 2), true));
    assert!(!run.record(Ipv4::new(10, 0, 0, 2), false));
    assert!(!run.record(Ipv4::new(10, 0, 0, 3), true));
    assert_eq!(run.settled(), 1);
    assert!(!run.is_complete());
    assert_eq!(run.live(), vec![Ipv4::new(10, 0, 0, 2)]);
    assert!(run.record(Ipv4::new(10, 0, 0, 1), false));
    assert!(run.is_complete());
    assert_eq!(run.settled(), 2);
    assert_eq!(run.live(), vec![Ipv4::new(10, 0, 0, 2)]);
}

#[test]
fn run_over_no_candidates_is_over_at_once() {
    let run = ProbeRun::new(CandidateSet::empty());
    assert!(run.is_complete());
    assert_eq!(run.live(), vec![]);
}
