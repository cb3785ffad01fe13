use messenger::bootstrap::{
    bootstrap, load_seeds, merge_seeds, seed_sources, seeds_in_file, seeds_in_list,
    BootstrapAction, SeedSource, SEED_DIAL_TIMEOUT,
};
use messenger::gateway::{NatError, NatService};

fn strings(list: &[&str]) -> Vec<String> {
    list.iter().map(|s| s.to_string()).collect()
}

fn shown(sources: &[SeedSource]) -> Vec<String> {
    sources
        .iter()
        .map(|s| match s {
            SeedSource::Entry(a) => format!("entry {a}"),
            SeedSource::File(p) => format!("file {p}"),
        })
        .collect()
}

#[test]
fn seeds_come_from_arguments_and_variables_in_order() {
    let args = strings(&[
        "prog", "--seed", "1.2.3.4:5", "--other", "--seeds-file", "f.txt", "--seed", "--seed", "x",
    ]);
    let sources = seed_sources(&args, Some(" a:1 ,, b:2,"), Some("env.txt"));
    assert_eq!(
        shown(&sources),
        vec![
            "entry 1.2.3.4:5",
            "file f.txt",
            "entry --seed",
            "entry a:1",
            "entry b:2",
            "file env.txt",
        ]
    );
    assert!(seed_sources(&strings(&["prog", "--seed"]), None, None).is_empty());
    assert!(seed_sources(&strings(&["--seeds-file"]), None, None).is_empty());
}

#[test]
fn seeds_file_has_one_seed_per_line() {
    assert_eq!(
        seeds_in_file("# comment\n\n  10.0.0.1:9000  \r\n#x\n[::1]:1\n   # indented\nlast"),
        vec!["10.0.0.1:9000", "[::1]:1", "last"]
    );
    assert!(seeds_in_file("").is_empty());
    assert_eq!(seeds_in_list("a, ,b,#c"), vec!["a", "b", "#c"]);
}

#[test]
fn seeds_are_sorted_by_text_and_named_once() {
    let resolved = vec![
        Some("9.9.9.9:1".to_string()),
        None,
        Some("10.0.0.1:9000".to_string()),
        Some("9.9.9.9:1".to_string()),
        Some("10.0.0.1:900".to_string()),
    ];
    assert_eq!(
        load_seeds(&resolved),
        vec!["10.0.0.1:900", "10.0.0.1:9000", "9.9.9.9:1"]
    );
    let mut other = resolved.clone();
    other.reverse();
    assert_eq!(load_seeds(&resolved), load_seeds(&other));
    assert!(load_seeds(&vec![None]).is_empty());
}

#[test]
fn snapshot_addresses_come_behind_the_seeds() {
    let mut seeds = strings(&["b:2", "a:1"]);
    merge_seeds(&mut seeds, &strings(&["c:3", "a:1", "c:3"]));
    assert_eq!(seeds, vec!["b:2", "a:1", "c:3"]);
}

#[test]
fn every_seed_is_dialed_and_then_the_own_identifier_looked_up() {
    let mut run = bootstrap(strings(&["a:1", "b:2", "c:3"]));
    for (addr, reached) in [("a:1", false), ("b:2", true), ("c:3", false)] {
        assert!(matches!(run.action(), BootstrapAction::Dial(a) if a == addr));
        run.on_looked_up();
        run.on_dialed(reached);
    }
    assert_eq!(run.connected(), 1);
    assert!(matches!(run.action(), BootstrapAction::SelfLookup));
    run.on_dialed(true);
    assert!(matches!(run.action(), BootstrapAction::SelfLookup));
    run.on_looked_up();
    assert!(matches!(run.action(), BootstrapAction::Finished));
    assert_eq!(SEED_DIAL_TIMEOUT, 8);
}

#[test]
fn without_a_reachable_seed_nothing_is_looked_up() {
    assert!(matches!(bootstrap(vec![]).action(), BootstrapAction::Finished));
    let mut run = bootstrap(strings(&["a:1"]));
    run.on_dialed(false);
    assert!(matches!(run.action(), BootstrapAction::Finished));
}

#[test]
fn two_ports_are_opened_for_ipv4() {
    let (quic, web) = NatService::open_world(9000, true).unwrap();
    assert_eq!((quic.port, quic.lease, quic.description), (9000, 0, "Primus-Node-QUIC"));
    assert_eq!((web.port, web.lease, web.description), (9001, 0, "Primus-Node-WebTransport"));
    assert_eq!(
        NatService::open_world(9000, false).err(),
        Some(NatError::Ipv6NotSupported)
    );
    assert_eq!(
        NatError::Ipv6NotSupported.message(),
        "IPv6 mapping is not yet supported for Primus-Grade nodes"
    );
}
