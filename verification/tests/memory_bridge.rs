use cowclaw_swarm::memory::mempalace::{drawer_id, matches_query, search_positions, snippet, Drawer};

fn drawer(title: &str, body: &str) -> Drawer {
    Drawer { wing: "cowclaw".into(), title: title.into(), body: body.into(), tags: vec!["test".into()] }
}

#[test]
fn mock_transport_add_and_search() {
    let drawers = vec![drawer("test drawer", "unique keyword XYZ123")];
    let hits = search_positions(&drawers, "XYZ123", 5);
    assert_eq!(hits, vec![0]);
    assert_eq!(drawers[hits[0]].title, "test drawer");
}

#[test]
fn search_takes_the_first_n_matches_in_order() {
    let drawers = vec![
        drawer("alpha", "nothing here"),
        drawer("beta key", "x"),
        drawer("gamma", "has key"),
        drawer("delta", "key again"),
    ];
    assert_eq!(search_positions(&drawers, "key", 2), vec![1, 2]);
    assert_eq!(search_positions(&drawers, "key", 10), vec![1, 2, 3]);
    assert!(search_positions(&drawers, "zzz", 3).is_empty());
    assert!(matches_query(&drawers[1], "beta"));
    assert!(!matches_query(&drawers[0], "beta"));
}

#[test]
fn snippets_and_ids() {
    assert_eq!(snippet(&"é".repeat(150)), "é".repeat(100));
    assert_eq!(snippet("short"), "short");
    assert_eq!(drawer_id(0x1f), "drawer_1f");
    assert_eq!(drawer_id(0), "drawer_0");
}
