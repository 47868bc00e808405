use replay_toolbox::{check_replay_id, discovery_decide, replay_item_from_api, scan_pages,
    start_download_decision, total_pages, validate_replay_id, ApiReplay, ApiResponse,
    DiscoveryDecision, DiscoveryResult, ReplayError};

fn descriptor(id: &str) -> ApiReplay {
    ApiReplay {
        id: id.to_string(),
        game_mode: "SND".to_string(),
        map_name: "dust2".to_string(),
        shack: false,
        created: "2024-01-02T03:04:05Z".to_string(),
        expires: "2024-02-02T03:04:05Z".to_string(),
        time_since: 60,
        workshop_mods: "".to_string(),
        competitive: false,
        live: false,
        users: None,
        modcount: 0,
    }
}

fn page(ids: &[&str], total: i32) -> ApiResponse {
    ApiResponse { replays: ids.iter().map(|i| descriptor(i)).collect(), total }
}

#[test]
fn replay_id_must_be_alphanumeric() {
    assert!(validate_replay_id("abc123XYZ"));
    assert!(validate_replay_id(""));
    // unicode letters and digits count as alphanumeric
    assert!(validate_replay_id("übÜng１２３"));
    assert!(!validate_replay_id("abc-123"));
    assert!(!validate_replay_id("a/b"));
    assert!(!validate_replay_id("a b"));
    assert!(check_replay_id("ok42").is_ok());
    assert_eq!(check_replay_id("../etc").unwrap_err(), ReplayError::InvalidInput);
}

#[test]
fn decide_takes_the_first_match() {
    let p = page(&["aaa", "bbb", "bbb"], 300);
    assert_eq!(discovery_decide(0, &p, "bbb"), DiscoveryDecision::Found(1));
}

#[test]
fn decide_continues_while_below_total() {
    let p = page(&["aaa"], 250);
    assert_eq!(discovery_decide(0, &p, "zzz"), DiscoveryDecision::Continue(100));
    assert_eq!(discovery_decide(200, &p, "zzz"), DiscoveryDecision::Continue(300));
    assert_eq!(discovery_decide(250, &p, "zzz"), DiscoveryDecision::Exhausted);
    assert_eq!(discovery_decide(300, &p, "zzz"), DiscoveryDecision::Exhausted);
}

#[test]
fn decide_stops_at_zero_total() {
    let p = page(&[], 0);
    assert_eq!(discovery_decide(0, &p, "zzz"), DiscoveryDecision::Exhausted);
}

#[test]
fn scan_finds_on_a_later_page() {
    let pages = vec![page(&["a0", "a1"], 250), page(&["b0", "tgt"], 250), page(&["c0"], 250)];
    assert_eq!(
        scan_pages(&pages, "tgt"),
        DiscoveryResult::FoundAt { page: 1, index: 1, requests: 2 }
    );
}

#[test]
fn scan_absent_id_stops_within_the_bound() {
    // ceil(250/100) + 1 = 4 requests, never more
    let pages = vec![
        page(&["a"], 250),
        page(&["b"], 250),
        page(&["c"], 250),
        page(&[], 250),
        page(&[], 250),
    ];
    assert_eq!(scan_pages(&pages, "zzz"), DiscoveryResult::NotFound { requests: 4 });
}

#[test]
fn scan_never_loops_on_zero_total() {
    let pages = vec![page(&[], 0)];
    assert_eq!(scan_pages(&pages, "zzz"), DiscoveryResult::NotFound { requests: 1 });
}

#[test]
fn start_download_requires_recorded_state() {
    assert_eq!(start_download_decision("Recorded", 7), Ok(7));
    assert_eq!(start_download_decision("Recorded", 0), Ok(0));
    // a negative chunk report means no chunks
    assert_eq!(start_download_decision("Recorded", -3), Ok(0));
    assert_eq!(
        start_download_decision("Recording", 7),
        Err(ReplayError::PreconditionFailed)
    );
    assert_eq!(start_download_decision("", 7), Err(ReplayError::PreconditionFailed));
}

#[test]
fn total_pages_rounds_up() {
    assert_eq!(total_pages(0), 0);
    assert_eq!(total_pages(-5), 0);
    assert_eq!(total_pages(1), 1);
    assert_eq!(total_pages(100), 1);
    assert_eq!(total_pages(101), 2);
    assert_eq!(total_pages(250), 3);
}

#[test]
fn listing_row_defaults_missing_users() {
    let mut d = descriptor("id1");
    let item = replay_item_from_api(&d);
    assert_eq!(item.id, "id1");
    assert_eq!(item.created_date, "2024-01-02T03:04:05Z");
    assert_eq!(item.users, Vec::<String>::new());
    d.users = Some(vec!["u1".to_string(), "u2".to_string()]);
    let item = replay_item_from_api(&d);
    assert_eq!(item.users, vec!["u1".to_string(), "u2".to_string()]);
}
