use replay_toolbox::{find_cli_arg, Config, DownloadProgress, Page, PlatformFilter, Progress,
    ProgressUpdate, ReplayFilters, ReplayListState, Settings};

#[test]
fn cli_arguments_are_looked_up_by_key() {
    let r = find_cli_arg("-r").unwrap();
    assert_eq!(r.key, "-r");
    assert!(!r.flag);
    let o = find_cli_arg("-o").unwrap();
    assert!(!o.flag);
    for key in ["--alt", "--iso8601", "--utc", "-h"] {
        let a = find_cli_arg(key).unwrap();
        assert_eq!(a.key, key);
        assert!(a.flag);
    }
    assert!(find_cli_arg("-x").is_none());
    assert!(find_cli_arg("").is_none());
    assert!(find_cli_arg("-R").is_none());
}

#[test]
fn defaults() {
    let s = Settings::default();
    assert_eq!(s.download_dir, ".");
    assert!(s.auto_refresh_enabled);
    assert_eq!(s.auto_refresh_interval_mins, 5);
    assert!(!s.auto_download_enabled);
    assert_eq!(s.auto_download_trigger_user_id, "");

    let f = ReplayFilters::default();
    assert_eq!(f.platform, PlatformFilter::All);
    assert_eq!(f.game_mode, "");

    let l = ReplayListState::default();
    assert_eq!(l.current_page, 0);
    assert_eq!(l.total_pages, 0);
    assert!(l.replays.is_empty());

    let c = Config::default();
    assert_eq!(c.data_count, usize::MAX);
    assert_eq!(c.event_count, usize::MAX);
    assert_eq!(c.checkpoint_count, usize::MAX);

    let p = ProgressUpdate::default();
    assert_eq!((p.current, p.max), (0, 0));
    let pr = Progress::default();
    assert_eq!(pr.data_chunks, ProgressUpdate::default());
    let dp = DownloadProgress::default();
    assert_eq!(dp.build, ProgressUpdate::default());

    assert_ne!(Page::Main, Page::Settings);
}
