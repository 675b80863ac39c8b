use hexsight::remote_lineup_source::{mode_remote_configs, RemoteLineupSource};

#[test]
fn cdn_url_for_mode17() {
    let url = RemoteLineupSource::cdn_url("17");
    assert!(url.is_some());
    assert!(url.unwrap().contains("lineup_detail_total.json"));
}

#[test]
fn cdn_urls_for_all_modes() {
    for (mode, _, _) in mode_remote_configs() {
        assert!(RemoteLineupSource::cdn_url(mode).is_some());
    }
}

#[test]
fn supports_remote_all_modes() {
    assert!(RemoteLineupSource::supports_remote("17"));
    assert!(RemoteLineupSource::supports_remote("16"));
    assert!(RemoteLineupSource::supports_remote("4"));
    assert!(!RemoteLineupSource::supports_remote("99"));
}

#[test]
fn cdn_url_is_built_from_version_path_channel_and_mode() {
    assert_eq!(
        RemoteLineupSource::cdn_url("16").unwrap(),
        "https://game.gtimg.cn/images/lol/act/jkzlkauto/json/lineupJson/m17/11/16/lineup_detail_total.json"
    );
    assert_eq!(RemoteLineupSource::cdn_url("99"), None);
}
