use dad_bot::config::Config;

fn sample_config(epoch_length: i64) -> Config {
    Config {
        homeserver_url: String::from("https://example.org"),
        mxid: String::from("@dad:example.org"),
        avatar: String::new(),
        password: String::new(),
        store_path: String::from("./store"),
        session_path: String::from("./session"),
        dadded_regex: String::from(
            r"\b(?P<im>(?:i|l)(?:(?:'|`|‛|‘|’|′|‵)?m| am))(?:\s+)(?P<dad_text>[^\.!?]+)",
        ),
        db: None,
        epoch_length,
        dadded_chance: None,
        love_me_chance: None,
    }
}

#[test]
fn test_get_epoch_length_in_milliseconds() {
    let config = sample_config(1440);
    assert_eq!(config.get_epoch_length(), chrono::Duration::days(1).num_milliseconds());
    let hourly = sample_config(60);
    assert_eq!(hourly.get_epoch_length(), chrono::Duration::hours(1).num_milliseconds());
}
