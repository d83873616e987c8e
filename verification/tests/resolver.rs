use tt::config::MyConfig;
use tt::player::{player_args, FULLSCREEN_FLAG, PLAYER_PROGRAM};
use tt::resolver::{media_url, search_url, search_url_of_encoded, FALLBACK_URL};
use tt::time_of_day::{ConfigError, TimeOfDay};

#[test]
fn search_url_leaves_letters_and_digits_alone() {
    assert_eq!(
        "https://yt.lemnoslife.com/search?part=id,snippet&q=Yesterday+Beatles1965&type=video",
        search_url("Yesterday", "Beatles1965")
    );
}

#[test]
fn search_url_percent_encodes_everything_else() {
    assert_eq!(
        "https://yt.lemnoslife.com/search?part=id,snippet&q=foo%20bar%3F+a%2Bb%26c%3Dd&type=video",
        search_url("foo bar?", "a+b&c=d")
    );
    assert_eq!(
        "https://yt.lemnoslife.com/search?part=id,snippet&q=%2D%5F%2E%7E%25+%00%7F%0A&type=video",
        search_url("-_.~%", "\u{0}\u{7f}\n")
    );
}

#[test]
fn search_url_encodes_each_byte_of_utf8() {
    assert_eq!(
        "https://yt.lemnoslife.com/search?part=id,snippet&q=%E5%A4%9C+%C3%A9%F0%9F%8E%B5&type=video",
        search_url("夜", "é🎵")
    );
}

#[test]
fn search_url_of_empty_terms() {
    assert_eq!(
        "https://yt.lemnoslife.com/search?part=id,snippet&q=+&type=video",
        search_url("", "")
    );
}

#[test]
fn search_url_of_encoded_joins_as_given() {
    assert_eq!(
        "https://yt.lemnoslife.com/search?part=id,snippet&q=a%20b+c&type=video",
        search_url_of_encoded("a%20b", "c")
    );
}

#[test]
fn media_url_is_that_of_the_first_video() {
    let ids = vec!["dQw4w9WgXcQ".to_string(), "other".to_string()];
    assert_eq!("https://www.youtube.com/watch?v=dQw4w9WgXcQ", media_url(&ids));
    assert_eq!("https://www.youtube.com/watch?v=", media_url(&vec![String::new()]));
}

#[test]
fn media_url_falls_back_where_nothing_was_found() {
    assert_eq!(
        "https://github.com/satler-git/tt/releases/download/v2.0.1/error.wav",
        media_url(&Vec::new())
    );
    assert_eq!(FALLBACK_URL, media_url(&Vec::new()));
}

#[test]
fn player_args_end_with_flag_and_url() {
    assert_eq!(
        vec!["-fs".to_string(), "http://x/y".to_string()],
        player_args(&None, "http://x/y".to_string())
    );
    assert_eq!(
        vec!["-fs".to_string(), "u".to_string()],
        player_args(&Some(Vec::new()), "u".to_string())
    );
    assert_eq!(
        vec![
            "--volume=50".to_string(),
            "--no-video".to_string(),
            "-fs".to_string(),
            "u".to_string()
        ],
        player_args(
            &Some(vec!["--volume=50".to_string(), "--no-video".to_string()]),
            "u".to_string()
        )
    );
    assert_eq!("-fs", FULLSCREEN_FLAG);
    assert_eq!("mpv", PLAYER_PROGRAM);
}

#[test]
fn default_config_ends_at_five_past_one() {
    let cfg = MyConfig::default();
    assert_eq!("", cfg.api_key);
    assert_eq!([13, 5, 0], cfg.end_time);
    assert_eq!(Ok(TimeOfDay { hour: 13, minute: 5, second: 0 }), cfg.deadline());
}

#[test]
fn config_deadline_names_the_field_out_of_range() {
    let cfg = |end_time: [u32; 3]| MyConfig { api_key: String::new(), end_time };
    assert_eq!(Err(ConfigError::HourOutOfRange), cfg([24, 0, 0]).deadline());
    assert_eq!(Err(ConfigError::HourOutOfRange), cfg([24, 60, 60]).deadline());
    assert_eq!(Err(ConfigError::MinuteOutOfRange), cfg([23, 60, 60]).deadline());
    assert_eq!(Err(ConfigError::SecondOutOfRange), cfg([23, 59, 60]).deadline());
    assert_eq!(
        Ok(TimeOfDay { hour: 23, minute: 59, second: 59 }),
        cfg([23, 59, 59]).deadline()
    );
}

#[test]
fn feed_url_holds_the_deployment_id() {
    let cfg = MyConfig { api_key: "AKfy-123".to_string(), end_time: [13, 5, 0] };
    assert_eq!("https://script.google.com/macros/s/AKfy-123/exec", cfg.feed_url());
    assert_eq!("https://script.google.com/macros/s//exec", MyConfig::default().feed_url());
}
