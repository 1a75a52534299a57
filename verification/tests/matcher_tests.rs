use osuvs_engine::matcher::{
    get_mention_channel, get_mention_role, get_mention_user, get_osu_map_id, get_osu_match_id,
    get_osu_user_id, get_youtube_id, highlight_funny_numeral, is_custom_emote, is_guest_diff,
    is_hit_results, tourney_badge,
};
use osuvs_engine::parse::{contains_str, parse_u32, parse_u64};

#[test]
fn parse_u64_plain_digits() {
    assert_eq!(parse_u64("0"), Some(0));
    assert_eq!(parse_u64("1234567890"), Some(1234567890));
    assert_eq!(parse_u64("18446744073709551615"), Some(u64::MAX));
}

#[test]
fn parse_u64_leading_plus() {
    assert_eq!(parse_u64("+123"), Some(123));
    assert_eq!(parse_u64("+"), None);
}

#[test]
fn parse_u64_rejects_garbage() {
    assert_eq!(parse_u64(""), None);
    assert_eq!(parse_u64("12a3"), None);
    assert_eq!(parse_u64("-5"), None);
    assert_eq!(parse_u64(" 12"), None);
}

#[test]
fn parse_u64_rejects_overflow() {
    assert_eq!(parse_u64("18446744073709551616"), None);
    assert_eq!(parse_u64("99999999999999999999999"), None);
}

#[test]
fn parse_u32_range() {
    assert_eq!(parse_u32("4294967295"), Some(u32::MAX));
    assert_eq!(parse_u32("4294967296"), None);
    assert_eq!(parse_u32("+42"), Some(42));
}

#[test]
fn contains_str_basics() {
    assert!(contains_str("hello world", "lo wo"));
    assert!(contains_str("abc", ""));
    assert!(!contains_str("abc", "abcd"));
    assert!(!contains_str("abc", "x"));
    assert!(contains_str("abc", "abc"));
}

#[test]
fn mention_user_forms() {
    assert_eq!(get_mention_user("<@!1234>"), Some(1234));
    assert_eq!(get_mention_user("<@999>"), Some(999));
    assert_eq!(get_mention_user("77"), Some(77));
    assert_eq!(get_mention_user("+77"), Some(77));
    assert_eq!(get_mention_user("hello"), None);
    assert_eq!(get_mention_user("<#123>"), None);
}

#[test]
fn mention_role_and_channel() {
    assert_eq!(get_mention_role("<@&555>"), Some(555));
    assert_eq!(get_mention_role("<@!555>"), None);
    assert_eq!(get_mention_channel("<#348299271890665473>"), Some(348299271890665473));
    assert_eq!(get_mention_channel("<@&555>"), None);
}

#[test]
fn custom_emote_detection() {
    assert!(is_custom_emote("<:peepo:748563082110434438>"));
    assert!(is_custom_emote("<a:wave:123>"));
    assert!(!is_custom_emote("just text"));
    assert!(!is_custom_emote("<:no_id:>"));
}

#[test]
fn osu_user_id_from_link() {
    assert_eq!(get_osu_user_id("https://osu.ppy.sh/users/873961"), Some(873961));
    assert_eq!(get_osu_user_id("873961"), None);
    assert_eq!(get_osu_user_id("https://osu.ppy.sh/users/abc"), None);
}

#[test]
fn osu_match_id_forms() {
    assert_eq!(get_osu_match_id("103846528"), Some(103846528));
    assert_eq!(get_osu_match_id("https://osu.ppy.sh/mp/103846528"), Some(103846528));
    assert_eq!(
        get_osu_match_id("https://osu.ppy.sh/community/matches/105019274"),
        Some(105019274)
    );
    assert_eq!(get_osu_match_id("no link here"), None);
}

#[test]
fn youtube_id_extraction() {
    assert_eq!(
        get_youtube_id("https://www.youtube.com/watch?v=dQw4w9WgXcQ"),
        Some(String::from("dQw4w9WgXcQ"))
    );
    assert_eq!(
        get_youtube_id("https://youtu.be/abc_-123"),
        Some(String::from("abc_-123"))
    );
    assert_eq!(get_youtube_id("https://example.com/watch?v=xyz"), None);
}

#[test]
fn hit_results_detection() {
    assert!(is_hit_results("great play {100/50/3}"));
    assert!(is_hit_results("{1/2/3/4}"));
    assert!(!is_hit_results("{1/2}"));
    assert!(!is_hit_results("plain message"));
}

#[test]
fn guest_diff_detection() {
    assert!(is_guest_diff("Mapper's insane"));
    assert!(is_guest_diff("someone' expert"));
    assert!(!is_guest_diff("Ultimate Chaos"));
}

#[test]
fn tourney_badge_filtering() {
    assert!(tourney_badge("Osu Belgium Cup 2021 winner"));
    assert!(!tourney_badge("Contribution to the community"));
    assert!(!tourney_badge("Beatmap Spotlights: Autumn 2020"));
    assert!(!tourney_badge("elite mapper"));
}

#[test]
fn funny_numeral_highlighting() {
    assert_eq!(highlight_funny_numeral("727 wysi"), "__727__ wysi");
    assert_eq!(highlight_funny_numeral("7.2.7"), "__7.2.7__");
    assert_eq!(highlight_funny_numeral("7,27 and 727"), "__7,27__ and __727__");
    assert_eq!(highlight_funny_numeral("772"), "772");
}

#[test]
fn osu_map_id_forms() {
    assert_eq!(get_osu_map_id("3013994"), Some(3013994));
    assert_eq!(get_osu_map_id("https://osu.ppy.sh/b/123"), Some(123));
    assert_eq!(get_osu_map_id("https://osu.ppy.sh/beatmaps/456"), Some(456));
    assert_eq!(
        get_osu_map_id("https://osu.ppy.sh/beatmapsets/1171069#osu/2443422"),
        Some(2443422)
    );
    assert_eq!(get_osu_map_id("https://osu.ppy.sh/beatmapsets/1171069"), None);
    assert_eq!(get_osu_map_id("https://example.com/b/123"), None);
    assert_eq!(get_osu_map_id("4294967296"), None);
}
