//! Pattern matching on chat messages: mention and id extraction, emote
//! and badge detection, and numeral highlighting.
//!
//! All pattern work goes through the regular-expression engine behind
//! three trusted wrappers; what each fixed pattern yields on a given
//! text is named by an uninterpreted function of the pattern and the
//! text, and the id extractors parse the captured digits with the
//! verified decimal parser.

use vstd::prelude::*;

use crate::parse::{contains_str, parse_u32, parse_u64, spec_contains_str, spec_parse_u32,
    spec_parse_u64};

verus! {

/// The first match's capture group `group` of `pattern` in `text`, as
/// the regular-expression engine finds it; `None` when nothing matches,
/// when the group takes no part in the match, or when the pattern is
/// invalid.
pub uninterp spec fn regex_group(pattern: Seq<char>, group: int, text: Seq<char>) -> Option<
    Seq<char>,
>;

/// Whether `pattern` matches anywhere in `text`, as the
/// regular-expression engine decides it; `false` for an invalid pattern.
pub uninterp spec fn regex_found(pattern: Seq<char>, text: Seq<char>) -> bool;

/// `text` with every non-overlapping match of `pattern` replaced by
/// `rep` (with `$`-references expanded), as the regular-expression
/// engine rewrites it; `text` unchanged for an invalid pattern.
pub uninterp spec fn regex_substitution(pattern: Seq<char>, rep: Seq<char>, text: Seq<char>) -> Seq<
    char,
>;

/// Relies on regex::Regex::captures: the first match's capture group
/// `group`. The result depends on the arguments alone.
#[verifier::external_body]
fn find_group(pattern: &str, group: usize, text: &str) -> (r: Option<String>)
    ensures
        match r {
            Some(cap) => regex_group(pattern@, group as int, text@) == Some(cap@),
            None => regex_group(pattern@, group as int, text@) is None,
        },
{
    let re = match regex::Regex::new(pattern) {
        Ok(re) => re,
        Err(_) => return None,
    };
    let caps = match re.captures(text) {
        Some(caps) => caps,
        None => return None,
    };
    match caps.get(group) {
        Some(m) => Some(m.as_str().to_string()),
        None => None,
    }
}

/// Relies on regex::Regex::is_match: whether the pattern matches
/// anywhere in the text. The result depends on the arguments alone.
#[verifier::external_body]
fn matches_pattern(pattern: &str, text: &str) -> (r: bool)
    ensures
        r == regex_found(pattern@, text@),
{
    match regex::Regex::new(pattern) {
        Ok(re) => re.is_match(text),
        Err(_) => false,
    }
}

/// Relies on regex::Regex::replace_all: every match replaced by the
/// replacement. The result depends on the arguments alone.
#[verifier::external_body]
fn substitute_all(pattern: &str, rep: &str, text: &str) -> (r: String)
    ensures
        r@ == regex_substitution(pattern@, rep@, text@),
{
    match regex::Regex::new(pattern) {
        Ok(re) => re.replace_all(text, rep).into_owned(),
        Err(_) => text.to_string(),
    }
}

/// The digits captured by `pattern`'s group `group` in `msg`, parsed as
/// a `u64`.
pub open spec fn spec_captured_u64(pattern: Seq<char>, group: int, msg: Seq<char>) -> Option<u64> {
    match regex_group(pattern, group, msg) {
        Some(cap) => spec_parse_u64(cap),
        None => None,
    }
}

/// The digits captured by `pattern`'s group `group` in `msg`, parsed as
/// a `u32`.
pub open spec fn spec_captured_u32(pattern: Seq<char>, group: int, msg: Seq<char>) -> Option<u32> {
    match regex_group(pattern, group, msg) {
        Some(cap) => spec_parse_u32(cap),
        None => None,
    }
}

fn captured_u64(pattern: &str, group: usize, msg: &str) -> (r: Option<u64>)
    ensures
        r == spec_captured_u64(pattern@, group as int, msg@),
{
    match find_group(pattern, group, msg) {
        Some(cap) => parse_u64(cap.as_str()),
        None => None,
    }
}

fn captured_u32(pattern: &str, group: usize, msg: &str) -> (r: Option<u32>)
    ensures
        r == spec_captured_u32(pattern@, group as int, msg@),
{
    match find_group(pattern, group, msg) {
        Some(cap) => parse_u32(cap.as_str()),
        None => None,
    }
}

/// Whether `msg` holds a custom emote, `<:name:id>` or animated
/// `<a:name:id>`.
pub open spec fn spec_is_custom_emote(msg: Seq<char>) -> bool {
    regex_found("<(a?):([^:\\n]+):(\\d+)>"@, msg)
}

pub fn is_custom_emote(msg: &str) -> (r: bool)
    ensures
        r == spec_is_custom_emote(msg@),
{
    matches_pattern("<(a?):([^:\\n]+):(\\d+)>", msg)
}

/// The channel id of `msg`: the whole message as a number, or the id
/// inside a `<#id>` channel mention.
pub open spec fn spec_get_mention_channel(msg: Seq<char>) -> Option<u64> {
    match spec_parse_u64(msg) {
        Some(id) => Some(id),
        None => spec_captured_u64("<#(\\d+)>"@, 1, msg),
    }
}

pub fn get_mention_channel(msg: &str) -> (r: Option<u64>)
    ensures
        r == spec_get_mention_channel(msg@),
{
    match parse_u64(msg) {
        Some(id) => Some(id),
        None => captured_u64("<#(\\d+)>", 1, msg),
    }
}

/// The role id of `msg`: the whole message as a number, or the id
/// inside a `<@&id>` role mention.
pub open spec fn spec_get_mention_role(msg: Seq<char>) -> Option<u64> {
    match spec_parse_u64(msg) {
        Some(id) => Some(id),
        None => spec_captured_u64("<@&(\\d+)>"@, 1, msg),
    }
}

pub fn get_mention_role(msg: &str) -> (r: Option<u64>)
    ensures
        r == spec_get_mention_role(msg@),
{
    match parse_u64(msg) {
        Some(id) => Some(id),
        None => captured_u64("<@&(\\d+)>", 1, msg),
    }
}

/// The user id of `msg`: the whole message as a number, or the id
/// inside a `<@id>` or `<@!id>` user mention.
pub open spec fn spec_get_mention_user(msg: Seq<char>) -> Option<u64> {
    match spec_parse_u64(msg) {
        Some(id) => Some(id),
        None => spec_captured_u64("<@!?(\\d+)>"@, 1, msg),
    }
}

pub fn get_mention_user(msg: &str) -> (r: Option<u64>)
    ensures
        r == spec_get_mention_user(msg@),
{
    match parse_u64(msg) {
        Some(id) => Some(id),
        None => captured_u64("<@!?(\\d+)>", 1, msg),
    }
}

/// The user id inside an osu! profile link in `msg`.
pub open spec fn spec_get_osu_user_id(msg: Seq<char>) -> Option<u32> {
    spec_captured_u32("https://osu.ppy.sh/users/(\\d+)"@, 1, msg)
}

pub fn get_osu_user_id(msg: &str) -> (r: Option<u32>)
    ensures
        r == spec_get_osu_user_id(msg@),
{
    captured_u32("https://osu.ppy.sh/users/(\\d+)", 1, msg)
}

/// The match id of `msg`: the whole message as a number, or the id
/// inside an osu! multiplayer-match link.
pub open spec fn spec_get_osu_match_id(msg: Seq<char>) -> Option<u32> {
    match spec_parse_u32(msg) {
        Some(id) => Some(id),
        None => spec_captured_u32("https://osu.ppy.sh/(?:community/matches|mp)/(\\d+)"@, 1, msg),
    }
}

pub fn get_osu_match_id(msg: &str) -> (r: Option<u32>)
    ensures
        r == spec_get_osu_match_id(msg@),
{
    match parse_u32(msg) {
        Some(id) => Some(id),
        None => captured_u32("https://osu.ppy.sh/(?:community/matches|mp)/(\\d+)", 1, msg),
    }
}

/// The video id inside a youtube link in `msg`.
pub open spec fn spec_get_youtube_id(msg: Seq<char>) -> Option<Seq<char>> {
    regex_group(
        "http(?:s?)://(?:www\\.)?youtu(?:be\\.com/watch\\?v=|\\.be/)([\\w\\-_]*)(&(amp;)?\u{200c}\u{200b}[\\w\\?\u{200c}\u{200b}=]*)?"@,
        1,
        msg,
    )
}

pub fn get_youtube_id(msg: &str) -> (r: Option<String>)
    ensures
        match r {
            Some(id) => spec_get_youtube_id(msg@) == Some(id@),
            None => spec_get_youtube_id(msg@) is None,
        },
{
    find_group(
        "http(?:s?)://(?:www\\.)?youtu(?:be\\.com/watch\\?v=|\\.be/)([\\w\\-_]*)(&(amp;)?\u{200c}\u{200b}[\\w\\?\u{200c}\u{200b}=]*)?",
        1,
        msg,
    )
}

/// Whether `msg` spells out hit results, `{a/b/.../c}` with at least
/// three numbers.
pub open spec fn spec_is_hit_results(msg: Seq<char>) -> bool {
    regex_found(".*\\{(\\d+/){2,}\\d+}.*"@, msg)
}

pub fn is_hit_results(msg: &str) -> (r: bool)
    ensures
        r == spec_is_hit_results(msg@),
{
    matches_pattern(".*\\{(\\d+/){2,}\\d+}.*", msg)
}

/// Whether `msg` names a guest difficulty, `<name>'s <difficulty>`.
pub open spec fn spec_is_guest_diff(msg: Seq<char>) -> bool {
    regex_found(
        ".*'s? (easy|normal|hard|insane|expert|extra|extreme|emotions|repetition)"@,
        msg,
    )
}

pub fn is_guest_diff(msg: &str) -> (r: bool)
    ensures
        r == spec_is_guest_diff(msg@),
{
    matches_pattern(".*'s? (easy|normal|hard|insane|expert|extra|extreme|emotions|repetition)", msg)
}

/// Whether a badge description counts as a tournament badge: one whose
/// description does not open with any of the known non-tournament badge
/// families.
pub open spec fn spec_tourney_badge(description: Seq<char>) -> bool {
    !regex_found(
        "^((?i)contrib|nomination|assessment|global|moderation|beatmap|spotlight|map|pending|aspire|elite|monthly|exemplary|outstanding|longstanding|idol[^@]+)"@,
        description,
    )
}

pub fn tourney_badge(description: &str) -> (r: bool)
    ensures
        r == spec_tourney_badge(description@),
{
    !matches_pattern(
        "^((?i)contrib|nomination|assessment|global|moderation|beatmap|spotlight|map|pending|aspire|elite|monthly|exemplary|outstanding|longstanding|idol[^@]+)",
        description,
    )
}

/// `content` with every occurrence of the funny numeral (727 with
/// optional separators) wrapped in underline markup.
pub open spec fn spec_highlight_funny_numeral(content: Seq<char>) -> Seq<char> {
    regex_substitution("(?P<num>7[.,]?2[.,]?7)"@, "__${num}__"@, content)
}

pub fn highlight_funny_numeral(content: &str) -> (r: String)
    ensures
        r@ == spec_highlight_funny_numeral(content@),
{
    substitute_all("(?P<num>7[.,]?2[.,]?7)", "__${num}__", content)
}

/// The beatmap id of `msg`: the whole message as a number, or the id
/// inside an osu! beatmap link, old style (`/b/id`, `/beatmaps/id`)
/// before new style (`/beatmapsets/set#mode/id`). Messages without the
/// osu! base address hold no link worth scanning.
pub open spec fn spec_get_osu_map_id(msg: Seq<char>) -> Option<u32> {
    match spec_parse_u32(msg) {
        Some(id) => Some(id),
        None => if !spec_contains_str(msg, "https://osu.ppy.sh/"@) {
            None
        } else {
            match regex_group("https://osu.ppy.sh/b(?:eatmaps)?/(\\d+)"@, 1, msg) {
                Some(cap) => spec_parse_u32(cap),
                None => spec_captured_u32(
                    "https://osu.ppy.sh/beatmapsets/(\\d+)(?:(?:#(?:osu|mania|taiko|fruits)|<#\\d+>)/(\\d+))?"@,
                    2,
                    msg,
                ),
            }
        },
    }
}

pub fn get_osu_map_id(msg: &str) -> (r: Option<u32>)
    ensures
        r == spec_get_osu_map_id(msg@),
{
    if let Some(id) = parse_u32(msg) {
        return Some(id);
    }
    if !contains_str(msg, "https://osu.ppy.sh/") {
        return None;
    }
    match find_group("https://osu.ppy.sh/b(?:eatmaps)?/(\\d+)", 1, msg) {
        Some(cap) => parse_u32(cap.as_str()),
        None => captured_u32(
            "https://osu.ppy.sh/beatmapsets/(\\d+)(?:(?:#(?:osu|mania|taiko|fruits)|<#\\d+>)/(\\d+))?",
            2,
            msg,
        ),
    }
}

} // verus!
