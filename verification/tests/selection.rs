use wallpaper_rules::search::select_wallpaper;
use wallpaper_rules::rules::Rule;
use wallpaper_rules::weather::Weather;

fn rule(start_month: i32, end_month: i32, start_hour: i32, end_hour: i32, condition: Weather, path: &str) -> Rule {
    Rule {
        start_hour,
        end_hour,
        start_month,
        end_month,
        condition,
        image_path: String::from(path),
    }
}

fn all_day(condition: Weather, path: &str) -> Rule {
    rule(1, 12, 0, 23, condition, path)
}

#[test]
fn single_exact_rule_with_file_is_selected() {
    let rules = vec![rule(6, 6, 14, 14, Weather::Rain, "/img/rain.png")];
    let exists = vec![true];
    let r = select_wallpaper(Weather::Rain, &rules, 6, 14, &exists);
    assert_eq!(r, "/img/rain.png");
}

#[test]
fn missing_exact_file_falls_back_to_clear_rule() {
    let rules = vec![
        all_day(Weather::Rain, "/img/rain.png"),
        all_day(Weather::Clear, "/img/clear.png"),
    ];
    let exists = vec![false, true];
    let r = select_wallpaper(Weather::Rain, &rules, 6, 14, &exists);
    assert_eq!(r, "/img/clear.png");
}

#[test]
fn no_rule_covering_any_slot_yields_empty() {
    // A month window of 13..0 contains no month at all.
    let rules = vec![rule(13, 0, 0, 23, Weather::Clear, "/img/clear.png")];
    let exists = vec![true];
    let r = select_wallpaper(Weather::Clear, &rules, 6, 14, &exists);
    assert_eq!(r, "");
}

#[test]
fn empty_rule_set_yields_empty() {
    let rules: Vec<Rule> = vec![];
    let exists: Vec<bool> = vec![];
    let r = select_wallpaper(Weather::Clear, &rules, 1, 0, &exists);
    assert_eq!(r, "");
}

#[test]
fn search_advances_the_hour_until_a_rule_matches() {
    // Only hour 7 is covered; the search starts at hour 5 and reaches it.
    let rules = vec![rule(1, 12, 7, 7, Weather::Clear, "/img/seven.png")];
    let exists = vec![true];
    let r = select_wallpaper(Weather::Clear, &rules, 6, 5, &exists);
    assert_eq!(r, "/img/seven.png");
}

#[test]
fn search_wraps_the_hour_past_midnight() {
    // Starting at hour 23, the next covered hour is 1 on the wrapped pass.
    let rules = vec![rule(1, 12, 1, 1, Weather::Clear, "/img/one.png")];
    let exists = vec![true];
    let r = select_wallpaper(Weather::Clear, &rules, 6, 23, &exists);
    assert_eq!(r, "/img/one.png");
}

#[test]
fn search_advances_the_month_once_hours_are_exhausted() {
    // No hour of month 6 is covered; month 7 is, at any hour.
    let rules = vec![rule(7, 7, 0, 23, Weather::Clear, "/img/july.png")];
    let exists = vec![true];
    let r = select_wallpaper(Weather::Clear, &rules, 6, 14, &exists);
    assert_eq!(r, "/img/july.png");
}

#[test]
fn search_wraps_the_month_past_december() {
    let rules = vec![rule(2, 2, 0, 23, Weather::Clear, "/img/feb.png")];
    let exists = vec![true];
    let r = select_wallpaper(Weather::Clear, &rules, 11, 14, &exists);
    assert_eq!(r, "/img/feb.png");
}

#[test]
fn exact_match_beats_an_earlier_adjacent_rule() {
    let rules = vec![
        all_day(Weather::Cloudy, "/img/cloudy.png"),
        all_day(Weather::Clear, "/img/clear.png"),
    ];
    let exists = vec![true, true];
    let r = select_wallpaper(Weather::Clear, &rules, 6, 14, &exists);
    assert_eq!(r, "/img/clear.png");
}

#[test]
fn adjacent_rule_beats_a_loosely_adjacent_rule() {
    // For current Rain: Thunderstorm is adjacent, Cloudy only loosely adjacent.
    let rules = vec![
        all_day(Weather::Cloudy, "/img/cloudy.png"),
        all_day(Weather::Thunderstorm, "/img/storm.png"),
    ];
    let exists = vec![true, true];
    let r = select_wallpaper(Weather::Rain, &rules, 6, 14, &exists);
    assert_eq!(r, "/img/storm.png");
}

#[test]
fn loosely_adjacent_rule_is_used_when_nothing_closer_exists() {
    // For current Snow: Clear is only loosely adjacent.
    let rules = vec![all_day(Weather::Clear, "/img/clear.png")];
    let exists = vec![true];
    let r = select_wallpaper(Weather::Snow, &rules, 6, 14, &exists);
    assert_eq!(r, "/img/clear.png");
}

#[test]
fn fog_overcast_resolves_at_the_adjacent_tier() {
    // {Fog, Overcast} sits in both relations; the adjacent tier wins, so an
    // Overcast rule is picked over a later rule that only the loosely
    // adjacent tier could offer.
    let rules = vec![
        all_day(Weather::Rain, "/img/rain.png"),
        all_day(Weather::Overcast, "/img/overcast.png"),
    ];
    let exists = vec![true, true];
    let r = select_wallpaper(Weather::Fog, &rules, 6, 14, &exists);
    assert_eq!(r, "/img/overcast.png");
}

#[test]
fn missing_exact_file_with_unrelated_rule_yields_empty() {
    // The exact Clear rule's file is missing; Rain is neither adjacent nor
    // loosely adjacent to Clear, and the only Clear rule is the file-missing
    // one, so every tier fails at every slot and the result is empty. The
    // file-missing exact match is never selected.
    let rules = vec![
        all_day(Weather::Clear, "/img/clear.png"),
        all_day(Weather::Rain, "/img/rain.png"),
    ];
    let exists = vec![false, true];
    let r = select_wallpaper(Weather::Clear, &rules, 6, 14, &exists);
    assert_eq!(r, "");
}

#[test]
fn missing_exact_file_with_adjacent_rule_selects_the_adjacent_one() {
    // Cloudy is adjacent to Clear, so with the exact Clear file missing the
    // adjacent tier picks the Cloudy rule instead of returning empty.
    let rules = vec![
        all_day(Weather::Clear, "/img/clear.png"),
        all_day(Weather::Cloudy, "/img/cloudy.png"),
    ];
    let exists = vec![false, true];
    let r = select_wallpaper(Weather::Clear, &rules, 6, 14, &exists);
    assert_eq!(r, "/img/cloudy.png");
}

#[test]
fn exact_tier_skips_a_matching_rule_whose_file_is_missing() {
    // Two exact Rain rules: the first one's file is missing, so the exact
    // tier moves on within the tier and selects the second.
    let rules = vec![
        all_day(Weather::Rain, "/img/rain-a.png"),
        all_day(Weather::Rain, "/img/rain-b.png"),
    ];
    let exists = vec![false, true];
    let r = select_wallpaper(Weather::Rain, &rules, 6, 14, &exists);
    assert_eq!(r, "/img/rain-b.png");
}

#[test]
fn clear_tier_skips_a_matching_rule_whose_file_is_missing() {
    // Neither Clear rule is exact, adjacent or loosely adjacent to
    // Thunderstorm, so the default tier decides; it skips the file-missing
    // Clear rule and selects the next one.
    let rules = vec![
        all_day(Weather::Clear, "/img/clear-a.png"),
        all_day(Weather::Clear, "/img/clear-b.png"),
    ];
    let exists = vec![false, true];
    let r = select_wallpaper(Weather::Thunderstorm, &rules, 6, 14, &exists);
    assert_eq!(r, "/img/clear-b.png");
}

#[test]
fn within_a_tier_the_first_listed_rule_wins() {
    let rules = vec![
        all_day(Weather::Rain, "/img/rain-a.png"),
        all_day(Weather::Rain, "/img/rain-b.png"),
    ];
    let exists = vec![true, true];
    let r = select_wallpaper(Weather::Rain, &rules, 6, 14, &exists);
    assert_eq!(r, "/img/rain-a.png");
}

#[test]
fn earlier_slot_beats_a_better_tier_at_a_later_slot() {
    // At the current slot only a loosely adjacent rule applies; an exact rule
    // exists one hour later. Slots are tried outermost, so the loosely
    // adjacent rule at the current slot wins.
    let rules = vec![
        rule(1, 12, 14, 14, Weather::Clear, "/img/clear.png"),
        rule(1, 12, 15, 15, Weather::Snow, "/img/snow.png"),
    ];
    let exists = vec![true, true];
    let r = select_wallpaper(Weather::Snow, &rules, 6, 14, &exists);
    assert_eq!(r, "/img/clear.png");
}
