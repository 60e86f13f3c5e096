//! The best-match search: starting from the current slot, enumerate candidate
//! `(month, hour)` slots by advancing the hour with wraparound and, once a
//! full pass over the hours is exhausted, advancing the month; at each slot
//! try four match tiers of decreasing specificity and return the first
//! file-backed selection, or an empty path once every slot has been tried.

use vstd::prelude::*;
use crate::weather::{Weather, adjacent, loosely_adjacent, is_similar_weather, is_less_similar_weather};
use crate::rules::{Rule, rule_covers};

verus! {

/// The month reached after advancing `off` months from `cur`, wrapping past
/// the end of the year. Meaningful for `1 <= cur <= 12` and `0 <= off < 12`.
pub open spec fn slot_month(cur: int, off: int) -> int {
    if cur + off > 12 {
        cur + off - 12
    } else {
        cur + off
    }
}

/// The hour reached after advancing `off` hours from `cur`, wrapping past
/// midnight. Meaningful for `0 <= cur <= 23` and `0 <= off < 24`.
pub open spec fn slot_hour(cur: int, off: int) -> int {
    if cur + off > 23 {
        cur + off - 24
    } else {
        cur + off
    }
}

/// Whether a rule's condition matches the current condition at the given
/// tier: exact equality, adjacency, loose adjacency, or the default tier,
/// which accepts exactly the Clear condition.
pub open spec fn tier_matches(c: Weather, cur: Weather, tier: int) -> bool {
    if tier == 0 {
        c == cur
    } else if tier == 1 {
        adjacent(c, cur)
    } else if tier == 2 {
        loosely_adjacent(c, cur)
    } else {
        c == Weather::Clear
    }
}

/// The first index at or after `i` of a rule that covers `(m, h)`, whose
/// condition matches `cur` at `tier`, and whose file exists.
pub open spec fn first_existing_match_from(
    rules: Seq<Rule>,
    file_exists: Seq<bool>,
    cur: Weather,
    m: int,
    h: int,
    tier: int,
    i: int,
) -> Option<int>
    decreases rules.len() - i,
{
    if i >= rules.len() {
        None
    } else if rule_covers(&rules[i], m, h) && tier_matches(rules[i].condition, cur, tier) && file_exists[i] {
        Some(i)
    } else {
        first_existing_match_from(rules, file_exists, cur, m, h, tier, i + 1)
    }
}

/// The rule selected at one slot, if any: within each tier in turn — exact,
/// adjacent, loosely adjacent, default Clear — the first covering rule whose
/// condition matches the tier and whose file exists. A matching rule whose
/// file is missing is never selected and never blocks a later rule of its
/// tier or a weaker tier.
pub open spec fn slot_choice(rules: Seq<Rule>, file_exists: Seq<bool>, cur: Weather, m: int, h: int) -> Option<int> {
    match first_existing_match_from(rules, file_exists, cur, m, h, 0, 0) {
        Some(i) => Some(i),
        None => match first_existing_match_from(rules, file_exists, cur, m, h, 1, 0) {
            Some(i) => Some(i),
            None => match first_existing_match_from(rules, file_exists, cur, m, h, 2, 0) {
                Some(i) => Some(i),
                None => first_existing_match_from(rules, file_exists, cur, m, h, 3, 0),
            },
        },
    }
}

/// The result of the search from slot number `k` on: slots are numbered
/// `0 <= k < 288`, slot `k` being `off_m = k / 24` months and `off_h = k % 24`
/// hours past the current slot, so the hour advances first and the month
/// advances once a full pass over the hours is exhausted.
pub open spec fn search_from(
    rules: Seq<Rule>,
    file_exists: Seq<bool>,
    cur: Weather,
    cur_month: int,
    cur_hour: int,
    k: int,
) -> Option<int>
    decreases 288 - k,
{
    if k < 0 || k >= 288 {
        None
    } else {
        let m = slot_month(cur_month, k / 24);
        let h = slot_hour(cur_hour, k % 24);
        match slot_choice(rules, file_exists, cur, m, h) {
            Some(i) => Some(i),
            None => search_from(rules, file_exists, cur, cur_month, cur_hour, k + 1),
        }
    }
}

/// The index of the rule the whole search selects, if any: the choice at the
/// first of the 288 candidate slots that yields one.
pub open spec fn search_spec(
    rules: Seq<Rule>,
    file_exists: Seq<bool>,
    cur: Weather,
    cur_month: int,
    cur_hour: int,
) -> Option<int> {
    search_from(rules, file_exists, cur, cur_month, cur_hour, 0)
}

proof fn lemma_first_existing_none(
    rules: Seq<Rule>,
    file_exists: Seq<bool>,
    cur: Weather,
    m: int,
    h: int,
    tier: int,
    i: int,
)
    requires
        0 <= i,
        forall|j: int| 0 <= j < rules.len() ==> !rule_covers(&rules[j], m, h),
    ensures
        first_existing_match_from(rules, file_exists, cur, m, h, tier, i) is None,
    decreases rules.len() - i,
{
    if i < rules.len() {
        lemma_first_existing_none(rules, file_exists, cur, m, h, tier, i + 1);
    }
}

proof fn lemma_search_from_none(
    rules: Seq<Rule>,
    file_exists: Seq<bool>,
    cur: Weather,
    cur_month: int,
    cur_hour: int,
    k: int,
)
    requires
        1 <= cur_month <= 12,
        0 <= cur_hour <= 23,
        forall|m: int, h: int|
            1 <= m <= 12 && 0 <= h <= 23 ==> slot_choice(rules, file_exists, cur, m, h) is None,
    ensures
        search_from(rules, file_exists, cur, cur_month, cur_hour, k) is None,
    decreases 288 - k,
{
    if 0 <= k < 288 {
        assert(0 <= k / 24 <= 11 && 0 <= k % 24 <= 23) by (nonlinear_arith)
            requires 0 <= k < 288;
        assert(1 <= slot_month(cur_month, k / 24) <= 12);
        assert(0 <= slot_hour(cur_hour, k % 24) <= 23);
        lemma_search_from_none(rules, file_exists, cur, cur_month, cur_hour, k + 1);
    }
}

/// When a single rule is configured, its windows contain the current slot,
/// its condition equals the current one, and its file exists, the search
/// selects that rule.
pub proof fn lemma_single_exact_rule_selected(
    rules: Seq<Rule>,
    file_exists: Seq<bool>,
    cur: Weather,
    cur_month: int,
    cur_hour: int,
)
    requires
        rules.len() == 1,
        file_exists.len() == 1,
        1 <= cur_month <= 12,
        0 <= cur_hour <= 23,
        rule_covers(&rules[0], cur_month, cur_hour),
        rules[0].condition == cur,
        file_exists[0],
    ensures
        search_spec(rules, file_exists, cur, cur_month, cur_hour) == Some(0int),
{
    assert(0int / 24 == 0 && 0int % 24 == 0) by (nonlinear_arith);
    assert(slot_month(cur_month, 0) == cur_month);
    assert(slot_hour(cur_hour, 0) == cur_hour);
    assert(first_existing_match_from(rules, file_exists, cur, cur_month, cur_hour, 0, 0) == Some(0int));
    assert(slot_choice(rules, file_exists, cur, cur_month, cur_hour) == Some(0int));
}

/// When at the current slot no exact, adjacent or loosely adjacent tier has
/// a covering rule with an existing file, but a covering Clear rule's file
/// exists, the search falls through to that Clear rule.
pub proof fn lemma_clear_fallback(
    rules: Seq<Rule>,
    file_exists: Seq<bool>,
    cur: Weather,
    cur_month: int,
    cur_hour: int,
    clear_idx: int,
)
    requires
        1 <= cur_month <= 12,
        0 <= cur_hour <= 23,
        file_exists.len() == rules.len(),
        first_existing_match_from(rules, file_exists, cur, cur_month, cur_hour, 0, 0) is None,
        first_existing_match_from(rules, file_exists, cur, cur_month, cur_hour, 1, 0) is None,
        first_existing_match_from(rules, file_exists, cur, cur_month, cur_hour, 2, 0) is None,
        first_existing_match_from(rules, file_exists, cur, cur_month, cur_hour, 3, 0) == Some(clear_idx),
    ensures
        slot_choice(rules, file_exists, cur, cur_month, cur_hour) == Some(clear_idx),
        search_spec(rules, file_exists, cur, cur_month, cur_hour) == Some(clear_idx),
{
    assert(0int / 24 == 0 && 0int % 24 == 0) by (nonlinear_arith);
    assert(slot_month(cur_month, 0) == cur_month);
    assert(slot_hour(cur_hour, 0) == cur_hour);
}

/// A condition a selected rule may carry for current condition `cur`: equal
/// to it, adjacent, loosely adjacent, or the default Clear.
pub open spec fn related_condition(c: Weather, cur: Weather) -> bool {
    c == cur || adjacent(c, cur) || loosely_adjacent(c, cur) || c == Weather::Clear
}

proof fn lemma_first_existing_found(
    rules: Seq<Rule>,
    file_exists: Seq<bool>,
    cur: Weather,
    m: int,
    h: int,
    tier: int,
    i: int,
    j: int,
)
    requires
        0 <= i,
        first_existing_match_from(rules, file_exists, cur, m, h, tier, i) == Some(j),
    ensures
        i <= j < rules.len(),
        rule_covers(&rules[j], m, h),
        tier_matches(rules[j].condition, cur, tier),
        file_exists[j],
    decreases rules.len() - i,
{
    if i < rules.len()
        && !(rule_covers(&rules[i], m, h) && tier_matches(rules[i].condition, cur, tier) && file_exists[i]) {
        lemma_first_existing_found(rules, file_exists, cur, m, h, tier, i + 1, j);
    }
}

/// The choice at one slot is sound: it names a rule that covers the slot,
/// whose file exists, and whose condition is related to the current one.
pub proof fn lemma_slot_choice_sound(
    rules: Seq<Rule>,
    file_exists: Seq<bool>,
    cur: Weather,
    m: int,
    h: int,
    i: int,
)
    requires
        slot_choice(rules, file_exists, cur, m, h) == Some(i),
    ensures
        0 <= i < rules.len(),
        rule_covers(&rules[i], m, h),
        file_exists[i],
        related_condition(rules[i].condition, cur),
{
    if first_existing_match_from(rules, file_exists, cur, m, h, 0, 0) == Some(i) {
        lemma_first_existing_found(rules, file_exists, cur, m, h, 0, 0, i);
    } else if first_existing_match_from(rules, file_exists, cur, m, h, 1, 0) == Some(i) {
        lemma_first_existing_found(rules, file_exists, cur, m, h, 1, 0, i);
    } else if first_existing_match_from(rules, file_exists, cur, m, h, 2, 0) == Some(i) {
        lemma_first_existing_found(rules, file_exists, cur, m, h, 2, 0, i);
    } else {
        lemma_first_existing_found(rules, file_exists, cur, m, h, 3, 0, i);
    }
}

proof fn lemma_search_from_sound(
    rules: Seq<Rule>,
    file_exists: Seq<bool>,
    cur: Weather,
    cur_month: int,
    cur_hour: int,
    k: int,
    i: int,
)
    requires
        1 <= cur_month <= 12,
        0 <= cur_hour <= 23,
        search_from(rules, file_exists, cur, cur_month, cur_hour, k) == Some(i),
    ensures
        0 <= i < rules.len(),
        file_exists[i],
        exists|m: int, h: int|
            1 <= m <= 12 && 0 <= h <= 23 && rule_covers(&rules[i], m, h)
                && related_condition(rules[i].condition, cur),
    decreases 288 - k,
{
    assert(0 <= k < 288);
    assert(0 <= k / 24 <= 11 && 0 <= k % 24 <= 23) by (nonlinear_arith)
        requires 0 <= k < 288;
    let m = slot_month(cur_month, k / 24);
    let h = slot_hour(cur_hour, k % 24);
    match slot_choice(rules, file_exists, cur, m, h) {
        Some(j) => {
            lemma_slot_choice_sound(rules, file_exists, cur, m, h, i);
            assert(1 <= m <= 12 && 0 <= h <= 23 && rule_covers(&rules[i], m, h)
                && related_condition(rules[i].condition, cur));
        },
        None => {
            lemma_search_from_sound(rules, file_exists, cur, cur_month, cur_hour, k + 1, i);
        },
    }
}

/// The search is sound: whenever it selects a rule, that rule's file exists
/// and the rule covers some reachable slot at which its condition is related
/// to the current condition at one of the four tiers.
pub proof fn lemma_selection_sound(
    rules: Seq<Rule>,
    file_exists: Seq<bool>,
    cur: Weather,
    cur_month: int,
    cur_hour: int,
    i: int,
)
    requires
        1 <= cur_month <= 12,
        0 <= cur_hour <= 23,
        search_spec(rules, file_exists, cur, cur_month, cur_hour) == Some(i),
    ensures
        0 <= i < rules.len(),
        file_exists[i],
        exists|m: int, h: int|
            1 <= m <= 12 && 0 <= h <= 23 && rule_covers(&rules[i], m, h)
                && related_condition(rules[i].condition, cur),
{
    lemma_search_from_sound(rules, file_exists, cur, cur_month, cur_hour, 0, i);
}

proof fn lemma_search_from_none_at(
    rules: Seq<Rule>,
    file_exists: Seq<bool>,
    cur: Weather,
    cur_month: int,
    cur_hour: int,
    k: int,
    kk: int,
)
    requires
        0 <= k <= kk < 288,
        search_from(rules, file_exists, cur, cur_month, cur_hour, k) is None,
    ensures
        slot_choice(rules, file_exists, cur, slot_month(cur_month, kk / 24), slot_hour(cur_hour, kk % 24)) is None,
    decreases 288 - k,
{
    if k < kk {
        lemma_search_from_none_at(rules, file_exists, cur, cur_month, cur_hour, k + 1, kk);
    }
}

/// The search comes up empty exactly when no slot yields a choice: since
/// every slot of the domain is reachable from the current one, a selection
/// is owed as soon as any slot has a file-backed match at some tier.
pub proof fn lemma_empty_iff_no_slot_choice(
    rules: Seq<Rule>,
    file_exists: Seq<bool>,
    cur: Weather,
    cur_month: int,
    cur_hour: int,
)
    requires
        1 <= cur_month <= 12,
        0 <= cur_hour <= 23,
    ensures
        (search_spec(rules, file_exists, cur, cur_month, cur_hour) is None) <==> (forall|m: int, h: int|
            1 <= m <= 12 && 0 <= h <= 23 ==> slot_choice(rules, file_exists, cur, m, h) is None),
{
    if search_spec(rules, file_exists, cur, cur_month, cur_hour) is None {
        assert forall|m: int, h: int|
            1 <= m <= 12 && 0 <= h <= 23 implies slot_choice(rules, file_exists, cur, m, h) is None by {
            let a = if m >= cur_month { m - cur_month } else { m + 12 - cur_month };
            let b = if h >= cur_hour { h - cur_hour } else { h + 24 - cur_hour };
            let kk = a * 24 + b;
            assert(0 <= a < 12 && 0 <= b < 24);
            assert(kk / 24 == a && kk % 24 == b) by (nonlinear_arith)
                requires 0 <= a < 12 && 0 <= b < 24 && kk == a * 24 + b;
            assert(slot_month(cur_month, a) == m);
            assert(slot_hour(cur_hour, b) == h);
            lemma_search_from_none_at(rules, file_exists, cur, cur_month, cur_hour, 0, kk);
        };
    }
    if forall|m: int, h: int|
        1 <= m <= 12 && 0 <= h <= 23 ==> slot_choice(rules, file_exists, cur, m, h) is None {
        lemma_search_from_none(rules, file_exists, cur, cur_month, cur_hour, 0);
    }
}

proof fn lemma_first_existing_some(
    rules: Seq<Rule>,
    file_exists: Seq<bool>,
    cur: Weather,
    m: int,
    h: int,
    tier: int,
    i: int,
    j: int,
)
    requires
        0 <= i <= j < rules.len(),
        rule_covers(&rules[j], m, h),
        tier_matches(rules[j].condition, cur, tier),
        file_exists[j],
    ensures
        first_existing_match_from(rules, file_exists, cur, m, h, tier, i) is Some,
    decreases rules.len() - i,
{
    if i < j && !(rule_covers(&rules[i], m, h) && tier_matches(rules[i].condition, cur, tier) && file_exists[i]) {
        lemma_first_existing_some(rules, file_exists, cur, m, h, tier, i + 1, j);
    }
}

/// The result guarantee: if any rule covers some reachable slot with a
/// condition related to the current one at some tier and its file exists,
/// the search returns a selection.
pub proof fn lemma_selection_complete(
    rules: Seq<Rule>,
    file_exists: Seq<bool>,
    cur: Weather,
    cur_month: int,
    cur_hour: int,
    j: int,
    m: int,
    h: int,
)
    requires
        1 <= cur_month <= 12,
        0 <= cur_hour <= 23,
        1 <= m <= 12,
        0 <= h <= 23,
        0 <= j < rules.len(),
        rule_covers(&rules[j], m, h),
        related_condition(rules[j].condition, cur),
        file_exists[j],
    ensures
        search_spec(rules, file_exists, cur, cur_month, cur_hour) is Some,
{
    if rules[j].condition == cur {
        lemma_first_existing_some(rules, file_exists, cur, m, h, 0, 0, j);
    } else if adjacent(rules[j].condition, cur) {
        lemma_first_existing_some(rules, file_exists, cur, m, h, 1, 0, j);
    } else if loosely_adjacent(rules[j].condition, cur) {
        lemma_first_existing_some(rules, file_exists, cur, m, h, 2, 0, j);
    } else {
        lemma_first_existing_some(rules, file_exists, cur, m, h, 3, 0, j);
    }
    assert(slot_choice(rules, file_exists, cur, m, h) is Some);
    lemma_empty_iff_no_slot_choice(rules, file_exists, cur, cur_month, cur_hour);
    assert(!(slot_choice(rules, file_exists, cur, m, h) is None));
}

/// When no rule's windows contain any reachable slot, the search returns
/// nothing.
pub proof fn lemma_no_covered_slot_empty(
    rules: Seq<Rule>,
    file_exists: Seq<bool>,
    cur: Weather,
    cur_month: int,
    cur_hour: int,
)
    requires
        1 <= cur_month <= 12,
        0 <= cur_hour <= 23,
        forall|j: int, m: int, h: int|
            0 <= j < rules.len() && 1 <= m <= 12 && 0 <= h <= 23 ==> !rule_covers(&rules[j], m, h),
    ensures
        search_spec(rules, file_exists, cur, cur_month, cur_hour) is None,
{
    assert forall|m: int, h: int|
        1 <= m <= 12 && 0 <= h <= 23 implies slot_choice(rules, file_exists, cur, m, h) is None by {
        assert(forall|j: int| 0 <= j < rules.len() ==> !rule_covers(&rules[j], m, h));
        lemma_first_existing_none(rules, file_exists, cur, m, h, 0, 0);
        lemma_first_existing_none(rules, file_exists, cur, m, h, 1, 0);
        lemma_first_existing_none(rules, file_exists, cur, m, h, 2, 0);
        lemma_first_existing_none(rules, file_exists, cur, m, h, 3, 0);
    };
    lemma_search_from_none(rules, file_exists, cur, cur_month, cur_hour, 0);
}

/// Finds the first rule that covers `(m, h)`, whose condition matches `cur`
/// at `tier`, and whose file exists.
fn find_existing(
    cur: Weather,
    rules: &Vec<Rule>,
    file_exists: &Vec<bool>,
    m: i32,
    h: i32,
    tier: u8,
) -> (r: Option<usize>)
    requires
        file_exists@.len() == rules@.len(),
    ensures
        match r {
            Some(i) => i < rules@.len()
                && first_existing_match_from(rules@, file_exists@, cur, m as int, h as int, tier as int, 0) == Some(i as int),
            None => first_existing_match_from(rules@, file_exists@, cur, m as int, h as int, tier as int, 0) is None,
        },
{
    let mut i: usize = 0;
    while i < rules.len()
        invariant
            i <= rules@.len(),
            file_exists@.len() == rules@.len(),
            first_existing_match_from(rules@, file_exists@, cur, m as int, h as int, tier as int, 0)
                == first_existing_match_from(rules@, file_exists@, cur, m as int, h as int, tier as int, i as int),
        decreases rules@.len() - i,
    {
        let rule = &rules[i];
        let related = if tier == 0 {
            rule.condition == cur
        } else if tier == 1 {
            is_similar_weather(&rule.condition, &cur)
        } else if tier == 2 {
            is_less_similar_weather(&rule.condition, &cur)
        } else {
            rule.condition == Weather::Clear
        };
        if rule.covers_slot(m, h) && related && file_exists[i] {
            return Some(i);
        }
        i = i + 1;
    }
    None
}

/// The choice at one slot: the exact tier, then the adjacent tier, then the
/// loosely adjacent tier, then the default Clear tier, each taking its first
/// covering rule with an existing file.
fn pick_at_slot(
    cur: Weather,
    rules: &Vec<Rule>,
    file_exists: &Vec<bool>,
    m: i32,
    h: i32,
) -> (r: Option<usize>)
    requires
        file_exists@.len() == rules@.len(),
    ensures
        match r {
            Some(i) => i < rules@.len()
                && slot_choice(rules@, file_exists@, cur, m as int, h as int) == Some(i as int),
            None => slot_choice(rules@, file_exists@, cur, m as int, h as int) is None,
        },
{
    if let Some(i) = find_existing(cur, rules, file_exists, m, h, 0) {
        return Some(i);
    }
    if let Some(i) = find_existing(cur, rules, file_exists, m, h, 1) {
        return Some(i);
    }
    if let Some(i) = find_existing(cur, rules, file_exists, m, h, 2) {
        return Some(i);
    }
    if let Some(i) = find_existing(cur, rules, file_exists, m, h, 3) {
        return Some(i);
    }
    None
}

/// Selects the image path for the current condition and slot, or the empty
/// string when no slot yields a file-backed selection. `file_exists[i]` says
/// whether the file at `rules[i].image_path` exists; the caller supplies it,
/// which keeps the search a pure function of its inputs.
pub fn select_wallpaper(
    current_condition: Weather,
    rules: &Vec<Rule>,
    current_month: i32,
    current_hour: i32,
    file_exists: &Vec<bool>,
) -> (r: String)
    requires
        1 <= current_month <= 12,
        0 <= current_hour <= 23,
        file_exists@.len() == rules@.len(),
    ensures
        match search_spec(rules@, file_exists@, current_condition, current_month as int, current_hour as int) {
            Some(i) => 0 <= i < rules@.len() && r@ == rules@[i].image_path@,
            None => r@ == Seq::<char>::empty(),
        },
{
    let mut k: usize = 0;
    while k < 288
        invariant
            k <= 288,
            1 <= current_month <= 12,
            0 <= current_hour <= 23,
            file_exists@.len() == rules@.len(),
            search_spec(rules@, file_exists@, current_condition, current_month as int, current_hour as int)
                == search_from(rules@, file_exists@, current_condition, current_month as int, current_hour as int, k as int),
        decreases 288 - k,
    {
        let off_m = (k / 24) as i32;
        let off_h = (k % 24) as i32;
        let mut m: i32 = current_month + off_m;
        if m > 12 {
            m = m - 12;
        }
        let mut h: i32 = current_hour + off_h;
        if h > 23 {
            h = h - 24;
        }
        if let Some(i) = pick_at_slot(current_condition, rules, file_exists, m, h) {
            return rules[i].image_path.clone();
        }
        k = k + 1;
    }
    String::new()
}

} // verus!
