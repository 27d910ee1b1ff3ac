use yurf::catalog::{not_calc, ByLabel, CalcLast, Label, Launchable, OfKind, UsageIdent};
use yurf::combinator::{
    AtLeast, Both, ByScore, Chain, Everything, Outside, Projected, Reversed, Scoped, ScopedFilter,
    Unranked,
};
use yurf::entity::{DesktopInfo, Item, Kind, TaskItem};
use yurf::fuzzy::{AccentRule, CaseRule, Fuzzy, MAX_QUERY};
use yurf::order::Order;
use yurf::stage::{Filter, Projection, Scope, Scorer, Sorter, TextScorer};

fn line(text: &str) -> Item {
    Item::Stdin(text.to_string())
}

fn calc(text: &str) -> Item {
    Item::Calc(text.to_string())
}

fn entry(name: &str, no_display: bool, command_line: Option<&str>) -> Item {
    Item::Desktop(DesktopInfo {
        id: name.to_lowercase(),
        name: Some(name.to_string()),
        no_display,
        command_line: command_line.map(|c| c.to_string()),
    })
}

#[test]
fn unranked_ties_everything() {
    assert_eq!(Unranked.compare(&line("a"), &line("b"), ""), Order::Equal);
    assert_eq!(Unranked.compare(&calc("a"), &line("b"), "q"), Order::Equal);
}

#[test]
fn by_label_is_alphabetical() {
    assert_eq!(ByLabel.compare(&line("apple"), &line("banana"), ""), Order::Less);
    assert_eq!(ByLabel.compare(&line("banana"), &line("apple"), ""), Order::Greater);
    assert_eq!(ByLabel.compare(&line("apple"), &calc("apple"), ""), Order::Equal);
}

#[test]
fn reversed_inverts() {
    let descending = Reversed::new(ByLabel);
    assert_eq!(descending.compare(&line("apple"), &line("banana"), ""), Order::Greater);
    assert_eq!(descending.compare(&line("banana"), &line("apple"), ""), Order::Less);
    assert_eq!(descending.compare(&line("same"), &line("same"), ""), Order::Equal);
    let ascending = Reversed::new(Reversed::new(ByLabel));
    assert_eq!(ascending.compare(&line("apple"), &line("banana"), ""), Order::Less);
}

#[test]
fn calc_last_keeps_results_apart() {
    assert_eq!(CalcLast.compare(&calc("1"), &calc("2"), ""), Order::Equal);
    assert_eq!(CalcLast.compare(&calc("1"), &line("2"), ""), Order::Greater);
    assert_eq!(CalcLast.compare(&line("1"), &calc("2"), ""), Order::Less);
    assert_eq!(CalcLast.compare(&line("1"), &line("2"), ""), Order::Equal);
    assert_eq!(CalcLast.compare(&entry("A", false, None), &line("2"), ""), Order::Equal);
}

#[test]
fn chain_lets_the_second_key_break_ties_only() {
    let keys = Chain::new(CalcLast, ByLabel);
    assert_eq!(keys.compare(&calc("a"), &line("z"), ""), Order::Greater);
    assert_eq!(keys.compare(&line("z"), &calc("a"), ""), Order::Less);
    assert_eq!(keys.compare(&line("z"), &line("a"), ""), Order::Greater);
    assert_eq!(keys.compare(&calc("a"), &calc("b"), ""), Order::Less);
    assert_eq!(keys.compare(&calc("a"), &calc("a"), ""), Order::Equal);
}

#[test]
fn scoped_ties_pairs_outside_the_scope() {
    let key = Scoped::new(not_calc(), ByLabel);
    // both outside
    assert_eq!(key.compare(&calc("a"), &calc("b"), ""), Order::Equal);
    assert_eq!(key.compare(&calc("b"), &calc("a"), ""), Order::Equal);
    // one outside, on either side
    assert_eq!(key.compare(&calc("a"), &line("b"), ""), Order::Equal);
    assert_eq!(key.compare(&line("a"), &calc("b"), ""), Order::Equal);
    // both inside: the inner key decides
    assert_eq!(key.compare(&line("a"), &line("b"), ""), Order::Less);
    assert_eq!(key.compare(&line("b"), &line("a"), ""), Order::Greater);
}

#[test]
fn scopes_by_kind() {
    let tasks = OfKind::new(Kind::Task);
    let a_task = Item::Task(TaskItem { name: "t".into(), show_if: None, command: "c".into() });
    assert!(tasks.applies(&a_task));
    assert!(!tasks.applies(&line("t")));
    let others = Outside::new(OfKind::new(Kind::Task));
    assert!(!others.applies(&a_task));
    assert!(others.applies(&line("t")));
    assert!(not_calc().applies(&line("t")));
    assert!(!not_calc().applies(&calc("t")));
}

#[test]
fn projections() {
    assert_eq!(Label.project(&entry("Firefox", false, None)), "Firefox");
    assert_eq!(UsageIdent.project(&entry("Firefox", false, None)), "Desktop-Firefox");
    assert_eq!(UsageIdent.project(&calc("4")), "Calc-4");
}

#[test]
fn projected_scorer_scores_the_projection() {
    let scorer = Projected::new(Label, Fuzzy::smart());
    assert_eq!(scorer.predicate_score(&line("apple"), "ap"), 62);
    assert_eq!(scorer.predicate_score(&line("grape"), "ap"), 36);
    assert_eq!(scorer.predicate_score(&line("banana"), "ap"), 0);
    // the identifier starts with the name of the variant, so "st" matches its start
    let by_ident = Projected::new(UsageIdent, Fuzzy::smart());
    assert_eq!(by_ident.predicate_score(&line("x"), "st"), Fuzzy::smart().score_text("Stdin-x", "st"));
    assert!(by_ident.predicate_score(&line("x"), "st") > 0);
    assert_eq!(scorer.predicate_score(&line("x"), "st"), 0);
}

#[test]
fn by_score_puts_the_lower_score_first() {
    let key = ByScore::new(Projected::new(Label, Fuzzy::smart()));
    assert_eq!(key.compare(&line("banana"), &line("grape"), "ap"), Order::Less);
    assert_eq!(key.compare(&line("grape"), &line("apple"), "ap"), Order::Less);
    assert_eq!(key.compare(&line("apple"), &line("grape"), "ap"), Order::Greater);
    assert_eq!(key.compare(&line("grape"), &line("maple"), "ap"), Order::Equal);
    // the query decides: without one every score is zero
    assert_eq!(key.compare(&line("apple"), &line("banana"), ""), Order::Equal);
}

#[test]
fn threshold_requires_the_minimum() {
    let threshold = AtLeast::new(Projected::new(Label, Fuzzy::smart()), 36);
    assert!(!threshold.predicate(&line("banana"), "ap"));
    assert!(threshold.predicate(&line("grape"), "ap"));
    assert!(threshold.predicate(&line("apple"), "ap"));
    let strict = AtLeast::new(Projected::new(Label, Fuzzy::smart()), 37);
    assert!(!strict.predicate(&line("grape"), "ap"));
    assert!(strict.predicate(&line("apple"), "ap"));
    let open = AtLeast::new(Projected::new(Label, Fuzzy::smart()), 0);
    assert!(open.predicate(&line("banana"), "ap"));
}

#[test]
fn launchable_hides_entries_without_display_or_command() {
    assert!(Launchable.predicate(&entry("A", false, Some("a")), ""));
    assert!(!Launchable.predicate(&entry("A", true, Some("a")), ""));
    assert!(!Launchable.predicate(&entry("A", false, None), ""));
    assert!(!Launchable.predicate(&entry("A", true, None), ""));
    assert!(Launchable.predicate(&calc("1"), ""));
    assert!(Launchable.predicate(&line("1"), ""));
}

#[test]
fn filters_combine_by_conjunction() {
    let matching = AtLeast::new(Projected::new(Label, Fuzzy::smart()), 1);
    let both = Both::new(Launchable, matching);
    assert!(both.predicate(&entry("Apple", false, Some("a")), "ap"));
    assert!(!both.predicate(&entry("Banana", false, Some("a")), "ap"));
    assert!(!both.predicate(&entry("Apple", true, Some("a")), "ap"));
    assert!(Everything.predicate(&entry("A", true, None), ""));
    assert!(Both::new(Everything, Everything).predicate(&line(""), ""));
}

#[test]
fn scoped_filter_passes_what_is_outside() {
    let matching_lines = ScopedFilter::new(
        OfKind::new(Kind::Stdin),
        AtLeast::new(Projected::new(Label, Fuzzy::smart()), 1),
    );
    assert!(!matching_lines.predicate(&line("banana"), "ap"));
    assert!(matching_lines.predicate(&line("apple"), "ap"));
    assert!(matching_lines.predicate(&calc("banana"), "ap"));
    assert!(matching_lines.predicate(&entry("Banana", true, None), "ap"));
}

#[test]
fn fuzzy_scores_a_match_above_a_miss() {
    let fuzzy = Fuzzy::smart();
    let hit = fuzzy.score_text("firefox", "fire");
    let miss = fuzzy.score_text("firefox", "xyz");
    assert_eq!(hit, 114);
    assert_eq!(miss, 0);
    assert_eq!(fuzzy.score_text("a", "a"), 36);
    assert_eq!(fuzzy.score_text("aaaaaaaaaa", "aaaaaaaaaa"), 270);
    // an empty query matches everything with score zero
    assert_eq!(fuzzy.score_text("firefox", ""), 0);
    // a contiguous match at the start scores above a scattered one
    assert!(fuzzy.score_text("firefox", "fire") > fuzzy.score_text("file roller extra", "fire"));
}

#[test]
fn fuzzy_follows_its_settings() {
    let smart = Fuzzy::smart();
    assert!(smart.score_text("Firefox", "fire") > 0);
    assert_eq!(smart.score_text("firefox", "Fire"), 0);
    let strict = Fuzzy::new(CaseRule::Respect, AccentRule::Never);
    assert_eq!(strict.score_text("Firefox", "fire"), 0);
    assert!(strict.score_text("Firefox", "Fire") > 0);
    let loose = Fuzzy::new(CaseRule::Ignore, AccentRule::Smart);
    assert!(loose.score_text("firefox", "FIRE") > 0);
    assert!(loose.score_text("café", "cafe") > 0);
    assert_eq!(strict.score_text("café", "cafe"), 0);
}

#[test]
fn fuzzy_gives_zero_for_a_query_over_the_limit() {
    let fuzzy = Fuzzy::smart();
    let text = "a".repeat(10);
    let within = "a".repeat(10);
    assert!(fuzzy.score_text(&text, &within) > 0);
    let longest = "a".repeat(MAX_QUERY);
    assert_eq!(fuzzy.score_text(&longest, &longest), 26634);
    let over = "a".repeat(MAX_QUERY + 1);
    let long_text = "a".repeat(MAX_QUERY + 1);
    assert_eq!(fuzzy.score_text(&long_text, &over), 0);
}
