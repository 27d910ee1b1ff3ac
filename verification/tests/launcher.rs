use ltrait::Action;
use ltrait_sorter_frecency::{Context, Frecency, FrecencyConfig};
use std::time::Duration;
use yurf::catalog::UsageIdent;
use yurf::entity::{Commands, Item};
use yurf::fuzzy::{AccentRule, CaseRule};
use yurf::launcher::{
    fuzzy_key, matching, matching_then_usage, usage_key, BATCH_SIZE, CALC_MARK, HALF_LIFE_SECONDS,
    USAGE_BONUS,
};
use yurf::order::Order;
use yurf::pipeline::Pipeline;
use yurf::session::Session;
use yurf::stage::Sorter;
use yurf::usage::ByUsage;

fn line(text: &str) -> Item {
    Item::Stdin(text.to_string())
}

fn open(namespace: &str) -> Option<Frecency> {
    let config = FrecencyConfig {
        half_life: Duration::from_secs(HALF_LIFE_SECONDS),
        type_ident: namespace.to_string(),
    };
    Frecency::new(config).ok()
}

#[test]
fn settings() {
    assert_eq!(HALF_LIFE_SECONDS, 2_592_000);
    assert_eq!(USAGE_BONUS, 15);
    assert_eq!(BATCH_SIZE, 1000);
    assert_eq!(CALC_MARK, 'k');
    let key = fuzzy_key();
    assert_eq!(key.inner.scorer.scorer.case, CaseRule::Smart);
    assert_eq!(key.inner.scorer.scorer.accents, AccentRule::Smart);
}

#[test]
fn matching_ranks_by_fuzzy_score_and_keeps_results_last() {
    let keys = matching();
    assert_eq!(keys.compare(&line("banana"), &line("apple"), "ap"), Order::Less);
    assert_eq!(keys.compare(&line("apple"), &line("grape"), "ap"), Order::Greater);
    assert_eq!(keys.compare(&line("grape"), &line("maple"), "ap"), Order::Equal);
    // a computed result is last whatever it matches
    let result = Item::Calc("banana".into());
    assert_eq!(keys.compare(&result, &line("apple"), "ap"), Order::Greater);
    assert_eq!(keys.compare(&line("apple"), &result, "ap"), Order::Less);
    // and two results tie, though their texts match differently
    assert_eq!(keys.compare(&Item::Calc("apple".into()), &result, "ap"), Order::Equal);
}

#[test]
fn matching_in_a_session() {
    let batcher = Pipeline::new().add_sorter(matching()).batch_size(2).build();
    let mut session = Session::new(batcher);
    session.requery("ap", vec![Item::Calc("3".into())]);
    for text in ["maple", "apple", "banana", "grape"] {
        session.offer(line(text));
    }
    session.close();
    while session.advance() {}
    let labels: Vec<String> = (0..session.len()).map(|i| session.row(i).unwrap().label()).collect();
    assert_eq!(labels, ["banana", "maple", "grape", "apple", "3"]);
}

#[test]
fn usage_ties_identifiers_without_a_record() {
    let Some(store) = open("yurf-selftest-empty") else { return };
    let key = ByUsage::new(store, UsageIdent, USAGE_BONUS);
    assert_eq!(key.compare(&line("never selected"), &line("never selected either"), ""), Order::Equal);
    assert_eq!(key.compare(&line("never selected"), &line("never selected"), "q"), Order::Equal);
}

#[test]
fn usage_ranks_a_selected_identifier_above_an_unknown_one() {
    let namespace = "yurf-selftest-ranked";
    let chosen = line("chosen");
    let context = Context { ident: chosen.usage_ident(), bonus: f64::from(USAGE_BONUS) };
    // the first selection creates the record, the second one adds the bonus
    for _ in 0..2 {
        let Some(store) = open(namespace) else { return };
        if store.act(&context).is_err() {
            return;
        }
    }
    let Some(store) = open(namespace) else { return };
    let key = ByUsage::new(store, UsageIdent, USAGE_BONUS);
    assert_eq!(key.compare(&chosen, &line("unknown"), ""), Order::Greater);
    assert_eq!(key.compare(&line("unknown"), &chosen, ""), Order::Less);
    assert_eq!(key.compare(&chosen, &chosen, ""), Order::Equal);
    // the identifier carries the variant: the same text of another variant is unknown
    assert_eq!(key.compare(&Item::Calc("chosen".into()), &chosen, ""), Order::Less);
}

#[test]
fn usage_breaks_the_ties_of_matching() {
    let namespace = "yurf-selftest-chain";
    let maple = line("maple");
    let context = Context { ident: maple.usage_ident(), bonus: f64::from(USAGE_BONUS) };
    for _ in 0..2 {
        let Some(store) = open(namespace) else { return };
        if store.act(&context).is_err() {
            return;
        }
    }
    let Some(store) = open(namespace) else { return };
    let keys = matching_then_usage(store);
    // the fuzzy key ties them; the usage key does not
    assert_eq!(matching().compare(&line("grape"), &maple, "ap"), Order::Equal);
    assert_eq!(keys.compare(&line("grape"), &maple, "ap"), Order::Less);
    // the fuzzy key still comes first
    assert_eq!(keys.compare(&line("apple"), &maple, "ap"), Order::Greater);
    // computed results are outside both keys
    let Some(store) = open(namespace) else { return };
    let key = usage_key(store);
    assert_eq!(key.compare(&Item::Calc("1".into()), &maple, ""), Order::Equal);
}

#[test]
fn namespaces_of_the_commands() {
    assert_eq!(Commands::Launch.type_ident(), "yurf");
    assert_eq!(Commands::Task.type_ident(), "yurf-task");
}
