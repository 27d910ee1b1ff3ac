use yurf::catalog::{ByLabel, CalcLast, Launchable};
use yurf::combinator::{Chain, Everything, Reversed};
use yurf::entity::{DesktopInfo, Item};
use yurf::error::SessionError;
use yurf::generator::Trigger;
use yurf::pipeline::Pipeline;
use yurf::session::{Choice, Session};
use yurf::stage::{Filter, Sorter};

fn line(text: &str) -> Item {
    Item::Stdin(text.to_string())
}

fn labels<F: Filter<Item>, S: Sorter<Item>>(session: &Session<Item, F, S>) -> Vec<String> {
    (0..session.len()).map(|i| session.row(i).unwrap().label()).collect()
}

#[test]
fn pipeline_applies_sorters_in_registration_order() {
    let batcher = Pipeline::new().add_sorter(CalcLast).add_sorter(ByLabel).build();
    let mut session = Session::new(batcher);
    session.offer(Item::Calc("x".into()));
    session.offer(line("b"));
    session.offer(line("a"));
    session.offer(Item::Calc("y".into()));
    session.close();
    assert!(!session.advance());
    assert_eq!(labels(&session), ["a", "b", "x", "y"]);

    // the other order of registration makes the alphabet the primary key
    let batcher = Pipeline::new().add_sorter(ByLabel).add_sorter(CalcLast).build();
    let mut session = Session::new(batcher);
    session.offer(Item::Calc("a".into()));
    session.offer(line("b"));
    session.offer(line("a"));
    session.close();
    assert!(!session.advance());
    assert_eq!(labels(&session), ["a", "a", "b"]);
    assert!(session.row(0).unwrap().is_stdin());
    assert!(session.row(1).unwrap().is_calc());
}

#[test]
fn pipeline_requires_every_filter() {
    let entry = |name: &str, no_display: bool, command: Option<&str>| {
        Item::Desktop(DesktopInfo {
            id: name.to_string(),
            name: None,
            no_display,
            command_line: command.map(|c| c.to_string()),
        })
    };
    let batcher = Pipeline::new().add_filter(Launchable).add_filter(Everything).add_sorter(ByLabel).build();
    let mut session = Session::new(batcher);
    session.offer(entry("b", false, Some("b")));
    session.offer(entry("hidden", true, Some("h")));
    session.offer(entry("broken", false, None));
    session.offer(entry("a", false, Some("a")));
    session.close();
    assert!(!session.advance());
    assert_eq!(labels(&session), ["a", "b"]);
}

#[test]
fn pipeline_without_stages_keeps_arrival_order() {
    let batcher = Pipeline::new().batch_size(2).build();
    let mut session = Session::new(batcher);
    for text in ["c", "a", "b"] {
        session.offer(line(text));
    }
    session.close();
    assert!(session.advance());
    assert_eq!(labels(&session), ["c", "a"]);
    assert!(!session.advance());
    assert_eq!(labels(&session), ["c", "a", "b"]);
}

#[test]
fn pipeline_settings() {
    let pipeline = Pipeline::new();
    assert_eq!(pipeline.batch_size, 0);
    let pipeline = pipeline.batch_size(1000).add_sorter(ByLabel);
    assert_eq!(pipeline.batch_size, 1000);
    let batcher = pipeline.build::<Item>();
    assert_eq!(batcher.batch_size(), 1000);
}

#[test]
fn session_runs_from_query_to_selection() {
    let batcher = Pipeline::new().add_sorter(Reversed::new(ByLabel)).batch_size(2).build();
    let mut session = Session::new(batcher);
    assert_eq!(session.len(), 0);
    assert!(session.has_more());
    assert!(!session.is_ready());
    for text in ["apple", "banana", "cherry"] {
        session.offer(line(text));
    }
    assert!(session.is_ready());
    assert!(session.advance());
    assert_eq!(labels(&session), ["banana", "apple"]);
    session.close();
    assert!(session.has_more());
    assert!(!session.advance());
    assert!(!session.has_more());
    assert_eq!(labels(&session), ["cherry", "banana", "apple"]);
    assert!(session.row(3).is_none());
    let selected = session.select(0).unwrap();
    assert_eq!(selected.label(), "cherry");
}

#[test]
fn session_requery_starts_over() {
    let batcher = Pipeline::new().add_sorter(CalcLast).add_sorter(ByLabel).build();
    let mut session = Session::new(batcher);
    session.offer(line("b"));
    session.offer(line("a"));
    session.close();
    assert!(!session.advance());
    assert_eq!(labels(&session), ["a", "b"]);

    let calculator = Trigger::leading('k');
    let query = "k1+1";
    let generated = if calculator.fires(query) { vec![Item::Calc("2".into())] } else { Vec::new() };
    session.requery(query, generated);
    assert_eq!(session.len(), 0);
    assert!(session.has_more());
    assert!(!session.advance());
    assert_eq!(labels(&session), ["a", "b", "2"]);

    let query = "1+1";
    let generated = if calculator.fires(query) { vec![Item::Calc("2".into())] } else { Vec::new() };
    session.requery(query, generated);
    assert!(!session.advance());
    assert_eq!(labels(&session), ["a", "b"]);
}

#[test]
fn session_select_out_of_range_is_an_error() {
    let batcher = Pipeline::new().add_sorter(ByLabel).build();
    let mut session = Session::new(batcher);
    session.offer(line("a"));
    session.close();
    session.advance();
    match session.select(1) {
        Err(SessionError::OutOfRange { index, length }) => {
            assert_eq!(index, 1);
            assert_eq!(length, 1);
        }
        other => panic!("expected an error, got {other:?}"),
    }
}

#[test]
fn trigger_checks_the_first_character() {
    let always = Trigger::always();
    assert!(always.fires(""));
    assert!(always.fires("anything"));
    let mark = Trigger::leading('k');
    assert!(mark.fires("k"));
    assert!(mark.fires("k1+1"));
    assert!(!mark.fires(""));
    assert!(!mark.fires("1+1"));
    assert!(!mark.fires("1k"));
    assert!(!mark.fires("K1"));
    let wide = Trigger::leading('計');
    assert!(wide.fires("計1+1"));
    assert!(!wide.fires("k計"));
}

#[test]
fn conclude_follows_the_front_end() {
    let start = || {
        let batcher = Pipeline::new().add_sorter(ByLabel).build();
        let mut session = Session::new(batcher);
        session.offer(line("b"));
        session.offer(line("a"));
        session.close();
        session.advance();
        session
    };
    assert!(start().conclude(Choice::Aborted).unwrap().is_none());
    assert_eq!(start().conclude(Choice::Selected(0)).unwrap().unwrap().label(), "a");
    assert_eq!(start().conclude(Choice::Selected(1)).unwrap().unwrap().label(), "b");
    match start().conclude(Choice::Selected(2)) {
        Err(SessionError::OutOfRange { index, length }) => {
            assert_eq!(index, 2);
            assert_eq!(length, 2);
        }
        other => panic!("expected an error, got {other:?}"),
    }
}

#[test]
fn requery_asks_the_generator_where_its_trigger_fires() {
    let batcher = Pipeline::new().add_sorter(CalcLast).add_sorter(ByLabel).build();
    let mut session = Session::new(batcher);
    session.offer(line("b"));
    session.offer(line("a"));
    session.close();
    let calculator = |query: &str| vec![Item::Calc(format!("= {}", &query[1..]))];

    session.requery_from("k1+1", Trigger::leading('k'), calculator);
    assert!(!session.advance());
    assert_eq!(labels(&session), ["a", "b", "= 1+1"]);

    // the output of the generator replaces what it produced before
    session.requery_from("k2", Trigger::leading('k'), calculator);
    assert!(!session.advance());
    assert_eq!(labels(&session), ["a", "b", "= 2"]);

    // the trigger does not fire: the generator is not asked
    let mut asked = false;
    session.requery_from("2", Trigger::leading('k'), |_: &str| {
        asked = true;
        vec![Item::Calc("never".into())]
    });
    assert!(!asked);
    assert!(!session.advance());
    assert_eq!(labels(&session), ["a", "b"]);

    // a generator without a mark is asked on every query
    session.requery_from("", Trigger::always(), |query: &str| vec![Item::Calc(format!("[{query}]"))]);
    assert!(!session.advance());
    assert_eq!(labels(&session), ["a", "b", "[]"]);
}
