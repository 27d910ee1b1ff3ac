use yurf::catalog::ByLabel;
use yurf::combinator::{Reversed, Unranked};
use yurf::entity::Item;
use yurf::ranking::{entity, merge_ranked, sort_run};

fn lines(texts: &[&str]) -> Vec<Item> {
    texts.iter().map(|text| Item::Stdin(text.to_string())).collect()
}

#[test]
fn entity_reads_both_runs() {
    let front = lines(&["g0", "g1"]);
    let back = lines(&["s0", "s1", "s2"]);
    let found: Vec<String> = (0..5).map(|t| entity(&front, &back, t).label()).collect();
    assert_eq!(found, ["g0", "g1", "s0", "s1", "s2"]);
    let none: Vec<Item> = Vec::new();
    assert_eq!(entity(&none, &back, 0).label(), "s0");
    assert_eq!(entity(&front, &none, 1).label(), "g1");
}

#[test]
fn merge_interleaves_two_ranked_runs() {
    //            0    1    2    3    4    5
    let pool = lines(&["b", "d", "f", "a", "d", "e"]);
    let none: Vec<Item> = Vec::new();
    let merged = merge_ranked(&ByLabel, &none, &pool, "", &vec![0, 1, 2], &vec![3, 4, 5]);
    // the two "d" tie: the older one stays first
    assert_eq!(merged, [3, 0, 1, 4, 5, 2]);
}

#[test]
fn merge_with_an_empty_run_is_the_other_run() {
    let pool = lines(&["b", "a"]);
    let none: Vec<Item> = Vec::new();
    let empty: Vec<usize> = Vec::new();
    assert_eq!(merge_ranked(&ByLabel, &pool, &none, "", &vec![1, 0], &empty), [1, 0]);
    assert_eq!(merge_ranked(&ByLabel, &pool, &none, "", &empty, &vec![1, 0]), [1, 0]);
    assert_eq!(merge_ranked(&ByLabel, &pool, &none, "", &empty, &empty), empty);
}

#[test]
fn merge_without_keys_appends() {
    let pool = lines(&["b", "a", "d", "c"]);
    let none: Vec<Item> = Vec::new();
    assert_eq!(merge_ranked(&Unranked, &none, &pool, "", &vec![0, 1], &vec![2, 3]), [0, 1, 2, 3]);
}

#[test]
fn sort_is_stable() {
    //            0    1    2    3    4    5    6
    let pool = lines(&["c", "a", "c", "b", "a", "c", "b"]);
    let none: Vec<Item> = Vec::new();
    let arrival: Vec<usize> = (0..7).collect();
    assert_eq!(sort_run(&ByLabel, &none, &pool, "", &arrival, 0, 7), [1, 4, 3, 6, 0, 2, 5]);
    assert_eq!(
        sort_run(&Reversed::new(ByLabel), &none, &pool, "", &arrival, 0, 7),
        [0, 2, 5, 3, 6, 1, 4]
    );
    assert_eq!(sort_run(&Unranked, &none, &pool, "", &arrival, 0, 7), arrival);
}

#[test]
fn sort_takes_a_part_of_the_run() {
    let pool = lines(&["c", "a", "c", "b", "a", "c", "b"]);
    let none: Vec<Item> = Vec::new();
    let arrival: Vec<usize> = (0..7).collect();
    assert_eq!(sort_run(&ByLabel, &pool, &none, "", &arrival, 2, 5), [4, 3, 2]);
    assert_eq!(sort_run(&ByLabel, &pool, &none, "", &arrival, 3, 4), [3]);
    let empty: Vec<usize> = Vec::new();
    assert_eq!(sort_run(&ByLabel, &pool, &none, "", &arrival, 5, 5), empty);
    // a run that skips tickets
    assert_eq!(sort_run(&ByLabel, &pool, &none, "", &vec![0, 3, 6], 0, 3), [3, 6, 0]);
}
