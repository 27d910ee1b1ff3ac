use yurf::batcher::{Batcher, Buffer};
use yurf::catalog::{ByLabel, CalcLast};
use yurf::combinator::{Chain, Everything, Reversed};
use yurf::entity::Item;

fn labels<F, S>(batcher: &Batcher<Item, F, S>, buffer: &Buffer) -> Vec<String>
where
    F: yurf::stage::Filter<Item>,
    S: yurf::stage::Sorter<Item>,
{
    let mut shown = Vec::new();
    let mut index = 0;
    while let Some(item) = batcher.row(buffer, index) {
        shown.push(item.label());
        index += 1;
    }
    shown
}

#[test]
fn reverse_alphabetical_single_delivery() {
    let mut batcher = Batcher::new(Everything, Reversed::new(ByLabel), 0);
    let mut buffer = Buffer::new();
    batcher.seed(&mut buffer, "", Vec::new());
    for text in ["apple", "banana", "cherry"] {
        batcher.offer(Item::Stdin(text.to_string()));
    }
    batcher.close();
    let more = batcher.merge(&mut buffer);
    assert!(!more);
    assert_eq!(labels(&batcher, &buffer), vec!["cherry", "banana", "apple"]);
}

#[test]
fn groups_first_then_alphabetical() {
    let mut batcher = Batcher::new(Everything, Chain::new(CalcLast, ByLabel), 0);
    let mut buffer = Buffer::new();
    batcher.seed(&mut buffer, "", Vec::new());
    batcher.offer(Item::Calc("x".to_string()));
    batcher.offer(Item::Stdin("b".to_string()));
    batcher.offer(Item::Stdin("a".to_string()));
    batcher.offer(Item::Calc("y".to_string()));
    batcher.close();
    assert!(!batcher.merge(&mut buffer));
    assert_eq!(labels(&batcher, &buffer), vec!["a", "b", "x", "y"]);
    let kinds: Vec<bool> = (0..4).map(|i| batcher.row(&buffer, i).unwrap().is_calc()).collect();
    assert_eq!(kinds, vec![false, false, true, true]);
}
