//! The stages of the launcher itself: how its entities are confined, filtered,
//! projected and ordered.

use crate::combinator::Outside;
use crate::entity::{Item, Kind};
use crate::order::{compare_text, lemma_lex_flip, lemma_lex_transitive, text_order, Order};
use crate::stage::{lawful, separates, Filter, Projection, Scope, Sorter};
use vstd::prelude::*;

verus! {

/// The entities of one origin.
pub struct OfKind {
    pub kind: Kind,
}

impl OfKind {
    pub fn new(kind: Kind) -> (scope: Self)
        ensures
            scope.kind == kind,
    {
        OfKind { kind }
    }
}

impl Scope<Item> for OfKind {
    open spec fn covers(&self, item: &Item) -> bool {
        item.kind_of() == self.kind
    }

    fn applies(&self, item: &Item) -> (inside: bool) {
        item.kind() == self.kind
    }
}

/// Every entity but the computed results.
pub fn not_calc() -> (scope: Outside<OfKind>)
    ensures
        scope.of.kind == Kind::Calc,
{
    Outside::new(OfKind::new(Kind::Calc))
}

/// The comparator that keeps computed results apart: a computed result ranks after
/// every other entity, and it ties all other pairs.
pub struct CalcLast;

impl Sorter<Item> for CalcLast {
    open spec fn order(&self, lhs: &Item, rhs: &Item, query: Seq<char>) -> Order {
        if lhs is Calc && rhs is Calc {
            Order::Equal
        } else if lhs is Calc {
            Order::Greater
        } else if rhs is Calc {
            Order::Less
        } else {
            Order::Equal
        }
    }

    fn compare(&self, lhs: &Item, rhs: &Item, query: &str) -> (order: Order) {
        match (lhs, rhs) {
            (Item::Calc(_), Item::Calc(_)) => Order::Equal,
            (Item::Calc(_), _) => Order::Greater,
            (_, Item::Calc(_)) => Order::Less,
            _ => Order::Equal,
        }
    }
}

/// The comparator that orders entities alphabetically by their canonical strings.
pub struct ByLabel;

impl Sorter<Item> for ByLabel {
    open spec fn order(&self, lhs: &Item, rhs: &Item, query: Seq<char>) -> Order {
        text_order(lhs.label_text(), rhs.label_text())
    }

    fn compare(&self, lhs: &Item, rhs: &Item, query: &str) -> (order: Order) {
        let left = lhs.label();
        let right = rhs.label();
        compare_text(left.as_str(), right.as_str())
    }
}

/// The filter on catalog entries: an entry stays when it may be displayed and has a
/// command line. Entities of other origins pass.
pub struct Launchable;

impl Filter<Item> for Launchable {
    open spec fn accepts(&self, item: &Item, query: Seq<char>) -> bool {
        match item {
            Item::Desktop(entry) => !entry.no_display && entry.command_line is Some,
            _ => true,
        }
    }

    fn predicate(&self, item: &Item, query: &str) -> (keep: bool) {
        match item {
            Item::Desktop(entry) => !entry.no_display && entry.command_line.is_some(),
            _ => true,
        }
    }
}

/// The mapper to the canonical string, the text that matching works on.
pub struct Label;

impl Projection<Item> for Label {
    open spec fn text(&self, item: &Item) -> Seq<char> {
        item.label_text()
    }

    fn project(&self, item: &Item) -> (text: String) {
        item.label()
    }
}

/// The mapper to the identifier under which selections are counted.
pub struct UsageIdent;

impl Projection<Item> for UsageIdent {
    open spec fn text(&self, item: &Item) -> Seq<char> {
        item.usage_ident_text()
    }

    fn project(&self, item: &Item) -> (text: String) {
        item.usage_ident()
    }
}

/// Keeping computed results apart is a lawful comparator.
pub proof fn lemma_calc_last_lawful(query: Seq<char>)
    ensures
        lawful::<Item, CalcLast>(&CalcLast, query),
{
}

/// Keeping computed results apart never ties a computed result with another entity.
pub proof fn lemma_calc_last_separates(scope: &Outside<OfKind>, query: Seq<char>)
    requires
        scope.of.kind == Kind::Calc,
    ensures
        separates::<Item, CalcLast, Outside<OfKind>>(&CalcLast, scope, query),
{
}

/// The alphabetical comparator is lawful.
pub proof fn lemma_by_label_lawful(query: Seq<char>)
    ensures
        lawful::<Item, ByLabel>(&ByLabel, query),
{
    let sorter = ByLabel;
    assert forall|a: Item, b: Item| #[trigger] sorter.order(&b, &a, query) == sorter.order(
        &a,
        &b,
        query,
    ).flip() by {
        lemma_lex_flip(
            vstd::utf8::encode_utf8(a.label_text()),
            vstd::utf8::encode_utf8(b.label_text()),
        );
    }
    assert forall|a: Item, b: Item, c: Item|
        #[trigger] sorter.order(&a, &b, query) != Order::Greater && #[trigger] sorter.order(
            &b,
            &c,
            query,
        ) != Order::Greater implies sorter.order(&a, &c, query) != Order::Greater by {
        lemma_lex_transitive(
            vstd::utf8::encode_utf8(a.label_text()),
            vstd::utf8::encode_utf8(b.label_text()),
            vstd::utf8::encode_utf8(c.label_text()),
        );
    }
}

} // verus!
