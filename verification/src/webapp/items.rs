use std::cmp::Ordering;
use std::rc::Rc;
use vstd::prelude::*;

use crate::order::{lemma_text_lt_irreflexive, lemma_text_lt_total, lemma_text_lt_transitive, text_less, text_lt};

verus! {

/// What happens when the big picture of an item is clicked.
#[derive(Clone, Copy, Debug, PartialEq, Eq, Structural)]
pub enum DefaultAction {
    Give,
    Use,
    Scan,
}

/// An item as a player sees it: texts, a picture, the codes that give or use
/// it, and the last event that involved it.
#[derive(Clone, Debug)]
pub struct Item {
    pub code: String,
    pub short: String,
    pub long: String,
    pub image_url: String,
    pub give_data: Option<Rc<Vec<u8>>>,
    pub use_data: Option<Rc<Vec<u8>>>,
    pub scan: bool,
    pub default: DefaultAction,
    pub last_event: Option<usize>,
}

/// The mathematical value of an [`Item`].
pub struct ItemCardView {
    pub code: Seq<char>,
    pub short: Seq<char>,
    pub long: Seq<char>,
    pub image_url: Seq<char>,
    pub give_data: Option<Seq<u8>>,
    pub use_data: Option<Seq<u8>>,
    pub scan: bool,
    pub default: DefaultAction,
    pub last_event: Option<usize>,
}

impl View for Item {
    type V = ItemCardView;

    open spec fn view(&self) -> ItemCardView {
        ItemCardView {
            code: self.code@,
            short: self.short@,
            long: self.long@,
            image_url: self.image_url@,
            give_data: match self.give_data {
                Some(d) => Some(d@),
                None => None,
            },
            use_data: match self.use_data {
                Some(d) => Some(d@),
                None => None,
            },
            scan: self.scan,
            default: self.default,
            last_event: self.last_event,
        }
    }
}

/// The last event of an item, 0 where it was in none.
pub open spec fn recency(last_event: Option<usize>) -> usize {
    match last_event {
        Some(n) => n,
        None => 0,
    }
}

/// How two items are ordered: the one in the later event first, and of two
/// that were last in the same event, the one whose short text comes first.
pub open spec fn item_order(a: ItemCardView, b: ItemCardView) -> Ordering {
    let x = recency(a.last_event);
    let y = recency(b.last_event);
    if x > y {
        Ordering::Less
    } else if x < y {
        Ordering::Greater
    } else if text_lt(a.short, b.short) {
        Ordering::Less
    } else if text_lt(b.short, a.short) {
        Ordering::Greater
    } else {
        Ordering::Equal
    }
}

/// Whether two byte strings are equal.
fn same_vec(x: &Vec<u8>, y: &Vec<u8>) -> (r: bool)
    ensures
        r == (x@ == y@),
{
    if x.len() != y.len() {
        return false;
    }
    let mut i: usize = 0;
    while i < x.len()
        invariant
            x.len() == y.len(),
            i <= x.len(),
            forall|j: int| 0 <= j < i ==> x@[j] == y@[j],
        decreases x.len() - i,
    {
        if x[i] != y[i] {
            assert(x@[i as int] != y@[i as int]);
            return false;
        }
        i += 1;
    }
    assert(x@ =~= y@);
    true
}

/// Whether two optional byte strings are equal.
fn same_bytes(a: &Option<Rc<Vec<u8>>>, b: &Option<Rc<Vec<u8>>>) -> (r: bool)
    ensures
        r == ((match *a {
            Some(d) => Some(d@),
            None => None::<Seq<u8>>,
        }) == (match *b {
            Some(d) => Some(d@),
            None => None::<Seq<u8>>,
        })),
{
    match (a, b) {
        (Some(x), Some(y)) => same_vec(&**x, &**y),
        (None, None) => true,
        _ => false,
    }
}

impl PartialEq for Item {
    fn eq(&self, other: &Item) -> (r: bool) {
        self.code.eq(&other.code) && self.short.eq(&other.short) && self.long.eq(&other.long)
            && self.image_url.eq(&other.image_url) && same_bytes(&self.give_data, &other.give_data)
            && same_bytes(&self.use_data, &other.use_data) && self.scan == other.scan && self.default
            == other.default && self.last_event == other.last_event
    }
}

impl vstd::std_specs::cmp::PartialEqSpecImpl for Item {
    open spec fn obeys_eq_spec() -> bool {
        true
    }

    open spec fn eq_spec(&self, other: &Item) -> bool {
        self@ == other@
    }
}

impl PartialOrd for Item {
    fn partial_cmp(&self, other: &Item) -> (r: Option<Ordering>) {
        Some(self.cmp(other))
    }
}

impl vstd::std_specs::cmp::PartialOrdSpecImpl for Item {
    open spec fn obeys_partial_cmp_spec() -> bool {
        true
    }

    open spec fn partial_cmp_spec(&self, other: &Item) -> Option<Ordering> {
        Some(item_order(self@, other@))
    }
}

impl Item {
    /// How the item is ordered against another one.
    pub fn cmp(&self, other: &Item) -> (r: Ordering)
        ensures
            r == item_order(self@, other@),
    {
        let x = match self.last_event {
            Some(n) => n,
            None => 0,
        };
        let y = match other.last_event {
            Some(n) => n,
            None => 0,
        };
        if x > y {
            Ordering::Less
        } else if x < y {
            Ordering::Greater
        } else if text_less(self.short.as_str(), other.short.as_str()) {
            Ordering::Less
        } else if text_less(other.short.as_str(), self.short.as_str()) {
            Ordering::Greater
        } else {
            Ordering::Equal
        }
    }
}

/// Swapping two items reverses their order.
pub proof fn lemma_item_order_antisymmetric(a: ItemCardView, b: ItemCardView)
    ensures
        item_order(a, b) == Ordering::Less <==> item_order(b, a) == Ordering::Greater,
        item_order(a, b) == Ordering::Equal <==> item_order(b, a) == Ordering::Equal,
{
    lemma_text_lt_total(a.short, b.short);
    if text_lt(a.short, b.short) && text_lt(b.short, a.short) {
        lemma_text_lt_transitive(a.short, b.short, a.short);
        lemma_text_lt_irreflexive(a.short);
    }
}

/// Items are equal in the order exactly where they were last in the same
/// event and have the same short text.
pub proof fn lemma_item_order_equal(a: ItemCardView, b: ItemCardView)
    ensures
        item_order(a, b) == Ordering::Equal <==> recency(a.last_event) == recency(b.last_event) && a.short
            == b.short,
{
    lemma_text_lt_total(a.short, b.short);
    lemma_text_lt_irreflexive(a.short);
}

/// The order of items is transitive.
pub proof fn lemma_item_order_transitive(a: ItemCardView, b: ItemCardView, c: ItemCardView)
    requires
        item_order(a, b) == Ordering::Less,
        item_order(b, c) == Ordering::Less,
    ensures
        item_order(a, c) == Ordering::Less,
{
    let (x, y, z) = (recency(a.last_event), recency(b.last_event), recency(c.last_event));
    if x == y && y == z {
        lemma_text_lt_transitive(a.short, b.short, c.short);
        lemma_text_lt_irreflexive(a.short);
        if text_lt(c.short, a.short) {
            lemma_text_lt_transitive(a.short, c.short, a.short);
        }
    } else if x == y {
        assert(item_order(a, c) == Ordering::Less);
    } else if y == z {
        lemma_text_lt_irreflexive(a.short);
    }
}

} // verus!
