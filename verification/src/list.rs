//! The item list: the items on screen, the identifiers they get, and which
//! item, if any, the edit dialog is open on.

use crate::item::{
    highest_id, lemma_highest_id, name_ok, price_ok, IdCounter, Item, ItemView,
};
use vstd::prelude::*;

verus! {

/// The state of the list screen.
#[derive(Debug)]
pub struct List {
    items: Vec<Item>,
    modal_visible: bool,
    current_item: Option<Item>,
    ids: IdCounter,
}

/// What a [`List`] holds, as plain mathematical values.
pub struct ListView {
    /// The items, in the order shown.
    pub items: Seq<ItemView>,
    /// Whether the edit dialog is open.
    pub modal_visible: bool,
    /// The item that the dialog edits; `None` while it creates a new one.
    pub current_item: Option<ItemView>,
    /// The highest identifier handed out or seen so far.
    pub issued: nat,
}

impl View for List {
    type V = ListView;

    closed spec fn view(&self) -> ListView {
        ListView {
            items: self.items.deep_view(),
            modal_visible: self.modal_visible,
            current_item: match self.current_item {
                Some(item) => Some(item@),
                None => None,
            },
            issued: self.ids@,
        }
    }
}

/// A request to the list.
#[derive(Debug)]
pub enum Msg {
    /// Open the dialog on a new item.
    New,
    /// The dialog was closed without saving.
    HiddedModal,
    /// The dialog hands over a validated item.
    Saved(Item),
    /// Open the dialog on the item at this position.
    Edit(usize),
    /// Remove the item at this position.
    Remove(usize),
}

/// A [`Msg`], as plain mathematical values.
pub enum MsgView {
    New,
    HiddedModal,
    Saved(ItemView),
    Edit(nat),
    Remove(nat),
}

impl View for Msg {
    type V = MsgView;

    open spec fn view(&self) -> MsgView {
        match *self {
            Msg::New => MsgView::New,
            Msg::HiddedModal => MsgView::HiddedModal,
            Msg::Saved(item) => MsgView::Saved(item@),
            Msg::Edit(index) => MsgView::Edit(index as nat),
            Msg::Remove(index) => MsgView::Remove(index as nat),
        }
    }
}

/// A request that the list could not carry out. The list stays usable; the
/// caller may log the fault.
#[derive(Debug, Clone, Copy, PartialEq, Eq, Structural)]
pub enum Fault {
    /// A position at or past the end of the list.
    IndexOutOfRange,
    /// A saved item carries an identifier that no item of the list has.
    UnknownId,
    /// A new item cannot get an identifier: all of them are used up.
    IdsExhausted,
}

/// What the caller does after a request.
#[derive(Debug, Clone, Copy, PartialEq, Eq, Structural)]
pub struct Outcome {
    /// Whether the screen is drawn again.
    pub render: bool,
    /// Set when the request could not be carried out.
    pub fault: Option<Fault>,
}

/// `at` is the first position of `items` that holds an item with identifier
/// `id`.
pub open spec fn is_first_with_id(items: Seq<ItemView>, id: nat, at: int) -> bool {
    &&& 0 <= at < items.len()
    &&& items[at].id == id
    &&& forall|before: int| 0 <= before < at ==> (#[trigger] items[before]).id != id
}

/// Some item of `items` has identifier `id`.
pub open spec fn holds_id(items: Seq<ItemView>, id: nat) -> bool {
    exists|at: int| is_first_with_id(items, id, at)
}

/// The first position of `items` that holds an item with identifier `id`.
pub open spec fn position_of(items: Seq<ItemView>, id: nat) -> int {
    choose|at: int| is_first_with_id(items, id, at)
}

/// The list after the dialog handed over `item`.
///
/// An item without identifier gets the next one and goes to the end. Any
/// other item takes the place of the first item with its identifier. Where
/// that cannot be done the items stay as they are. The dialog is closed in
/// every case.
pub open spec fn saved(before: ListView, item: ItemView) -> ListView {
    if item.id == 0 {
        if before.issued < usize::MAX {
            let id = before.issued + 1;
            ListView {
                items: before.items.push(ItemView { id: id as nat, ..item }),
                issued: id as nat,
                modal_visible: false,
                ..before
            }
        } else {
            ListView { modal_visible: false, ..before }
        }
    } else if holds_id(before.items, item.id) {
        ListView {
            items: before.items.update(position_of(before.items, item.id), item),
            modal_visible: false,
            ..before
        }
    } else {
        ListView { modal_visible: false, ..before }
    }
}

/// The list after one request.
pub open spec fn step(before: ListView, msg: MsgView) -> ListView {
    match msg {
        MsgView::New => ListView { modal_visible: true, current_item: None, ..before },
        MsgView::HiddedModal => ListView { modal_visible: false, ..before },
        MsgView::Saved(item) => saved(before, item),
        MsgView::Edit(index) => if index < before.items.len() {
            ListView {
                modal_visible: true,
                current_item: Some(before.items[index as int]),
                ..before
            }
        } else {
            before
        },
        MsgView::Remove(index) => if index < before.items.len() {
            ListView { items: before.items.remove(index as int), ..before }
        } else {
            before
        },
    }
}

/// The fault, if any, that one request runs into.
pub open spec fn fault_of(before: ListView, msg: MsgView) -> Option<Fault> {
    match msg {
        MsgView::New => None,
        MsgView::HiddedModal => None,
        MsgView::Saved(item) => if item.id == 0 {
            if before.issued < usize::MAX {
                None
            } else {
                Some(Fault::IdsExhausted)
            }
        } else if holds_id(before.items, item.id) {
            None
        } else {
            Some(Fault::UnknownId)
        },
        MsgView::Edit(index) => if index < before.items.len() {
            None
        } else {
            Some(Fault::IndexOutOfRange)
        },
        MsgView::Remove(index) => if index < before.items.len() {
            None
        } else {
            Some(Fault::IndexOutOfRange)
        },
    }
}

impl List {
    /// A list that shows `items`, with the dialog closed. Its identifiers
    /// continue after the highest that `items` carry.
    pub fn new(items: Vec<Item>) -> (list: List)
        ensures
            list@ == (ListView {
                items: items.deep_view(),
                modal_visible: false,
                current_item: None,
                issued: highest_id(items.deep_view()),
            }),
    {
        let ids = IdCounter::above(&items);
        List { items, modal_visible: false, current_item: None, ids }
    }

    /// A list that starts with one sample item: number 1, named `Test`,
    /// priced `0`.
    pub fn create() -> (list: List)
        ensures
            list@ == (ListView {
                items: seq![ItemView { id: 1, name: "Test"@, price: "0"@ }],
                modal_visible: false,
                current_item: None,
                issued: 1,
            }),
    {
        let mut ids = IdCounter::new();
        let mut items: Vec<Item> = Vec::new();
        match Item::generate_id(&mut ids) {
            Some(id) => {
                items.push(
                    Item { id, name: String::from_str("Test"), price: String::from_str("0") },
                );
            },
            None => {},
        }
        let list = List { items, modal_visible: false, current_item: None, ids };
        assert(list@.items =~= seq![ItemView { id: 1, name: "Test"@, price: "0"@ }]);
        list
    }

    /// The items, in the order shown.
    pub fn items(&self) -> (items: &Vec<Item>)
        ensures
            items.deep_view() == self@.items,
    {
        &self.items
    }

    /// Whether the edit dialog is open.
    pub fn modal_visible(&self) -> (visible: bool)
        ensures
            visible == self@.modal_visible,
    {
        self.modal_visible
    }

    /// The item that the dialog edits; `None` while it creates a new one.
    pub fn current_item(&self) -> (current: &Option<Item>)
        ensures
            match *current {
                Some(item) => self@.current_item == Some(item@),
                None => self@.current_item is None,
            },
    {
        &self.current_item
    }

    /// The item that the dialog is opened on: a copy of the item being
    /// edited, or the placeholder of a new one.
    pub fn dialog_item(&self) -> (item: Item)
        ensures
            item@ == match self@.current_item {
                Some(current) => current,
                None => ItemView { id: 0, name: Seq::empty(), price: Seq::empty() },
            },
    {
        match &self.current_item {
            Some(current) => current.clone(),
            None => Item::default(),
        }
    }

    /// The highest identifier handed out or seen so far.
    pub fn issued(&self) -> (issued: usize)
        ensures
            issued == self@.issued,
    {
        self.ids.issued()
    }

    /// The first position that holds an item with identifier `id`.
    pub fn position(&self, id: usize) -> (found: Option<usize>)
        ensures
            match found {
                Some(at) => is_first_with_id(self@.items, id as nat, at as int),
                None => !holds_id(self@.items, id as nat),
            },
    {
        let mut at: usize = 0;
        while at < self.items.len()
            invariant
                at <= self.items.len(),
                forall|before: int|
                    0 <= before < at ==> (#[trigger] self.items.deep_view()[before]).id != id,
            decreases self.items.len() - at,
        {
            if self.items[at].id == id {
                return Some(at);
            }
            at = at + 1;
        }
        None
    }

    /// Carries out one request and says what the caller does next.
    ///
    /// A request that cannot be carried out changes no item and is reported
    /// as a fault: a position past the end, a saved item whose identifier no
    /// item has, a new item when the identifiers are used up.
    pub fn update(&mut self, msg: Msg) -> (outcome: Outcome)
        ensures
            final(self)@ == step(old(self)@, msg@),
            outcome.fault == fault_of(old(self)@, msg@),
            outcome.render,
    {
        let ghost before = self@;
        let mut fault: Option<Fault> = None;
        match msg {
            Msg::New => {
                self.modal_visible = true;
                self.current_item = None;
            },
            Msg::HiddedModal => {
                self.modal_visible = false;
            },
            Msg::Saved(item) => {
                if item.id == 0 {
                    match Item::generate_id(&mut self.ids) {
                        Some(id) => {
                            let mut item = item;
                            item.id = id;
                            self.items.push(item);
                            assert(self@.items =~= before.items.push(item@));
                        },
                        None => {
                            fault = Some(Fault::IdsExhausted);
                        },
                    }
                } else {
                    match self.position(item.id) {
                        Some(index) => {
                            self.items[index] = item;
                            assert(self@.items =~= before.items.update(index as int, item@));
                        },
                        None => {
                            fault = Some(Fault::UnknownId);
                        },
                    }
                }
                self.modal_visible = false;
            },
            Msg::Edit(index) => {
                if index < self.items.len() {
                    let item = self.items[index].clone();
                    self.current_item = Some(item);
                    self.modal_visible = true;
                } else {
                    fault = Some(Fault::IndexOutOfRange);
                }
            },
            Msg::Remove(index) => {
                if index < self.items.len() {
                    self.items.remove(index);
                    assert(self@.items =~= before.items.remove(index as int));
                } else {
                    fault = Some(Fault::IndexOutOfRange);
                }
            },
        }
        Outcome { render: true, fault }
    }
}

/// No two items share an identifier.
pub open spec fn ids_distinct(items: Seq<ItemView>) -> bool {
    forall|i: int, j: int|
        0 <= i < j < items.len() ==> (#[trigger] items[i]).id != (#[trigger] items[j]).id
}

/// Every item has an identifier above 0 and not above `issued`.
pub open spec fn ids_within(items: Seq<ItemView>, issued: nat) -> bool {
    forall|i: int| 0 <= i < items.len() ==> 0 < (#[trigger] items[i]).id <= issued
}

/// Every item has an identifier of its own, above 0 and not above the
/// highest handed out.
pub open spec fn ids_sound(list: ListView) -> bool {
    &&& ids_within(list.items, list.issued)
    &&& ids_distinct(list.items)
}

/// Every item has a name and a price that pass validation.
pub open spec fn items_valid(list: ListView) -> bool {
    forall|i: int|
        0 <= i < list.items.len() ==> name_ok((#[trigger] list.items[i]).name) && price_ok(
            list.items[i].price,
        )
}

/// A list made of items with identifiers of their own, all above 0, has
/// sound identifiers.
pub proof fn lemma_new_list_ids_sound(list: ListView)
    requires
        list.issued == highest_id(list.items),
        forall|i: int| 0 <= i < list.items.len() ==> (#[trigger] list.items[i]).id > 0,
        ids_distinct(list.items),
    ensures
        ids_sound(list),
{
    lemma_highest_id(list.items);
}

/// Where the item at position `at` stood before the item at `index` was
/// removed.
pub open spec fn before_removal(at: int, index: int) -> int {
    if at < index {
        at
    } else {
        at + 1
    }
}

/// Removing the item at a valid position leaves the others in their order:
/// those before it stay where they are, those after it move up by one.
pub proof fn lemma_remove_keeps_order(before: ListView, index: nat)
    requires
        index < before.items.len(),
    ensures
        step(before, MsgView::Remove(index)).items.len() == before.items.len() - 1,
        forall|i: int|
            0 <= i < before.items.len() - 1 ==> #[trigger] step(
                before,
                MsgView::Remove(index),
            ).items[i] == before.items[before_removal(i, index as int)],
{
}

/// No request makes two items share an identifier or leaves an item without
/// one: a new item gets an identifier above all others, a saved one keeps
/// the identifier of the item it replaces.
pub proof fn lemma_step_keeps_ids_sound(before: ListView, msg: MsgView)
    requires
        ids_sound(before),
    ensures
        ids_sound(step(before, msg)),
        step(before, msg).issued >= before.issued,
{
    let after = step(before, msg);
    match msg {
        MsgView::Saved(item) => {
            if item.id != 0 && holds_id(before.items, item.id) {
                let at = position_of(before.items, item.id);
                assert(is_first_with_id(before.items, item.id, at));
                assert forall|i: int| 0 <= i < after.items.len() implies (
                #[trigger] after.items[i]).id == before.items[i].id by {}
            }
        },
        MsgView::Remove(index) => {
            if index < before.items.len() {
                lemma_remove_keeps_order(before, index);
            }
        },
        _ => {},
    }
}

/// A list of valid items stays one, as long as the items handed over for
/// saving are valid.
pub proof fn lemma_step_keeps_items_valid(before: ListView, msg: MsgView)
    requires
        items_valid(before),
        msg matches MsgView::Saved(item) ==> name_ok(item.name) && price_ok(item.price),
    ensures
        items_valid(step(before, msg)),
{
    let after = step(before, msg);
    match msg {
        MsgView::Saved(item) => {
            assert forall|i: int| 0 <= i < after.items.len() implies #[trigger] after.items[i]
                == before.items[i] || after.items[i].name == item.name && after.items[i].price
                == item.price by {}
        },
        MsgView::Remove(index) => {
            if index < before.items.len() {
                lemma_remove_keeps_order(before, index);
            }
        },
        _ => {},
    }
}

/// Saving an item that is in the list changes that item only: the list
/// keeps its length and its order, and no identifier changes.
pub proof fn lemma_replace_keeps_order(before: ListView, item: ItemView)
    requires
        item.id != 0,
        holds_id(before.items, item.id),
    ensures
        step(before, MsgView::Saved(item)).items.len() == before.items.len(),
        forall|i: int|
            0 <= i < before.items.len() ==> (#[trigger] step(
                before,
                MsgView::Saved(item),
            ).items[i]).id == before.items[i].id,
        forall|i: int|
            0 <= i < before.items.len() && i != position_of(before.items, item.id) ==> step(
                before,
                MsgView::Saved(item),
            ).items[i] == before.items[i],
        step(before, MsgView::Saved(item)).items[position_of(before.items, item.id)] == item,
{
    let at = position_of(before.items, item.id);
    assert(is_first_with_id(before.items, item.id, at));
}

} // verus!
