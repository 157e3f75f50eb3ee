//! The list screen together with its stored copy: every request that changes
//! the items asks for the whole list to be written to the store.

use crate::item::{highest_id, lemma_highest_id, name_ok, price_ok, Item, ItemView};
use crate::list::{
    ids_distinct, ids_sound, is_first_with_id, position_of, Fault, List, ListView,
};
use crate::modal::{ModalEventView, ModalMsgView, ModalView};
use vstd::prelude::*;

verus! {

/// The name under which the list is kept in the store.
pub const KEY: &'static str = "yew.rust.crud.database";

/// The list screen, backed by a store.
#[derive(Debug)]
pub struct Model {
    state: List,
}

impl View for Model {
    type V = ListView;

    closed spec fn view(&self) -> ListView {
        self.state@
    }
}

/// A request to the screen.
#[derive(Debug)]
pub enum Msg {
    /// Open the dialog on a new item.
    New,
    /// The dialog was closed without saving.
    HiddedModal,
    /// The dialog hands over a validated item.
    Saved(Item),
    /// Open the dialog on the item at this position.
    Edit(usize),
    /// Remove the item at this position.
    Remove(usize),
    /// Write the list to the store.
    Store,
}

/// A [`Msg`], as plain mathematical values.
pub enum MsgView {
    New,
    HiddedModal,
    Saved(ItemView),
    Edit(nat),
    Remove(nat),
    Store,
}

impl View for Msg {
    type V = MsgView;

    open spec fn view(&self) -> MsgView {
        match *self {
            Msg::New => MsgView::New,
            Msg::HiddedModal => MsgView::HiddedModal,
            Msg::Saved(item) => MsgView::Saved(item@),
            Msg::Edit(index) => MsgView::Edit(index as nat),
            Msg::Remove(index) => MsgView::Remove(index as nat),
            Msg::Store => MsgView::Store,
        }
    }
}

/// What the caller does after a request.
#[derive(Debug, Clone, Copy, PartialEq, Eq, Structural)]
pub struct Effect {
    /// Whether the screen is drawn again.
    pub render: bool,
    /// Whether the whole list is written to the store, in place of what the
    /// store held.
    pub store: bool,
    /// Set when the request could not be carried out.
    pub fault: Option<Fault>,
}

/// The request to the list that a request to the screen stands for; `None`
/// for the one that only writes to the store.
pub open spec fn list_msg(msg: MsgView) -> Option<crate::list::MsgView> {
    match msg {
        MsgView::New => Some(crate::list::MsgView::New),
        MsgView::HiddedModal => Some(crate::list::MsgView::HiddedModal),
        MsgView::Saved(item) => Some(crate::list::MsgView::Saved(item)),
        MsgView::Edit(index) => Some(crate::list::MsgView::Edit(index)),
        MsgView::Remove(index) => Some(crate::list::MsgView::Remove(index)),
        MsgView::Store => None,
    }
}

/// The screen after one request.
pub open spec fn step(before: ListView, msg: MsgView) -> ListView {
    match list_msg(msg) {
        Some(request) => crate::list::step(before, request),
        None => before,
    }
}

/// The fault, if any, that one request runs into.
pub open spec fn fault_of(before: ListView, msg: MsgView) -> Option<Fault> {
    match list_msg(msg) {
        Some(request) => crate::list::fault_of(before, request),
        None => None,
    }
}

/// Whether one request has the list written to the store: always after a
/// save, after a removal that took place, and on demand.
pub open spec fn stores(before: ListView, msg: MsgView) -> bool {
    match msg {
        MsgView::Saved(_) => true,
        MsgView::Remove(index) => index < before.items.len(),
        MsgView::Store => true,
        _ => false,
    }
}

/// What the store holds once the caller has done what a request asked for.
pub open spec fn stored_after(stored: Seq<ItemView>, before: ListView, msg: MsgView) -> Seq<
    ItemView,
> {
    if stores(before, msg) {
        step(before, msg).items
    } else {
        stored
    }
}

/// The screen at start-up, on what was read from the store: the stored
/// items, or none where the store held nothing that could be read. The
/// dialog is closed, and identifiers continue after the highest in use.
pub open spec fn started(restored: Option<Seq<ItemView>>) -> ListView {
    let items = match restored {
        Some(items) => items,
        None => Seq::empty(),
    };
    ListView { items, modal_visible: false, current_item: None, issued: highest_id(items) }
}

impl Model {
    /// The screen at start-up, on what was read from the store: `None`
    /// stands for a store without the list, or with one that could not be
    /// read.
    pub fn create(restored: Option<Vec<Item>>) -> (model: Model)
        ensures
            model@ == started(
                match restored {
                    Some(items) => Some(items.deep_view()),
                    None => None,
                },
            ),
    {
        let items = match restored {
            Some(items) => items,
            None => Vec::new(),
        };
        assert(items.deep_view() =~= match restored {
            Some(items) => items.deep_view(),
            None => Seq::empty(),
        });
        Model { state: List::new(items) }
    }

    /// The list screen.
    pub fn state(&self) -> (state: &List)
        ensures
            state@ == self@,
    {
        &self.state
    }

    /// Hands a request on to the list, and asks for the list to be written
    /// to the store if `store` says so.
    fn forward(&mut self, request: crate::list::Msg, store: bool) -> (effect: Effect)
        ensures
            final(self)@ == crate::list::step(old(self)@, request@),
            effect == (Effect {
                render: true,
                store,
                fault: crate::list::fault_of(old(self)@, request@),
            }),
    {
        let outcome = self.state.update(request);
        Effect { render: outcome.render, store, fault: outcome.fault }
    }

    /// Carries out one request and says what the caller does next.
    ///
    /// The list is written to the store after every save, after a removal
    /// that took place, and on demand. Writing on demand changes nothing on
    /// screen, so the screen is not drawn again.
    pub fn update(&mut self, msg: Msg) -> (effect: Effect)
        ensures
            final(self)@ == step(old(self)@, msg@),
            effect.fault == fault_of(old(self)@, msg@),
            effect.store == stores(old(self)@, msg@),
            effect.render == !(msg is Store),
    {
        match msg {
            Msg::New => self.forward(crate::list::Msg::New, false),
            Msg::HiddedModal => self.forward(crate::list::Msg::HiddedModal, false),
            Msg::Saved(item) => self.forward(crate::list::Msg::Saved(item), true),
            Msg::Edit(index) => self.forward(crate::list::Msg::Edit(index), false),
            Msg::Remove(index) => {
                let within = index < self.state.items().len();
                self.forward(crate::list::Msg::Remove(index), within)
            },
            Msg::Store => Effect { render: false, store: true, fault: None },
        }
    }
}

/// The store mirrors the list: if it holds the items of the list before a
/// request, it holds them again once the caller has done what the request
/// asked for.
pub proof fn lemma_store_mirrors_list(before: ListView, msg: MsgView)
    ensures
        stored_after(before.items, before, msg) == step(before, msg).items,
{
}

/// A request that writes nothing leaves the items as they are.
pub proof fn lemma_unstored_request_keeps_items(before: ListView, msg: MsgView)
    requires
        !stores(before, msg),
    ensures
        step(before, msg).items == before.items,
{
}

/// What was written comes back: a screen started on the stored items of a
/// list shows those items, in their order; started on no items, or on a
/// store that could not be read, it shows none.
pub proof fn lemma_restart_restores_items(items: Seq<ItemView>)
    ensures
        started(Some(items)).items == items,
        started(None).items == Seq::<ItemView>::empty(),
        started(Some(Seq::empty())) == started(None),
{
}

/// A screen started on the items of a list with sound identifiers has sound
/// identifiers, and hands out none that the list holds.
pub proof fn lemma_restart_keeps_ids_sound(list: ListView)
    requires
        ids_sound(list),
    ensures
        ids_sound(started(Some(list.items))),
        started(Some(list.items)).issued <= list.issued,
{
    lemma_highest_id(list.items);
}

/// The request that the screen gets when its dialog hands over `event`.
pub open spec fn request_of(event: ModalEventView) -> MsgView {
    match event {
        ModalEventView::Closed => MsgView::HiddedModal,
        ModalEventView::Saved(item) => MsgView::Saved(item),
    }
}

/// Saving a valid draft in a dialog opened on a new item puts the item at
/// the end of the list, under the next identifier; the dialog closes and the
/// list is written to the store.
pub proof fn lemma_new_item_is_appended(screen: ListView, dialog: ModalView)
    requires
        dialog.item.id == 0,
        name_ok(dialog.name),
        price_ok(dialog.price),
        screen.issued < usize::MAX,
    ensures
        crate::modal::event_of(dialog, ModalMsgView::Save) matches Some(event) && {
            let request = request_of(event);
            &&& step(screen, request).items == screen.items.push(
                ItemView { id: screen.issued + 1, name: dialog.name, price: dialog.price },
            )
            &&& step(screen, request).issued == screen.issued + 1
            &&& !step(screen, request).modal_visible
            &&& stores(screen, request)
            &&& fault_of(screen, request) is None
        },
        !crate::modal::step(dialog, ModalMsgView::Save).visible,
{
}

/// Saving a valid draft in a dialog opened on the item at `index` replaces
/// that item in place: it keeps its identifier and its position, and every
/// other item stays as it is.
pub proof fn lemma_edited_item_is_replaced(screen: ListView, dialog: ModalView, index: int)
    requires
        0 <= index < screen.items.len(),
        ids_distinct(screen.items),
        dialog.item.id == screen.items[index].id,
        dialog.item.id != 0,
        name_ok(dialog.name),
        price_ok(dialog.price),
    ensures
        crate::modal::event_of(dialog, ModalMsgView::Save) matches Some(event) && {
            let request = request_of(event);
            &&& step(screen, request).items == screen.items.update(
                index,
                ItemView { id: screen.items[index].id, name: dialog.name, price: dialog.price },
            )
            &&& step(screen, request).issued == screen.issued
            &&& !step(screen, request).modal_visible
            &&& stores(screen, request)
            &&& fault_of(screen, request) is None
        },
{
    let id = dialog.item.id;
    assert(is_first_with_id(screen.items, id, index));
    let at = position_of(screen.items, id);
    assert(is_first_with_id(screen.items, id, at));
    assert(at == index);
}

/// Saving an invalid draft hands nothing to the screen: no request is made,
/// so the list and the store stay as they are, and the dialog stays open.
pub proof fn lemma_invalid_draft_reaches_no_list(dialog: ModalView)
    requires
        !name_ok(dialog.name) || !price_ok(dialog.price),
    ensures
        crate::modal::event_of(dialog, ModalMsgView::Save) is None,
        crate::modal::step(dialog, ModalMsgView::Save).visible == dialog.visible,
{
}

} // verus!
