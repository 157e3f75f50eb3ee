//! The edit dialog: a draft of the two fields, the errors of the last failed
//! save, and the event it hands to its owner.

use crate::item::{
    errors_of, name_ok, price_ok, FormView, Item, ItemFormData, ItemValidationErr, ItemView,
};
use crate::number::{is_decimal_text, unsigned, whole_part, FINITE_LIMIT};
use vstd::prelude::*;

verus! {

/// What the owner of the dialog hands to it.
#[derive(Debug)]
pub struct ModalProperties {
    /// The item to edit; the placeholder without identifier for a new one.
    pub item: Item,
    /// Whether the dialog is shown.
    pub visible: bool,
}

impl Clone for ModalProperties {
    fn clone(&self) -> (copy: Self)
        ensures
            copy == *self,
    {
        ModalProperties { item: self.item.clone(), visible: self.visible }
    }
}

/// The edit dialog.
#[derive(Debug)]
pub struct Modal {
    /// The item that the dialog was opened on.
    pub item: Item,
    /// The draft of the name.
    pub name: String,
    /// The draft of the price.
    pub price: String,
    /// Whether the dialog is shown.
    pub visible: bool,
    error: Option<Vec<ItemValidationErr>>,
}

/// What a [`Modal`] holds, as plain mathematical values.
pub struct ModalView {
    pub item: ItemView,
    pub name: Seq<char>,
    pub price: Seq<char>,
    pub visible: bool,
    /// The errors of the last failed save; `None` when there are none to
    /// show.
    pub error: Option<Seq<ItemValidationErr>>,
}

impl View for Modal {
    type V = ModalView;

    closed spec fn view(&self) -> ModalView {
        ModalView {
            item: self.item@,
            name: self.name@,
            price: self.price@,
            visible: self.visible,
            error: match self.error {
                Some(errors) => Some(errors@),
                None => None,
            },
        }
    }
}

/// What happens to the dialog.
#[derive(Debug)]
pub enum ModalMsg {
    /// The user closes the dialog without saving.
    HideModal,
    /// The user changed the name to this.
    SetName(String),
    /// The user changed the price to this.
    SetPrice(String),
    /// The user asks to save the draft.
    Save,
}

/// A [`ModalMsg`], as plain mathematical values.
pub enum ModalMsgView {
    HideModal,
    SetName(Seq<char>),
    SetPrice(Seq<char>),
    Save,
}

impl View for ModalMsg {
    type V = ModalMsgView;

    open spec fn view(&self) -> ModalMsgView {
        match *self {
            ModalMsg::HideModal => ModalMsgView::HideModal,
            ModalMsg::SetName(name) => ModalMsgView::SetName(name@),
            ModalMsg::SetPrice(price) => ModalMsgView::SetPrice(price@),
            ModalMsg::Save => ModalMsgView::Save,
        }
    }
}

/// What the dialog hands to its owner.
#[derive(Debug)]
pub enum ModalEvent {
    /// The dialog was closed without saving.
    Closed,
    /// The draft passed validation and became this item.
    Saved(Item),
}

/// A [`ModalEvent`], as plain mathematical values.
pub enum ModalEventView {
    Closed,
    Saved(ItemView),
}

impl View for ModalEvent {
    type V = ModalEventView;

    open spec fn view(&self) -> ModalEventView {
        match *self {
            ModalEvent::Closed => ModalEventView::Closed,
            ModalEvent::Saved(item) => ModalEventView::Saved(item@),
        }
    }
}

/// What the owner does after a message to the dialog.
#[derive(Debug)]
pub struct ModalOutcome {
    /// Whether the dialog is drawn again.
    pub render: bool,
    /// The event for the owner, if the message led to one.
    pub event: Option<ModalEvent>,
}

/// The draft of a dialog, as the form that validation checks.
pub open spec fn draft(modal: ModalView) -> FormView {
    FormView { name: modal.name, price: modal.price }
}

/// The dialog after one message.
///
/// A change of a field touches that field only and checks nothing. A save
/// with a valid draft closes the dialog; with an invalid one the dialog
/// stays as it is and shows the new errors in place of any earlier ones.
pub open spec fn step(before: ModalView, msg: ModalMsgView) -> ModalView {
    match msg {
        ModalMsgView::HideModal => ModalView { visible: false, ..before },
        ModalMsgView::SetName(name) => ModalView { name, ..before },
        ModalMsgView::SetPrice(price) => ModalView { price, ..before },
        ModalMsgView::Save => if errors_of(draft(before)).len() == 0 {
            ModalView { visible: false, ..before }
        } else {
            ModalView { error: Some(errors_of(draft(before))), ..before }
        },
    }
}

/// The event that one message leads to.
///
/// A saved item keeps the identifier of the item that the dialog was opened
/// on, and carries the two drafts.
pub open spec fn event_of(before: ModalView, msg: ModalMsgView) -> Option<ModalEventView> {
    match msg {
        ModalMsgView::HideModal => Some(ModalEventView::Closed),
        ModalMsgView::SetName(_) => None,
        ModalMsgView::SetPrice(_) => None,
        ModalMsgView::Save => if errors_of(draft(before)).len() == 0 {
            Some(
                ModalEventView::Saved(
                    ItemView { id: before.item.id, name: before.name, price: before.price },
                ),
            )
        } else {
            None
        },
    }
}

/// The dialog after its owner handed down `item` and `visible`: the drafts
/// are filled from the item, and no error is left to show.
pub open spec fn opened(item: ItemView, visible: bool) -> ModalView {
    ModalView { item, name: item.name, price: item.price, visible, error: None }
}

impl Modal {
    /// A dialog on the item of `prop`, with empty drafts and no errors.
    pub fn create(prop: ModalProperties) -> (modal: Modal)
        ensures
            modal@ == (ModalView {
                item: prop.item@,
                name: Seq::empty(),
                price: Seq::empty(),
                visible: prop.visible,
                error: None,
            }),
    {
        Modal {
            item: prop.item,
            name: String::new(),
            price: String::new(),
            visible: prop.visible,
            error: None,
        }
    }

    /// The item that the dialog was opened on.
    pub fn item(&self) -> (item: &Item)
        ensures
            item@ == self@.item,
    {
        &self.item
    }

    /// The draft of the name.
    pub fn name(&self) -> (name: &String)
        ensures
            name@ == self@.name,
    {
        &self.name
    }

    /// The draft of the price.
    pub fn price(&self) -> (price: &String)
        ensures
            price@ == self@.price,
    {
        &self.price
    }

    /// Whether the dialog is shown.
    pub fn visible(&self) -> (visible: bool)
        ensures
            visible == self@.visible,
    {
        self.visible
    }

    /// The errors of the last failed save; `None` when there are none to
    /// show.
    pub fn error(&self) -> (error: &Option<Vec<ItemValidationErr>>)
        ensures
            match *error {
                Some(errors) => self@.error == Some(errors@),
                None => self@.error is None,
            },
    {
        &self.error
    }

    /// The title of the dialog: it creates when the item it was opened on has
    /// no name, and updates otherwise.
    pub fn title(&self) -> (title: &'static str)
        ensures
            title@ == if self@.item.name.len() == 0 {
                "New Item"@
            } else {
                "Update Item"@
            },
    {
        if self.item.name.as_str().is_empty() {
            "New Item"
        } else {
            "Update Item"
        }
    }

    /// Carries out one message and says what the owner does next.
    pub fn update(&mut self, msg: ModalMsg) -> (outcome: ModalOutcome)
        ensures
            final(self)@ == step(old(self)@, msg@),
            outcome.render,
            match outcome.event {
                Some(event) => event_of(old(self)@, msg@) == Some(event@),
                None => event_of(old(self)@, msg@) is None,
            },
    {
        let mut event: Option<ModalEvent> = None;
        match msg {
            ModalMsg::HideModal => {
                self.visible = false;
                event = Some(ModalEvent::Closed);
            },
            ModalMsg::SetName(name) => {
                self.name = name;
            },
            ModalMsg::SetPrice(price) => {
                self.price = price;
            },
            ModalMsg::Save => {
                let form_data = ItemFormData::from((self.name.clone(), self.price.clone()));
                match ItemFormData::validate(&form_data) {
                    Ok(_valid) => {
                        self.visible = false;
                        event = Some(
                            ModalEvent::Saved(
                                Item {
                                    id: self.item.id,
                                    name: form_data.name,
                                    price: form_data.price,
                                },
                            ),
                        );
                    },
                    Err(errors) => {
                        self.error = Some(errors);
                    },
                }
            },
        }
        ModalOutcome { render: true, event }
    }

    /// Takes over what the owner hands down: the item, its name and price as
    /// the drafts, and whether the dialog is shown. Errors of an earlier
    /// session are dropped.
    pub fn change(&mut self, props: ModalProperties) -> (render: bool)
        ensures
            final(self)@ == opened(props.item@, props.visible),
            render,
    {
        self.name = props.item.name.clone();
        self.price = props.item.price.clone();
        self.item = props.item;
        self.visible = props.visible;
        self.error = None;
        true
    }
}

/// A dialog hands over valid items only: the item of a `Saved` event has a
/// name that passes the name rule and a price that spells a finite decimal
/// number, and it keeps the identifier that the dialog was opened on.
pub proof fn lemma_saved_item_is_valid(before: ModalView, msg: ModalMsgView)
    ensures
        event_of(before, msg) matches Some(ModalEventView::Saved(item)) ==> {
            &&& name_ok(item.name)
            &&& price_ok(item.price)
            &&& is_decimal_text(item.price)
            &&& whole_part(unsigned(item.price)) < FINITE_LIMIT
            &&& item.id == before.item.id
        },
{
}

/// A failed save leaves the dialog open, shows the new errors in place of
/// any earlier ones, and hands nothing to the owner.
pub proof fn lemma_failed_save_keeps_dialog(before: ModalView)
    requires
        !name_ok(before.name) || !price_ok(before.price),
    ensures
        step(before, ModalMsgView::Save) == (ModalView {
            error: Some(errors_of(draft(before))),
            ..before
        }),
        errors_of(draft(before)).len() > 0,
        event_of(before, ModalMsgView::Save) is None,
{
}

/// Errors never outlive a session: whatever the dialog showed, once it is
/// opened again it shows none.
pub proof fn lemma_opening_drops_errors(item: ItemView, visible: bool)
    ensures
        opened(item, visible).error is None,
        opened(item, visible).name == item.name,
        opened(item, visible).price == item.price,
{
}

} // verus!
