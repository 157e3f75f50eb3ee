//! Items, the raw form they are edited in, and the rules a form must pass
//! before it becomes an item.

use crate::number::{is_finite_decimal, spells_finite_decimal};
use crate::text::{
    chars_of, has_two_visible, lemma_trimmed_is_shorter, lemma_trimmed_len_visible, trimmed,
    trimmed_len,
};
use vstd::prelude::*;

verus! {

/// A named, priced record of the list.
///
/// `id` is 0 while the item has not been stored yet. `price` holds the price
/// as the decimal text it was entered in; the price of a valid item spells a
/// finite number.
#[derive(Debug)]
pub struct Item {
    pub id: usize,
    pub name: String,
    pub price: String,
}

/// What an [`Item`] holds, as plain mathematical values.
pub struct ItemView {
    pub id: nat,
    pub name: Seq<char>,
    pub price: Seq<char>,
}

impl View for Item {
    type V = ItemView;

    open spec fn view(&self) -> ItemView {
        ItemView { id: self.id as nat, name: self.name@, price: self.price@ }
    }
}

impl DeepView for Item {
    type V = ItemView;

    open spec fn deep_view(&self) -> ItemView {
        self@
    }
}

impl Clone for Item {
    fn clone(&self) -> (copy: Self)
        ensures
            copy == *self,
    {
        Item { id: self.id, name: self.name.clone(), price: self.price.clone() }
    }
}

impl Default for Item {
    /// The placeholder that a new item starts from: no identifier, no name,
    /// no price.
    fn default() -> (item: Self)
        ensures
            item@ == (ItemView { id: 0, name: Seq::empty(), price: Seq::empty() }),
    {
        Item { id: 0, name: String::new(), price: String::new() }
    }
}

impl PartialEq for Item {
    fn eq(&self, other: &Self) -> (same: bool) {
        self.id == other.id && self.name == other.name && self.price == other.price
    }
}

impl vstd::std_specs::cmp::PartialEqSpecImpl for Item {
    open spec fn obeys_eq_spec() -> bool {
        true
    }

    open spec fn eq_spec(&self, other: &Self) -> bool {
        self.id == other.id && self.name@ == other.name@ && self.price@ == other.price@
    }
}

/// The two text fields of the edit form, as typed.
#[derive(Debug)]
pub struct ItemFormData {
    pub name: String,
    pub price: String,
}

/// The two fields of a form, as plain mathematical values.
pub struct FormView {
    pub name: Seq<char>,
    pub price: Seq<char>,
}

impl View for ItemFormData {
    type V = FormView;

    open spec fn view(&self) -> FormView {
        FormView { name: self.name@, price: self.price@ }
    }
}

impl Default for ItemFormData {
    fn default() -> (form: Self)
        ensures
            form@ == (FormView { name: Seq::empty(), price: Seq::empty() }),
    {
        ItemFormData { name: String::new(), price: String::new() }
    }
}

impl From<(String, String)> for ItemFormData {
    /// The form with the name and the price of the pair, in this order.
    fn from(fields: (String, String)) -> (form: Self) {
        ItemFormData { name: fields.0, price: fields.1 }
    }
}

impl vstd::std_specs::convert::FromSpecImpl<(String, String)> for ItemFormData {
    open spec fn obeys_from_spec() -> bool {
        true
    }

    open spec fn from_spec(fields: (String, String)) -> Self {
        ItemFormData { name: fields.0, price: fields.1 }
    }
}

impl PartialEq for ItemFormData {
    fn eq(&self, other: &Self) -> (same: bool) {
        self.name == other.name && self.price == other.price
    }
}

impl vstd::std_specs::cmp::PartialEqSpecImpl for ItemFormData {
    open spec fn obeys_eq_spec() -> bool {
        true
    }

    open spec fn eq_spec(&self, other: &Self) -> bool {
        self.name@ == other.name@ && self.price@ == other.price@
    }
}

/// A form that passed validation: both fields satisfy their rule.
#[derive(Debug)]
pub struct ValidatedItem {
    name: String,
    price: String,
}

impl View for ValidatedItem {
    type V = FormView;

    closed spec fn view(&self) -> FormView {
        FormView { name: self.name@, price: self.price@ }
    }
}

impl ValidatedItem {
    /// The validated name.
    pub fn name(&self) -> (name: &String)
        ensures
            name@ == self@.name,
    {
        &self.name
    }

    /// The validated price text.
    pub fn price(&self) -> (price: &String)
        ensures
            price@ == self@.price,
    {
        &self.price
    }
}

impl PartialEq for ValidatedItem {
    fn eq(&self, other: &Self) -> (same: bool) {
        self.name == other.name && self.price == other.price
    }
}

impl vstd::std_specs::cmp::PartialEqSpecImpl for ValidatedItem {
    open spec fn obeys_eq_spec() -> bool {
        true
    }

    closed spec fn eq_spec(&self, other: &Self) -> bool {
        self.name@ == other.name@ && self.price@ == other.price@
    }
}

/// Why a field of the form was turned down.
#[derive(Debug, Clone, Copy, PartialEq, Eq, Structural)]
pub enum ItemValidationErr {
    InvalidName,
    InvalidPrice,
}

/// The name rule: more than one character is left once surrounding
/// whitespace is removed.
pub open spec fn name_ok(name: Seq<char>) -> bool {
    trimmed(name).len() > 1
}

/// The price rule: the text spells a finite number, that is a decimal
/// number small enough to be stored.
pub open spec fn price_ok(price: Seq<char>) -> bool {
    is_finite_decimal(price)
}

/// The errors of a form: one per failing field, the name's first.
pub open spec fn errors_of(form: FormView) -> Seq<ItemValidationErr> {
    let name_errors = if name_ok(form.name) {
        Seq::<ItemValidationErr>::empty()
    } else {
        seq![ItemValidationErr::InvalidName]
    };
    let price_errors = if price_ok(form.price) {
        Seq::<ItemValidationErr>::empty()
    } else {
        seq![ItemValidationErr::InvalidPrice]
    };
    name_errors + price_errors
}

/// A name passes exactly when it holds two characters that are not
/// whitespace.
pub proof fn lemma_name_rule(name: Seq<char>)
    ensures
        name_ok(name) <==> has_two_visible(name),
{
    lemma_trimmed_len_visible(name);
}

/// No name of one character or none passes: whatever the price, the form's
/// first error is the name's.
pub proof fn lemma_short_name_fails(form: FormView)
    requires
        form.name.len() <= 1,
    ensures
        !name_ok(form.name),
        errors_of(form).len() > 0,
        errors_of(form)[0] == ItemValidationErr::InvalidName,
{
    lemma_trimmed_is_shorter(form.name);
}

/// A name of more than one character passes, unless whitespace leaves it
/// fewer than two characters that show.
pub proof fn lemma_long_name_passes(name: Seq<char>)
    requires
        name.len() > 1,
        has_two_visible(name),
    ensures
        name_ok(name),
{
    lemma_trimmed_len_visible(name);
}

/// A form passes exactly when both of its fields do, and its errors name the
/// failing fields in the order name, price.
pub proof fn lemma_errors_of(form: FormView)
    ensures
        errors_of(form).len() == 0 <==> name_ok(form.name) && price_ok(form.price),
        !name_ok(form.name) && !price_ok(form.price) ==> errors_of(form) == seq![
            ItemValidationErr::InvalidName,
            ItemValidationErr::InvalidPrice,
        ],
        !name_ok(form.name) && price_ok(form.price) ==> errors_of(form) == seq![
            ItemValidationErr::InvalidName,
        ],
        name_ok(form.name) && !price_ok(form.price) ==> errors_of(form) == seq![
            ItemValidationErr::InvalidPrice,
        ],
{
}

impl ItemValidationErr {
    /// The message shown to the user for this error.
    pub fn message(&self) -> (text: &'static str)
        ensures
            text@ == match *self {
                ItemValidationErr::InvalidName => "Name is required"@,
                ItemValidationErr::InvalidPrice => "Invalid Price"@,
            },
    {
        match self {
            ItemValidationErr::InvalidName => "Name is required",
            ItemValidationErr::InvalidPrice => "Invalid Price",
        }
    }
}

impl ItemFormData {
    /// Checks both fields, each on its own, and collects every error.
    ///
    /// A form without errors comes back as a [`ValidatedItem`] that carries
    /// the two fields as they were given.
    pub fn validate(form_data: &ItemFormData) -> (checked: Result<
        ValidatedItem,
        Vec<ItemValidationErr>,
    >)
        ensures
            match checked {
                Ok(valid) => errors_of(form_data@).len() == 0 && valid@ == form_data@,
                Err(errors) => errors@.len() > 0 && errors@ == errors_of(form_data@),
            },
    {
        let mut errors: Vec<ItemValidationErr> = Vec::new();
        let name = match ItemFormData::validate_name(form_data.name.clone()) {
            Ok(name) => name,
            Err(e) => {
                errors.push(e);
                String::new()
            },
        };
        let price = match ItemFormData::validate_price(form_data.price.clone()) {
            Ok(price) => price,
            Err(e) => {
                errors.push(e);
                String::new()
            },
        };
        if errors.len() > 0 {
            return Err(errors);
        }
        Ok(ValidatedItem { name, price })
    }

    /// Accepts a name that keeps more than one character once trimmed, and
    /// hands it back unchanged.
    pub fn validate_name(name: String) -> (checked: Result<String, ItemValidationErr>)
        ensures
            match checked {
                Ok(accepted) => name_ok(name@) && accepted == name,
                Err(e) => !name_ok(name@) && e == ItemValidationErr::InvalidName,
            },
    {
        let chars = chars_of(name.as_str());
        if trimmed_len(&chars) > 1 {
            Ok(name)
        } else {
            Err(ItemValidationErr::InvalidName)
        }
    }

    /// Accepts a price that spells a finite number, and hands it back
    /// unchanged.
    pub fn validate_price(price: String) -> (checked: Result<String, ItemValidationErr>)
        ensures
            match checked {
                Ok(accepted) => price_ok(price@) && accepted == price,
                Err(e) => !price_ok(price@) && e == ItemValidationErr::InvalidPrice,
            },
    {
        let chars = chars_of(price.as_str());
        if spells_finite_decimal(chars.as_slice()) {
            Ok(price)
        } else {
            Err(ItemValidationErr::InvalidPrice)
        }
    }
}

/// The source of item identifiers: it remembers the highest identifier handed
/// out or seen so far, and the next one is the one after it.
#[derive(Debug)]
pub struct IdCounter {
    issued: usize,
}

impl View for IdCounter {
    type V = nat;

    /// The highest identifier handed out or seen so far; 0 when there is
    /// none.
    closed spec fn view(&self) -> nat {
        self.issued as nat
    }
}

/// The highest identifier among `items`; 0 when there is none.
pub open spec fn highest_id(items: Seq<ItemView>) -> nat
    decreases items.len(),
{
    if items.len() == 0 {
        0
    } else {
        let rest = highest_id(items.drop_last());
        if items.last().id > rest {
            items.last().id
        } else {
            rest
        }
    }
}

/// No item has an identifier above `highest_id`, and unless the list is
/// empty (or holds only unstored items) one of them has it.
pub proof fn lemma_highest_id(items: Seq<ItemView>)
    ensures
        forall|i: int| 0 <= i < items.len() ==> (#[trigger] items[i]).id <= highest_id(items),
        highest_id(items) > 0 ==> exists|i: int|
            0 <= i < items.len() && (#[trigger] items[i]).id == highest_id(items),
    decreases items.len(),
{
    if items.len() > 0 {
        let rest = items.drop_last();
        lemma_highest_id(rest);
        assert forall|i: int| 0 <= i < items.len() implies (#[trigger] items[i]).id <= highest_id(
            items,
        ) by {
            if i < rest.len() {
                assert(rest[i] == items[i]);
            }
        }
        if highest_id(items) > 0 {
            if items.last().id > highest_id(rest) {
                assert(items[items.len() - 1].id == highest_id(items));
            } else {
                let i = choose|i: int|
                    0 <= i < rest.len() && (#[trigger] rest[i]).id == highest_id(rest);
                assert(items[i].id == highest_id(items));
            }
        }
    }
}

/// The identifier that follows `issued`.
pub open spec fn next_id(issued: nat) -> nat {
    issued + 1
}

/// Where a counter that stood at `issued` stands after `calls` identifiers
/// were handed out: at the last of them.
pub open spec fn id_after(issued: nat, calls: nat) -> nat
    decreases calls,
{
    if calls == 0 {
        issued
    } else {
        next_id(id_after(issued, (calls - 1) as nat))
    }
}

/// After `calls` calls the counter stands `calls` above where it stood.
pub proof fn lemma_id_after(issued: nat, calls: nat)
    ensures
        id_after(issued, calls) == issued + calls,
    decreases calls,
{
    if calls > 0 {
        lemma_id_after(issued, (calls - 1) as nat);
    }
}

/// Identifiers come out in strictly increasing order, each above everything
/// handed out before: a later call gives a higher identifier than an earlier
/// one, and the first is above where the counter stood.
pub proof fn lemma_ids_increase(issued: nat, earlier: nat, later: nat)
    requires
        0 < earlier < later,
    ensures
        issued < id_after(issued, earlier) < id_after(issued, later),
{
    lemma_id_after(issued, earlier);
    lemma_id_after(issued, later);
}

impl IdCounter {
    /// A counter that has handed out nothing: its first identifier is 1.
    pub fn new() -> (counter: IdCounter)
        ensures
            counter@ == 0,
    {
        IdCounter { issued: 0 }
    }

    /// A counter that continues after the identifiers that `items` already
    /// carry.
    pub fn above(items: &Vec<Item>) -> (counter: IdCounter)
        ensures
            counter@ == highest_id(items.deep_view()),
    {
        let mut issued: usize = 0;
        let mut i: usize = 0;
        while i < items.len()
            invariant
                i <= items.len(),
                issued == highest_id(items.deep_view().take(i as int)),
            decreases items.len() - i,
        {
            proof {
                let seen = items.deep_view().take(i + 1);
                assert(seen.drop_last() =~= items.deep_view().take(i as int));
                assert(seen.last() == items[i as int]@);
            }
            if items[i].id > issued {
                issued = items[i].id;
            }
            i = i + 1;
        }
        proof {
            assert(items.deep_view().take(i as int) =~= items.deep_view());
        }
        IdCounter { issued }
    }

    /// The highest identifier handed out or seen so far; 0 when there is
    /// none.
    pub fn issued(&self) -> (issued: usize)
        ensures
            issued == self@,
    {
        self.issued
    }
}

impl Item {
    /// Hands out a fresh identifier: the one after the highest that `counter`
    /// has handed out or seen, so it is above every earlier one.
    ///
    /// Returns `None`, and leaves the counter as it is, once the identifiers
    /// of the machine's word size are used up.
    pub fn generate_id(counter: &mut IdCounter) -> (id: Option<usize>)
        ensures
            match id {
                Some(id) => old(counter)@ < usize::MAX && id == next_id(old(counter)@)
                    && final(counter)@ == id,
                None => old(counter)@ == usize::MAX && final(counter)@ == old(counter)@,
            },
    {
        if counter.issued < usize::MAX {
            counter.issued = counter.issued + 1;
            Some(counter.issued)
        } else {
            None
        }
    }
}

} // verus!
