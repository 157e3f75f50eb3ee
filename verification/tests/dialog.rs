use item_crud::input::{TextInput, TextInputMsg, TextInputProps};
use item_crud::item::{Item, ItemValidationErr};
use item_crud::modal::{Modal, ModalEvent, ModalMsg, ModalProperties};

fn item(id: usize, name: &str, price: &str) -> Item {
    Item { id, name: name.to_string(), price: price.to_string() }
}

fn saved(event: Option<ModalEvent>) -> Item {
    match event {
        Some(ModalEvent::Saved(item)) => item,
        other => panic!("no item was saved: {:?}", other),
    }
}

#[test]
fn a_created_dialog_has_empty_drafts() {
    let modal = Modal::create(ModalProperties { item: item(4, "Widget", "12.5"), visible: true });
    assert_eq!(modal.item, item(4, "Widget", "12.5"));
    assert_eq!(modal.name, "");
    assert_eq!(modal.price, "");
    assert!(modal.visible);
    assert_eq!(modal.error(), &None);
}

#[test]
fn opening_for_a_new_item_gives_empty_drafts_and_no_identifier() {
    let mut modal = Modal::create(ModalProperties { item: Item::default(), visible: false });
    assert!(modal.change(ModalProperties { item: Item::default(), visible: true }));
    assert_eq!(modal.item.id, 0);
    assert_eq!(modal.name, "");
    assert_eq!(modal.price, "");
    assert!(modal.visible);
    assert_eq!(modal.error(), &None);
    assert_eq!(modal.title(), "New Item");
}

#[test]
fn opening_for_an_item_fills_the_drafts_from_it() {
    let mut modal = Modal::create(ModalProperties { item: Item::default(), visible: false });
    assert!(modal.change(ModalProperties { item: item(4, "Widget", "12.5"), visible: true }));
    assert_eq!(modal.item, item(4, "Widget", "12.5"));
    assert_eq!(modal.name, "Widget");
    assert_eq!(modal.price, "12.5");
    assert!(modal.visible);
    assert_eq!(modal.error(), &None);
    assert_eq!(modal.title(), "Update Item");
}

#[test]
fn changing_a_field_touches_that_field_only_and_checks_nothing() {
    let props = ModalProperties { item: item(4, "Widget", "12.5"), visible: true };
    let mut modal = Modal::create(props);
    modal.change(ModalProperties { item: item(4, "Widget", "12.5"), visible: true });
    let outcome = modal.update(ModalMsg::SetName("x".to_string()));
    assert!(outcome.render);
    assert!(outcome.event.is_none());
    assert_eq!(modal.name, "x");
    assert_eq!(modal.price, "12.5");
    assert_eq!(modal.error(), &None);
    let outcome = modal.update(ModalMsg::SetPrice("oops".to_string()));
    assert!(outcome.render);
    assert!(outcome.event.is_none());
    assert_eq!(modal.name, "x");
    assert_eq!(modal.price, "oops");
    assert_eq!(modal.error(), &None);
    assert_eq!(modal.item, item(4, "Widget", "12.5"));
    assert!(modal.visible);
}

#[test]
fn saving_a_valid_draft_closes_the_dialog_and_keeps_the_identifier() {
    let mut modal = Modal::create(ModalProperties { item: Item::default(), visible: false });
    modal.change(ModalProperties { item: item(4, "Widget", "12.5"), visible: true });
    modal.update(ModalMsg::SetPrice("15".to_string()));
    let outcome = modal.update(ModalMsg::Save);
    assert!(outcome.render);
    assert_eq!(saved(outcome.event), item(4, "Widget", "15"));
    assert!(!modal.visible);
    assert_eq!(modal.error(), &None);
}

#[test]
fn saving_a_new_item_hands_over_an_item_without_identifier() {
    let mut modal = Modal::create(ModalProperties { item: Item::default(), visible: true });
    modal.update(ModalMsg::SetName("Widget".to_string()));
    modal.update(ModalMsg::SetPrice("12.5".to_string()));
    let outcome = modal.update(ModalMsg::Save);
    assert_eq!(saved(outcome.event), item(0, "Widget", "12.5"));
    assert!(!modal.visible);
}

#[test]
fn saving_an_invalid_draft_keeps_the_dialog_open_with_the_errors() {
    let mut modal = Modal::create(ModalProperties { item: Item::default(), visible: true });
    let outcome = modal.update(ModalMsg::Save);
    assert!(outcome.render);
    assert!(outcome.event.is_none());
    assert!(modal.visible);
    assert_eq!(
        modal.error(),
        &Some(vec![ItemValidationErr::InvalidName, ItemValidationErr::InvalidPrice])
    );
}

#[test]
fn a_later_failure_replaces_the_earlier_errors() {
    let mut modal = Modal::create(ModalProperties { item: Item::default(), visible: true });
    modal.update(ModalMsg::Save);
    modal.update(ModalMsg::SetName("Widget".to_string()));
    assert_eq!(
        modal.error(),
        &Some(vec![ItemValidationErr::InvalidName, ItemValidationErr::InvalidPrice])
    );
    let outcome = modal.update(ModalMsg::Save);
    assert!(outcome.event.is_none());
    assert_eq!(modal.error(), &Some(vec![ItemValidationErr::InvalidPrice]));
    modal.update(ModalMsg::SetName("".to_string()));
    modal.update(ModalMsg::SetPrice("3".to_string()));
    modal.update(ModalMsg::Save);
    assert_eq!(modal.error(), &Some(vec![ItemValidationErr::InvalidName]));
}

#[test]
fn opening_again_drops_stale_errors() {
    let mut modal = Modal::create(ModalProperties { item: Item::default(), visible: true });
    modal.update(ModalMsg::Save);
    assert!(modal.error().is_some());
    modal.change(ModalProperties { item: Item::default(), visible: true });
    assert_eq!(modal.error(), &None);
    modal.update(ModalMsg::Save);
    assert!(modal.error().is_some());
    modal.change(ModalProperties { item: item(1, "Widget", "12.5"), visible: true });
    assert_eq!(modal.error(), &None);
}

#[test]
fn cancelling_closes_the_dialog_without_an_item() {
    let props = ModalProperties { item: item(1, "Widget", "12.5"), visible: true };
    let mut modal = Modal::create(props);
    modal.update(ModalMsg::SetName("Gadget".to_string()));
    let outcome = modal.update(ModalMsg::HideModal);
    assert!(outcome.render);
    assert!(matches!(outcome.event, Some(ModalEvent::Closed)));
    assert!(!modal.visible);
    assert_eq!(modal.name, "Gadget");
    assert_eq!(modal.item, item(1, "Widget", "12.5"));
}

#[test]
fn props_can_be_cloned() {
    let props = ModalProperties { item: item(1, "Widget", "12.5"), visible: true };
    let copy = props.clone();
    assert_eq!(copy.item, props.item);
    assert_eq!(copy.visible, props.visible);
    let props = TextInputProps { value: "abc".to_string() };
    assert_eq!(props.clone().value, "abc");
}

#[test]
fn a_text_field_reports_edits_and_takes_over_what_is_handed_down() {
    let mut field = TextInput::create(TextInputProps { value: "Wid".to_string() });
    assert_eq!(field.value(), "Wid");
    let outcome = field.update(TextInputMsg::Changed("Widg".to_string()));
    assert!(!outcome.render);
    assert_eq!(outcome.input, "Widg");
    assert_eq!(field.value(), "Wid");
    assert!(field.change(TextInputProps { value: "Widg".to_string() }));
    assert_eq!(field.value(), "Widg");
}

#[test]
fn a_price_that_is_no_finite_number_is_not_handed_over() {
    for price in ["inf", "-Infinity", "NaN", "1e39", "1e999"] {
        let mut modal = Modal::create(ModalProperties { item: Item::default(), visible: true });
        modal.update(ModalMsg::SetName("ab".to_string()));
        modal.update(ModalMsg::SetPrice(price.to_string()));
        let outcome = modal.update(ModalMsg::Save);
        assert!(outcome.event.is_none(), "{:?}", price);
        assert!(modal.visible, "{:?}", price);
        assert_eq!(modal.error(), &Some(vec![ItemValidationErr::InvalidPrice]), "{:?}", price);
    }
}

#[test]
fn a_handed_over_price_can_be_stored_as_a_finite_number() {
    let prices =
        ["0", "12.5", "-3.4028235e38", "340282356779733661637539395458142568447", "1e-60"];
    for price in prices {
        let mut modal = Modal::create(ModalProperties { item: Item::default(), visible: true });
        modal.update(ModalMsg::SetName("ab".to_string()));
        modal.update(ModalMsg::SetPrice(price.to_string()));
        let item = saved(modal.update(ModalMsg::Save).event);
        assert!(item.price.parse::<f32>().unwrap().is_finite(), "{:?}", price);
    }
}

#[test]
fn the_dialog_can_be_read_through_its_getters() {
    let mut modal = Modal::create(ModalProperties { item: Item::default(), visible: false });
    modal.change(ModalProperties { item: item(4, "Widget", "12.5"), visible: true });
    modal.update(ModalMsg::SetPrice("15".to_string()));
    assert_eq!(modal.item(), &item(4, "Widget", "12.5"));
    assert_eq!(modal.name(), "Widget");
    assert_eq!(modal.price(), "15");
    assert!(modal.visible());
    modal.update(ModalMsg::HideModal);
    assert!(!modal.visible());
}
