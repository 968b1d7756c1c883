use webauthn_core::api::{AddItem, AddList, IdResponse, ListWithItems, UpdateItem};
use webauthn_core::db::{affected, with_items};
use webauthn_core::errors::ErrorType;
use webauthn_core::models::{Item, List};

fn list() -> List {
    List { id: 3, user_id: 9, title: "Groceries".to_string(), subtitle: "this week".to_string() }
}

fn item(id: i64) -> Item {
    Item { id, list_id: 3, title: format!("item {}", id), amount: 2 }
}

#[test]
fn a_list_request_becomes_a_list_of_its_owner() {
    let body = AddList { title: "Groceries".to_string(), subtitle: "this week".to_string() };
    let dto = body.to_dto(9);
    assert_eq!(dto.user_id, 9);
    assert_eq!(dto.title, "Groceries");
    assert_eq!(dto.subtitle, "this week");
    assert_eq!(body.title, "Groceries");
}

#[test]
fn an_item_request_becomes_an_item() {
    let body = AddItem { list_id: 3, title: "Milk".to_string(), amount: -2 };
    let dto = body.to_dto();
    assert_eq!(dto.list_id, 3);
    assert_eq!(dto.title, "Milk");
    assert_eq!(dto.amount, -2);
}

#[test]
fn an_item_update_carries_title_and_amount() {
    let body = UpdateItem { title: "Oat milk".to_string(), amount: 1 };
    assert_eq!(body.title, "Oat milk");
    assert_eq!(body.amount, 1);
}

#[test]
fn a_list_is_shown_with_its_items() {
    let shown = ListWithItems::new(list(), vec![item(1), item(2)]);
    assert_eq!(shown.id, 3);
    assert_eq!(shown.title, "Groceries");
    assert_eq!(shown.subtitle, "this week");
    assert_eq!(shown.items.len(), 2);
    assert_eq!(shown.items[0].id, 1);
    assert_eq!(shown.items[1].title, "item 2");
}

#[test]
fn an_id_response_carries_the_id() {
    assert_eq!(IdResponse::new(42).id, 42);
    assert_eq!(IdResponse::new(-1).id, -1);
}

#[test]
fn a_change_that_touched_no_row_is_not_found() {
    let outcome = affected(0, "List not found");
    let error = outcome.unwrap_err();
    assert_eq!(error.err_type, ErrorType::NotFound);
    assert_eq!(error.message, "List not found");
    assert_eq!(error.to_http_status(), 404);
}

#[test]
fn a_change_that_touched_rows_reports_their_number() {
    assert_eq!(affected(1, "Item not found").unwrap(), 1);
    assert_eq!(affected(12, "Item not found").unwrap(), 12);
}

#[test]
fn a_list_whose_items_did_not_load_is_shown_empty() {
    let (found, items) = with_items(list(), None);
    assert_eq!(found.id, 3);
    assert!(items.is_empty());
    let (found, items) = with_items(list(), Some(vec![item(4)]));
    assert_eq!(found.title, "Groceries");
    assert_eq!(items.len(), 1);
    assert_eq!(items[0].id, 4);
}

#[test]
fn a_stock_item_has_a_name_and_a_quantity() {
    let stocked = webauthn_core::localstore::Item { name: "flour".to_string(), quantity: 3 };
    assert_eq!(stocked.name, "flour");
    assert_eq!(stocked.quantity, 3);
}
