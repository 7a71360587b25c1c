use items_api::handlers::{api_info, create_item, delete_item, get_item, health, home, init_db, list_items};
use items_api::models::CreateItem;
use items_api::responses::{db_error_response, delete_item_response, get_item_response, not_found_response};
use items_api::store::ItemStore;
use items_api::timestamp::Timestamp;

fn noon(day: u32) -> Timestamp {
    Timestamp { year: 2024, month: 1, day, hour: 12, minute: 0, second: 0 }
}

fn widget_payload() -> CreateItem {
    CreateItem { name: "Widget".to_string(), description: Some("A thing".to_string()) }
}

#[test]
fn health_reports_ok() {
    let r = health();
    assert_eq!(r.status, 200);
    assert_eq!(r.body, "{\"status\":\"ok\",\"message\":\"Rust API is running\"}");
}

#[test]
fn api_info_lists_every_endpoint() {
    let r = api_info();
    assert_eq!(r.status, 200);
    assert_eq!(
        r.body,
        "{\"name\":\"Rust REST API\",\"version\":\"1.0.0\",\"endpoints\":{\"GET /\":\"Homepage\",\"GET /health\":\"Health check\",\"GET /api/\":\"API info\",\"GET /api/items\":\"List all items\",\"POST /api/items\":\"Create new item\",\"GET /api/items/{id}\":\"Get item by ID\",\"DELETE /api/items/{id}\":\"Delete item by ID\"}}"
    );
}

#[test]
fn home_is_a_fixed_page() {
    let r = home();
    assert_eq!(r.status, 200);
    assert!(r.body.starts_with("<!DOCTYPE html>"));
    assert!(r.body.contains("GET /api/items"));
    assert!(r.body.contains("DELETE /api/items/{id}"));
}

#[test]
fn create_widget_returns_created_row() {
    let mut store = ItemStore::new();
    init_db(&mut store);
    let r = create_item(&mut store, widget_payload(), Timestamp {
        year: 2024,
        month: 1,
        day: 15,
        hour: 10,
        minute: 30,
        second: 0,
    });
    assert_eq!(r.status, 201);
    assert_eq!(
        r.body,
        "{\"id\":1,\"name\":\"Widget\",\"description\":\"A thing\",\"created_at\":\"2024-01-15 10:30:00\"}"
    );
}

#[test]
fn created_ids_ascend() {
    let mut store = ItemStore::new();
    init_db(&mut store);
    for day in 1..=3u32 {
        let payload = CreateItem { name: format!("item-{day}"), description: None };
        let r = create_item(&mut store, payload, noon(day));
        assert_eq!(r.status, 201);
    }
    let items = store.list();
    let ids: Vec<i32> = items.iter().map(|it| it.id.unwrap()).collect();
    assert_eq!(ids, vec![1, 2, 3]);
}

#[test]
fn empty_name_is_accepted_permissively() {
    let mut store = ItemStore::new();
    init_db(&mut store);
    let r = create_item(
        &mut store,
        CreateItem { name: String::new(), description: None },
        noon(1),
    );
    assert_eq!(r.status, 201);
    assert_eq!(
        r.body,
        "{\"id\":1,\"name\":\"\",\"description\":null,\"created_at\":\"2024-01-01 12:00:00\"}"
    );
}

#[test]
fn get_missing_item_is_not_found() {
    let store = ItemStore::new();
    let r = get_item(&store, 999);
    assert_eq!(r.status, 404);
    assert_eq!(r.body, "{\"error\":\"Item not found\"}");
}

#[test]
fn created_item_round_trips() {
    let mut store = ItemStore::new();
    init_db(&mut store);
    let created = create_item(&mut store, widget_payload(), noon(15));
    let fetched = get_item(&store, 1);
    assert_eq!(fetched.status, 200);
    assert_eq!(fetched.body, created.body);
    let row = store.get(1).unwrap();
    assert_eq!(row.name, "Widget");
    assert_eq!(row.description.as_deref(), Some("A thing"));
    assert_eq!(row.created_at.as_deref(), Some("2024-01-15 12:00:00"));
}

#[test]
fn init_twice_changes_nothing() {
    let mut store = ItemStore::new();
    init_db(&mut store);
    create_item(&mut store, widget_payload(), noon(1));
    init_db(&mut store);
    init_db(&mut store);
    assert_eq!(store.count(), 1);
    assert_eq!(get_item(&store, 1).status, 200);
}

#[test]
fn delete_missing_leaves_table_unchanged() {
    let mut store = ItemStore::new();
    init_db(&mut store);
    create_item(&mut store, widget_payload(), noon(1));
    let before = store.count();
    let r = delete_item(&mut store, 42);
    assert_eq!(r.status, 404);
    assert_eq!(r.body, "{\"error\":\"Item not found\"}");
    assert_eq!(store.count(), before);
}

#[test]
fn delete_existing_removes_exactly_one_row() {
    let mut store = ItemStore::new();
    init_db(&mut store);
    create_item(&mut store, widget_payload(), noon(1));
    create_item(&mut store, CreateItem { name: "Other".to_string(), description: None }, noon(2));
    let r = delete_item(&mut store, 1);
    assert_eq!(r.status, 200);
    assert_eq!(r.body, "{\"message\":\"Item deleted successfully\",\"id\":1}");
    assert_eq!(store.count(), 1);
    assert_eq!(get_item(&store, 1).status, 404);
    assert_eq!(get_item(&store, 2).status, 200);
}

#[test]
fn listing_returns_items_in_ascending_id_order() {
    let mut store = ItemStore::new();
    init_db(&mut store);
    for day in 1..=3u32 {
        let payload = CreateItem { name: format!("n{day}"), description: None };
        create_item(&mut store, payload, noon(day));
    }
    delete_item(&mut store, 2);
    create_item(&mut store, CreateItem { name: "n4".to_string(), description: None }, noon(4));
    let r = list_items(&store);
    assert_eq!(r.status, 200);
    assert_eq!(
        r.body,
        "[{\"id\":1,\"name\":\"n1\",\"description\":null,\"created_at\":\"2024-01-01 12:00:00\"},{\"id\":3,\"name\":\"n3\",\"description\":null,\"created_at\":\"2024-01-03 12:00:00\"},{\"id\":4,\"name\":\"n4\",\"description\":null,\"created_at\":\"2024-01-04 12:00:00\"}]"
    );
}

#[test]
fn listing_empty_table_is_an_empty_array() {
    let store = ItemStore::new();
    let r = list_items(&store);
    assert_eq!(r.status, 200);
    assert_eq!(r.body, "[]");
}

#[test]
fn storage_failure_body_is_generic() {
    let r = db_error_response();
    assert_eq!(r.status, 500);
    assert_eq!(r.body, "{\"error\":\"Database error\"}");
}

#[test]
fn not_found_body_is_structured() {
    let r = not_found_response();
    assert_eq!(r.status, 404);
    assert_eq!(r.body, "{\"error\":\"Item not found\"}");
}

#[test]
fn delete_decision_follows_affected_rows() {
    let gone = delete_item_response(1, 7);
    assert_eq!(gone.status, 200);
    assert_eq!(gone.body, "{\"message\":\"Item deleted successfully\",\"id\":7}");
    let missing = delete_item_response(0, 7);
    assert_eq!(missing.status, 404);
    assert_eq!(missing.body, "{\"error\":\"Item not found\"}");
}

#[test]
fn fetch_decision_follows_the_row() {
    let none = get_item_response(None);
    assert_eq!(none.status, 404);
    assert_eq!(none.body, "{\"error\":\"Item not found\"}");
    let mut store = ItemStore::new();
    create_item(&mut store, widget_payload(), noon(15));
    let some = get_item_response(store.get(1));
    assert_eq!(some.status, 200);
    assert_eq!(
        some.body,
        "{\"id\":1,\"name\":\"Widget\",\"description\":\"A thing\",\"created_at\":\"2024-01-15 12:00:00\"}"
    );
}
