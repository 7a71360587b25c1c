//! The five operations over the store, each one statement against the model
//! and one shaped response, plus the two static endpoints and the homepage.

use vstd::prelude::*;
use crate::json::{item_json, items_array_json};
use crate::models::CreateItem;
use crate::responses::{api_info_body, created_item_response, delete_item_response, delete_ok_body, get_item_response, health_body, list_items_response, not_found_body, Response};
use crate::store::{ids_ascending, init_model, lemma_delete_absent_is_noop, lookup, remove_id, row_id, store_wf, ItemStore};
use crate::timestamp::{timestamp_text, Timestamp};

verus! {

/// The fixed homepage document listing the routes.
pub open spec fn home_body() -> Seq<char> {
    "<!DOCTYPE html><html><head><title>Rust API</title></head><body><h1>Rust REST API</h1><p>Welcome to the Rust API with PostgreSQL!</p><h2>Endpoints:</h2><div><code>GET /health</code> - Health check</div><div><code>GET /api/</code> - API information</div><div><code>GET /api/items</code> - List all items</div><div><code>POST /api/items</code> - Create new item</div><div><code>GET /api/items/{id}</code> - Get item by ID</div><div><code>DELETE /api/items/{id}</code> - Delete item by ID</div><h2>Try it:</h2><p><a href=\"/api/\">API Info</a> | <a href=\"/api/items\">Items List</a> | <a href=\"/health\">Health Check</a></p></body></html>"@
}

/// The liveness probe: always 200 with the fixed status payload.
pub fn health() -> (r: Response)
    ensures
        r.status == 200,
        r.body@ == health_body(),
{
    Response {
        status: 200,
        body: String::from_str("{\"status\":\"ok\",\"message\":\"Rust API is running\"}"),
    }
}

/// The metadata endpoint: always 200 with the route listing.
pub fn api_info() -> (r: Response)
    ensures
        r.status == 200,
        r.body@ == api_info_body(),
{
    Response {
        status: 200,
        body: String::from_str(
            "{\"name\":\"Rust REST API\",\"version\":\"1.0.0\",\"endpoints\":{\"GET /\":\"Homepage\",\"GET /health\":\"Health check\",\"GET /api/\":\"API info\",\"GET /api/items\":\"List all items\",\"POST /api/items\":\"Create new item\",\"GET /api/items/{id}\":\"Get item by ID\",\"DELETE /api/items/{id}\":\"Delete item by ID\"}}",
        ),
    }
}

/// The homepage: always 200 with the fixed HTML document.
pub fn home() -> (r: Response)
    ensures
        r.status == 200,
        r.body@ == home_body(),
{
    Response {
        status: 200,
        body: String::from_str(
            "<!DOCTYPE html><html><head><title>Rust API</title></head><body><h1>Rust REST API</h1><p>Welcome to the Rust API with PostgreSQL!</p><h2>Endpoints:</h2><div><code>GET /health</code> - Health check</div><div><code>GET /api/</code> - API information</div><div><code>GET /api/items</code> - List all items</div><div><code>POST /api/items</code> - Create new item</div><div><code>GET /api/items/{id}</code> - Get item by ID</div><div><code>DELETE /api/items/{id}</code> - Delete item by ID</div><h2>Try it:</h2><p><a href=\"/api/\">API Info</a> | <a href=\"/api/items\">Items List</a> | <a href=\"/health\">Health Check</a></p></body></html>",
        ),
    }
}

/// Lists every row, in ascending id order, as a JSON array with status 200.
pub fn list_items(store: &ItemStore) -> (r: Response)
    requires
        store_wf(store@),
    ensures
        r.status == 200,
        r.body@ == items_array_json(store@.rows),
        ids_ascending(store@.rows),
{
    let items = store.list();
    list_items_response(&items)
}

/// Fetches one row by id: 200 with the row as JSON when it exists, else 404
/// with the not-found body.
pub fn get_item(store: &ItemStore, id: i32) -> (r: Response)
    ensures
        lookup(store@.rows, id) is Some ==> r.status == 200 && r.body@ == item_json(
            lookup(store@.rows, id)->Some_0,
        ),
        lookup(store@.rows, id) is None ==> r.status == 404 && r.body@ == not_found_body(),
{
    let row = store.get(id);
    get_item_response(row)
}

/// Creates one row from the payload: the store assigns the next id and the
/// given creation instant, and the answer is 201 with the persisted row as
/// JSON.  The new id is strictly greater than every id already in the table.
pub fn create_item(store: &mut ItemStore, req: CreateItem, now: Timestamp) -> (r: Response)
    requires
        store_wf(old(store)@),
        old(store)@.next_id < i32::MAX,
        now.wf(),
    ensures
        store_wf(final(store)@),
        r.status == 201,
        final(store)@.rows == old(store)@.rows.push(final(store)@.rows.last()),
        final(store)@.rows.last().id == Some(old(store)@.next_id),
        final(store)@.rows.last().name == req@.name,
        final(store)@.rows.last().description == req@.description,
        final(store)@.rows.last().created_at == Some(timestamp_text(now)),
        r.body@ == item_json(final(store)@.rows.last()),
        final(store)@.next_id == old(store)@.next_id + 1,
        final(store)@.initialized == old(store)@.initialized,
        forall|k: int|
            0 <= k < old(store)@.rows.len() ==> row_id(#[trigger] old(store)@.rows[k]) < row_id(
                final(store)@.rows.last(),
            ),
{
    let it = store.insert(req, now);
    let r = created_item_response(&it);
    proof {
        assert(store@.rows.last() == it@);
    }
    r
}

/// Deletes one row by id, judging success by whether a row actually went:
/// 200 with a confirmation echoing the id when one did, else 404 with the
/// not-found body and the table exactly as it was.
pub fn delete_item(store: &mut ItemStore, id: i32) -> (r: Response)
    requires
        store_wf(old(store)@),
    ensures
        store_wf(final(store)@),
        final(store)@.rows == remove_id(old(store)@.rows, id),
        final(store)@.next_id == old(store)@.next_id,
        final(store)@.initialized == old(store)@.initialized,
        lookup(old(store)@.rows, id) is Some ==> r.status == 200 && r.body@ == delete_ok_body(id),
        lookup(old(store)@.rows, id) is None ==> r.status == 404 && r.body@ == not_found_body()
            && final(store)@.rows == old(store)@.rows,
{
    let deleted = store.delete(id);
    proof {
        if lookup(old(store)@.rows, id) is None {
            lemma_delete_absent_is_noop(old(store)@.rows, id);
        }
    }
    let affected: u64 = if deleted {
        1
    } else {
        0
    };
    delete_item_response(affected, id)
}

/// Runs the idempotent schema statement at startup: afterwards the schema
/// exists, and the rows and the id counter are exactly what they were.
/// Against the model store this never fails; a failure of the real
/// statement is fatal to the process before it serves traffic.
pub fn init_db(store: &mut ItemStore)
    ensures
        final(store)@ == init_model(old(store)@),
{
    store.init_db();
}

} // verus!
