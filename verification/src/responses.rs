//! Responses as plain values: a status code and a body, with the body text
//! pinned by spec-level renderings.

use vstd::prelude::*;
use crate::decimal::{dec_int, i32_to_decimal};
use crate::json::{item_json, items_array_json, items_to_json, item_to_json, models};
use crate::models::Item;

verus! {

/// One HTTP response: the status code and the body text.
pub struct Response {
    pub status: u16,
    pub body: String,
}

/// The liveness body: `{"status":"ok","message":"Rust API is running"}`.
pub open spec fn health_body() -> Seq<char> {
    "{\"status\":\"ok\",\"message\":\"Rust API is running\"}"@
}

/// The body sent when a requested id has no row:
/// `{"error":"Item not found"}`.
pub open spec fn not_found_body() -> Seq<char> {
    "{\"error\":\"Item not found\"}"@
}

/// The generic body for a storage failure: `{"error":"Database error"}`.
pub open spec fn db_error_body() -> Seq<char> {
    "{\"error\":\"Database error\"}"@
}

/// The body confirming a delete of `id`.
pub open spec fn delete_ok_body(id: i32) -> Seq<char> {
    "{\"message\":\"Item deleted successfully\",\"id\":"@ + dec_int(id as int) + "}"@
}

/// The metadata body listing every route.
pub open spec fn api_info_body() -> Seq<char> {
    "{\"name\":\"Rust REST API\",\"version\":\"1.0.0\",\"endpoints\":{\"GET /\":\"Homepage\",\"GET /health\":\"Health check\",\"GET /api/\":\"API info\",\"GET /api/items\":\"List all items\",\"POST /api/items\":\"Create new item\",\"GET /api/items/{id}\":\"Get item by ID\",\"DELETE /api/items/{id}\":\"Delete item by ID\"}}"@
}

/// A 404 carrying [`not_found_body`].
pub fn not_found_response() -> (r: Response)
    ensures
        r.status == 404,
        r.body@ == not_found_body(),
{
    Response { status: 404, body: String::from_str("{\"error\":\"Item not found\"}") }
}

/// A 500 carrying [`db_error_body`]; the storage detail is for the log, not
/// the client.
pub fn db_error_response() -> (r: Response)
    ensures
        r.status == 500,
        r.body@ == db_error_body(),
{
    Response { status: 500, body: String::from_str("{\"error\":\"Database error\"}") }
}

/// A 200 with all fetched rows as a JSON array, in the order given.
pub fn list_items_response(items: &Vec<Item>) -> (r: Response)
    ensures
        r.status == 200,
        r.body@ == items_array_json(models(items@)),
{
    Response { status: 200, body: items_to_json(items) }
}

/// A 201 with the freshly persisted row as its JSON object.
pub fn created_item_response(it: &Item) -> (r: Response)
    ensures
        r.status == 201,
        r.body@ == item_json(it@),
{
    Response { status: 201, body: item_to_json(it) }
}

/// What a fetch-by-id answers: the row as JSON when one came back, else a
/// 404 with [`not_found_body`].
pub fn get_item_response(row: Option<Item>) -> (r: Response)
    ensures
        match row {
            Some(it) => r.status == 200 && r.body@ == item_json(it@),
            None => r.status == 404 && r.body@ == not_found_body(),
        },
{
    match row {
        Some(it) => Response { status: 200, body: item_to_json(&it) },
        None => not_found_response(),
    }
}

/// What a delete answers, judged by the affected-row count alone: a
/// confirmation echoing `id` when a row went, else a 404.
pub fn delete_item_response(rows_affected: u64, id: i32) -> (r: Response)
    ensures
        rows_affected > 0 ==> r.status == 200 && r.body@ == delete_ok_body(id),
        rows_affected == 0 ==> r.status == 404 && r.body@ == not_found_body(),
{
    if rows_affected > 0 {
        let mut body = String::from_str("{\"message\":\"Item deleted successfully\",\"id\":");
        let digits = i32_to_decimal(id);
        body.append(digits.as_str());
        body.append("}");
        proof {
            assert(body@ =~= delete_ok_body(id));
        }
        Response { status: 200, body }
    } else {
        not_found_response()
    }
}

} // verus!
