//! The handlers' decisions: the fixed health payload, and the mapping
//! from store outcomes to HTTP status codes.

use vstd::prelude::*;
use crate::book::Book;
use crate::catalog::StoreError;
use crate::routes::Route;

verus! {

/// The health check's status code.  It is a constant: the health
/// check succeeds whatever the state of the store.
pub fn health_status() -> (s: u16)
    ensures
        s == 200,
{
    200
}

/// The health check's body.  It too is a constant, independent of the
/// state of the store.
pub fn health_body() -> (r: String)
    ensures
        r@ == "{\"status\":\"ok\"}"@,
{
    "{\"status\":\"ok\"}".to_owned()
}

/// The status for a get-by-id outcome: a found record is 200, an
/// absent identifier is 404, and a storage failure is 500.
pub fn lookup_status(r: &Result<Book, StoreError>) -> (s: u16)
    ensures
        r is Ok ==> s == 200,
        r matches Err(e) && e is NotFound ==> s == 404,
        r matches Err(e) && e is Storage ==> s == 500,
{
    match r {
        Ok(_) => 200,
        Err(StoreError::NotFound) => 404,
        Err(StoreError::Storage) => 500,
    }
}

/// The status for a list outcome: any failure of the store is 500,
/// never a not-found (an empty catalog is a normal, empty result).
pub fn list_status(r: &Result<Vec<Book>, StoreError>) -> (s: u16)
    ensures
        r is Ok ==> s == 200,
        r is Err ==> s == 500,
{
    match r {
        Ok(_) => 200,
        Err(_) => 500,
    }
}

/// The status a route itself decides, before any store call: the
/// three handled routes answer 200 on success; an id segment that is
/// not an unsigned integer is 400; an unknown path is 404; a known
/// path with the wrong method is 405.
pub fn route_status(r: &Route) -> (s: u16)
    ensures
        r is Health || r is ListBooks || r is GetBook ==> s == 200,
        r is BadRequest ==> s == 400,
        r is NotFound ==> s == 404,
        r is MethodNotAllowed ==> s == 405,
{
    match r {
        Route::Health => 200,
        Route::ListBooks => 200,
        Route::GetBook(_) => 200,
        Route::BadRequest => 400,
        Route::NotFound => 404,
        Route::MethodNotAllowed => 405,
    }
}

} // verus!
