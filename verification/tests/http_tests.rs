use book_catalog::handlers::{health_body, health_status, list_status, lookup_status, route_status};
use book_catalog::routes::{parse_u32_from, route_of, Route};
use book_catalog::{Catalog, StoreError};

fn seeded() -> Catalog {
    let mut c = Catalog::new();
    c.initialize();
    c
}

#[test]
fn health_is_ok_regardless_of_store_state() {
    assert_eq!(health_status(), 200);
    assert_eq!(health_body(), "{\"status\":\"ok\"}");
}

#[test]
fn get_book_3_is_200_with_the_exact_record() {
    assert_eq!(route_of("GET", "/api/books/3"), Route::GetBook(3));
    let c = seeded();
    let r = c.get_by_id(3);
    assert_eq!(lookup_status(&r), 200);
    let b = r.unwrap();
    assert_eq!(b.id, 3);
    assert_eq!(b.title, "Designing Data-Intensive Applications");
    assert_eq!(b.author, "Martin Kleppmann");
    assert_eq!(b.year, 2017);
}

#[test]
fn get_book_99_is_404() {
    assert_eq!(route_of("GET", "/api/books/99"), Route::GetBook(99));
    let c = seeded();
    let r = c.get_by_id(99);
    assert_eq!(lookup_status(&r), 404);
}

#[test]
fn list_books_is_an_array_of_five_with_book_3() {
    assert_eq!(route_of("GET", "/api/books"), Route::ListBooks);
    let c = seeded();
    let books = c.list_all();
    assert_eq!(list_status(&Ok(c.list_all())), 200);
    assert_eq!(books.len(), 5);
    let three = books.iter().find(|b| b.id == 3).expect("id 3 is listed");
    assert_eq!(three.title, "Designing Data-Intensive Applications");
    assert_eq!(three.author, "Martin Kleppmann");
    assert_eq!(three.year, 2017);
}

#[test]
fn storage_failures_map_to_500() {
    assert_eq!(lookup_status(&Err(StoreError::Storage)), 500);
    assert_eq!(list_status(&Err(StoreError::Storage)), 500);
    assert_eq!(list_status(&Err(StoreError::NotFound)), 500);
}

#[test]
fn routes_match_method_and_path_exactly() {
    assert_eq!(route_of("GET", "/api/health"), Route::Health);
    assert_eq!(route_of("GET", "/api/books"), Route::ListBooks);
    assert_eq!(route_of("GET", "/api/books/1"), Route::GetBook(1));
    assert_eq!(route_of("POST", "/api/health"), Route::MethodNotAllowed);
    assert_eq!(route_of("POST", "/api/books/3"), Route::MethodNotAllowed);
    assert_eq!(route_of("GET", "/api/other"), Route::NotFound);
    assert_eq!(route_of("GET", "/"), Route::NotFound);
    assert_eq!(route_of("GET", "/api/books/"), Route::NotFound);
}

#[test]
fn non_numeric_id_segment_is_a_bad_request() {
    assert_eq!(route_of("GET", "/api/books/abc"), Route::BadRequest);
    assert_eq!(route_of("GET", "/api/books/3x"), Route::BadRequest);
    assert_eq!(route_of("GET", "/api/books/+3"), Route::BadRequest);
    assert_eq!(route_of("GET", "/api/books/-1"), Route::BadRequest);
    assert_eq!(route_of("GET", "/api/books/4294967296"), Route::BadRequest);
}

#[test]
fn id_segment_parses_as_decimal_u32() {
    assert_eq!(parse_u32_from("/api/books/42", 11), Some(42));
    assert_eq!(parse_u32_from("4294967295", 0), Some(u32::MAX));
    assert_eq!(parse_u32_from("4294967296", 0), None);
    assert_eq!(parse_u32_from("007", 0), Some(7));
    assert_eq!(parse_u32_from("", 0), None);
    assert_eq!(parse_u32_from("12a", 0), None);
    assert_eq!(route_of("GET", "/api/books/007"), Route::GetBook(7));
}

#[test]
fn route_statuses_cover_every_outcome() {
    assert_eq!(route_status(&Route::Health), 200);
    assert_eq!(route_status(&Route::ListBooks), 200);
    assert_eq!(route_status(&Route::GetBook(3)), 200);
    assert_eq!(route_status(&Route::BadRequest), 400);
    assert_eq!(route_status(&Route::NotFound), 404);
    assert_eq!(route_status(&Route::MethodNotAllowed), 405);
}
