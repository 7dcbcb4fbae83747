use book_catalog::{Book, Catalog, StoreError};

fn seeded() -> Catalog {
    let mut c = Catalog::new();
    c.initialize();
    c
}

#[test]
fn initialize_is_idempotent() {
    let mut c = Catalog::new();
    c.initialize();
    assert_eq!(c.len(), 5);
    c.initialize();
    assert_eq!(c.len(), 5);
}

#[test]
fn get_by_id_returns_requested_id() {
    let c = seeded();
    for id in 1u32..=5u32 {
        let b = c.get_by_id(id).unwrap();
        assert_eq!(b.id, id);
    }
}

#[test]
fn get_by_id_absent_is_not_found() {
    let c = seeded();
    for id in [0u32, 6, 42, 99, u32::MAX] {
        match c.get_by_id(id) {
            Err(StoreError::NotFound) => {}
            Err(StoreError::Storage) => panic!("absent id reported as a storage error"),
            Ok(_) => panic!("absent id reported as found"),
        }
    }
}

#[test]
fn list_all_after_initialize_has_ids_one_through_five() {
    let c = seeded();
    let books = c.list_all();
    assert_eq!(books.len(), 5);
    let mut ids: Vec<u32> = books.iter().map(|b| b.id).collect();
    ids.sort();
    assert_eq!(ids, vec![1, 2, 3, 4, 5]);
}

#[test]
fn list_all_empty_catalog_is_empty_not_an_error() {
    let c = Catalog::new();
    assert_eq!(c.list_all().len(), 0);
    assert_eq!(c.len(), 0);
}

#[test]
fn seeded_records_are_exact() {
    let c = seeded();
    let b = c.get_by_id(1).unwrap();
    assert_eq!(b.title, "The Rust Programming Language");
    assert_eq!(b.author, "Steve Klabnik");
    assert_eq!(b.year, 2019);
    let b = c.get_by_id(5).unwrap();
    assert_eq!(b.title, "Structure and Interpretation of Computer Programs");
    assert_eq!(b.author, "Harold Abelson");
    assert_eq!(b.year, 1996);
}

#[test]
fn insert_if_absent_ignores_duplicate_id() {
    let mut c = Catalog::new();
    c.insert_if_absent(Book::new(7, "A Title".to_string(), "An Author".to_string(), 2000));
    c.insert_if_absent(Book::new(7, "Another".to_string(), "Someone Else".to_string(), 2001));
    assert_eq!(c.len(), 1);
    let b = c.get_by_id(7).unwrap();
    assert_eq!(b.title, "A Title");
    assert_eq!(b.author, "An Author");
    assert_eq!(b.year, 2000);
}

#[test]
fn insert_if_absent_keeps_distinct_ids() {
    let mut c = Catalog::new();
    c.insert_if_absent(Book::new(10, "First".to_string(), "A".to_string(), 1990));
    c.insert_if_absent(Book::new(11, "Second".to_string(), "B".to_string(), 1991));
    assert_eq!(c.len(), 2);
    assert_eq!(c.get_by_id(10).unwrap().title, "First");
    assert_eq!(c.get_by_id(11).unwrap().title, "Second");
}

#[test]
fn seed_books_lists_the_five_records() {
    let seeds = book_catalog::seed::seed_books();
    assert_eq!(seeds.len(), 5);
    let ids: Vec<u32> = seeds.iter().map(|b| b.id).collect();
    assert_eq!(ids, vec![1, 2, 3, 4, 5]);
    assert_eq!(seeds[3].title, "Clean Code");
    assert_eq!(seeds[3].author, "Robert C. Martin");
    assert_eq!(seeds[3].year, 2008);
}

#[test]
fn duplicate_copies_every_field() {
    let b = Book::new(9, "T".to_string(), "A".to_string(), 1234);
    let d = b.duplicate();
    assert_eq!(d.id, 9);
    assert_eq!(d.title, "T");
    assert_eq!(d.author, "A");
    assert_eq!(d.year, 1234);
}
