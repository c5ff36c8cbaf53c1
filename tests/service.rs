use books_service::dates::{normalize_date, DateError};
use books_service::decimal::parse_i32;
use books_service::handlers::{
    authorized, books_delete, books_get, books_post, check_payload, chunk_fits, created_reply, deleted_reply,
    index, offset_param, page_reply, status_of, Failure, ReplyBody, MAX_SIZE,
};
use books_service::import::{books_import, import_plan, search_term};
use books_service::models::{
    ApiError, Book, Date, GoogleBook, GoogleBooksRoot, ImportBooksParams, VolumeInfo,
};
use books_service::store::{BookTable, StoreError};

fn book(title: &str, author: &str, year: i32) -> Book {
    Book::new(0, title.to_string(), vec![author.to_string()], Date::year_start(year))
}

fn seeded(n: i32) -> BookTable {
    let mut t = BookTable::new();
    for k in 0..n {
        t.insert(book(&format!("title {}", k), "someone", 1900 + k)).unwrap();
    }
    t
}

fn page_ids(t: &BookTable, offset: &str) -> Vec<i32> {
    let r = books_get(t, Some(offset));
    assert_eq!(r.status, 200);
    match r.body {
        ReplyBody::Page(v) => v.iter().map(|b| b.id).collect(),
        _ => panic!("no page"),
    }
}

fn record(title: &str, date: &str) -> GoogleBook {
    GoogleBook {
        kind: "books#volume".to_string(),
        id: "x".to_string(),
        etag: "e".to_string(),
        self_link: "https://example.org".to_string(),
        volume_info: VolumeInfo {
            title: title.to_string(),
            authors: vec!["A. Writer".to_string(), "B. Writer".to_string()],
            publisher: None,
            published_date: date.to_string(),
            description: None,
            industry_identifiers: None,
            reading_modes: None,
            page_count: None,
            print_type: None,
            categories: None,
            ratings_count: None,
            maturity_rating: None,
            allow_anon_logging: None,
            content_version: None,
            panelization_summary: None,
            image_links: None,
            language: None,
            preview_link: None,
            info_link: None,
            canonical_volume_link: None,
        },
    }
}

fn catalog(items: Vec<GoogleBook>) -> GoogleBooksRoot {
    GoogleBooksRoot { kind: "books#volumes".to_string(), total_items: items.len() as i64, items }
}

#[test]
fn index_says_ok() {
    let r = index();
    assert_eq!(r.status, 200);
    match r.body {
        ReplyBody::Text(t) => assert_eq!(t, "OK"),
        _ => panic!("no text"),
    }
}

#[test]
fn api_error_keeps_message() {
    assert_eq!(ApiError::new("boom".to_string()).message, "boom");
}

#[test]
fn parse_i32_follows_std() {
    assert_eq!(parse_i32("1999"), Some(1999));
    assert_eq!(parse_i32("-42"), Some(-42));
    assert_eq!(parse_i32("+7"), Some(7));
    assert_eq!(parse_i32("2147483647"), Some(i32::MAX));
    assert_eq!(parse_i32("-2147483648"), Some(i32::MIN));
    assert_eq!(parse_i32("2147483648"), None);
    assert_eq!(parse_i32("99999999999999"), None);
    assert_eq!(parse_i32(""), None);
    assert_eq!(parse_i32("-"), None);
    assert_eq!(parse_i32("abc"), None);
    assert_eq!(parse_i32("12a"), None);
    for s in ["0", "15", "-0", "+123", "007", "1 2", " 1"] {
        assert_eq!(parse_i32(s), s.parse::<i32>().ok());
    }
}

#[test]
fn bare_year_is_first_of_january() {
    assert_eq!(normalize_date("1999"), Ok(Date { year: 1999, month: 1, day: 1 }));
}

#[test]
fn full_date_is_read() {
    assert_eq!(normalize_date("2001-07-04"), Ok(Date { year: 2001, month: 7, day: 4 }));
}

#[test]
fn other_lengths_give_the_sentinel() {
    let sentinel = Ok(Date { year: 0, month: 1, day: 1 });
    assert_eq!(normalize_date("??"), sentinel);
    assert_eq!(normalize_date(""), sentinel);
    assert_eq!(normalize_date("2001-07"), sentinel);
}

#[test]
fn unreadable_dates_are_errors() {
    assert_eq!(normalize_date("abcd"), Err(DateError::Year));
    assert_eq!(normalize_date("2001-13-45"), Err(DateError::Format));
    assert_eq!(normalize_date("2001/07/04"), Err(DateError::Format));
    assert_eq!(normalize_date("2001-02-29"), Err(DateError::Format));
}

#[test]
fn offset_defaults_to_zero() {
    assert_eq!(offset_param(None).ok().unwrap().offset, 0);
    assert_eq!(offset_param(Some("15")).ok().unwrap().offset, 15);
}

#[test]
fn unparsable_offset_is_bad_request() {
    let t = seeded(3);
    let r = books_get(&t, Some("abc"));
    assert_eq!(r.status, 400);
    assert!(matches!(r.body, ReplyBody::Problem(_)));
    assert!(offset_param(Some("1.5")).is_err());
}

#[test]
fn pages_are_ten_rows_from_the_offset() {
    let t = seeded(25);
    assert_eq!(page_ids(&t, "0"), (1..=10).collect::<Vec<i32>>());
    assert_eq!(page_ids(&t, "7"), (8..=17).collect::<Vec<i32>>());
    assert_eq!(page_ids(&t, "20"), (21..=25).collect::<Vec<i32>>());
    assert_eq!(page_ids(&t, "25"), Vec::<i32>::new());
    assert_eq!(page_ids(&t, "1000"), Vec::<i32>::new());
    let r = books_get(&t, None);
    match r.body {
        ReplyBody::Page(v) => assert_eq!(v.len(), 10),
        _ => panic!("no page"),
    }
}

#[test]
fn negative_offset_is_a_store_failure() {
    let t = seeded(2);
    assert_eq!(books_get(&t, Some("-1")).status, 500);
    assert_eq!(t.list(-1).err(), Some(StoreError::NegativeOffset));
}

#[test]
fn created_book_is_listed_with_its_fields() {
    let mut t = seeded(4);
    let r = books_post(&mut t, Some("Bearer s3"), Some("s3"), book("Dune", "F. Herbert", 1965));
    assert_eq!(r.status, 201);
    let id = match r.body {
        ReplyBody::Created(b) => b.id,
        _ => panic!("no book"),
    };
    assert_eq!(id, 5);
    let page = match books_get(&t, Some("0")).body {
        ReplyBody::Page(v) => v,
        _ => panic!("no page"),
    };
    let found = page.iter().find(|b| b.id == id).unwrap();
    assert_eq!(found.title, "Dune");
    assert_eq!(found.authors, vec!["F. Herbert".to_string()]);
    assert_eq!(found.publication_date, Date { year: 1965, month: 1, day: 1 });
}

#[test]
fn post_without_token_is_unauthorized() {
    let mut t = seeded(4);
    let r = books_post(&mut t, None, Some("s3"), book("Dune", "F. Herbert", 1965));
    assert_eq!(r.status, 401);
    assert_eq!(t.len(), 4);
    let r = books_post(&mut t, Some("Bearer nope"), Some("s3"), book("Dune", "F. Herbert", 1965));
    assert_eq!(r.status, 401);
    assert_eq!(t.len(), 4);
    let r = books_post(&mut t, None, None, book("Dune", "F. Herbert", 1965));
    assert_eq!(r.status, 201);
    assert_eq!(t.len(), 5);
}

#[test]
fn untitled_book_is_bad_request() {
    let mut t = seeded(1);
    let r = books_post(&mut t, Some("Bearer s3"), Some("s3"), book("", "Anon", 2000));
    assert_eq!(r.status, 400);
    assert!(matches!(r.body, ReplyBody::Problem(_)));
    assert_eq!(t.len(), 1);
    assert!(check_payload(&book("Emma", "J. Austen", 1815)).is_ok());
}

#[test]
fn authorization_compares_the_bearer_token() {
    assert!(authorized(Some("Bearer abc"), Some("abc")));
    assert!(!authorized(Some("Bearer abcd"), Some("abc")));
    assert!(!authorized(Some("bearer abc"), Some("abc")));
    assert!(!authorized(Some("abc"), Some("abc")));
    assert!(!authorized(None, Some("abc")));
    assert!(authorized(None, None));
}

#[test]
fn delete_twice_is_no_content_then_not_found() {
    let mut t = seeded(3);
    assert_eq!(books_delete(&mut t, Some("Bearer k"), Some("k"), 2).status, 204);
    assert_eq!(t.len(), 2);
    assert_eq!(books_delete(&mut t, Some("Bearer k"), Some("k"), 2).status, 404);
    assert_eq!(t.len(), 2);
    assert_eq!(books_delete(&mut t, Some("Bearer k"), Some("k"), 99).status, 404);
    assert_eq!(books_delete(&mut t, None, Some("k"), 1).status, 401);
    assert_eq!(t.len(), 2);
    assert_eq!(page_ids(&t, "0"), vec![1, 3]);
}

#[test]
fn status_codes_of_failures() {
    assert_eq!(status_of(Failure::Validation), 400);
    assert_eq!(status_of(Failure::Unauthorized), 401);
    assert_eq!(status_of(Failure::NotFound), 404);
    assert_eq!(status_of(Failure::Store), 500);
    assert_eq!(status_of(Failure::Import), 500);
}

#[test]
fn replies_of_store_outcomes() {
    assert_eq!(deleted_reply(Ok(1)).status, 204);
    assert_eq!(deleted_reply(Ok(0)).status, 404);
    assert_eq!(deleted_reply(Err(StoreError::IdsExhausted)).status, 500);
    assert_eq!(page_reply(Err(StoreError::NegativeOffset)).status, 500);
    let b = book("Emma", "J. Austen", 1815);
    let r = created_reply(&b, Ok(12));
    assert_eq!(r.status, 201);
    match r.body {
        ReplyBody::Created(c) => {
            assert_eq!(c.id, 12);
            assert_eq!(c.title, "Emma");
        },
        _ => panic!("no book"),
    }
    assert_eq!(created_reply(&b, Err(StoreError::IdsExhausted)).status, 500);
}

#[test]
fn empty_import_query_is_bad_request() {
    let r = search_term(&ImportBooksParams { q: String::new() });
    assert_eq!(r.err().unwrap().status, 400);
    assert_eq!(search_term(&ImportBooksParams { q: "rust".to_string() }).ok(), Some("rust".to_string()));
}

#[test]
fn import_skips_only_the_unreadable_record() {
    let root = catalog(vec![record("Good", "2001-07-04"), record("Bad", "20xx")]);
    let plan = import_plan(&root);
    assert_eq!(plan.len(), 1);
    assert_eq!(plan[0].title, "Good");
    assert_eq!(plan[0].publication_date, Date { year: 2001, month: 7, day: 4 });
    let mut t = seeded(2);
    let r = books_import(&mut t, Some(&root));
    assert_eq!(r.status, 200);
    assert_eq!(t.len(), 3);
    let page = match books_get(&t, Some("2")).body {
        ReplyBody::Page(v) => v,
        _ => panic!("no page"),
    };
    assert_eq!(page.len(), 1);
    assert_eq!(page[0].id, 3);
    assert_eq!(page[0].title, "Good");
    assert_eq!(page[0].authors, vec!["A. Writer".to_string(), "B. Writer".to_string()]);
}

#[test]
fn import_keeps_sentinel_and_year_records() {
    let root = catalog(vec![record("Old", "1999"), record("Odd", "??")]);
    let plan = import_plan(&root);
    assert_eq!(plan.len(), 2);
    assert_eq!(plan[0].publication_date, Date { year: 1999, month: 1, day: 1 });
    assert_eq!(plan[1].publication_date, Date { year: 0, month: 1, day: 1 });
}

#[test]
fn failed_fetch_stores_nothing() {
    let mut t = seeded(2);
    assert_eq!(books_import(&mut t, None).status, 500);
    assert_eq!(t.len(), 2);
}

#[test]
fn payload_limit() {
    assert!(chunk_fits(0, MAX_SIZE));
    assert!(!chunk_fits(1, MAX_SIZE));
    assert!(chunk_fits(1000, 24));
    assert!(!chunk_fits(usize::MAX, 1));
}
