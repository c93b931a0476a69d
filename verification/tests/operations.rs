use bookshelf::book::{BookPayload, normalize_author, normalize_title, title_ok};
use bookshelf::dates::Date;
use bookshelf::service::{
    STATUS_BAD_INPUT, STATUS_CREATED, STATUS_INTERNAL, STATUS_NOT_FOUND, STATUS_NO_CONTENT,
    STATUS_OK, ServiceError, delete_outcome, error_status, home_message,
};
use bookshelf::store::BookStore;
use bookshelf::text::trim_str;

fn payload(title: &str, author: Option<&str>, stock: i32, date: Option<Date>) -> BookPayload {
    BookPayload {
        title: title.to_string(),
        author: author.map(|a| a.to_string()),
        stock,
        published_date: date,
    }
}

#[test]
fn create_then_get_returns_equal_record() {
    let mut st = BookStore::new();
    let created = st
        .create(&payload("Dune", Some("Frank Herbert"), 5, None), 1_700_000_000_000_000)
        .unwrap();
    let fetched = st.get(created.id).unwrap();
    assert_eq!(created, fetched);
}

#[test]
fn create_populates_fresh_positive_id_title_and_created_at() {
    let mut st = BookStore::new();
    let now: i64 = 1_700_000_000_000_000;
    let b = st.create(&payload("Dune", Some("Frank Herbert"), 5, None), now).unwrap();
    assert!(b.id > 0);
    assert_eq!(b.id, 1);
    assert_eq!(b.title, "Dune");
    assert_eq!(b.author.as_deref(), Some("Frank Herbert"));
    assert_eq!(b.stock, 5);
    assert_eq!(b.created_at, now);
}

#[test]
fn create_rejects_empty_and_blank_titles_without_storing() {
    let mut st = BookStore::new();
    assert_eq!(st.create(&payload("", None, 1, None), 0), Err(ServiceError::BadInput));
    assert_eq!(st.create(&payload("   \t\n", None, 1, None), 0), Err(ServiceError::BadInput));
    assert_eq!(st.list().len(), 0);
}

#[test]
fn update_rejects_blank_title_without_changing_record() {
    let mut st = BookStore::new();
    let b = st.create(&payload("Dune", None, 5, None), 42).unwrap();
    let before = st.list().len();
    let r = st.update(b.id, &payload("", None, 1, None));
    assert_eq!(r, Err(ServiceError::BadInput));
    assert_eq!(error_status(ServiceError::BadInput), STATUS_BAD_INPUT);
    assert_eq!(st.list().len(), before);
    let unchanged = st.get(b.id).unwrap();
    assert_eq!(unchanged, b);
}

#[test]
fn absent_ids_fail_not_found_everywhere() {
    let mut st = BookStore::new();
    assert_eq!(st.get(999_999), Err(ServiceError::NotFound));
    assert_eq!(st.update(999_999, &payload("T", None, 0, None)), Err(ServiceError::NotFound));
    assert_eq!(st.delete(999_999), Err(ServiceError::NotFound));
    assert_eq!(error_status(ServiceError::NotFound), STATUS_NOT_FOUND);
}

#[test]
fn delete_succeeds_once_then_fails_not_found() {
    let mut st = BookStore::new();
    let b = st.create(&payload("Dune", None, 5, None), 0).unwrap();
    assert_eq!(st.delete(b.id), Ok(()));
    assert_eq!(st.delete(b.id), Err(ServiceError::NotFound));
    assert_eq!(st.get(b.id), Err(ServiceError::NotFound));
}

#[test]
fn update_keeps_id_and_created_at_and_replaces_the_rest() {
    let mut st = BookStore::new();
    let date = Date::new(1965, 8, 1);
    let b = st.create(&payload("Dune", Some("F. H."), 5, None), 77).unwrap();
    let u = st
        .update(b.id, &payload("  Dune Messiah ", Some(" Frank Herbert "), 3, date))
        .unwrap();
    assert_eq!(u.id, b.id);
    assert_eq!(u.created_at, b.created_at);
    assert_eq!(u.title, "Dune Messiah");
    assert_eq!(u.author.as_deref(), Some("Frank Herbert"));
    assert_eq!(u.stock, 3);
    assert_eq!(u.published_date, date);
    assert_eq!(st.get(b.id).unwrap(), u);
}

#[test]
fn author_round_trip_blank_becomes_absent_and_padding_is_trimmed() {
    let mut st = BookStore::new();
    let blank = st.create(&payload("A", Some("  "), 0, None), 0).unwrap();
    assert_eq!(blank.author, None);
    let padded = st.create(&payload("B", Some(" Jane "), 0, None), 0).unwrap();
    assert_eq!(padded.author.as_deref(), Some("Jane"));
    assert_eq!(st.get(blank.id).unwrap().author, None);
    assert_eq!(st.get(padded.id).unwrap().author.as_deref(), Some("Jane"));
}

#[test]
fn list_keeps_insertion_order_and_ids_are_never_reused() {
    let mut st = BookStore::new();
    let a = st.create(&payload("A", None, 0, None), 0).unwrap();
    let b = st.create(&payload("B", None, 0, None), 0).unwrap();
    let c = st.create(&payload("C", None, 0, None), 0).unwrap();
    assert_eq!(vec![a.id, b.id, c.id], vec![1, 2, 3]);
    st.delete(b.id).unwrap();
    let ids: Vec<i32> = st.list().iter().map(|x| x.id).collect();
    assert_eq!(ids, vec![1, 3]);
    let d = st.create(&payload("D", None, 0, None), 0).unwrap();
    assert_eq!(d.id, 4);
}

#[test]
fn stock_may_be_negative() {
    let mut st = BookStore::new();
    let b = st.create(&payload("Ledger", None, -3, None), 0).unwrap();
    assert_eq!(b.stock, -3);
}

#[test]
fn error_statuses_follow_the_taxonomy() {
    assert_eq!(error_status(ServiceError::BadInput), 400);
    assert_eq!(error_status(ServiceError::NotFound), 404);
    assert_eq!(error_status(ServiceError::Internal), STATUS_INTERNAL);
    assert_eq!(STATUS_INTERNAL, 500);
    assert_eq!(STATUS_OK, 200);
    assert_eq!(STATUS_CREATED, 201);
    assert_eq!(STATUS_NO_CONTENT, 204);
}

#[test]
fn delete_outcome_treats_zero_rows_as_not_found() {
    assert_eq!(delete_outcome(0), Err(ServiceError::NotFound));
    assert_eq!(delete_outcome(1), Ok(STATUS_NO_CONTENT));
    assert_eq!(delete_outcome(3), Ok(204));
}

#[test]
fn home_greeting_text() {
    assert_eq!(home_message(), "Welcome to Bookshelf API");
}

#[test]
fn trimming_handles_unicode_whitespace_and_blank_strings() {
    assert_eq!(trim_str("  Dune \t"), "Dune");
    assert_eq!(trim_str(""), "");
    assert_eq!(trim_str(" \u{a0}\u{3000} "), "");
    assert_eq!(trim_str("\u{2028}x\u{2009}y\u{205f}"), "x\u{2009}y");
    assert!(!title_ok(" \u{2003} "));
    assert!(title_ok(" x "));
}

#[test]
fn normalization_of_title_and_author() {
    assert_eq!(normalize_title("  Dune  "), Some("Dune".to_string()));
    assert_eq!(normalize_title("   "), None);
    assert_eq!(normalize_author(&Some("  ".to_string())), None);
    assert_eq!(normalize_author(&Some(" Jane ".to_string())), Some("Jane".to_string()));
    assert_eq!(normalize_author(&None), None);
}
