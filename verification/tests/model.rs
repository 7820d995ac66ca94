use chonkit::model::{
    CollectionSearchColumn, List, Pagination, PaginationSort, Search, SortDirection, ToSearchColumn,
};

#[test]
fn pagination_limit_offset() {
    assert_eq!(Pagination::new(10, 1).to_limit_offset(), (10, 0));
    assert_eq!(Pagination::new(10, 3).to_limit_offset(), (10, 20));
    assert_eq!(Pagination::new(25, 2).to_limit_offset(), (25, 25));
}

#[test]
fn pagination_default_is_the_first_page_of_ten() {
    let p = Pagination::default();
    assert_eq!(p.to_limit_offset(), (10, 0));
    assert!(p.validate().is_ok());
}

#[test]
fn pagination_rules() {
    assert!(Pagination::new(1, 1).validate().is_ok());
    let e = Pagination::new(0, 0).validate().unwrap_err();
    let codes: Vec<&str> = e.errors.iter().map(|e| e.code.as_str()).collect();
    assert_eq!(codes, ["range", "range"]);
    assert!(Pagination::new(5, 0).validate().is_err());
}

#[test]
fn pagination_sort_defaults() {
    let p: PaginationSort<CollectionSearchColumn> = PaginationSort::default();
    assert_eq!(p.to_sort(), ("updated_at", "DESC"));
    assert_eq!(p.to_limit_offset(), (10, 0));

    let p: PaginationSort<CollectionSearchColumn> =
        PaginationSort::new(Pagination::new(5, 2), "name".to_string(), SortDirection::Asc);
    assert_eq!(p.to_sort(), ("name", "ASC"));
    assert_eq!(p.to_limit_offset(), (5, 5));

    let p: PaginationSort<CollectionSearchColumn> = PaginationSort::new_default_sort(Pagination::new(3, 1));
    assert_eq!(p.to_sort(), ("updated_at", "DESC"));

    let p: PaginationSort<CollectionSearchColumn> = PaginationSort {
        pagination: None,
        sort_by: None,
        sort_dir: None,
        search: None,
    };
    assert_eq!(p.to_limit_offset(), (10, 0));
}

#[test]
fn pagination_sort_rejects_injection() {
    let mut p: PaginationSort<CollectionSearchColumn> = PaginationSort::default();
    p.sort_by = Some("name; DROP TABLE documents".to_string());
    assert!(p.validate().is_err());
    p.sort_by = Some("documents.updated_at".to_string());
    assert!(p.validate().is_ok());
    p.sort_by = Some(String::new());
    assert!(p.validate().is_err());
    p.sort_by = Some("a".repeat(65));
    assert!(p.validate().is_err());
}

#[test]
fn search_rules() {
    let ok = Search { q: "my doc-1.pdf".to_string(), column: CollectionSearchColumn::Name };
    assert!(ok.validate().is_ok());
    let bad = Search { q: "drop;".to_string(), column: CollectionSearchColumn::Name };
    assert!(bad.validate().is_err());
    let empty = Search { q: String::new(), column: CollectionSearchColumn::Name };
    assert!(empty.validate().is_err());
    let mut p: PaginationSort<CollectionSearchColumn> = PaginationSort::default();
    p.search = Some(bad);
    assert!(p.validate().is_err());
}

#[test]
fn search_columns() {
    assert_eq!(CollectionSearchColumn::Model.to_search_column(), "model");
    assert_eq!(CollectionSearchColumn::Name.to_search_column_prefixed("c"), "c.name");
    assert_eq!(CollectionSearchColumn::Provider.to_search_column_prefixed("col"), "col.provider");
}

#[test]
fn list_keeps_items() {
    let l = List::new(Some(3), vec![1, 2, 3]);
    assert_eq!(l.total, Some(3));
    assert_eq!(l.into_items(), vec![1, 2, 3]);
}

#[test]
fn pagination_sort_error_codes_in_order() {
    let mut p: PaginationSort<CollectionSearchColumn> =
        PaginationSort::new(Pagination::new(0, 1), "bad column!".to_string(), SortDirection::Desc);
    p.search = Some(Search { q: String::new(), column: CollectionSearchColumn::Name });
    let codes: Vec<String> = p.validate().unwrap_err().errors.into_iter().map(|e| e.code).collect();
    assert_eq!(codes, ["range", "ascii_alphanumeric_underscored", "length"]);
}
