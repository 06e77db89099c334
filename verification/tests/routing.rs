use rust_crud_api::route::{classify, method_from, route, Method, Route, Target};

#[test]
fn method_tokens_are_read_case_sensitively() {
    assert_eq!(method_from(b"GET"), Method::Get);
    assert_eq!(method_from(b"POST"), Method::Post);
    assert_eq!(method_from(b"PUT"), Method::Put);
    assert_eq!(method_from(b"DELETE"), Method::Delete);
    assert_eq!(method_from(b"PATCH"), Method::Unsupported);
    assert_eq!(method_from(b"HEAD"), Method::Unsupported);
    assert_eq!(method_from(b"OPTIONS"), Method::Unsupported);
    assert_eq!(method_from(b"get"), Method::Unsupported);
    assert_eq!(method_from(b"GETS"), Method::Unsupported);
    assert_eq!(method_from(b""), Method::Unsupported);
}

#[test]
fn the_collection_path_is_matched_exactly() {
    assert_eq!(classify(b"/users", "/users"), Target::Collection);
    assert_eq!(classify(b"/users/", "/users"), Target::Unknown);
    assert_eq!(classify(b"/user", "/users"), Target::Unknown);
    assert_eq!(classify(b"/userss", "/users"), Target::Unknown);
    assert_eq!(classify(b"/Users", "/users"), Target::Unknown);
    assert_eq!(classify(b"users", "/users"), Target::Unknown);
    assert_eq!(classify(b"/", "/users"), Target::Unknown);
    assert_eq!(classify(b"", "/users"), Target::Unknown);
}

#[test]
fn an_item_path_ends_in_a_numeral() {
    assert_eq!(classify(b"/users/1", "/users"), Target::Item(1));
    assert_eq!(classify(b"/users/0", "/users"), Target::Item(0));
    assert_eq!(classify(b"/users/007", "/users"), Target::Item(7));
    assert_eq!(classify(b"/users/2147483647", "/users"), Target::Item(2147483647));
}

#[test]
fn a_segment_that_is_no_id_gives_an_unknown_path() {
    assert_eq!(classify(b"/users/abc", "/users"), Target::Unknown);
    assert_eq!(classify(b"/users/-1", "/users"), Target::Unknown);
    assert_eq!(classify(b"/users/1/", "/users"), Target::Unknown);
    assert_eq!(classify(b"/users/1/posts", "/users"), Target::Unknown);
    assert_eq!(classify(b"/users/1a", "/users"), Target::Unknown);
    assert_eq!(classify(b"/users/2147483648", "/users"), Target::Unknown);
    assert_eq!(classify(b"/users/99999999999999999999", "/users"), Target::Unknown);
    assert_eq!(classify(b"/usersx1", "/users"), Target::Unknown);
    assert_eq!(classify(b"/other/1", "/users"), Target::Unknown);
}

#[test]
fn the_collection_path_can_be_another_one() {
    assert_eq!(classify(b"/user", "/user"), Target::Collection);
    assert_eq!(classify(b"/user/5", "/user"), Target::Item(5));
    assert_eq!(classify(b"/users", "/user"), Target::Unknown);
    assert_eq!(classify(b"/api/v1/people/12", "/api/v1/people"), Target::Item(12));
}

#[test]
fn target_id_is_there_for_item_paths_only() {
    assert_eq!(Target::Item(3).id(), Some(3));
    assert_eq!(Target::Collection.id(), None);
    assert_eq!(Target::Unknown.id(), None);
}

#[test]
fn the_routing_table_has_five_entries() {
    assert_eq!(route(Method::Get, Target::Collection), Route::List);
    assert_eq!(route(Method::Post, Target::Collection), Route::Create);
    assert_eq!(route(Method::Get, Target::Item(1)), Route::Fetch);
    assert_eq!(route(Method::Put, Target::Item(1)), Route::Update);
    assert_eq!(route(Method::Delete, Target::Item(1)), Route::Delete);
}

#[test]
fn every_other_combination_is_not_found() {
    assert_eq!(route(Method::Put, Target::Collection), Route::NotFound);
    assert_eq!(route(Method::Delete, Target::Collection), Route::NotFound);
    assert_eq!(route(Method::Unsupported, Target::Collection), Route::NotFound);
    assert_eq!(route(Method::Post, Target::Item(1)), Route::NotFound);
    assert_eq!(route(Method::Unsupported, Target::Item(1)), Route::NotFound);
    for method in [Method::Get, Method::Post, Method::Put, Method::Delete, Method::Unsupported] {
        assert_eq!(route(method, Target::Unknown), Route::NotFound);
    }
}

#[test]
fn only_create_and_update_take_a_payload() {
    assert!(Route::Create.takes_payload());
    assert!(Route::Update.takes_payload());
    assert!(!Route::List.takes_payload());
    assert!(!Route::Fetch.takes_payload());
    assert!(!Route::Delete.takes_payload());
    assert!(!Route::NotFound.takes_payload());
}
