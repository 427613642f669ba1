use shorty::{
    get_links, links_of_document, parse_json, read_link, Json, Link, ListError, Listing, Method,
    Reply, Request,
};

fn token() -> Option<String> {
    Some("secret".to_string())
}

fn answered(status: u16, body: &str) -> Option<Reply> {
    Some(Reply::Answered { status, body: Some(body.to_string()) })
}

fn text(s: &str) -> Json {
    Json::Text(s.to_string())
}

#[test]
fn parse_reads_every_kind_of_value() {
    let doc = parse_json(r#"{"b": [1, -2, "x", null, true], "a": {"k": false}}"#);
    let expected = Json::Object(vec![
        ("a".to_string(), Json::Object(vec![("k".to_string(), Json::Bool(false))])),
        (
            "b".to_string(),
            Json::Array(vec![
                Json::Number("1".to_string()),
                Json::Number("-2".to_string()),
                text("x"),
                Json::Null,
                Json::Bool(true),
            ]),
        ),
    ]);
    assert_eq!(doc, Some(expected));
}

#[test]
fn parse_refuses_what_is_not_json() {
    assert_eq!(parse_json("{\"data\": ["), None);
    assert_eq!(parse_json(""), None);
    assert_eq!(parse_json("not json"), None);
}

#[test]
fn parse_keeps_numbers_as_text() {
    assert_eq!(parse_json("10"), Some(Json::Number("10".to_string())));
    assert_eq!(parse_json("1.50"), Some(Json::Number("1.5".to_string())));
    assert_eq!(parse_json("-7"), Some(Json::Number("-7".to_string())));
}

#[test]
fn parse_unescapes_strings() {
    assert_eq!(parse_json(r#""a\nb""#), Some(text("a\nb")));
}

#[test]
fn get_finds_first_member() {
    let doc = Json::Object(vec![
        ("a".to_string(), Json::Bool(true)),
        ("b".to_string(), Json::Null),
        ("a".to_string(), Json::Bool(false)),
    ]);
    assert_eq!(doc.get("a"), Some(&Json::Bool(true)));
    assert_eq!(doc.get("b"), Some(&Json::Null));
    assert_eq!(doc.get("c"), None);
    assert_eq!(Json::Array(vec![]).get("a"), None);
}

#[test]
fn missing_token_fails_before_any_request() {
    assert_eq!(get_links(&None, &None), Listing::Failed(ListError::MissingToken));
    assert_eq!(
        get_links(&None, &answered(200, r#"{"data": []}"#)),
        Listing::Failed(ListError::MissingToken)
    );
}

#[test]
fn first_step_is_the_list_request() {
    assert_eq!(
        get_links(&token(), &None),
        Listing::Send(Request {
            method: Method::Get,
            url: "https://links.mattglei.ch/api/link".to_string(),
            token: "secret".to_string(),
            body: None,
        })
    );
}

#[test]
fn lists_links_in_order() {
    let body = r#"{"data": [
        {"name": "github", "public": true, "url": "https://github.com/x", "visits": 3},
        {"name": "draft", "public": false},
        {"public": true, "name": "github"}
    ], "count": 3}"#;
    assert_eq!(
        get_links(&token(), &answered(200, body)),
        Listing::Links(vec![
            Link::new("github".to_string(), true),
            Link::new("draft".to_string(), false),
            Link::new("github".to_string(), true),
        ])
    );
}

#[test]
fn lists_nothing_from_empty_data() {
    assert_eq!(get_links(&token(), &answered(200, r#"{"data": []}"#)), Listing::Links(vec![]));
}

#[test]
fn link_fields_match_source() {
    match get_links(&token(), &answered(200, r#"{"data": [{"name": "mail", "public": false}]}"#)) {
        Listing::Links(links) => {
            assert_eq!(links.len(), 1);
            assert_eq!(links[0].name(), "mail");
            assert!(!links[0].public());
        }
        other => panic!("{:?}", other),
    }
}

#[test]
fn other_status_fails_with_the_status() {
    let body = r#"{"data": [{"name": "github", "public": true}]}"#;
    assert_eq!(get_links(&token(), &answered(500, body)), Listing::Failed(ListError::Status(500)));
    assert_eq!(get_links(&token(), &answered(201, body)), Listing::Failed(ListError::Status(201)));
    assert_eq!(
        get_links(&token(), &Some(Reply::Answered { status: 404, body: None })),
        Listing::Failed(ListError::Status(404))
    );
}

#[test]
fn lost_request_fails_as_transport() {
    assert_eq!(get_links(&token(), &Some(Reply::Lost)), Listing::Failed(ListError::Transport));
}

#[test]
fn unread_body_fails_as_body() {
    assert_eq!(
        get_links(&token(), &Some(Reply::Answered { status: 200, body: None })),
        Listing::Failed(ListError::Body)
    );
}

#[test]
fn invalid_json_fails_as_parse() {
    assert_eq!(get_links(&token(), &answered(200, "<html>")), Listing::Failed(ListError::Parse));
}

#[test]
fn missing_data_fails_as_no_data() {
    assert_eq!(get_links(&token(), &answered(200, "{}")), Listing::Failed(ListError::NoData));
    assert_eq!(
        get_links(&token(), &answered(200, r#"{"data": {"name": "a", "public": true}}"#)),
        Listing::Failed(ListError::NoData)
    );
    assert_eq!(get_links(&token(), &answered(200, "[]")), Listing::Failed(ListError::NoData));
}

#[test]
fn element_without_field_fails_on_that_element() {
    let body = r#"{"data": [{"name": "a", "public": true}, {"name": "b"}, {"public": true}]}"#;
    assert_eq!(get_links(&token(), &answered(200, body)), Listing::Failed(ListError::Element(1)));
    let body = r#"{"data": [{"public": true}]}"#;
    assert_eq!(get_links(&token(), &answered(200, body)), Listing::Failed(ListError::Element(0)));
}

#[test]
fn element_with_wrong_type_fails() {
    let body = r#"{"data": [{"name": "a", "public": "yes"}]}"#;
    assert_eq!(get_links(&token(), &answered(200, body)), Listing::Failed(ListError::Element(0)));
    let body = r#"{"data": [{"name": 7, "public": true}]}"#;
    assert_eq!(get_links(&token(), &answered(200, body)), Listing::Failed(ListError::Element(0)));
    let body = r#"{"data": ["a"]}"#;
    assert_eq!(get_links(&token(), &answered(200, body)), Listing::Failed(ListError::Element(0)));
}

#[test]
fn read_link_takes_object_or_pair() {
    let object = Json::Object(vec![
        ("public".to_string(), Json::Bool(true)),
        ("extra".to_string(), Json::Null),
        ("name".to_string(), text("a")),
    ]);
    assert_eq!(read_link(&object), Some(Link::new("a".to_string(), true)));
    let pair = Json::Array(vec![text("b"), Json::Bool(false)]);
    assert_eq!(read_link(&pair), Some(Link::new("b".to_string(), false)));
    assert_eq!(read_link(&Json::Array(vec![text("b")])), None);
    assert_eq!(read_link(&Json::Array(vec![text("b"), Json::Bool(false), Json::Null])), None);
    assert_eq!(read_link(&Json::Array(vec![Json::Bool(false), text("b")])), None);
    assert_eq!(read_link(&Json::Null), None);
    assert_eq!(read_link(&text("a")), None);
}

#[test]
fn document_lists_its_data() {
    let doc = Json::Object(vec![(
        "data".to_string(),
        Json::Array(vec![Json::Object(vec![
            ("name".to_string(), text("a")),
            ("public".to_string(), Json::Bool(true)),
        ])]),
    )]);
    assert_eq!(links_of_document(&doc), Ok(vec![Link::new("a".to_string(), true)]));
    assert_eq!(links_of_document(&Json::Null), Err(ListError::NoData));
    let bad = Json::Object(vec![("data".to_string(), Json::Array(vec![Json::Null]))]);
    assert_eq!(links_of_document(&bad), Err(ListError::Element(0)));
}
