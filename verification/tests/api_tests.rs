use reference_tool::api::{ApiError, InspireClient};
use reference_tool::json::Json;

fn text(s: &str) -> Json {
    Json::Text(s.to_string())
}

fn object(entries: Vec<(&str, Json)>) -> Json {
    Json::Object(entries.into_iter().map(|(k, v)| (k.to_string(), v)).collect())
}

fn named(field: &str, names: &[&str]) -> Json {
    Json::Array(names.iter().map(|n| object(vec![(field, text(n))])).collect())
}

#[test]
fn test_parse_paper() {
    let client = InspireClient::new();
    let paper_data = object(vec![
        ("control_number", Json::Number(Some(123456))),
        ("titles", Json::Array(vec![object(vec![("title", text("Test Paper Title"))])])),
        ("authors", named("full_name", &["John Doe", "Jane Smith"])),
        ("arxiv_eprints", Json::Array(vec![object(vec![("value", text("2301.12345"))])])),
        ("inspire_categories", named("term", &["hep-th", "hep-ph"])),
        ("preprint_date", text("2023-01-15")),
    ]);

    let paper = client.parse_paper(&paper_data).unwrap();

    assert_eq!(paper.id, "123456");
    assert_eq!(paper.title, "Test Paper Title");
    assert_eq!(paper.authors, vec!["John Doe", "Jane Smith"]);
    assert_eq!(paper.arxiv_id, Some("2301.12345".to_string()));
    assert_eq!(paper.categories, vec!["hep-th", "hep-ph"]);
    assert_eq!(paper.year, Some(2023));
}

#[test]
fn test_parse_reference() {
    let client = InspireClient::new();
    let ref_data = object(vec![
        (
            "reference",
            object(vec![
                ("title", object(vec![("title", text("Reference Paper"))])),
                ("authors", named("full_name", &["Alice Cooper"])),
                ("arxiv_eprint", text("1234.5678")),
                ("inspire_categories", named("term", &["hep-ex"])),
                ("imprint", object(vec![("date", text("2022-05-10"))])),
            ]),
        ),
        ("record", object(vec![("$ref", text("https://inspirehep.net/api/literature/789012"))])),
    ]);

    let reference = client.parse_reference(&ref_data).unwrap();

    assert_eq!(reference.title, "Reference Paper");
    assert_eq!(reference.authors, vec!["Alice Cooper"]);
    assert_eq!(reference.arxiv_id, Some("1234.5678".to_string()));
    assert_eq!(reference.inspire_id, Some("789012".to_string()));
    assert_eq!(reference.categories, vec!["hep-ex"]);
    assert_eq!(reference.year, Some(2022));
}

#[test]
fn test_parse_paper_minimal_data() {
    let client = InspireClient::new();
    let paper_data = object(vec![
        ("control_number", Json::Number(Some(654321))),
        ("titles", Json::Array(vec![object(vec![("title", text("Minimal Paper"))])])),
    ]);

    let paper = client.parse_paper(&paper_data).unwrap();

    assert_eq!(paper.id, "654321");
    assert_eq!(paper.title, "Minimal Paper");
    assert!(paper.authors.is_empty());
    assert_eq!(paper.arxiv_id, None);
    assert!(paper.categories.is_empty());
    assert_eq!(paper.year, None);
}

#[test]
fn test_parse_paper_missing_control_number() {
    let client = InspireClient::new();
    let paper_data = object(vec![(
        "titles",
        Json::Array(vec![object(vec![("title", text("Paper without ID"))])]),
    )]);

    let result = client.parse_paper(&paper_data);
    assert!(result.is_err());
    assert!(result.unwrap_err().to_string().contains("Missing control number"));
}

#[test]
fn parse_paper_falls_back_field_by_field() {
    let client = InspireClient::new();
    let data = object(vec![
        ("control_number", Json::Number(Some(0))),
        ("titles", Json::Array(vec![])),
        ("authors", Json::Array(vec![
            object(vec![("full_name", text("A"))]),
            object(vec![("name", text("no full name"))]),
            Json::Number(Some(3)),
            object(vec![("full_name", Json::Bool(true))]),
            object(vec![("full_name", text("B"))]),
        ])),
        ("arxiv_eprints", object(vec![("value", text("not in a list"))])),
        ("inspire_categories", text("hep-th")),
        ("imprints", Json::Array(vec![object(vec![("date", text("1987"))])])),
    ]);
    let paper = client.parse_paper(&data).unwrap();
    assert_eq!(paper.id, "0");
    assert_eq!(paper.title, "Unknown Title");
    assert_eq!(paper.authors, vec!["A", "B"]);
    assert_eq!(paper.arxiv_id, None);
    assert!(paper.categories.is_empty());
    assert_eq!(paper.year, Some(1987));
}

#[test]
fn parse_paper_prefers_the_preprint_date() {
    let client = InspireClient::new();
    let data = object(vec![
        ("control_number", Json::Number(Some(1))),
        ("preprint_date", text("2001-02")),
        ("imprints", Json::Array(vec![object(vec![("date", text("1999-01-01"))])])),
    ]);
    assert_eq!(client.parse_paper(&data).unwrap().year, Some(2001));
}

#[test]
fn parse_paper_year_that_is_no_number() {
    let client = InspireClient::new();
    for date in ["", "-2001", "around 2001", "20x1-01", "99999999999-01"] {
        let data = object(vec![
            ("control_number", Json::Number(Some(1))),
            ("preprint_date", text(date)),
            ("imprints", Json::Array(vec![object(vec![("date", text("1999-01-01"))])])),
        ]);
        assert_eq!(client.parse_paper(&data).unwrap().year, None);
    }
}

#[test]
fn parse_paper_refuses_a_control_number_that_is_no_unsigned_number() {
    let client = InspireClient::new();
    for number in [Json::Number(None), text("123"), Json::Null, Json::Bool(true)] {
        let data = object(vec![("control_number", number)]);
        assert!(matches!(client.parse_paper(&data), Err(ApiError::MissingControlNumber)));
    }
    assert!(matches!(client.parse_paper(&Json::Null), Err(ApiError::MissingControlNumber)));
    assert!(matches!(client.parse_paper(&Json::Array(vec![])), Err(ApiError::MissingControlNumber)));
}

#[test]
fn parse_paper_takes_the_largest_control_number() {
    let client = InspireClient::new();
    let data = object(vec![("control_number", Json::Number(Some(u64::MAX)))]);
    assert_eq!(client.parse_paper(&data).unwrap().id, "18446744073709551615");
}

#[test]
fn parse_reference_of_an_empty_entry() {
    let client = InspireClient::new();
    let reference = client.parse_reference(&object(vec![])).unwrap();
    assert_eq!(reference.title, "Unknown Title");
    assert!(reference.authors.is_empty());
    assert_eq!(reference.arxiv_id, None);
    assert_eq!(reference.inspire_id, None);
    assert!(reference.categories.is_empty());
    assert_eq!(reference.year, None);
    let of_null = client.parse_reference(&Json::Null).unwrap();
    assert_eq!(of_null.title, "Unknown Title");
    assert_eq!(of_null.inspire_id, None);
}

#[test]
fn parse_reference_link_without_a_slash_or_ending_in_one() {
    let client = InspireClient::new();
    let plain = object(vec![("record", object(vec![("$ref", text("789012"))]))]);
    assert_eq!(client.parse_reference(&plain).unwrap().inspire_id, Some("789012".to_string()));
    let open = object(vec![("record", object(vec![("$ref", text("https://host/api/"))]))]);
    assert_eq!(client.parse_reference(&open).unwrap().inspire_id, Some("".to_string()));
    let empty = object(vec![("record", object(vec![("$ref", text(""))]))]);
    assert_eq!(client.parse_reference(&empty).unwrap().inspire_id, Some("".to_string()));
}

#[test]
fn the_first_of_two_equal_keys_is_read() {
    let data = object(vec![("a", text("first")), ("a", text("second"))]);
    assert!(matches!(data.get("a"), Some(Json::Text(s)) if s == "first"));
    assert!(data.get("b").is_none());
    assert!(data.at(0).is_none());
    assert!(text("x").get("a").is_none());
}

#[test]
fn json_lookups() {
    let list = Json::Array(vec![Json::Number(Some(4)), Json::Number(None), text("t")]);
    assert_eq!(list.at(0).unwrap().as_u64(), Some(4));
    assert_eq!(list.at(1).unwrap().as_u64(), None);
    assert_eq!(list.at(2).unwrap().as_str(), Some(&"t".to_string()));
    assert!(list.at(3).is_none());
    assert_eq!(list.as_array().unwrap().len(), 3);
    assert!(list.as_str().is_none());
    assert!(text("t").as_array().is_none());
    assert!(text("t").as_u64().is_none());
}

#[test]
fn addresses_and_query() {
    let client = InspireClient::new();
    assert_eq!(client.base_url(), "https://inspirehep.net/api");
    assert_eq!(client.search_url(), "https://inspirehep.net/api/literature");
    assert_eq!(client.search_query("2301.12345"), "arxiv:2301.12345");
    assert_eq!(client.record_url("123456"), "https://inspirehep.net/api/literature/123456");
}

#[test]
fn search_answer_is_read_from_bytes() {
    let client = InspireClient::new();
    let body = br#"{"hits": {"total": 1, "hits": [{"id": "123456", "metadata": {
        "control_number": 123456,
        "titles": [{"title": "Test Paper Title"}, {"title": "Second title"}],
        "authors": [{"full_name": "John Doe"}, {"full_name": "Jane Smith"}],
        "arxiv_eprints": [{"value": "2301.12345"}],
        "inspire_categories": [{"term": "hep-th"}, {"term": "hep-ph"}],
        "preprint_date": "2023-01-15",
        "citation_count": 12.5
    }}]}}"#;
    let paper = client.paper_from_response("2301.12345", 200, body).unwrap();
    assert_eq!(paper.id, "123456");
    assert_eq!(paper.title, "Test Paper Title");
    assert_eq!(paper.authors, vec!["John Doe", "Jane Smith"]);
    assert_eq!(paper.arxiv_id, Some("2301.12345".to_string()));
    assert_eq!(paper.categories, vec!["hep-th", "hep-ph"]);
    assert_eq!(paper.year, Some(2023));
}

#[test]
fn search_answer_with_a_control_number_that_is_no_unsigned_integer() {
    let client = InspireClient::new();
    for number in ["-5", "12.0", "1e3", "\"123\"", "null", "18446744073709551616"] {
        let body = format!("{{\"hits\":{{\"hits\":[{{\"metadata\":{{\"control_number\":{}}}}}]}}}}", number);
        let outcome = client.paper_from_response("x", 200, body.as_bytes());
        assert!(matches!(outcome, Err(ApiError::MissingControlNumber)));
    }
    let body = br#"{"hits":{"hits":[{"metadata":{"control_number":18446744073709551615}}]}}"#;
    assert_eq!(client.paper_from_response("x", 200, body).unwrap().id, "18446744073709551615");
}

#[test]
fn search_answer_errors() {
    let client = InspireClient::new();
    let good = br#"{"hits":{"hits":[{"metadata":{"control_number":1}}]}}"#;
    assert!(matches!(
        client.paper_from_response("x", 404, good),
        Err(ApiError::FetchFailed { status: 404 })
    ));
    assert!(matches!(
        client.paper_from_response("x", 199, good),
        Err(ApiError::FetchFailed { status: 199 })
    ));
    assert!(matches!(
        client.paper_from_response("x", 300, good),
        Err(ApiError::FetchFailed { status: 300 })
    ));
    assert!(client.paper_from_response("x", 299, good).is_ok());
    assert!(matches!(client.paper_from_response("x", 200, b"not json"), Err(ApiError::InvalidBody)));
    assert!(matches!(client.paper_from_response("x", 200, b""), Err(ApiError::InvalidBody)));
    assert!(matches!(client.paper_from_response("x", 200, b"{} trailing"), Err(ApiError::InvalidBody)));
    assert!(matches!(client.paper_from_response("x", 200, b"{}"), Err(ApiError::InvalidFormat)));
    assert!(matches!(
        client.paper_from_response("x", 200, br#"{"hits":{"hits":{}}}"#),
        Err(ApiError::InvalidFormat)
    ));
    match client.paper_from_response("2301.1", 200, br#"{"hits":{"hits":[]}}"#) {
        Err(ApiError::NotFound { arxiv_id }) => assert_eq!(arxiv_id, "2301.1"),
        _ => panic!("expected NotFound"),
    }
    assert!(matches!(
        client.paper_from_response("x", 200, br#"{"hits":{"hits":[{}]}}"#),
        Err(ApiError::MissingControlNumber)
    ));
    assert!(matches!(
        client.paper_from_response("x", 500, b"not json"),
        Err(ApiError::FetchFailed { status: 500 })
    ));
}

#[test]
fn error_messages() {
    assert_eq!(ApiError::FetchFailed { status: 404 }.to_string(), "Failed to fetch paper: 404");
    assert_eq!(
        ApiError::DetailsFetchFailed { status: 503 }.to_string(),
        "Failed to fetch paper details: 503"
    );
    assert_eq!(ApiError::InvalidBody.to_string(), "Invalid response body");
    assert_eq!(ApiError::InvalidFormat.to_string(), "Invalid response format");
    assert_eq!(
        ApiError::NotFound { arxiv_id: "2301.12345".to_string() }.to_string(),
        "Paper not found with ArXiv ID: 2301.12345"
    );
    assert_eq!(ApiError::MissingControlNumber.to_string(), "Missing control number");
}

#[test]
fn record_answer_is_read_from_bytes() {
    let client = InspireClient::new();
    let body = br#"{"metadata": {"control_number": 1, "references": [
        {"reference": {"title": {"title": "Reference Paper"},
                       "authors": [{"full_name": "Alice Cooper"}],
                       "arxiv_eprint": "1234.5678",
                       "inspire_categories": [{"term": "hep-ex"}],
                       "imprint": {"date": "2022-05-10"}},
         "record": {"$ref": "https://inspirehep.net/api/literature/789012"}},
        {"reference": {"misc": ["private communication"]}},
        17
    ]}}"#;
    let references = client.references_from_response(200, body).unwrap();
    assert_eq!(references.len(), 3);
    assert_eq!(references[0].title, "Reference Paper");
    assert_eq!(references[0].authors, vec!["Alice Cooper"]);
    assert_eq!(references[0].arxiv_id, Some("1234.5678".to_string()));
    assert_eq!(references[0].inspire_id, Some("789012".to_string()));
    assert_eq!(references[0].categories, vec!["hep-ex"]);
    assert_eq!(references[0].year, Some(2022));
    assert_eq!(references[1].title, "Unknown Title");
    assert_eq!(references[1].inspire_id, None);
    assert_eq!(references[2].title, "Unknown Title");
    assert_eq!(references[2].inspire_id, None);
}

#[test]
fn record_answer_without_a_reference_list() {
    let client = InspireClient::new();
    assert!(client.references_from_response(200, b"{}").unwrap().is_empty());
    assert!(client
        .references_from_response(200, br#"{"metadata":{"references":"none"}}"#)
        .unwrap()
        .is_empty());
    assert!(client.references_from_response(200, b"[1, 2]").unwrap().is_empty());
}

#[test]
fn record_answer_errors() {
    let client = InspireClient::new();
    assert!(matches!(
        client.references_from_response(404, b"{}"),
        Err(ApiError::DetailsFetchFailed { status: 404 })
    ));
    assert!(matches!(client.references_from_response(200, b"{"), Err(ApiError::InvalidBody)));
}

#[test]
fn json_documents_are_read_from_values() {
    let client = InspireClient::new();
    let json = object(vec![(
        "hits",
        object(vec![(
            "hits",
            Json::Array(vec![object(vec![(
                "metadata",
                object(vec![("control_number", Json::Number(Some(77)))]),
            )])]),
        )]),
    )]);
    assert_eq!(client.paper_from_json("x", &json).unwrap().id, "77");
    let listing = object(vec![(
        "metadata",
        object(vec![("references", Json::Array(vec![Json::Null, object(vec![])]))]),
    )]);
    assert_eq!(client.references_from_json(&listing).len(), 2);
}

#[test]
fn success_is_200_to_299() {
    assert!(!reference_tool::api::status_is_success(0));
    assert!(!reference_tool::api::status_is_success(199));
    assert!(reference_tool::api::status_is_success(200));
    assert!(reference_tool::api::status_is_success(204));
    assert!(reference_tool::api::status_is_success(299));
    assert!(!reference_tool::api::status_is_success(300));
    assert!(!reference_tool::api::status_is_success(u16::MAX));
}
