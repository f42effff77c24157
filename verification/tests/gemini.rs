use vask::error::VaskError;
use vask::gemini::{build_request_body, parse_response_text, Json};

fn s(t: &str) -> Json {
    Json::Str(t.to_string())
}

fn obj(entries: Vec<(&str, Json)>) -> Json {
    Json::Object(entries.into_iter().map(|(k, v)| (k.to_string(), v)).collect())
}

#[test]
fn request_body_has_text_and_file_data_parts() {
    let body = build_request_body("hello", "https://youtu.be/abc", None);
    let parts = body
        .get("contents")
        .unwrap()
        .get_index(0)
        .unwrap()
        .get("parts")
        .unwrap();
    assert_eq!(
        parts.get_index(0).unwrap().get("text").unwrap().as_str(),
        Some("hello")
    );
    assert_eq!(
        parts
            .get_index(1)
            .unwrap()
            .get("file_data")
            .unwrap()
            .get("file_uri")
            .unwrap()
            .as_str(),
        Some("https://youtu.be/abc")
    );
    assert!(body.get("generationConfig").is_none());
}

#[test]
fn request_body_includes_schema_when_present() {
    let schema = obj(vec![("type", s("object"))]);
    let body = build_request_body("hi", "https://youtu.be/abc", Some(&schema));
    let config = body.get("generationConfig").unwrap();
    assert_eq!(
        config.get("responseMimeType").unwrap().as_str(),
        Some("application/json")
    );
    assert_eq!(config.get("responseSchema").unwrap(), &schema);
}

#[test]
fn parse_extracts_candidate_text() {
    let body = obj(vec![(
        "candidates",
        Json::Array(vec![obj(vec![(
            "content",
            obj(vec![("parts", Json::Array(vec![obj(vec![("text", s("the answer"))])]))]),
        )])]),
    )]);
    assert_eq!(parse_response_text(&body, "{}").unwrap(), "the answer");
}

#[test]
fn parse_skips_thought_part_finds_text() {
    let body = obj(vec![(
        "candidates",
        Json::Array(vec![obj(vec![(
            "content",
            obj(vec![(
                "parts",
                Json::Array(vec![
                    obj(vec![("thoughtSignature", s("abc"))]),
                    obj(vec![("text", s("the answer")), ("thoughtSignature", s("xyz"))]),
                ]),
            )]),
        )])]),
    )]);
    assert_eq!(parse_response_text(&body, "{}").unwrap(), "the answer");
}

#[test]
fn parse_errors_on_missing_text() {
    let body = obj(vec![("candidates", Json::Array(vec![]))]);
    assert!(parse_response_text(&body, "{\"candidates\":[]}").is_err());
}

fn response_with_parts(parts: Json) -> Json {
    obj(vec![(
        "candidates",
        Json::Array(vec![obj(vec![("content", obj(vec![("parts", parts)]))])]),
    )])
}

#[test]
fn parse_tells_missing_parts_from_missing_text() {
    match parse_response_text(&obj(vec![]), "{}") {
        Err(e @ VaskError::NoCandidateParts { .. }) => {
            assert_eq!(e.message(), "no candidates/parts in Gemini response: {}")
        }
        other => panic!("unexpected {other:?}"),
    }
    assert!(matches!(
        parse_response_text(&response_with_parts(s("not an array")), "x"),
        Err(VaskError::NoCandidateParts { .. })
    ));
    match parse_response_text(&response_with_parts(Json::Array(vec![])), "shown body") {
        Err(e @ VaskError::NoTextPart { .. }) => {
            assert_eq!(e.message(), "no text part in Gemini response: shown body")
        }
        other => panic!("unexpected {other:?}"),
    }
    let numeric_text = Json::Array(vec![obj(vec![("text", Json::Number("3".to_string()))])]);
    assert!(matches!(
        parse_response_text(&response_with_parts(numeric_text), "y"),
        Err(VaskError::NoTextPart { .. })
    ));
}

#[test]
fn check_status_accepts_only_2xx() {
    assert!(vask::gemini::check_status(200, "200 OK", "").is_ok());
    assert!(vask::gemini::check_status(299, "299 <unknown status code>", "").is_ok());
    assert!(vask::gemini::check_status(199, "199 <unknown status code>", "x").is_err());
    assert!(vask::gemini::check_status(300, "300 Multiple Choices", "x").is_err());
    let e = vask::gemini::check_status(400, "400 Bad Request", "{\"error\":1}").unwrap_err();
    assert_eq!(e.message(), "Gemini API error 400 Bad Request: {\"error\":1}");
}

#[test]
fn parse_takes_first_text_of_first_candidate_only() {
    let parts = Json::Array(vec![
        obj(vec![("text", Json::Null)]),
        obj(vec![("text", s("first"))]),
        obj(vec![("text", s("second"))]),
    ]);
    let body = obj(vec![(
        "candidates",
        Json::Array(vec![
            obj(vec![("content", obj(vec![("parts", parts)]))]),
            obj(vec![(
                "content",
                obj(vec![("parts", Json::Array(vec![obj(vec![("text", s("other"))])]))]),
            )]),
        ]),
    )]);
    assert_eq!(parse_response_text(&body, "{}").unwrap(), "first");
}

#[test]
fn get_reads_first_entry_and_array_items() {
    let v = obj(vec![("a", s("x")), ("a", s("y")), ("b", Json::Bool(true))]);
    assert_eq!(v.get("a").unwrap().as_str(), Some("x"));
    assert_eq!(v.get("b"), Some(&Json::Bool(true)));
    assert!(v.get("c").is_none());
    assert!(v.get_index(0).is_none());
    let a = Json::Array(vec![s("p"), Json::Null]);
    assert_eq!(a.get_index(1), Some(&Json::Null));
    assert!(a.get_index(2).is_none());
    assert!(a.get("p").is_none());
    assert!(a.as_str().is_none());
}

#[test]
fn clone_is_equal() {
    let v = obj(vec![
        ("list", Json::Array(vec![s("a"), Json::Number("1.5".to_string())])),
        ("nested", obj(vec![("k", Json::Null)])),
    ]);
    assert_eq!(v.clone(), v);
}

#[test]
fn generate_content_url_names_model_and_key() {
    assert_eq!(
        vask::gemini::generate_content_url("gemini-3.5-flash", "k123"),
        "https://generativelanguage.googleapis.com/v1beta/models/gemini-3.5-flash:generateContent?key=k123"
    );
}
