use vask::analyze::{
    ask_request, chapters_request, chapters_schema, summarize_request, summary_schema,
    validate_youtube_url, CHAPTERS_PROMPT, SUMMARIZE_PROMPT,
};
use vask::error::VaskError;
use vask::gemini::Json;

#[test]
fn validate_accepts_youtube_and_rejects_other() {
    assert!(validate_youtube_url("https://www.youtube.com/watch?v=abc").is_ok());
    assert!(validate_youtube_url("https://youtu.be/abc").is_ok());
    assert!(validate_youtube_url("https://m.youtube.com/watch?v=abc").is_ok());
    assert!(validate_youtube_url("https://youtube.com/shorts/abc").is_ok());
    assert!(validate_youtube_url("https://vimeo.com/123").is_err());
    assert!(validate_youtube_url("https://evil.com/youtu.be/x").is_err());
    assert!(validate_youtube_url("ftp://youtu.be/x").is_err());
}

#[test]
fn ask_rejects_non_youtube_before_calling() {
    assert!(ask_request("https://vimeo.com/1", "q").is_err());
}

#[test]
fn validate_accepts_plain_http_and_host_delimiters() {
    assert!(validate_youtube_url("http://youtu.be/abc").is_ok());
    assert!(validate_youtube_url("https://youtu.be").is_ok());
    assert!(validate_youtube_url("https://youtube.com?v=abc").is_ok());
    assert!(validate_youtube_url("https://www.youtu.be#t=10").is_ok());
    assert!(validate_youtube_url("https://www.m.youtube.com/x").is_ok());
}

#[test]
fn validate_rejects_lookalike_hosts() {
    assert!(validate_youtube_url("https://youtube.com.evil.com/x").is_err());
    assert!(validate_youtube_url("https://www.www.youtube.com/x").is_err());
    assert!(validate_youtube_url("https://YOUTUBE.com/x").is_err());
    assert!(validate_youtube_url("https://youtube.com:443/x").is_err());
    assert!(validate_youtube_url("https://").is_err());
    assert!(validate_youtube_url("").is_err());
    assert!(validate_youtube_url("youtube.com/watch").is_err());
}

#[test]
fn bad_scheme_error_carries_the_url() {
    match validate_youtube_url("ftp://youtu.be/x") {
        Err(VaskError::BadScheme { url }) => assert_eq!(url, "ftp://youtu.be/x"),
        other => panic!("unexpected {other:?}"),
    }
    let e = validate_youtube_url("ftp://youtu.be/x").unwrap_err();
    assert_eq!(e.message(), "URL must start with http(s)://: ftp://youtu.be/x");
}

#[test]
fn not_youtube_error_names_the_host_without_www() {
    match validate_youtube_url("https://www.vimeo.com/123?x=1") {
        Err(VaskError::NotYouTube { host, url }) => {
            assert_eq!(host, "vimeo.com");
            assert_eq!(url, "https://www.vimeo.com/123?x=1");
        }
        other => panic!("unexpected {other:?}"),
    }
    let e = validate_youtube_url("https://évil.com/x").unwrap_err();
    assert_eq!(
        e.message(),
        "not a recognized YouTube URL (host 'évil.com'): https://évil.com/x"
    );
}

#[test]
fn ask_request_carries_prompt_and_url() {
    let q = ask_request("https://youtu.be/abc", "what?").unwrap();
    assert_eq!(
        q.prompt,
        "Answer this question about the video. Be concise and specific, and cite timestamps where useful.\n\nQuestion: what?"
    );
    assert_eq!(q.video_url, "https://youtu.be/abc");
    assert!(q.schema.is_none());
}

#[test]
fn summarize_request_asks_for_summary_schema() {
    let q = summarize_request("https://youtu.be/abc").unwrap();
    assert_eq!(q.prompt, SUMMARIZE_PROMPT);
    assert_eq!(q.video_url, "https://youtu.be/abc");
    let schema = q.schema.unwrap();
    assert_eq!(schema, summary_schema());
    assert_eq!(schema.get("type").unwrap().as_str(), Some("object"));
    let required = schema.get("required").unwrap().as_array().unwrap();
    let names: Vec<&str> = required.iter().map(|r| r.as_str().unwrap()).collect();
    assert_eq!(names, vec!["overview", "key_points", "topics"]);
    let points = schema.get("properties").unwrap().get("key_points").unwrap();
    assert_eq!(points.get("type").unwrap().as_str(), Some("array"));
    assert_eq!(
        points.get("items").unwrap().get("type").unwrap().as_str(),
        Some("string")
    );
    assert!(summarize_request("https://vimeo.com/1").is_err());
}

#[test]
fn chapters_request_asks_for_chapter_schema() {
    let q = chapters_request("https://www.youtube.com/watch?v=abc").unwrap();
    assert_eq!(q.prompt, CHAPTERS_PROMPT);
    let schema = q.schema.unwrap();
    assert_eq!(schema, chapters_schema());
    assert_eq!(schema.get("type").unwrap().as_str(), Some("array"));
    let items = schema.get("items").unwrap();
    let start = items.get("properties").unwrap().get("start_seconds").unwrap();
    assert_eq!(start.get("type").unwrap().as_str(), Some("integer"));
    let required = items.get("required").unwrap().as_array().unwrap();
    assert_eq!(required.len(), 4);
    assert_eq!(required[3], Json::Str("summary".to_string()));
    assert!(chapters_request("ftp://youtu.be/x").is_err());
}

#[test]
fn http_and_https_are_treated_alike() {
    for rest in [
        "youtu.be/abc",
        "www.youtube.com/watch?v=1",
        "vimeo.com/1",
        "",
        "s://youtu.be",
    ] {
        let a = validate_youtube_url(&format!("https://{rest}")).is_ok();
        let b = validate_youtube_url(&format!("http://{rest}")).is_ok();
        assert_eq!(a, b, "{rest}");
    }
}
