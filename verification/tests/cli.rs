use vask::cli::{format_ask, format_chapters, format_summary};
use vask::types::{AskAnswer, Chapter, Summary};

#[test]
fn format_chapters_pretty_uses_mmss() {
    let c = vec![Chapter {
        start_seconds: 75,
        end_seconds: 120,
        title: "Setup".into(),
        summary: "Configures things.".into(),
    }];
    let out = format_chapters(&c, None);
    assert!(out.contains("01:15"));
    assert!(out.contains("Setup"));
}

#[test]
fn format_summary_pretty_lists_points() {
    let s = Summary {
        overview: "o".into(),
        key_points: vec!["a".into()],
        topics: vec!["t".into()],
    };
    let out = format_summary(&s, None);
    assert!(out.contains("- a"));
    assert!(out.contains("Topics: t"));
}

#[test]
fn format_chapters_pretty_exact_layout() {
    let c = vec![
        Chapter {
            start_seconds: 0,
            end_seconds: 7,
            title: "Intro".into(),
            summary: "Hello.".into(),
        },
        Chapter {
            start_seconds: 609,
            end_seconds: 700,
            title: "Middle".into(),
            summary: "More.".into(),
        },
        Chapter {
            start_seconds: 6001,
            end_seconds: 7000,
            title: "Late".into(),
            summary: "Long video.".into(),
        },
    ];
    assert_eq!(
        format_chapters(&c, None),
        "00:00  Intro\n    Hello.\n10:09  Middle\n    More.\n100:01  Late\n    Long video.\n"
    );
    assert_eq!(format_chapters(&[], None), "");
}

#[test]
fn format_summary_pretty_exact_layout() {
    let s = Summary {
        overview: "A talk.".into(),
        key_points: vec!["one".into(), "two".into()],
        topics: vec!["rust".into(), "video".into(), "ai".into()],
    };
    assert_eq!(
        format_summary(&s, None),
        "A talk.\n\nKey points:\n  - one\n  - two\n\nTopics: rust, video, ai"
    );
    let empty = Summary {
        overview: "".into(),
        key_points: vec![],
        topics: vec![],
    };
    assert_eq!(format_summary(&empty, None), "\n\nKey points:\n\nTopics: ");
}

#[test]
fn formats_pass_json_text_through() {
    let a = AskAnswer { answer: "hi".into() };
    assert_eq!(format_ask(&a, None), "hi");
    assert_eq!(format_ask(&a, Some("{\n  \"answer\": \"hi\"\n}")), "{\n  \"answer\": \"hi\"\n}");
    let s = Summary {
        overview: "o".into(),
        key_points: vec![],
        topics: vec![],
    };
    assert_eq!(format_summary(&s, Some("{}")), "{}");
    assert_eq!(format_chapters(&[], Some("[]")), "[]");
}
