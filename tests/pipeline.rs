use ollama_vision::error::AnalysisError;
use ollama_vision::provider::{encode_frames, encode_image, OllamaProvider, MAX_FRAMES, PROMPT};
use ollama_vision::reply_text::{extract_json_text, is_whitespace_char, trim_chars};
use ollama_vision::repair::{fill_time_fields, prepare_reply, repair_reply};
use ollama_vision::sampling::sample_frames;
use ollama_vision::summary::{
    enforce_time_order, order_time_range, ActivityCategory, ActivityTag, KeyMoment,
    SessionSummary, Timestamp,
};

fn frames(n: usize) -> Vec<String> {
    (0..n).map(|i| format!("f{}", i)).collect()
}

fn provider() -> OllamaProvider {
    OllamaProvider::new(reqwest::Client::new())
}

fn summary(start: Timestamp, end: Timestamp) -> SessionSummary {
    SessionSummary {
        title: "t".to_string(),
        summary: "s".to_string(),
        tags: vec![ActivityTag {
            category: ActivityCategory::Work,
            confidence_bits: 0.5f64.to_bits(),
            keywords: vec!["code".to_string()],
        }],
        key_moments: vec![KeyMoment {
            time: "01:02".to_string(),
            description: "d".to_string(),
            importance: 3,
        }],
        productivity_score: 70,
        focus_score: 60,
        start_time: start,
        end_time: end,
    }
}

#[test]
fn sample_keeps_input_that_fits() {
    let f = frames(5);
    assert_eq!(sample_frames(&f, 5), f);
    assert_eq!(sample_frames(&f, 9), f);
    assert_eq!(sample_frames(&[], 3), Vec::<String>::new());
}

#[test]
fn sample_strides_through_long_input() {
    let f = frames(10);
    assert_eq!(sample_frames(&f, 3), vec!["f0", "f3", "f6"]);
    let g = frames(100);
    let s = sample_frames(&g, MAX_FRAMES);
    assert_eq!(s.len(), 30);
    assert_eq!(s[0], "f0");
    assert_eq!(s[1], "f3");
    assert_eq!(s[29], "f87");
    let h = frames(7);
    assert_eq!(sample_frames(&h, 4), vec!["f0", "f1", "f2", "f3"]);
}

#[test]
fn sample_zero_bound_is_empty() {
    assert!(sample_frames(&frames(4), 0).is_empty());
    assert!(sample_frames(&[], 0).is_empty());
}

#[test]
fn extract_plain_reply_is_trimmed() {
    assert_eq!(extract_json_text("  {\"a\": 1}\n"), "{\"a\": 1}");
    assert_eq!(extract_json_text("{}"), "{}");
    assert_eq!(extract_json_text(" \u{3000}\t"), "");
}

#[test]
fn extract_json_fenced_reply() {
    assert_eq!(extract_json_text("```json\n{\"a\": 1}\n```"), "{\"a\": 1}");
    assert_eq!(extract_json_text("\n```json{\"b\":2}```  "), "{\"b\":2}");
}

#[test]
fn extract_untagged_fence_and_prose() {
    assert_eq!(extract_json_text("```\n[1, 2]\n```"), "[1, 2]");
    assert_eq!(extract_json_text("Here it is:\n```json\n{}\n```\nbye"), "{}");
}

#[test]
fn extract_unclosed_fence_keeps_trimmed_reply() {
    assert_eq!(extract_json_text("  ```json {\"a\":1} "), "```json {\"a\":1}");
}

#[test]
fn whitespace_matches_std() {
    for c in [' ', '\t', '\n', '\r', '\u{b}', '\u{c}', '\u{85}', '\u{a0}', '\u{2003}', '\u{3000}', 'a', '`', '\u{200b}'] {
        assert_eq!(is_whitespace_char(c), c.is_whitespace());
    }
    let cs: Vec<char> = "  x y \n".chars().collect();
    assert_eq!(trim_chars(&cs), vec!['x', ' ', 'y']);
}

#[test]
fn missing_times_are_filled() {
    let now = Timestamp { secs: 1_700_000_000, nanos: 5 };
    let v = prepare_reply("```json\n{\"title\": \"x\"}\n```", &now).unwrap();
    assert!(v.get("start_time").unwrap().is_string());
    assert!(v.get("end_time").unwrap().is_string());
    assert_eq!(v.get("start_time"), v.get("end_time"));
    assert_eq!(v.get("title").unwrap().as_str(), Some("x"));
}

#[test]
fn present_times_are_kept() {
    let now = Timestamp { secs: 1_700_000_000, nanos: 0 };
    let raw = "{\"start_time\": \"2024-01-01T00:00:00Z\"}";
    let v = prepare_reply(raw, &now).unwrap();
    assert_eq!(v.get("start_time").unwrap().as_str(), Some("2024-01-01T00:00:00Z"));
    assert!(v.get("end_time").unwrap().is_string());
    let mut w: serde_json::Value = serde_json::from_str("[1]").unwrap();
    fill_time_fields(&mut w, &now);
    assert_eq!(w.to_string(), "[1]");
}

#[test]
fn repair_reply_uses_the_clock() {
    let v = repair_reply("{}").unwrap();
    let start = v.get("start_time").unwrap().as_str().unwrap().to_string();
    assert!(start.ends_with('Z'));
    assert!(v.get("end_time").is_some());
}

#[test]
fn malformed_reply_keeps_raw_text() {
    let now = Timestamp { secs: 0, nanos: 0 };
    let raw = "```json\nnot json at all\n```";
    let e = prepare_reply(raw, &now).unwrap_err();
    match &e {
        AnalysisError::MalformedResponse { raw: kept, .. } => assert_eq!(kept, raw),
        other => panic!("unexpected {:?}", other),
    }
    assert!(e.message().contains(raw));
}

#[test]
fn inverted_range_is_reset() {
    let now = Timestamp { secs: 500, nanos: 1 };
    let s = summary(Timestamp { secs: 200, nanos: 0 }, Timestamp { secs: 100, nanos: 0 });
    let r = enforce_time_order(s, now);
    assert_eq!(r.start_time, now);
    assert_eq!(r.end_time, now);
    assert_eq!(r.title, "t");
    assert_eq!(r.productivity_score, 70);
    let s2 = summary(Timestamp { secs: 100, nanos: 9 }, Timestamp { secs: 100, nanos: 3 });
    let r2 = order_time_range(s2);
    assert_eq!(r2.start_time, r2.end_time);
}

#[test]
fn ordered_range_is_kept() {
    let a = Timestamp { secs: 100, nanos: 0 };
    let b = Timestamp { secs: 100, nanos: 7 };
    let r = enforce_time_order(summary(a, b), Timestamp { secs: 9, nanos: 0 });
    assert_eq!(r.start_time, a);
    assert_eq!(r.end_time, b);
    assert!(b.after(&a));
    assert!(!a.after(&a));
}

#[test]
fn encode_standard_base64() {
    assert_eq!(encode_image(b"hello").unwrap(), "aGVsbG8=");
    assert_eq!(encode_image(b"").unwrap(), "");
}

#[test]
fn no_usable_frames() {
    assert!(matches!(encode_frames(vec![]), Err(AnalysisError::NoUsableFrames)));
    assert!(matches!(encode_frames(vec![None, None]), Err(AnalysisError::NoUsableFrames)));
}

#[test]
fn unreadable_frames_are_skipped() {
    let r = encode_frames(vec![Some(b"abc".to_vec()), None, Some(b"hi".to_vec())]).unwrap();
    assert_eq!(r, vec!["YWJj", "aGk="]);
}

#[test]
fn configure_empty_endpoint() {
    let mut p = provider();
    assert!(p.is_configured());
    let c: serde_json::Value = serde_json::from_str("{\"base_url\": \"\"}").unwrap();
    assert!(p.configure(c).is_ok());
    assert!(!p.is_configured());
    assert!(matches!(p.plan_frames(&frames(3)), Err(AnalysisError::NotConfigured)));
    let c2: serde_json::Value = serde_json::from_str("{\"base_url\": \"http://x:1\"}").unwrap();
    p.configure(c2).unwrap();
    assert!(p.is_configured());
    assert_eq!(p.base_url(), "http://x:1");
}

#[test]
fn configure_keeps_absent_keys() {
    let mut p = provider();
    let c: serde_json::Value = serde_json::from_str("{\"model\": \"llava\", \"other\": 1}").unwrap();
    p.configure(c).unwrap();
    assert_eq!(p.model(), "llava");
    assert_eq!(p.base_url(), "http://100.82.18.91:11434");
    let c2: serde_json::Value = serde_json::from_str("{\"base_url\": \"  \\t\"}").unwrap();
    p.configure(c2).unwrap();
    assert!(!p.is_configured());
    p.configure_with(Some("http://h:2".to_string()), None);
    assert!(p.is_configured());
    assert_eq!(p.model(), "llava");
}

#[test]
fn capabilities_are_fixed() {
    let mut p = provider();
    let a = p.capabilities();
    p.configure_with(Some(String::new()), None);
    let b = p.capabilities();
    for c in [&a, &b] {
        assert!(c.vision_support);
        assert!(c.batch_analysis);
        assert!(!c.streaming);
        assert_eq!(c.max_input_tokens, 128000);
        assert_eq!(c.supported_image_formats, vec!["jpg", "jpeg", "png"]);
    }
}

#[test]
fn chat_request_and_url() {
    let mut p = provider();
    assert_eq!(p.name(), "ollama");
    assert_eq!(p.chat_url(), "http://100.82.18.91:11434/api/chat");
    p.configure_with(Some("http://h:1//".to_string()), Some("m".to_string()));
    assert_eq!(p.chat_url(), "http://h:1/api/chat");
    let r = p.chat_request(vec!["AA==".to_string()]);
    assert_eq!(r.model, "m");
    assert!(!r.stream);
    assert_eq!(r.messages.len(), 1);
    assert_eq!(r.messages[0].role, "user");
    assert_eq!(r.messages[0].content, PROMPT);
    assert_eq!(r.messages[0].images, Some(vec!["AA==".to_string()]));
    assert_eq!(p.build_prompt(), p.build_prompt().trim());
    assert!(p.build_prompt().contains("productivity_score"));
}

#[test]
fn plan_samples_configured_frames() {
    let mut p = provider();
    p.set_session_id(42);
    assert_eq!(p.session_id(), Some(42));
    let planned = p.plan_frames(&frames(61)).unwrap();
    assert_eq!(planned.len(), 30);
    assert_eq!(planned[1], "f2");
    assert!(p.plan_frames(&[]).unwrap().is_empty());
}

#[test]
fn only_missing_time_is_filled() {
    let now = Timestamp { secs: 1_700_000_000, nanos: 0 };
    let v = prepare_reply("{\"end_time\": \"2020-01-01T00:00:00Z\"}", &now).unwrap();
    assert_eq!(v.get("end_time").unwrap().as_str(), Some("2020-01-01T00:00:00Z"));
    assert_eq!(v.get("start_time").unwrap().as_str(), Some("2023-11-14T22:13:20Z"));
    let w = prepare_reply("{\"start_time\": \"yesterday\"}", &now).unwrap();
    assert_eq!(w.get("start_time").unwrap().as_str(), Some("yesterday"));
    assert_eq!(w.get("end_time").unwrap().as_str(), Some("2023-11-14T22:13:20Z"));
}

#[test]
fn extract_bare_fence() {
    assert_eq!(extract_json_text("```\n{\"k\": \"v\"}\n```"), "{\"k\": \"v\"}");
    assert_eq!(extract_json_text("```json{\"a\":1}```"), "{\"a\":1}");
}

#[test]
fn configure_ignores_non_string_keys_and_repeats() {
    let mut p = provider();
    let c: serde_json::Value = serde_json::from_str("{\"base_url\": 5, \"foo\": 1}").unwrap();
    p.configure(c).unwrap();
    assert_eq!(p.base_url(), "http://100.82.18.91:11434");
    assert_eq!(p.model(), "qwen3-vl:32b");
    assert!(p.is_configured());
    let c2: serde_json::Value =
        serde_json::from_str("{\"base_url\": \"http://y:2\", \"model\": \"m2\"}").unwrap();
    p.configure(c2.clone()).unwrap();
    p.configure(c2).unwrap();
    assert_eq!(p.base_url(), "http://y:2");
    assert_eq!(p.model(), "m2");
    assert!(p.is_configured());
}

#[test]
fn encoded_length_is_four_per_group() {
    assert_eq!(encode_image(b"Man").unwrap(), "TWFu");
    assert_eq!(encode_image(b"Ma").unwrap().len(), 4);
    assert_eq!(encode_image(&[0u8; 7]).unwrap().len(), 12);
}
