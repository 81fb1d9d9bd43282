use agentflow::analysis::{analysis_entries, build_memory_prompt, extract_json};
use agentflow::memory::MemoryValue;
use agentflow::types::MemoryCategory;

#[test]
fn test_extract_json() {
    let json = r#"{"key": "value"}"#;
    assert_eq!(extract_json(json).unwrap(), json);

    let text = r#"一些解释文本
        {
          "key": "value"
        }
        更多文本"#;
    assert_eq!(
        extract_json(text).unwrap(),
        "{\n          \"key\": \"value\"\n        }"
    );
}

#[test]
fn extract_json_error_cases() {
    assert!(extract_json("no braces here").is_err());
    assert!(extract_json("only { an opening").is_err());
    assert!(extract_json("only } a closing").is_err());
    assert!(extract_json("} reversed {").is_err());
}

#[test]
fn memory_prompt_carries_the_result() {
    let prompt = build_memory_prompt("build the site", "ok done", "warn: slow", Some(0));
    assert!(prompt.contains("build the site"));
    assert!(prompt.contains("ok done"));
    assert!(prompt.contains("warn: slow"));
    assert!(prompt.contains("Some(0)"));
    assert!(prompt.contains("true"));

    let failed = build_memory_prompt("x", "", "", Some(2));
    assert!(failed.contains("Some(2)"));
    assert!(failed.contains("false"));

    let signalled = build_memory_prompt("x", "", "", None);
    assert!(signalled.contains("None"));
}

#[test]
fn memory_prompt_clips_long_output() {
    let long = "y".repeat(20_000);
    let prompt = build_memory_prompt("t", &long, "", Some(0));
    assert!(prompt.contains("...[已截断]"));
    assert!(prompt.len() < 20_000);
}

#[test]
fn analysis_entries_follow_the_fields() {
    let entries = analysis_entries(
        "deploy",
        Some(String::from("deployed fine")),
        vec![String::from("port already bound")],
        vec![String::from("freed the port")],
        vec![String::from("check ports first")],
        1_700_000_000,
    );
    assert_eq!(entries.len(), 3);
    assert!(entries[0].key.starts_with("execution:deploy:"));
    assert_eq!(entries[0].category, MemoryCategory::Execution);
    assert!(matches!(entries[0].value, MemoryValue::Text(ref s) if s == "deployed fine"));
    assert!(entries[1].key.starts_with("error:deploy:"));
    assert_eq!(entries[1].category, MemoryCategory::Error);
    assert!(
        matches!(entries[1].value, MemoryValue::Text(ref s) if s == "port already bound\nfreed the port")
    );
    assert!(entries[2].key.starts_with("learning:deploy:"));
    assert_eq!(entries[2].category, MemoryCategory::Result);
    for e in &entries {
        assert_eq!(e.timestamp, 1_700_000_000);
        assert!(e.expires_at.is_none());
        assert!(e.task_id.is_none());
        // a fresh 36-character identifier closes each key
        let tail = e.key.rsplit(':').next().unwrap();
        assert_eq!(tail.chars().count(), 36);
    }
    // the identifiers are fresh, not copies of one another
    assert_ne!(entries[0].key, entries[1].key);
}

#[test]
fn analysis_entries_skip_absent_fields() {
    let entries = analysis_entries("t", None, vec![], vec![], vec![], 5);
    assert!(entries.is_empty());

    let only_summary = analysis_entries("t", Some(String::from("s")), vec![], vec![], vec![], 5);
    assert_eq!(only_summary.len(), 1);
    assert_eq!(only_summary[0].category, MemoryCategory::Execution);
}
