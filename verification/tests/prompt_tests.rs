use agentflow::memory::{MemoryEntry, MemoryStore, MemoryValue};
use agentflow::prompt::{build_prompt, PromptBuilder, PromptBuilderConfig};
use agentflow::types::MemoryCategory;

#[test]
fn test_prompt_builder_basic() {
    let builder = PromptBuilder::new();
    let task = "实现一个简单的计算器";
    let memories = vec![];

    let prompt = builder.build(task, &memories);

    assert!(prompt.contains("系统指令"));
    assert!(prompt.contains("当前任务"));
    assert!(prompt.contains("计算器"));
}

#[test]
fn test_prompt_builder_with_memories() {
    let builder = PromptBuilder::new();
    let task = "修复登录 bug";
    let memories = vec![MemoryEntry {
        key: String::from("login_error"),
        value: MemoryValue::Text(String::from("用户登录时遇到 500 错误")),
        expires_at: None,
        category: MemoryCategory::Error,
        task_id: Some(String::from("task_123")),
        timestamp: 0,
    }];

    let prompt = builder.build(task, &memories);

    assert!(prompt.contains("相关上下文"));
    assert!(prompt.contains("错误"));
    assert!(prompt.contains("500 错误"));
    assert!(prompt.contains("task_123"));
}

#[test]
fn test_prompt_builder_with_metadata() {
    let builder = PromptBuilder::new();
    let task = "部署应用";
    let memories = vec![];
    let metadata = MemoryValue::Json(String::from(
        "{\n  \"environment\": \"production\",\n  \"version\": \"1.0.0\"\n}",
    ));

    let prompt = builder.build_with_metadata(task, &memories, &metadata);

    assert!(prompt.contains("任务元数据"));
    assert!(prompt.contains("production"));
    assert!(prompt.contains("1.0.0"));
}

#[test]
fn test_prompt_truncation() {
    let config = PromptBuilderConfig {
        system_instruction: String::from("System instruction"),
        max_tokens: 100,
        include_memory: true,
        max_memory_entries: 10,
        include_metadata: true,
    };

    let builder = PromptBuilder::with_config(config);

    let long_task = "A".repeat(1000);
    let memories = vec![];

    let prompt = builder.build(&long_task, &memories);

    assert!(prompt.len() < 1000);
}

#[test]
fn test_token_estimation() {
    let builder = PromptBuilder::new();
    let short_prompt = "Hello, world!";
    let long_prompt = "A".repeat(1000);

    let short_tokens = builder.estimate_tokens(short_prompt);
    let long_tokens = builder.estimate_tokens(&long_prompt);

    assert!(long_tokens > short_tokens);
}

#[test]
fn test_validate_length() {
    let config = PromptBuilderConfig {
        system_instruction: String::from("System"),
        max_tokens: 10,
        include_memory: false,
        max_memory_entries: 0,
        include_metadata: false,
    };

    let builder = PromptBuilder::with_config(config);

    let short_prompt = "Short";
    assert!(builder.validate_length(short_prompt).is_ok());

    let long_prompt = "A".repeat(1000);
    assert!(builder.validate_length(&long_prompt).is_err());
}

#[test]
fn test_convenience_function() {
    let prompt = build_prompt("测试任务", &vec![]);
    assert!(prompt.contains("测试任务"));
}

#[test]
fn test_format_memory_value() {
    let builder = PromptBuilder::new();

    let string_value = MemoryValue::Text(String::from("simple string"));
    assert_eq!(builder.format_memory_value(&string_value), "simple string");

    let object_value = MemoryValue::Json(String::from("{\n  \"key\": \"value\"\n}"));
    let formatted = builder.format_memory_value(&object_value);
    assert!(formatted.contains("key"));
    assert!(formatted.contains("value"));
}

#[test]
fn truncation_keeps_the_first_and_last_section() {
    // a prompt of several sections over budget keeps the system section
    // and the task section
    let config = PromptBuilderConfig {
        system_instruction: String::from("Be brief."),
        max_tokens: 60,
        include_memory: true,
        max_memory_entries: 10,
        include_metadata: false,
    };
    let builder = PromptBuilder::with_config(config);
    let memories = vec![MemoryEntry {
        key: String::from("noise"),
        value: MemoryValue::Text("x".repeat(300)),
        expires_at: None,
        category: MemoryCategory::Context,
        task_id: None,
        timestamp: 0,
    }];
    let prompt = builder.build("do the thing", &memories);
    assert!(prompt.contains("系统指令"));
    assert!(prompt.contains("do the thing"));
    assert!(!prompt.contains("xxx"));
}

#[test]
fn project_config_section_appears_when_set() {
    let mut builder = PromptBuilder::with_workspace(String::from("/workspace/app"));
    builder.set_project_config(Some(String::from("always run the linter")));
    let prompt = builder.build("tidy up", &vec![]);
    assert!(prompt.contains("项目专属配置"));
    assert!(prompt.contains("always run the linter"));
}

#[test]
fn memory_entries_are_numbered_and_capped() {
    let mut config = PromptBuilderConfig::default();
    config.max_memory_entries = 2;
    let builder = PromptBuilder::with_config(config);
    let mk = |k: &str| MemoryEntry {
        key: String::from(k),
        value: MemoryValue::Text(format!("note {k}")),
        expires_at: None,
        category: MemoryCategory::Context,
        task_id: None,
        timestamp: 0,
    };
    let memories = vec![mk("one"), mk("two"), mk("three")];
    let prompt = builder.build("t", &memories);
    assert!(prompt.contains("[1]"));
    assert!(prompt.contains("[2]"));
    assert!(!prompt.contains("[3]"));
    assert!(prompt.contains("note one"));
    assert!(prompt.contains("note two"));
    assert!(!prompt.contains("note three"));
}

#[test]
fn memory_search_feeds_the_prompt() {
    let mut store = MemoryStore::new(3600, 100);
    store.set(
        String::from("deploy_notes"),
        MemoryValue::Text(String::from("deployments run at dawn")),
        MemoryCategory::Context,
        None,
        Some(3600),
    );
    let builder = PromptBuilder::new();
    let prompt = builder.build_with_memory_search("deployments", &store);
    assert!(prompt.contains("相关上下文"));
    assert!(prompt.contains("deployments run at dawn"));
}
