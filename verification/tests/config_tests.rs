use agentflow::config::MasterConfig;

#[test]
fn test_default_config() {
    let config = MasterConfig::default();
    assert_eq!(config.server_addr, "0.0.0.0");
    assert_eq!(config.server_port, 6767);
    assert_eq!(config.bind_address(), "0.0.0.0:6767");
}

#[test]
fn test_bind_address() {
    let config = MasterConfig {
        server_addr: String::from("127.0.0.1"),
        server_port: 8080,
        ..Default::default()
    };
    assert_eq!(config.bind_address(), "127.0.0.1:8080");
}

#[test]
fn default_sandbox_and_memory_settings() {
    let config = MasterConfig::default();
    assert!(config.sandbox.enabled);
    assert_eq!(config.sandbox.default_workspace, "/tmp/agentflow/workspace");
    assert!(!config.sandbox.allow_network);
    assert_eq!(config.memory.backend, "memory");
    assert_eq!(config.memory.default_ttl, 3600);
    assert_eq!(config.memory.max_entries, 10000);
    assert_eq!(config.max_concurrent_tasks, 10);
    assert_eq!(config.task_timeout, 300);
}
