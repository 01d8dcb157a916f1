use pocketcoder::records::{
    approval_step, auth_should_retry, command_hash, commands_create_path, commands_query_path,
    execution_path, executions_create_path, first_command, initial_status, whitelist_decision,
    whitelists_query_path, Approval, CommandRecord, PocketBaseProvider, APPROVAL_POLL_MS,
    APPROVAL_TIMEOUT_MS, AUTH_MAX_ATTEMPTS, AUTH_RETRY_DELAY_MS,
};

#[test]
fn command_hash_is_the_sha256_hex() {
    assert_eq!(
        command_hash("echo hello"),
        "584a331fd6b02dcb1ecbe2eba731f609a2e1e3dac0bb73ae998dfad14c309a77"
    );
    assert_eq!(
        command_hash("test"),
        "9f86d081884c7d659a2feaa0c55ad015a3bf4f1b2b0b822cd15d6c15b0f00a08"
    );
    assert_eq!(command_hash("echo hello").len(), 64);
    assert_ne!(command_hash("a"), command_hash("b"));
}

#[test]
fn query_paths_carry_encoded_filters() {
    assert_eq!(
        commands_query_path("abc"),
        "/api/collections/commands/records?filter=(hash%3D%27abc%27)"
    );
    assert_eq!(
        whitelists_query_path("cmd123"),
        "/api/collections/whitelists/records?filter=(command%3D%27cmd123%27%20%26%26%20active%3Dtrue)"
    );
    assert_eq!(commands_create_path(), "/api/collections/commands/records");
    assert_eq!(executions_create_path(), "/api/collections/executions/records");
    assert_eq!(execution_path("id9"), "/api/collections/executions/records/id9");
}

#[test]
fn provider_urls_and_auth() {
    let p = PocketBaseProvider::new("http://localhost:8090".to_string(), "tok".to_string());
    assert_eq!(
        p.auth_url(),
        "http://localhost:8090/api/collections/users/auth-with-password"
    );
    assert_eq!(
        p.request_url("/api/collections/commands/records"),
        "http://localhost:8090/api/collections/commands/records"
    );
    assert_eq!(p.bearer_header(), "Bearer tok");
}

#[test]
fn auth_retries_fifteen_times() {
    assert_eq!(AUTH_MAX_ATTEMPTS, 15);
    assert_eq!(AUTH_RETRY_DELAY_MS, 2000);
    assert!(auth_should_retry(0));
    assert!(auth_should_retry(14));
    assert!(!auth_should_retry(15));
}

#[test]
fn first_command_takes_the_first_page_item() {
    assert!(first_command(Vec::new()).is_none());
    let items = vec![
        CommandRecord { id: "a".to_string(), hash: "h1".to_string(), command: "c1".to_string() },
        CommandRecord { id: "b".to_string(), hash: "h2".to_string(), command: "c2".to_string() },
    ];
    let first = first_command(items).unwrap();
    assert_eq!(first.id, "a");
    assert_eq!(first.hash, "h1");
    assert_eq!(first.command, "c1");
}

#[test]
fn whitelist_and_initial_status() {
    assert!(whitelist_decision(1));
    assert!(!whitelist_decision(0));
    assert_eq!(initial_status(true), "authorized");
    assert_eq!(initial_status(false), "draft");
}

#[test]
fn approval_gate_steps() {
    assert!(matches!(approval_step("authorized"), Approval::Approved));
    assert!(matches!(approval_step("denied"), Approval::Denied));
    assert!(matches!(approval_step("failed"), Approval::Denied));
    assert!(matches!(approval_step("draft"), Approval::Pending));
    assert!(matches!(approval_step("executing"), Approval::Pending));
    assert_eq!(APPROVAL_TIMEOUT_MS, 300_000);
    assert_eq!(APPROVAL_POLL_MS, 1000);
}
