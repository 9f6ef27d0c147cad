use harness::{
    detect_loop, detect_loop_with_threshold, is_forbidden, is_forbidden_with_policy, validate,
    validate_commands, CommandPolicy, HarnessError,
};

fn policy(forbidden: Vec<&str>, aliases: Vec<(&str, &str)>) -> CommandPolicy {
    CommandPolicy {
        forbidden: forbidden.into_iter().map(|s| s.to_owned()).collect(),
        aliases: aliases
            .into_iter()
            .map(|(k, v)| (k.to_owned(), v.to_owned()))
            .collect(),
    }
}

#[test]
fn test_forbidden_match_blocks_exact_and_prefix() {
    let policy = policy(vec!["rm -rf"], vec![]);
    assert!(is_forbidden_with_policy("rm -rf /tmp/x", &policy));
    assert!(is_forbidden_with_policy("rm", &policy));
}

#[test]
fn test_alias_expansion_blocks_forbidden_target() {
    let policy = policy(vec!["git push --force"], vec![("gpf", "git push --force")]);
    assert!(is_forbidden_with_policy("gpf origin main", &policy));
}

#[test]
fn test_args_aware_matching_distinguishes_safe_and_forbidden_push() {
    let policy = policy(vec!["git push --force"], vec![]);
    assert!(!is_forbidden_with_policy("git push origin main", &policy));
    assert!(is_forbidden_with_policy("git push --force origin main", &policy));
}

#[test]
fn test_safe_command_passes() {
    let policy = policy(vec!["rm -rf", "git push --force"], vec![]);
    assert!(!is_forbidden_with_policy("cargo test", &policy));
}

#[test]
fn test_detect_loop_false_below_threshold() {
    assert!(!detect_loop_with_threshold(4, 5));
}

#[test]
fn test_detect_loop_true_at_threshold() {
    assert!(detect_loop_with_threshold(5, 5));
}

#[test]
fn detect_loop_default_threshold_boundary() {
    assert!(detect_loop(25));
    assert!(!detect_loop(24));
}

#[test]
fn test_validate_rejects_forbidden_commands() {
    let commands = vec!["git push --force origin main".to_owned()];
    let result = validate(&commands, 0);
    assert!(matches!(result, Err(HarnessError::ForbiddenToolAccess(_))));
}

#[test]
fn test_validate_rejects_looping_edit_counts() {
    let commands = vec!["git status --porcelain".to_owned()];
    let result = validate(&commands, 25);
    assert!(matches!(result, Err(HarnessError::ConfigParse(_))));
}

#[test]
fn test_validate_allows_safe_commands_and_edit_count() {
    let commands = vec![
        "git status --porcelain".to_owned(),
        "cargo test".to_owned(),
    ];
    let result = validate(&commands, 3);
    assert!(result.is_ok());
}

#[test]
fn default_policy_blocks_builtin_rules() {
    assert!(is_forbidden("git reset --hard"));
    assert!(is_forbidden("sudo rm -rf /"));
    assert!(!is_forbidden("ls -la"));
}

#[test]
fn empty_command_is_never_forbidden() {
    let policy = policy(vec!["rm -rf"], vec![]);
    assert!(!is_forbidden_with_policy("", &policy));
    assert!(!is_forbidden_with_policy("   ", &policy));
}

#[test]
fn whitespace_is_collapsed_before_matching() {
    let policy = policy(vec!["git  push   --force"], vec![]);
    assert!(is_forbidden_with_policy("git push --force origin", &policy));
}

#[test]
fn alias_cycle_terminates_without_match() {
    let policy = policy(vec!["rm -rf"], vec![("a", "b x"), ("b", "a y")]);
    assert!(!is_forbidden_with_policy("a", &policy));
}

#[test]
fn alias_chain_expands_through_intermediate_names() {
    let policy = policy(
        vec!["git push --force"],
        vec![("gp", "git push"), ("gpf", "gp --force")],
    );
    assert!(is_forbidden_with_policy("gpf origin main", &policy));
}

#[test]
fn later_alias_binding_replaces_earlier_one() {
    let mut policy = policy(vec!["rm -rf"], vec![]);
    policy.insert_alias("cleanup".to_owned(), "ls".to_owned());
    policy.insert_alias("cleanup".to_owned(), "rm -rf".to_owned());
    assert!(is_forbidden_with_policy("cleanup /tmp", &policy));
}

#[test]
fn forbidden_error_names_the_offending_command() {
    let commands = vec!["ls".to_owned(), "rm -rf /".to_owned()];
    let policy = policy(vec!["rm -rf"], vec![]);
    match validate_commands(&commands, 0, &policy) {
        Err(HarnessError::ForbiddenToolAccess(c)) => assert_eq!(c, "rm -rf /"),
        other => panic!("expected a guardrail rejection, got {:?}", other.is_ok()),
    }
}

#[test]
fn loop_guard_error_message_is_stable() {
    let commands: Vec<String> = vec![];
    match validate(&commands, 30) {
        Err(e) => assert_eq!(
            e.message(),
            "config parse error: loop guard triggered: planned change count exceeds threshold"
        ),
        Ok(_) => panic!("loop guard should trigger"),
    }
}
