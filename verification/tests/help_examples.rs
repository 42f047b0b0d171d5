use oc::cli::{examples_use_long_flags_only, root_examples, root_long_about};

#[test]
fn help_examples() {
    let help = root_examples();
    assert!(help.starts_with("Examples:"));
    assert!(help.lines().any(|line| line.trim_start().starts_with("$ oc ")));
    assert!(examples_use_long_flags_only(help));
    assert!(!examples_use_long_flags_only("Examples:\n  $ oc list -j  # short"));
    assert!(examples_use_long_flags_only("Examples:\n  $ oc list  # -j after the comment"));
    assert!(examples_use_long_flags_only("not an example: -j"));
    assert!(root_long_about().starts_with("Interactive TUI session manager for OpenCode"));
}
