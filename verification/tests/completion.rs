//! Completion rules and the default completer.

use shrs::completion::{
    arg_pred, cmdname_eq_pred, cmdname_pred, default_format, flag_pred, git_action,
    git_flag_action, git_pred, long_flag_pred, short_flag_pred, str_starts_with, ActionExpr,
    Completion, CompletionCtx, DefaultCompleter, Pred, PredExpr, ReplaceMethod, Rule,
};

#[test]
fn simple() {
    let _comp = DefaultCompleter::new();
}

#[test]
fn test_is_flag() {
    let ctx = CompletionCtx::new(vec!["git".into(), "-".into()]);
    assert!(flag_pred(&ctx));
    let ctx = CompletionCtx::new(vec![]);
    assert!(!flag_pred(&ctx));
}

#[test]
fn flag_kinds() {
    let short = CompletionCtx::new(vec!["git".into(), "-".into()]);
    assert!(short_flag_pred(&short));
    assert!(!long_flag_pred(&short));
    let long = CompletionCtx::new(vec!["git".into(), "--".into()]);
    assert!(!short_flag_pred(&long));
    assert!(long_flag_pred(&long));
    assert!(flag_pred(&long));
}

#[test]
fn name_and_arg_preds() {
    let name = CompletionCtx::new(vec!["gi".into()]);
    assert!(cmdname_pred(&name));
    assert!(!arg_pred(&name));
    let arg = CompletionCtx::new(vec!["git".into(), "st".into()]);
    assert!(!cmdname_pred(&arg));
    assert!(arg_pred(&arg));
    assert_eq!(arg.arg_num(), 1);
}

#[test]
fn git_predicate() {
    let ctx = CompletionCtx::new(vec!["git".into(), "st".into()]);
    assert!(git_pred(&ctx));
    let ctx = CompletionCtx::new(vec!["cargo".into(), "st".into()]);
    assert!(!git_pred(&ctx));
}

#[test]
fn starts_with_checks() {
    assert!(str_starts_with(&"status".to_string(), &"st".to_string()));
    assert!(!str_starts_with(&"status".to_string(), &"sta-".to_string()));
    assert!(str_starts_with(&"x".to_string(), &"".to_string()));
    assert!(!str_starts_with(&"".to_string(), &"x".to_string()));
}

#[test]
fn default_format_fields() {
    let out = default_format(vec!["status".to_string(), "add".to_string()]);
    assert_eq!(out.len(), 2);
    assert_eq!(out[0].completion, "status");
    assert!(out[0].add_space);
    assert!(out[0].display.is_none());
    assert_eq!(out[0].replace_method, ReplaceMethod::Replace);
    assert_eq!(out[1].completion, "add");
}

#[test]
fn completer_runs_matching_rules_in_order() {
    let mut comp = DefaultCompleter::new();
    comp.register(Rule::new(
        Pred::new(PredExpr::CmdNameEq("git".to_string())).and(PredExpr::Flag),
        git_flag_action(),
    ));
    comp.register(Rule::new(Pred::new(cmdname_eq_pred("git".to_string())), git_action()));

    let ctx = CompletionCtx::new(vec!["git".into(), "--".into()]);
    let out: Vec<Completion> = comp.complete_helper(&ctx);
    let words: Vec<String> = out.iter().map(|c| c.completion.clone()).collect();
    assert_eq!(words, vec!["--version", "--help", "--bare"]);

    let ctx = CompletionCtx::new(vec!["git".into(), "a".into()]);
    let out = comp.complete_helper(&ctx);
    let words: Vec<String> = out.iter().map(|c| c.completion.clone()).collect();
    assert_eq!(words, vec!["add"]);
}

#[test]
fn completer_filters_by_prefix() {
    let mut comp = DefaultCompleter::new();
    comp.register(Rule::new(
        Pred::new(PredExpr::Arg),
        ActionExpr::Words(vec!["alpha".to_string(), "beta".to_string(), "alps".to_string()]),
    ));
    let ctx = CompletionCtx::new(vec!["cmd".into(), "al".into()]);
    let out = comp.complete_helper(&ctx);
    let words: Vec<String> = out.iter().map(|c| c.completion.clone()).collect();
    assert_eq!(words, vec!["alpha", "alps"]);
}

#[test]
fn completion_accept_returns_text() {
    let out = default_format(vec!["status".to_string()]);
    assert_eq!(out[0].accept(), "status");
}
