use intent_router::{pattern_compiles, Handler, RuleHandler, FULL_CONFIDENCE};

#[derive(Debug, Clone, PartialEq)]
enum Decision {
    Execute(String),
    Reply(String),
}

#[test]
fn test_rule_handler_regex_match() {
    let handler = RuleHandler::<String, _, _>::new()
        .with_rule(r"安装.*docker", |_, _| Decision::Execute("install_docker".into()))
        .with_rule(r"删除", |_, _| Decision::Execute("delete".into()));

    let result = handler.handle(&"请帮我安装一下docker".into(), &());
    assert_eq!(result.output, Decision::Execute("install_docker".into()));
    assert_eq!(result.confidence, 10000);
}

#[test]
fn test_rule_handler_contains() {
    let handler = RuleHandler::new()
        .with_contains("安装", |_, _| Decision::Execute("install".into()))
        .with_contains("卸载", |_, _| Decision::Execute("uninstall".into()));

    let result = handler.handle(&"我要卸载软件".into(), &());
    assert_eq!(result.output, Decision::Execute("uninstall".into()));
}

#[test]
fn test_rule_handler_confidence() {
    let handler = RuleHandler::new()
        .confidence(9000)
        .with_contains("test", |_, _| Decision::Execute("test".into()));

    let result = handler.handle(&"test".into(), &());
    assert_eq!(result.confidence, 9000);
}

#[test]
fn rule_confidence_is_clamped() {
    let high = RuleHandler::new()
        .confidence(12000)
        .with_contains("x", |_, _: &()| Decision::Execute("x".into()));
    assert_eq!(high.handle(&"x".into(), &()).confidence, FULL_CONFIDENCE);

    let low = RuleHandler::new()
        .confidence(-3)
        .with_contains("x", |_, _: &()| Decision::Execute("x".into()));
    assert_eq!(low.handle(&"x".into(), &()).confidence, 0);
}

#[test]
fn rule_first_matching_rule_wins() {
    let handler = RuleHandler::new()
        .with_rule("do", |_, _: &()| Decision::Execute("first".into()))
        .with_rule("docker", |_, _: &()| Decision::Execute("second".into()));
    let result = handler.handle(&"docker".into(), &());
    assert_eq!(result.output, Decision::Execute("first".into()));
}

#[test]
fn rule_mapper_sees_input() {
    let handler = RuleHandler::new().with_rule(r"^\d+$", |input: &String, _: &()| {
        Decision::Reply(format!("number {}", input))
    });
    let result = handler.handle(&"42".into(), &());
    assert_eq!(result.output, Decision::Reply("number 42".into()));
}

#[test]
fn contains_matches_keyword_literally() {
    let handler = RuleHandler::new()
        .with_contains("a.b", |_, _: &()| Decision::Execute("literal".into()))
        .with_rule(".*", |_, _: &()| Decision::Reply("other".into()));
    assert_eq!(handler.handle(&"xa.by".into(), &()).output, Decision::Execute("literal".into()));
    assert_eq!(handler.handle(&"axb".into(), &()).output, Decision::Reply("other".into()));
}

#[test]
fn contains_escapes_every_meta_character() {
    let handler = RuleHandler::new()
        .with_contains("(1+1)*[x]?", |_, _: &()| Decision::Execute("formula".into()))
        .with_rule(".*", |_, _: &()| Decision::Reply("other".into()));
    assert_eq!(handler.handle(&"is (1+1)*[x]? ok".into(), &()).output, Decision::Execute("formula".into()));
    assert_eq!(handler.handle(&"11x".into(), &()).output, Decision::Reply("other".into()));
}

#[test]
fn invalid_pattern_is_reported() {
    assert!(!pattern_compiles("foo(bar"));
    assert!(pattern_compiles("foo(bar)"));
    let refused = RuleHandler::<String, Decision, ()>::new()
        .try_with_rule("foo(bar", |_, _| Decision::Execute("never".into()));
    assert!(refused.is_err());
    let accepted = RuleHandler::<String, Decision, ()>::new()
        .try_with_rule("foo", |_, _| Decision::Execute("foo".into()));
    let handler = match accepted {
        Ok(h) => h,
        Err(_) => panic!("a valid pattern was refused"),
    };
    assert_eq!(handler.handle(&"a foo".into(), &()).output, Decision::Execute("foo".into()));
}

#[test]
fn try_with_contains_accepts_any_keyword() {
    let added = RuleHandler::<String, Decision, ()>::new()
        .try_with_contains("foo(bar", |_, _| Decision::Execute("paren".into()));
    let handler = match added {
        Ok(h) => h,
        Err(_) => panic!("an escaped keyword was refused"),
    };
    assert_eq!(handler.handle(&"xfoo(bar".into(), &()).output, Decision::Execute("paren".into()));
}

#[test]
fn default_rule_handler_is_new() {
    let handler: RuleHandler<String, Decision, ()> = Default::default();
    let handler = handler.with_contains("k", |_, _| Decision::Execute("k".into()));
    assert_eq!(handler.handle(&"k".into(), &()).confidence, FULL_CONFIDENCE);
}

#[test]
fn try_handle_reports_when_no_rule_matches() {
    let handler = RuleHandler::new()
        .with_contains("安装", |_, _: &()| Decision::Execute("install".into()));
    assert!(handler.try_handle(&"hello".into(), &()).is_none());
    let found = handler.try_handle(&"我要安装".into(), &());
    assert_eq!(found.map(|r| r.output), Some(Decision::Execute("install".into())));
}

fn assert_send_sync<T: Send + Sync>() {}

#[test]
fn handlers_can_be_shared_between_threads() {
    assert_send_sync::<RuleHandler<String, Decision, ()>>();
    assert_send_sync::<intent_router::EmbeddingHandler<String, Decision, ()>>();
    assert_send_sync::<intent_router::LocalModelHandler<String, Decision, ()>>();
    assert_send_sync::<intent_router::RemoteModelHandler<String, Decision, ()>>();
}
