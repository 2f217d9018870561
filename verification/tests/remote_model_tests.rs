use intent_router::{Handler, RemoteModelHandler};

#[derive(Debug, Clone, PartialEq)]
enum Decision {
    Execute(String),
    Reply(String),
}

#[test]
fn test_remote_model_handler() {
    let handler = RemoteModelHandler::new(|input: &String, _ctx: &()| {
        if input.contains("推理") {
            (Decision::Execute("reasoning_task".into()), 9200)
        } else {
            (Decision::Reply("unknown".into()), 3000)
        }
    });

    let result = handler.handle(&"需要深度推理".into(), &());
    assert_eq!(result.output, Decision::Execute("reasoning_task".into()));
    assert_eq!(result.confidence, 9200);
}

#[test]
fn test_remote_model_low_confidence() {
    let handler = RemoteModelHandler::new(|_: &String, _: &()| (Decision::Reply("uncertain".into()), 1000));

    let result = handler.handle(&"test".into(), &());
    assert_eq!(result.confidence, 1000);
}

#[test]
fn remote_model_confidence_is_clamped() {
    let handler = RemoteModelHandler::new(|_: &String, _: &()| (Decision::Reply("sure".into()), 99999));
    assert_eq!(handler.handle(&"test".into(), &()).confidence, 10000);
}
