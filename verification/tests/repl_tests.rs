use fmpl_core::repl::{classify_command, wait_step, ReplCommand, WaitStep};
use fmpl_core::stream::StreamEvent;
use fmpl_core::value::Value;

#[test]
fn commands_are_named_by_their_first_word() {
    assert_eq!(classify_command(".quit"), ReplCommand::Quit);
    assert_eq!(classify_command(".q"), ReplCommand::Quit);
    assert_eq!(classify_command(".exit now"), ReplCommand::Quit);
    assert_eq!(classify_command(".help"), ReplCommand::Help);
    assert_eq!(classify_command(".h"), ReplCommand::Help);
    assert_eq!(classify_command(".?"), ReplCommand::Help);
    assert_eq!(classify_command(".clear"), ReplCommand::Clear);
    assert_eq!(classify_command(".reset all"), ReplCommand::Reset);
    assert_eq!(classify_command(".objects"), ReplCommand::Objects);
    assert_eq!(classify_command(".debug"), ReplCommand::Debug);
    assert_eq!(classify_command(".quitx"), ReplCommand::Unknown(".quitx".to_string()));
    assert_eq!(classify_command(".é ü"), ReplCommand::Unknown(".é".to_string()));
    assert_eq!(classify_command(" .quit"), ReplCommand::Unknown(String::new()));
    assert_eq!(classify_command(""), ReplCommand::Unknown(String::new()));
}

#[test]
fn waiting_on_a_stream() {
    assert!(matches!(
        wait_step(Value::Null, Some(StreamEvent::Data(Value::Int(1)))),
        WaitStep::Continue(Value::Int(1))
    ));
    assert!(matches!(
        wait_step(Value::Int(1), Some(StreamEvent::Success(Value::Int(2)))),
        WaitStep::Finished(Value::Int(2))
    ));
    assert!(matches!(
        wait_step(Value::Int(1), Some(StreamEvent::Failure(Value::Bool(false)))),
        WaitStep::Failed(Value::Bool(false))
    ));
    assert!(matches!(
        wait_step(Value::Int(3), Some(StreamEvent::Done)),
        WaitStep::Finished(Value::Int(3))
    ));
    assert!(matches!(wait_step(Value::Null, Some(StreamEvent::Done)), WaitStep::Finished(Value::Null)));
    assert!(matches!(wait_step(Value::Int(4), None), WaitStep::Finished(Value::Int(4))));
    assert!(matches!(wait_step(Value::Null, None), WaitStep::NoResult));
}
