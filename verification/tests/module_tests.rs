//! The bot's self-test module and its command handlers.
use irc_bot::bot_cmd::{BotCmdAuthLvl, BotCmdHandler, BotCmdResult, MsgMetadata, OnLoadHandler, Reaction, State};
use irc_bot::test_module::{mk, usize_to_decimal, TestModuleHandler, TestOnLoad};
use yaml_rust::Yaml;

#[test]
fn mk_builds_the_test_module() {
    let m = mk();
    assert_eq!(m.name, "test");
    assert!(m.on_load.is_some());
    let names: Vec<&str> = m.commands.iter().map(|c| c.name.as_str()).collect();
    assert_eq!(
        names,
        vec!["test-line-wrap", "test-error-handling", "test-panic-catching", "test-stack-overflow"]
    );
    for c in &m.commands {
        assert_eq!(c.auth_lvl, BotCmdAuthLvl::Admin);
        assert_eq!(c.usage, "");
        assert!(!c.help.is_empty());
    }
}

#[test]
fn on_load_has_nothing_to_do() {
    assert_eq!(TestOnLoad.on_load(&State {}), Ok(()));
}

#[test]
fn line_wrap_handler_replies_with_long_text() {
    let r = TestModuleHandler::LineWrap.run(&State {}, &MsgMetadata {}, &Yaml::Null);
    match r {
        BotCmdResult::Succeeded(Reaction::Reply(t)) => {
            assert!(t.starts_with("Lorem ipsum dolor sit amet"));
            assert!(t.ends_with("litora torquent per conubia massa nunc."));
            assert!(t.len() > 500);
        }
        other => panic!("unexpected result: {:?}", other),
    }
}

#[test]
fn error_handler_reports_an_error() {
    let r = TestModuleHandler::ErrorHandling.run(&State {}, &MsgMetadata {}, &Yaml::Null);
    assert_eq!(r, BotCmdResult::BotErrMsg("An error for testing purposes.".to_string()));
}

#[test]
fn panic_catching_handler_reports_instead_of_unwinding() {
    let r = TestModuleHandler::PanicCatching.run(&State {}, &MsgMetadata {}, &Yaml::Null);
    assert_eq!(r, BotCmdResult::BotErrMsg("Panicking for testing purposes....".to_string()));
}

#[test]
fn stack_overflow_handler_reports_byte_count() {
    let r = TestModuleHandler::StackOverflow.run(&State {}, &MsgMetadata {}, &Yaml::Null);
    let expected = format!(
        "Wow, I allocated {} bytes on the stack! I have more stack space than I thought.",
        1024 * core::mem::size_of::<usize>()
    );
    assert_eq!(r, BotCmdResult::Succeeded(Reaction::Msg(expected)));
}

#[test]
fn decimal_rendering_is_exact() {
    assert_eq!(usize_to_decimal(0), "0");
    assert_eq!(usize_to_decimal(7), "7");
    assert_eq!(usize_to_decimal(10), "10");
    assert_eq!(usize_to_decimal(8192), "8192");
    assert_eq!(usize_to_decimal(1234567890), "1234567890");
}
