//! The bot's self-test module: commands that exercise the framework's line
//! wrapping, error handling, failure handling and stack use.
use vstd::prelude::*;
use vstd::string::*;
use vstd::layout::size_of;
use crate::bot_cmd::{BotCmdAuthLvl, BotCmdHandler, BotCmdResult, MsgMetadata, OnLoadHandler, Reaction, State};

verus! {

/// One registered bot command: its name, argument syntax, help text, the
/// authorization it demands, and its handler (a [`BotCmdHandler`]).
pub struct BotCmd<H> {
    pub name: String,
    pub usage: String,
    pub help: String,
    pub auth_lvl: BotCmdAuthLvl,
    pub handler: H,
}

/// A named set of bot commands with an optional load hook (an
/// [`OnLoadHandler`]).
pub struct Module<H, L> {
    pub name: String,
    pub on_load: Option<L>,
    pub commands: Vec<BotCmd<H>>,
}

/// Builds a [`Module`] command by command.
pub struct ModuleBuilder<H, L> {
    pub module: Module<H, L>,
}

/// Start building a module of the given name.
pub fn mk_module<H, L>(name: &str) -> (b: ModuleBuilder<H, L>)
    ensures
        b.module.name@ == name@,
        b.module.on_load is None,
        b.module.commands@.len() == 0,
{
    ModuleBuilder {
        module: Module { name: String::from_str(name), on_load: None, commands: Vec::new() },
    }
}

impl<H, L> ModuleBuilder<H, L> {
    /// Set the module's load hook.
    pub fn on_load(self, handler: L) -> (b: ModuleBuilder<H, L>)
        ensures
            b.module.name == self.module.name,
            b.module.on_load is Some,
            b.module.commands == self.module.commands,
    {
        let mut module = self.module;
        module.on_load = Some(handler);
        ModuleBuilder { module }
    }

    /// Append one command.
    pub fn command(
        self,
        name: &str,
        usage: &str,
        help: &str,
        auth_lvl: BotCmdAuthLvl,
        handler: H,
    ) -> (b: ModuleBuilder<H, L>)
        ensures
            b.module.name == self.module.name,
            b.module.on_load is Some <==> self.module.on_load is Some,
            b.module.commands@.len() == self.module.commands@.len() + 1,
            forall|i: int|
                0 <= i < self.module.commands@.len() ==> b.module.commands@[i]
                    == self.module.commands@[i],
            b.module.commands@.last().name@ == name@,
            b.module.commands@.last().usage@ == usage@,
            b.module.commands@.last().help@ == help@,
            b.module.commands@.last().auth_lvl == auth_lvl,
            b.module.commands@.last().handler == handler,
    {
        let Module { name: module_name, on_load, commands } = self.module;
        let mut commands = commands;
        commands.push(
            BotCmd {
                name: String::from_str(name),
                usage: String::from_str(usage),
                help: String::from_str(help),
                auth_lvl,
                handler,
            },
        );
        ModuleBuilder { module: Module { name: module_name, on_load, commands } }
    }

    /// Finish building.
    pub fn end(self) -> (m: Module<H, L>)
        ensures
            m == self.module,
    {
        self.module
    }
}

/// The load hook of the `test` module; it has nothing to set up.
pub struct TestOnLoad;

impl OnLoadHandler for TestOnLoad {
    fn on_load(&self, _state: &State) -> (r: Result<(), String>)
        ensures
            r is Ok,
    {
        Ok(())
    }
}

/// Requests a long message from the bot, to test its line-wrapping
/// function.
pub fn test_line_wrap(_state: &State, _msg_md: &MsgMetadata, _arg: &yaml_rust::Yaml) -> (r:
    BotCmdResult)
    ensures
        r matches BotCmdResult::Succeeded(Reaction::Reply(t)) && t@ == lorem_ipsum_view(),
{
    BotCmdResult::Succeeded(
        Reaction::Reply(
            String::from_str(
                "Lorem ipsum dolor sit amet, consectetur adipiscing elit. Integer et tincidunt nibh. Nullam aliquet imperdiet cursus. Duis at turpis mollis, iaculis quam sed, efficitur arcu. Sed vel massa sit amet magna efficitur hendrerit. Donec auctor auctor ligula nec semper. Nulla a odio suscipit, suscipit velit in, ullamcorper velit. In bibendum pulvinar ipsum. Fusce elementum maximus mattis. Donec sed mauris nec ante eleifend dapibus non faucibus massa. Vivamus a auctor ligula. Cras hendrerit, velit sit amet sagittis placerat, elit elit feugiat quam, vel aliquet ligula elit sit amet nibh. Fusce dignissim, orci vitae sodales ornare, lacus risus facilisis sem, a imperdiet lectus massa at velit. Etiam sed magna congue, pulvinar diam quis, facilisis risus. Sed semper, lectus vulputate luctus fermentum, quam lacus consectetur arcu, ac mollis ipsum metus vel nunc. Ut posuere arcu enim, id dictum arcu sagittis in. Mauris a lectus nec ligula eleifend rutrum. Class aptent taciti sociosqu ad litora torquent per conubia massa nunc.",
            ),
        ),
    )
}

/// The long fixed text that `test_line_wrap` replies with.
pub open spec fn lorem_ipsum_view() -> Seq<char> {
    "Lorem ipsum dolor sit amet, consectetur adipiscing elit. Integer et tincidunt nibh. Nullam aliquet imperdiet cursus. Duis at turpis mollis, iaculis quam sed, efficitur arcu. Sed vel massa sit amet magna efficitur hendrerit. Donec auctor auctor ligula nec semper. Nulla a odio suscipit, suscipit velit in, ullamcorper velit. In bibendum pulvinar ipsum. Fusce elementum maximus mattis. Donec sed mauris nec ante eleifend dapibus non faucibus massa. Vivamus a auctor ligula. Cras hendrerit, velit sit amet sagittis placerat, elit elit feugiat quam, vel aliquet ligula elit sit amet nibh. Fusce dignissim, orci vitae sodales ornare, lacus risus facilisis sem, a imperdiet lectus massa at velit. Etiam sed magna congue, pulvinar diam quis, facilisis risus. Sed semper, lectus vulputate luctus fermentum, quam lacus consectetur arcu, ac mollis ipsum metus vel nunc. Ut posuere arcu enim, id dictum arcu sagittis in. Mauris a lectus nec ligula eleifend rutrum. Class aptent taciti sociosqu ad litora torquent per conubia massa nunc."@
}

/// This command's handler returns an error, to test the bot framework's
/// error-handling mechanisms.
pub fn test_error_handling(_state: &State, _msg_md: &MsgMetadata, _arg: &yaml_rust::Yaml) -> (r:
    BotCmdResult)
    ensures
        r matches BotCmdResult::BotErrMsg(t) && t@ == "An error for testing purposes."@,
{
    BotCmdResult::BotErrMsg(String::from_str("An error for testing purposes."))
}

/// This command's handler fails on purpose, to test the framework's
/// handling of a handler that cannot do its work. The failure is reported
/// as an error value — a handler must not unwind into the reactor.
pub fn test_panic_catching(_state: &State, _msg_md: &MsgMetadata, _arg: &yaml_rust::Yaml) -> (r:
    BotCmdResult)
    ensures
        r matches BotCmdResult::BotErrMsg(t) && t@ == "Panicking for testing purposes...."@,
{
    BotCmdResult::BotErrMsg(String::from_str("Panicking for testing purposes...."))
}

/// The decimal digit characters.
pub open spec fn digit_char(d: int) -> char {
    "0123456789"@[d]
}

/// The decimal rendering of `n`, most significant digit first.
pub open spec fn decimal_digits(n: nat) -> Seq<char>
    decreases n,
{
    if n < 10 {
        seq![digit_char(n as int)]
    } else {
        decimal_digits(n / 10).push(digit_char((n % 10) as int))
    }
}

/// Render a number in decimal.
pub fn usize_to_decimal(n: usize) -> (r: String)
    ensures
        r@ == decimal_digits(n as nat),
    decreases n,
{
    let digits = "0123456789";
    proof {
        reveal_strlit("0123456789");
    }
    if n < 10 {
        let d = digits.substring_char(n, n + 1);
        proof {
            assert(d@ =~= seq![digit_char(n as int)]);
        }
        d.to_owned()
    } else {
        let mut s = usize_to_decimal(n / 10);
        let idx = n % 10;
        let d = digits.substring_char(idx, idx + 1);
        proof {
            assert(d@ =~= seq![digit_char((n % 10) as int)]);
        }
        s.append(d);
        proof {
            assert(s@ =~= decimal_digits((n / 10) as nat).push(digit_char((n % 10) as int)));
        }
        s
    }
}

/// What `test_stack_overflow` reports for a stack value of `n` bytes.
pub open spec fn stack_report_view(n: nat) -> Seq<char> {
    "Wow, I allocated "@ + decimal_digits(n)
        + " bytes on the stack! I have more stack space than I thought."@
}

/// This command's handler reports how large a value it put on the stack, to
/// probe how the framework copes with handlers that use a lot of it.
pub fn test_stack_overflow(_state: &State, _msg_md: &MsgMetadata, _arg: &yaml_rust::Yaml) -> (r:
    BotCmdResult)
    ensures
        r matches BotCmdResult::Succeeded(Reaction::Msg(t)) && t@ == stack_report_view(
            size_of::<[[[usize; 1024]; 1]; 1]>(),
        ),
{
    let huge = [[[1usize; 1024]; 1]; 1];
    let byte_len = core::mem::size_of::<[[[usize; 1024]; 1]; 1]>();
    let mut t = String::from_str("Wow, I allocated ");
    let rendered = usize_to_decimal(byte_len);
    t.append(rendered.as_str());
    t.append(" bytes on the stack! I have more stack space than I thought.");
    let _ = huge;
    BotCmdResult::Succeeded(Reaction::Msg(t))
}

/// The `test` module's command handlers, one per command.
#[derive(Clone, Copy, Debug, PartialEq, Eq, Structural)]
pub enum TestModuleHandler {
    LineWrap,
    ErrorHandling,
    PanicCatching,
    StackOverflow,
}

impl BotCmdHandler for TestModuleHandler {
    fn run(&self, state: &State, msg_md: &MsgMetadata, arg: &yaml_rust::Yaml) -> BotCmdResult {
        match self {
            TestModuleHandler::LineWrap => test_line_wrap(state, msg_md, arg),
            TestModuleHandler::ErrorHandling => test_error_handling(state, msg_md, arg),
            TestModuleHandler::PanicCatching => test_panic_catching(state, msg_md, arg),
            TestModuleHandler::StackOverflow => test_stack_overflow(state, msg_md, arg),
        }
    }
}

/// Build the `test` module: four commands that exercise the framework, all
/// restricted to administrators, plus a load hook with nothing to set up.
pub fn mk() -> (m: Module<TestModuleHandler, TestOnLoad>)
    ensures
        m.name@ == "test"@,
        m.on_load is Some,
        m.commands@.len() == 4,
        m.commands@[0].name@ == "test-line-wrap"@,
        m.commands@[1].name@ == "test-error-handling"@,
        m.commands@[2].name@ == "test-panic-catching"@,
        m.commands@[3].name@ == "test-stack-overflow"@,
        forall|i: int| 0 <= i < 4 ==> (#[trigger] m.commands@[i]).auth_lvl == BotCmdAuthLvl::Admin,
        forall|i: int| 0 <= i < 4 ==> (#[trigger] m.commands@[i]).usage@ == Seq::<char>::empty(),
        m.commands@[0].help@ == "Request a long message from the bot, to test its line-wrapping function."@,
        m.commands@[1].help@ == "This command's handler function returns an error, to test the bot framework's error-handling mechanism(s)."@,
        m.commands@[2].help@ == "This command's handler function fails on purpose, to test the bot framework's handling of a failing command handler."@,
        m.commands@[3].help@ == "This command's handler function allocates a large value on the stack, to test how the bot framework handles heavy stack use in command handler functions."@,
        m.commands@[0].handler == TestModuleHandler::LineWrap,
        m.commands@[1].handler == TestModuleHandler::ErrorHandling,
        m.commands@[2].handler == TestModuleHandler::PanicCatching,
        m.commands@[3].handler == TestModuleHandler::StackOverflow,
{
    let m = mk_module("test").on_load(TestOnLoad).command(
        "test-line-wrap",
        "",
        "Request a long message from the bot, to test its line-wrapping function.",
        BotCmdAuthLvl::Admin,
        TestModuleHandler::LineWrap,
    ).command(
        "test-error-handling",
        "",
        "This command's handler function returns an error, to test the bot framework's error-handling mechanism(s).",
        BotCmdAuthLvl::Admin,
        TestModuleHandler::ErrorHandling,
    ).command(
        "test-panic-catching",
        "",
        "This command's handler function fails on purpose, to test the bot framework's handling of a failing command handler.",
        BotCmdAuthLvl::Admin,
        TestModuleHandler::PanicCatching,
    ).command(
        "test-stack-overflow",
        "",
        "This command's handler function allocates a large value on the stack, to test how the bot framework handles heavy stack use in command handler functions.",
        BotCmdAuthLvl::Admin,
        TestModuleHandler::StackOverflow,
    ).end();
    proof {
        reveal_strlit("");
        assert(m.commands@[0].usage@ =~= Seq::<char>::empty());
        assert(m.commands@[1].usage@ =~= Seq::<char>::empty());
        assert(m.commands@[2].usage@ =~= Seq::<char>::empty());
        assert(m.commands@[3].usage@ =~= Seq::<char>::empty());
    }
    m
}

} // verus!
