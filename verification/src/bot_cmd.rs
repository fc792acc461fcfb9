//! The command layer's handler capability: what a bot command runs when the
//! dispatch layer invokes it, and the result it reports back. The dispatch
//! layer itself — parsing invocations, authorization checks — is outside
//! this crate; these types are its boundary.
use vstd::prelude::*;

verus! {

/// Declares `yaml_rust::Yaml`: the parsed argument a command handler takes.
#[verifier::external_type_specification]
#[verifier::external_body]
pub struct ExYaml(yaml_rust::Yaml);

/// The framework state a command handler may consult. Opaque at this
/// boundary: the dispatch layer that owns its contents is outside this
/// crate.
pub struct State {}

/// Metadata of the message that triggered a command. Opaque at this
/// boundary, like [`State`].
pub struct MsgMetadata {}

/// A command handler's declarative response.
#[derive(Debug, PartialEq)]
pub enum Reaction {
    /// Address the reply to wherever the triggering message came from.
    Reply(String),
    /// Send a plain message.
    Msg(String),
}

/// What running a bot command reported.
#[derive(Debug, PartialEq)]
pub enum BotCmdResult {
    /// The command succeeded with this reaction.
    Succeeded(Reaction),
    /// The command failed; the text describes the error. Handlers that fail
    /// on purpose report an error value here rather than unwinding into the
    /// reactor.
    BotErrMsg(String),
}

/// The authorization a command demands of its invoker.
#[derive(Clone, Copy, Debug, PartialEq, Eq, Structural)]
pub enum BotCmdAuthLvl {
    /// Anyone may invoke it.
    Public,
    /// Only an administrator may invoke it.
    Admin,
}

/// A bot command's handler: invoked with the framework state, the
/// triggering message's metadata, and the command's parsed argument.
pub trait BotCmdHandler: Send + Sync {
    fn run(&self, state: &State, msg_md: &MsgMetadata, arg: &yaml_rust::Yaml) -> BotCmdResult;
}

/// A module's load hook, run once when the module is registered.
pub trait OnLoadHandler: Send + Sync {
    fn on_load(&self, state: &State) -> Result<(), String>;
}

} // verus!
