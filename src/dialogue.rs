use vstd::prelude::*;
use crate::model::Group;
use crate::replies::{
    Failure, Prompt, Reply, failure, failure_prefix, framed, prompt, prompt_text, server_added,
};
use crate::text::{parse_signed, signed_value, split_words, words};

verus! {

/// Where a chat stands in a multi-step conversation.
#[derive(Debug)]
pub enum State {
    Start,
    AwaitingServerName { host: String, port: i32 },
    AwaitingServerHost,
    /// Holds the host entered in the previous step.
    AwaitingServerPort { name: String },
    AwaitingServerId,
    AwaitingGroupName,
    AwaitingGroupId,
    AwaitingServerForGroup { group_id: i32 },
}

impl Clone for State {
    fn clone(&self) -> (r: Self)
        ensures
            r == *self,
    {
        match self {
            State::Start => State::Start,
            State::AwaitingServerName { host, port } => State::AwaitingServerName {
                host: host.clone(),
                port: *port,
            },
            State::AwaitingServerHost => State::AwaitingServerHost,
            State::AwaitingServerPort { name } => State::AwaitingServerPort { name: name.clone() },
            State::AwaitingServerId => State::AwaitingServerId,
            State::AwaitingGroupName => State::AwaitingGroupName,
            State::AwaitingGroupId => State::AwaitingGroupId,
            State::AwaitingServerForGroup { group_id } => State::AwaitingServerForGroup {
                group_id: *group_id,
            },
        }
    }
}

impl Default for State {
    fn default() -> (r: Self)
        ensures
            r == State::Start,
    {
        State::Start
    }
}

/// The commands a chat can send.
#[derive(Clone, Copy, Debug, PartialEq, Eq, Structural)]
pub enum Command {
    Start,
    AddServer,
    RemoveServer,
    CreateGroup,
    Check,
    SetInterval,
    Status,
    Monitor,
    Groups,
    AddToGroup,
    RemoveGroup,
    CheckGroup,
}

/// The handler a message is dispatched to.
#[derive(Clone, Copy, Debug, PartialEq, Eq, Structural)]
pub enum Handler {
    Start,
    AddServer,
    Status,
    StartMonitoring,
    RemoveServer,
    CheckServer,
    CreateGroup,
    ListGroups,
    AddToGroup,
    RemoveGroup,
    CheckGroup,
    ReceiveHost,
    ReceivePort,
    ReceiveName,
    ReceiveServerId,
    ReceiveGroupName,
    ReceiveGroupIdForServer,
    ReceiveServerForGroup,
    InvalidState,
}

/// Dispatch: a command is honoured only at the start of a conversation;
/// otherwise the message answers the step the conversation awaits. A
/// command without a handler, and any plain message at the start, is
/// refused.
pub open spec fn route_spec(state: State, command: Option<Command>) -> Handler {
    match (state, command) {
        (State::Start, Some(c)) => match c {
            Command::Start => Handler::Start,
            Command::AddServer => Handler::AddServer,
            Command::Status => Handler::Status,
            Command::Monitor => Handler::StartMonitoring,
            Command::RemoveServer => Handler::RemoveServer,
            Command::Check => Handler::CheckServer,
            Command::CreateGroup => Handler::CreateGroup,
            Command::Groups => Handler::ListGroups,
            Command::AddToGroup => Handler::AddToGroup,
            Command::RemoveGroup => Handler::RemoveGroup,
            Command::CheckGroup => Handler::CheckGroup,
            Command::SetInterval => Handler::InvalidState,
        },
        (State::Start, None) => Handler::InvalidState,
        (State::AwaitingServerHost, _) => Handler::ReceiveHost,
        (State::AwaitingServerPort { .. }, _) => Handler::ReceivePort,
        (State::AwaitingServerName { .. }, _) => Handler::ReceiveName,
        (State::AwaitingServerId, _) => Handler::ReceiveServerId,
        (State::AwaitingGroupName, _) => Handler::ReceiveGroupName,
        (State::AwaitingGroupId, _) => Handler::ReceiveGroupIdForServer,
        (State::AwaitingServerForGroup { .. }, _) => Handler::ReceiveServerForGroup,
    }
}

/// Picks the handler of a message, given the conversation's state and the
/// command the message holds, if any.
pub fn route(state: &State, command: Option<Command>) -> (r: Handler)
    ensures
        r == route_spec(*state, command),
{
    match state {
        State::Start => match command {
            Some(c) => match c {
                Command::Start => Handler::Start,
                Command::AddServer => Handler::AddServer,
                Command::Status => Handler::Status,
                Command::Monitor => Handler::StartMonitoring,
                Command::RemoveServer => Handler::RemoveServer,
                Command::Check => Handler::CheckServer,
                Command::CreateGroup => Handler::CreateGroup,
                Command::Groups => Handler::ListGroups,
                Command::AddToGroup => Handler::AddToGroup,
                Command::RemoveGroup => Handler::RemoveGroup,
                Command::CheckGroup => Handler::CheckGroup,
                Command::SetInterval => Handler::InvalidState,
            },
            None => Handler::InvalidState,
        },
        State::AwaitingServerHost => Handler::ReceiveHost,
        State::AwaitingServerPort { .. } => Handler::ReceivePort,
        State::AwaitingServerName { .. } => Handler::ReceiveName,
        State::AwaitingServerId => Handler::ReceiveServerId,
        State::AwaitingGroupName => Handler::ReceiveGroupName,
        State::AwaitingGroupId => Handler::ReceiveGroupIdForServer,
        State::AwaitingServerForGroup { .. } => Handler::ReceiveServerForGroup,
    }
}

/// The port a text names: its number when it is one from 1 to 65535.
pub open spec fn port_value(text: Seq<char>) -> Option<i32> {
    match signed_value(text) {
        Some(p) => if 1 <= p <= 65535 {
            Some(p)
        } else {
            None
        },
        None => None,
    }
}

/// Reads a port number; an absent text, or one that is no number from 1 to
/// 65535, gives `None`.
pub fn read_port(text: &Option<Vec<char>>) -> (r: Option<i32>)
    ensures
        r == match text {
            Some(t) => port_value(t@),
            None => None::<i32>,
        },
{
    match text {
        Some(t) => match parse_signed(t) {
            Some(p) => if 1 <= p && p <= 65535 {
                Some(p)
            } else {
                None
            },
            None => None,
        },
        None => None,
    }
}

/// Reads an id; an absent text, or one that is no 32-bit number, gives
/// `None`.
pub fn read_id(text: &Option<Vec<char>>) -> (r: Option<i32>)
    ensures
        r == match text {
            Some(t) => signed_value(t@),
            None => None::<i32>,
        },
{
    match text {
        Some(t) => parse_signed(t),
        None => None,
    }
}

/// What the argument of a command with one id argument turned out to be.
#[derive(Clone, Copy, Debug, PartialEq, Eq, Structural)]
pub enum IdArgument {
    /// The message does not consist of the command and exactly one argument.
    Missing,
    /// The argument is no 32-bit number.
    Invalid,
    Id(i32),
}

pub open spec fn id_argument_spec(text: Seq<char>) -> IdArgument {
    let ws = words(text);
    if ws.len() != 2 {
        IdArgument::Missing
    } else {
        match signed_value(ws[1]) {
            Some(id) => IdArgument::Id(id),
            None => IdArgument::Invalid,
        }
    }
}

/// Reads the id argument of a command such as `/check 12`: the message must
/// have exactly two words, the second of which is the id.
pub fn id_argument(text: &Vec<char>) -> (r: IdArgument)
    ensures
        r == id_argument_spec(text@),
{
    let ws = split_words(text);
    assert(ws@.len() == words(text@).len());
    if ws.len() != 2 {
        return IdArgument::Missing;
    }
    assert(ws@[1]@ == words(text@)[1]);
    match parse_signed(&ws[1]) {
        Some(id) => IdArgument::Id(id),
        None => IdArgument::Invalid,
    }
}

/// What a handler decided: the state the conversation moves to, if it moves,
/// and the reply to send, if any.
#[derive(Debug)]
pub struct Step {
    pub next: Option<State>,
    pub reply: Option<Reply>,
}

pub open spec fn says(step: Step, text: Seq<char>) -> bool {
    step.reply matches Some(r) && r.text@ == text && !r.markdown
}

fn reply_with(next: Option<State>, p: Prompt) -> (r: Step)
    ensures
        r.next == next,
        says(r, prompt_text(p)),
{
    Step { next, reply: Some(prompt(p)) }
}

/// The state a handler that needs no input moves to, and its fixed reply:
/// a greeting, a refusal, or the opening of a multi-step command with the
/// state that awaits its answer.
pub open spec fn begin_spec(h: Handler) -> Option<(Option<State>, Prompt)> {
    match h {
        Handler::Start => Some((None, Prompt::Welcome)),
        Handler::InvalidState => Some((None, Prompt::InvalidState)),
        Handler::AddServer => Some((Some(State::AwaitingServerHost), Prompt::AskHost)),
        Handler::RemoveServer => Some((Some(State::AwaitingServerId), Prompt::AskServerIdToRemove)),
        Handler::CreateGroup => Some((Some(State::AwaitingGroupName), Prompt::AskGroupName)),
        Handler::AddToGroup => Some((Some(State::AwaitingGroupId), Prompt::AskGroupId)),
        Handler::RemoveGroup => Some((Some(State::AwaitingGroupId), Prompt::AskGroupIdToRemove)),
        _ => None,
    }
}

/// The step of a handler that needs no input; other handlers give `None`.
pub fn begin(h: Handler) -> (r: Option<Step>)
    ensures
        match begin_spec(h) {
            None => r is None,
            Some((next, p)) => (r matches Some(s) && s.next == next && says(s, prompt_text(p))),
        },
{
    match h {
        Handler::Start => Some(reply_with(None, Prompt::Welcome)),
        Handler::InvalidState => Some(reply_with(None, Prompt::InvalidState)),
        Handler::AddServer => Some(reply_with(Some(State::AwaitingServerHost), Prompt::AskHost)),
        Handler::RemoveServer => Some(reply_with(Some(State::AwaitingServerId), Prompt::AskServerIdToRemove)),
        Handler::CreateGroup => Some(reply_with(Some(State::AwaitingGroupName), Prompt::AskGroupName)),
        Handler::AddToGroup => Some(reply_with(Some(State::AwaitingGroupId), Prompt::AskGroupId)),
        Handler::RemoveGroup => Some(reply_with(Some(State::AwaitingGroupId), Prompt::AskGroupIdToRemove)),
        _ => None,
    }
}

/// The host entered: the conversation goes on to ask for the port, carrying
/// the host along (an absent text counts as empty).
pub fn receive_host(text: Option<String>) -> (r: Step)
    ensures
        r.next matches Some(State::AwaitingServerPort { name }) && match text {
            Some(t) => name == t,
            None => name@.len() == 0,
        },
        says(r, prompt_text(Prompt::AskPort)),
{
    let name = match text {
        Some(t) => t,
        None => String::new(),
    };
    reply_with(Some(State::AwaitingServerPort { name }), Prompt::AskPort)
}

/// The port entered: an invalid port is refused and asked again; a valid one
/// moves the conversation on to ask for the name.
pub fn receive_port(text: &Option<Vec<char>>, state: &State) -> (r: Step)
    ensures
        ({
            let port = match text {
                Some(t) => port_value(t@),
                None => None::<i32>,
            };
            match port {
                None => r.next is None && says(r, prompt_text(Prompt::InvalidPort)),
                Some(p) => match *state {
                    State::AwaitingServerPort { name } => r.next == Some(
                        State::AwaitingServerName { host: name, port: p },
                    ) && says(r, prompt_text(Prompt::AskName)),
                    _ => r.next is None && r.reply is None,
                },
            }
        }),
{
    match read_port(text) {
        None => reply_with(None, Prompt::InvalidPort),
        Some(port) => match state {
            State::AwaitingServerPort { name } => reply_with(
                Some(State::AwaitingServerName { host: name.clone(), port }),
                Prompt::AskName,
            ),
            _ => Step { next: None, reply: None },
        },
    }
}

/// A server to register, as the conversation collected it.
#[derive(Debug)]
pub struct NewServer {
    pub name: String,
    pub host: String,
    pub port: i32,
    /// The group of the new server; a server is registered ungrouped.
    pub group_id: Option<i32>,
}

/// The name entered: the server the conversation collected, when it awaits
/// a name (an absent text counts as empty). The server is registered
/// without a group.
pub fn receive_name(text: Option<String>, state: &State) -> (r: Option<NewServer>)
    ensures
        match *state {
            State::AwaitingServerName { host, port } => r matches Some(s) && s.host == host
                && s.port == port && s.group_id is None && match text {
                Some(t) => s.name == t,
                None => s.name@.len() == 0,
            },
            _ => r is None,
        },
{
    match state {
        State::AwaitingServerName { host, port } => {
            let name = match text {
                Some(t) => t,
                None => String::new(),
            };
            Some(NewServer { name, host: host.clone(), port: *port, group_id: None })
        },
        _ => None,
    }
}

/// The reply to registering the collected server, given the error of the
/// attempt if it failed, after which the conversation starts over.
pub fn name_received(new: &NewServer, error: Option<String>) -> (r: Step)
    ensures
        r.next == Some(State::Start),
        says(r, match error {
            None => "\u{2705} Server '"@ + new.name@ + "' ("@ + new.host@ + ") added successfully!"@,
            Some(e) => "\u{274C} Failed to add server: "@ + e@,
        }),
{
    finish(server_added(&new.name, &new.host, error))
}

/// Ends a multi-step command with its reply.
pub fn finish(reply: Reply) -> (r: Step)
    ensures
        r.next == Some(State::Start),
        r.reply == Some(reply),
{
    Step { next: Some(State::Start), reply: Some(reply) }
}

/// An id answer that is no number is refused and asked again.
pub fn invalid_id(group: bool) -> (r: Step)
    ensures
        r.next is None,
        says(
            r,
            prompt_text(
                if group {
                    Prompt::InvalidGroupId
                } else {
                    Prompt::InvalidServerId
                },
            ),
        ),
{
    if group {
        reply_with(None, Prompt::InvalidGroupId)
    } else {
        reply_with(None, Prompt::InvalidServerId)
    }
}

/// The group id entered when adding a server to a group: the conversation
/// asks for the server, remembering the group.
pub fn receive_group_id_for_server(text: &Option<Vec<char>>) -> (r: Step)
    ensures
        match text {
            Some(t) => signed_value(t@),
            None => None::<i32>,
        } matches Some(g) ==> r.next == Some(State::AwaitingServerForGroup { group_id: g })
            && says(r, prompt_text(Prompt::AskServerForGroup)),
        match text {
            Some(t) => signed_value(t@),
            None => None::<i32>,
        } is None ==> r.next is None && says(r, prompt_text(Prompt::InvalidGroupId)),
{
    match read_id(text) {
        Some(g) => reply_with(Some(State::AwaitingServerForGroup { group_id: g }), Prompt::AskServerForGroup),
        None => invalid_id(true),
    }
}

/// How looking up a server and then acting on it went.
#[derive(Debug)]
pub enum ServerOutcome {
    /// The server exists; the action reported whether it applied, or failed.
    Found { name: String, done: Result<bool, String> },
    /// No server has the id.
    Missing,
    /// The lookup failed.
    Failed { error: String },
}

/// The reply to removing a server, after which the conversation starts over.
pub fn server_removed(outcome: ServerOutcome) -> (r: Step)
    ensures
        r.next == Some(State::Start),
        says(r, match outcome {
            ServerOutcome::Found { name, done: Ok(true) } => "\u{2705} Server '"@ + name@ + "' removed successfully!"@,
            ServerOutcome::Found { done: Ok(false), .. } => prompt_text(Prompt::ServerNotFound),
            ServerOutcome::Found { done: Err(e), .. } => failure_prefix(Failure::RemoveServer) + e@,
            ServerOutcome::Missing => prompt_text(Prompt::ServerNotFound),
            ServerOutcome::Failed { error } => failure_prefix(Failure::FetchServer) + error@,
        }),
{
    let reply = match outcome {
        ServerOutcome::Found { name, done } => match done {
            Ok(true) => framed("\u{2705} Server '", name.as_str(), "' removed successfully!"),
            Ok(false) => prompt(Prompt::ServerNotFound),
            Err(e) => failure(Failure::RemoveServer, &e),
        },
        ServerOutcome::Missing => prompt(Prompt::ServerNotFound),
        ServerOutcome::Failed { error } => failure(Failure::FetchServer, &error),
    };
    finish(reply)
}

/// The reply to adding a server to a group, after which the conversation
/// starts over.
pub fn server_assigned(outcome: ServerOutcome) -> (r: Step)
    ensures
        r.next == Some(State::Start),
        says(r, match outcome {
            ServerOutcome::Found { name, done: Ok(true) } => "\u{2705} Server '"@ + name@ + "' added to group successfully!"@,
            ServerOutcome::Found { done: Ok(false), .. } => prompt_text(Prompt::AssignFailed),
            ServerOutcome::Found { done: Err(e), .. } => failure_prefix(Failure::AssignServer) + e@,
            ServerOutcome::Missing => prompt_text(Prompt::ServerNotFound),
            ServerOutcome::Failed { error } => failure_prefix(Failure::FetchServerForGroup) + error@,
        }),
{
    let reply = match outcome {
        ServerOutcome::Found { name, done } => match done {
            Ok(true) => framed("\u{2705} Server '", name.as_str(), "' added to group successfully!"),
            Ok(false) => prompt(Prompt::AssignFailed),
            Err(e) => failure(Failure::AssignServer, &e),
        },
        ServerOutcome::Missing => prompt(Prompt::ServerNotFound),
        ServerOutcome::Failed { error } => failure(Failure::FetchServerForGroup, &error),
    };
    finish(reply)
}

/// The position of the first group with id `id`.
pub open spec fn group_position(groups: Seq<Group>, id: i32) -> Option<int>
    decreases groups.len(),
{
    if groups.len() == 0 {
        None
    } else {
        match group_position(groups.drop_last(), id) {
            Some(k) => Some(k),
            None => if groups.last().id == id {
                Some(groups.len() - 1)
            } else {
                None
            },
        }
    }
}

/// Finds the first group with id `id`.
pub fn find_group(groups: &Vec<Group>, id: i32) -> (r: Option<usize>)
    ensures
        match r {
            Some(k) => group_position(groups@, id) == Some(k as int),
            None => group_position(groups@, id) is None,
        },
{
    let mut i: usize = 0;
    while i < groups.len()
        invariant
            i <= groups@.len(),
            group_position(groups@.take(i as int), id) is None,
        decreases groups@.len() - i,
    {
        assert(groups@.take(i as int + 1).drop_last() =~= groups@.take(i as int));
        if groups[i].id == id {
            proof {
                lemma_position_kept(groups@, i as int + 1);
            }
            return Some(i);
        }
        i = i + 1;
    }
    assert(groups@.take(i as int) =~= groups@);
    None
}

proof fn lemma_position_kept(groups: Seq<Group>, n: int)
    requires
        0 <= n <= groups.len(),
        group_position(groups.take(n), groups[n - 1].id) is Some || n == 0,
    ensures
        n > 0 ==> group_position(groups, groups[n - 1].id) == group_position(groups.take(n), groups[n - 1].id),
    decreases groups.len() - n,
{
    if n > 0 && n < groups.len() {
        assert(groups.take(n + 1).drop_last() =~= groups.take(n));
        lemma_prefix_position(groups, n + 1, groups[n - 1].id);
    } else if n == groups.len() {
        assert(groups.take(n) =~= groups);
    }
}

proof fn lemma_prefix_position(groups: Seq<Group>, n: int, id: i32)
    requires
        1 <= n <= groups.len(),
        group_position(groups.take(n - 1), id) is Some,
    ensures
        group_position(groups, id) == group_position(groups.take(n - 1), id),
    decreases groups.len() - n,
{
    assert(groups.take(n).drop_last() =~= groups.take(n - 1));
    if n == groups.len() {
        assert(groups.take(n) =~= groups);
    } else {
        lemma_prefix_position(groups, n + 1, id);
    }
}

/// The reply to removing a group, after which the conversation starts over:
/// `name` is the name of the group when a listed group has the id, `deleted`
/// what the deletion reported.
pub fn group_removed(name: Option<String>, deleted: Result<bool, String>) -> (r: Step)
    ensures
        r.next == Some(State::Start),
        says(r, match (name, deleted) {
            (Some(n), Ok(true)) => "\u{2705} Group '"@ + n@ + "' removed successfully!"@,
            (Some(_), Ok(false)) => prompt_text(Prompt::GroupNotFound),
            (Some(_), Err(e)) => failure_prefix(Failure::RemoveGroup) + e@,
            (None, _) => prompt_text(Prompt::GroupNotFound),
        }),
{
    let reply = match name {
        Some(n) => match deleted {
            Ok(true) => framed("\u{2705} Group '", n.as_str(), "' removed successfully!"),
            Ok(false) => prompt(Prompt::GroupNotFound),
            Err(e) => failure(Failure::RemoveGroup, &e),
        },
        None => prompt(Prompt::GroupNotFound),
    };
    finish(reply)
}

} // verus!
