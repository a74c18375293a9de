use vstd::prelude::*;
use crate::model::{Group, Target};
use crate::text::{decimal, digits_of, push_decimal, push_digits};

verus! {

/// A message to send back to the chat.
#[derive(Debug)]
pub struct Reply {
    pub text: String,
    /// Whether the text is written in the transport's MarkdownV2 dialect.
    pub markdown: bool,
}

impl Clone for Reply {
    fn clone(&self) -> (r: Self)
        ensures
            r == *self,
    {
        Reply { text: self.text.clone(), markdown: self.markdown }
    }
}

/// The replies whose text never varies.
#[derive(Clone, Copy, Debug, PartialEq, Eq, Structural)]
pub enum Prompt {
    Welcome,
    AskHost,
    AskPort,
    InvalidPort,
    AskName,
    NoServers,
    InvalidState,
    MonitoringStarted,
    AskServerIdToRemove,
    InvalidServerId,
    ServerNotFound,
    CheckUsage,
    AskGroupName,
    NoGroups,
    AskGroupId,
    InvalidGroupId,
    AskServerForGroup,
    AssignFailed,
    AskGroupIdToRemove,
    GroupNotFound,
    CheckGroupUsage,
}

pub open spec fn prompt_text(p: Prompt) -> Seq<char> {
    match p {
        Prompt::Welcome => "\u{1F44B} Welcome to Server Father!\nI'll help you monitor your servers."@,
        Prompt::AskHost => "Please enter the server host (IP or domain):"@,
        Prompt::AskPort => "Please enter the port number:"@,
        Prompt::InvalidPort => "Invalid port number. Please enter a number between 1 and 65535:"@,
        Prompt::AskName => "Please enter a name for this server:"@,
        Prompt::NoServers => "No servers added yet. Use /addserver to add one."@,
        Prompt::InvalidState => "\u{26A0}\u{FE0F} Invalid command for current state. Try /start"@,
        Prompt::MonitoringStarted => "\u{2705} Monitoring started! You'll receive notifications when server status changes."@,
        Prompt::AskServerIdToRemove => "Please enter the server ID to remove (use /status to see server IDs):"@,
        Prompt::InvalidServerId => "Invalid server ID. Please enter a number."@,
        Prompt::ServerNotFound => "\u{274C} Server not found."@,
        Prompt::CheckUsage => "Please provide a server ID (use /check <server_id>)"@,
        Prompt::AskGroupName => "Please enter the name for the new group:"@,
        Prompt::NoGroups => "No groups created yet. Use /creategroup to create one."@,
        Prompt::AskGroupId => "Please enter the group ID (use /groups to see group IDs):"@,
        Prompt::InvalidGroupId => "Invalid group ID. Please enter a number."@,
        Prompt::AskServerForGroup => "Please enter the server ID to add to this group (use /status to see server IDs):"@,
        Prompt::AssignFailed => "\u{274C} Failed to add server to group."@,
        Prompt::AskGroupIdToRemove => "Please enter the group ID to remove (use /groups to see group IDs):"@,
        Prompt::GroupNotFound => "\u{274C} Group not found."@,
        Prompt::CheckGroupUsage => "Please provide a group ID (use /checkgroup <group_id>)"@,
    }
}

/// The plain reply of a fixed text.
pub fn prompt(p: Prompt) -> (r: Reply)
    ensures
        r.text@ == prompt_text(p),
        !r.markdown,
{
    let text = match p {
        Prompt::Welcome => String::from_str("\u{1F44B} Welcome to Server Father!\nI'll help you monitor your servers."),
        Prompt::AskHost => String::from_str("Please enter the server host (IP or domain):"),
        Prompt::AskPort => String::from_str("Please enter the port number:"),
        Prompt::InvalidPort => String::from_str("Invalid port number. Please enter a number between 1 and 65535:"),
        Prompt::AskName => String::from_str("Please enter a name for this server:"),
        Prompt::NoServers => String::from_str("No servers added yet. Use /addserver to add one."),
        Prompt::InvalidState => String::from_str("\u{26A0}\u{FE0F} Invalid command for current state. Try /start"),
        Prompt::MonitoringStarted => String::from_str("\u{2705} Monitoring started! You'll receive notifications when server status changes."),
        Prompt::AskServerIdToRemove => String::from_str("Please enter the server ID to remove (use /status to see server IDs):"),
        Prompt::InvalidServerId => String::from_str("Invalid server ID. Please enter a number."),
        Prompt::ServerNotFound => String::from_str("\u{274C} Server not found."),
        Prompt::CheckUsage => String::from_str("Please provide a server ID (use /check <server_id>)"),
        Prompt::AskGroupName => String::from_str("Please enter the name for the new group:"),
        Prompt::NoGroups => String::from_str("No groups created yet. Use /creategroup to create one."),
        Prompt::AskGroupId => String::from_str("Please enter the group ID (use /groups to see group IDs):"),
        Prompt::InvalidGroupId => String::from_str("Invalid group ID. Please enter a number."),
        Prompt::AskServerForGroup => String::from_str("Please enter the server ID to add to this group (use /status to see server IDs):"),
        Prompt::AssignFailed => String::from_str("\u{274C} Failed to add server to group."),
        Prompt::AskGroupIdToRemove => String::from_str("Please enter the group ID to remove (use /groups to see group IDs):"),
        Prompt::GroupNotFound => String::from_str("\u{274C} Group not found."),
        Prompt::CheckGroupUsage => String::from_str("Please provide a group ID (use /checkgroup <group_id>)"),
    };
    Reply { text, markdown: false }
}

/// The plain reply `before` followed by `value`.
pub fn prefixed(before: &str, value: &str) -> (r: Reply)
    ensures
        r.text@ == before@ + value@,
        !r.markdown,
{
    let mut text = String::from_str(before);
    text.append(value);
    Reply { text, markdown: false }
}

/// The plain reply `before`, `value`, `after`.
pub fn framed(before: &str, value: &str, after: &str) -> (r: Reply)
    ensures
        r.text@ == before@ + value@ + after@,
        !r.markdown,
{
    let mut text = String::from_str(before);
    text.append(value);
    text.append(after);
    Reply { text, markdown: false }
}

/// The reply to an attempt to add a server.
pub fn server_added(name: &String, host: &String, error: Option<String>) -> (r: Reply)
    ensures
        !r.markdown,
        r.text@ == match error {
            None => "\u{2705} Server '"@ + name@ + "' ("@ + host@ + ") added successfully!"@,
            Some(e) => "\u{274C} Failed to add server: "@ + e@,
        },
{
    match error {
        None => {
            let mut text = String::from_str("\u{2705} Server '");
            text.append(name.as_str());
            text.append("' (");
            text.append(host.as_str());
            text.append(") added successfully!");
            assert(text@ =~= "\u{2705} Server '"@ + name@ + "' ("@ + host@ + ") added successfully!"@);
            Reply { text, markdown: false }
        },
        Some(e) => prefixed("\u{274C} Failed to add server: ", e.as_str()),
    }
}

/// The reply to an attempt to create a group.
pub fn group_created(name: &String, created: Result<i32, String>) -> (r: Reply)
    ensures
        !r.markdown,
        r.text@ == match created {
            Ok(id) => "\u{2705} Group '"@ + name@ + "' created successfully! (ID: "@ + decimal(
                id as int,
            ) + ")"@,
            Err(e) => "\u{274C} Failed to create group: "@ + e@,
        },
{
    match created {
        Ok(id) => {
            let mut text = String::from_str("\u{2705} Group '");
            text.append(name.as_str());
            text.append("' created successfully! (ID: ");
            push_decimal(&mut text, id as i64);
            text.append(")");
            assert(text@ =~= "\u{2705} Group '"@ + name@ + "' created successfully! (ID: "@ + decimal(
                id as int,
            ) + ")"@);
            Reply { text, markdown: false }
        },
        Err(e) => prefixed("\u{274C} Failed to create group: ", e.as_str()),
    }
}

/// The characters that MarkdownV2 text marks specially.
pub open spec fn is_markdown_special(c: char) -> bool {
    c == '[' || c == ']' || c == '(' || c == ')' || c == '~' || c == '`' || c == '>' || c == '#'
        || c == '+' || c == '-' || c == '=' || c == '|' || c == '{' || c == '}' || c == '.' || c
        == '!'
}

/// A text with a backslash put before every special character.
pub open spec fn escaped(s: Seq<char>) -> Seq<char>
    decreases s.len(),
{
    if s.len() == 0 {
        Seq::empty()
    } else {
        escaped(s.drop_last()) + if is_markdown_special(s.last()) {
            seq!['\\', s.last()]
        } else {
            seq![s.last()]
        }
    }
}

/// Escapes a text for a status listing.
pub fn escape(s: &String) -> (r: String)
    ensures
        r@ == escaped(s@),
{
    let text = s.as_str();
    let n = text.unicode_len();
    let mut r = String::new();
    let mut i: usize = 0;
    while i < n
        invariant
            i <= n,
            n == s@.len(),
            text@ == s@,
            r@ == escaped(s@.take(i as int)),
        decreases n - i,
    {
        assert(s@.take(i as int + 1).drop_last() =~= s@.take(i as int));
        let c = text.get_char(i);
        let one = text.substring_char(i, i + 1);
        assert(one@ =~= seq![c]);
        if c == '[' || c == ']' || c == '(' || c == ')' || c == '~' || c == '`' || c == '>' || c
            == '#' || c == '+' || c == '-' || c == '=' || c == '|' || c == '{' || c == '}' || c
            == '.' || c == '!' {
            proof {
                reveal_strlit("\\");
            }
            r.append("\\");
            r.append(one);
        } else {
            r.append(one);
        }
        assert(r@ =~= escaped(s@.take(i as int + 1)));
        i = i + 1;
    }
    assert(s@.take(i as int) =~= s@);
    r
}

pub open spec fn light(up: bool) -> Seq<char> {
    if up {
        "\u{1F7E2}"@
    } else {
        "\u{1F534}"@
    }
}

fn push_light(out: &mut String, up: bool)
    ensures
        final(out)@ == old(out)@ + light(up),
{
    if up {
        out.append("\u{1F7E2}");
    } else {
        out.append("\u{1F534}");
    }
}

/// One entry of the status listing.
pub open spec fn status_entry(t: Target, up: bool) -> Seq<char> {
    light(up) + " *"@ + escaped(t.name@) + "* \\(ID: "@ + decimal(t.id as int) + "\\)\n`"@
        + escaped(t.host@) + ":"@ + decimal(t.port as int) + "`\n\n"@
}

pub open spec fn status_entries(ts: Seq<Target>, ups: Seq<bool>, n: int) -> Seq<char>
    decreases n,
{
    if n <= 0 {
        Seq::empty()
    } else {
        status_entries(ts, ups, n - 1) + status_entry(ts[n - 1], ups[n - 1])
    }
}

fn status_line(t: &Target, up: bool) -> (r: String)
    ensures
        r@ == status_entry(*t, up),
{
    let mut text = String::new();
    push_light(&mut text, up);
    text.append(" *");
    let name = escape(&t.name);
    text.append(name.as_str());
    text.append("* \\(ID: ");
    push_decimal(&mut text, t.id as i64);
    text.append("\\)\n`");
    let host = escape(&t.host);
    text.append(host.as_str());
    text.append(":");
    push_decimal(&mut text, t.port as i64);
    text.append("`\n\n");
    assert(text@ =~= status_entry(*t, up));
    text
}

/// The status listing of every server with its probed state.
pub open spec fn status_text(ts: Seq<Target>, ups: Seq<bool>) -> Seq<char> {
    "\u{1F4CA} *Server Status*\n\n"@ + status_entries(ts, ups, ts.len() as int)
}

/// Writes the status listing; `ups[i]` is the probed state of `servers[i]`.
/// With no server the reply says that none was added.
pub fn status_report(servers: &Vec<Target>, ups: &Vec<bool>) -> (r: Reply)
    requires
        servers@.len() == ups@.len(),
    ensures
        servers@.len() == 0 ==> r.text@ == prompt_text(Prompt::NoServers) && !r.markdown,
        servers@.len() > 0 ==> r.text@ == status_text(servers@, ups@) && r.markdown,
{
    if servers.len() == 0 {
        return prompt(Prompt::NoServers);
    }
    let mut text = String::from_str("\u{1F4CA} *Server Status*\n\n");
    let mut i: usize = 0;
    while i < servers.len()
        invariant
            i <= servers@.len(),
            servers@.len() == ups@.len(),
            text@ == "\u{1F4CA} *Server Status*\n\n"@ + status_entries(servers@, ups@, i as int),
        decreases servers@.len() - i,
    {
        let entry = status_line(&servers[i], ups[i]);
        text.append(entry.as_str());
        assert(text@ =~= "\u{1F4CA} *Server Status*\n\n"@ + status_entries(servers@, ups@, i as int + 1));
        i = i + 1;
    }
    Reply { text, markdown: true }
}

/// The report on one probed server.
pub open spec fn server_check_text(t: Target, up: bool) -> Seq<char> {
    "Server Status:\n"@ + light(up) + " *"@ + t.name@ + "*\n`"@ + t.host@ + ":"@ + decimal(
        t.port as int,
    ) + "`\nStatus: "@ + if up {
        "Online"@
    } else {
        "Offline"@
    }
}

/// Writes the report on one probed server.
pub fn server_check(t: &Target, up: bool) -> (r: Reply)
    ensures
        r.text@ == server_check_text(*t, up),
        r.markdown,
{
    let mut text = String::from_str("Server Status:\n");
    push_light(&mut text, up);
    text.append(" *");
    text.append(t.name.as_str());
    text.append("*\n`");
    text.append(t.host.as_str());
    text.append(":");
    push_decimal(&mut text, t.port as i64);
    text.append("`\nStatus: ");
    if up {
        text.append("Online");
    } else {
        text.append("Offline");
    }
    assert(text@ =~= server_check_text(*t, up));
    Reply { text, markdown: true }
}

/// One entry of the group listing.
pub open spec fn group_entry(g: Group, count: nat) -> Seq<char> {
    "\u{1F465} *"@ + g.name@ + "* (ID: "@ + decimal(g.id as int) + ")\nServers: "@ + digits_of(count)
        + "\n\n"@
}

pub open spec fn group_entries(gs: Seq<Group>, counts: Seq<usize>, n: int) -> Seq<char>
    decreases n,
{
    if n <= 0 {
        Seq::empty()
    } else {
        group_entries(gs, counts, n - 1) + group_entry(gs[n - 1], counts[n - 1] as nat)
    }
}

pub open spec fn groups_text(gs: Seq<Group>, counts: Seq<usize>) -> Seq<char> {
    "\u{1F4C1} *Server Groups*\n\n"@ + group_entries(gs, counts, gs.len() as int)
}

/// Writes the group listing; `counts[i]` is the number of servers of
/// `groups[i]`. With no group the reply says that none was created.
pub fn groups_report(groups: &Vec<Group>, counts: &Vec<usize>) -> (r: Reply)
    requires
        groups@.len() == counts@.len(),
    ensures
        groups@.len() == 0 ==> r.text@ == prompt_text(Prompt::NoGroups) && !r.markdown,
        groups@.len() > 0 ==> r.text@ == groups_text(groups@, counts@) && r.markdown,
{
    if groups.len() == 0 {
        return prompt(Prompt::NoGroups);
    }
    let mut text = String::from_str("\u{1F4C1} *Server Groups*\n\n");
    let mut i: usize = 0;
    while i < groups.len()
        invariant
            i <= groups@.len(),
            groups@.len() == counts@.len(),
            text@ == "\u{1F4C1} *Server Groups*\n\n"@ + group_entries(groups@, counts@, i as int),
        decreases groups@.len() - i,
    {
        text.append("\u{1F465} *");
        text.append(groups[i].name.as_str());
        text.append("* (ID: ");
        push_decimal(&mut text, groups[i].id as i64);
        text.append(")\nServers: ");
        push_digits(&mut text, counts[i] as u64);
        text.append("\n\n");
        assert(text@ =~= "\u{1F4C1} *Server Groups*\n\n"@ + group_entries(groups@, counts@, i as int + 1));
        i = i + 1;
    }
    Reply { text, markdown: true }
}

/// One entry of a group's status report.
pub open spec fn member_entry(t: Target, up: bool) -> Seq<char> {
    light(up) + " *"@ + t.name@ + "*\n`"@ + t.host@ + ":"@ + decimal(t.port as int) + "`\n\n"@
}

fn member_line_text(t: &Target, up: bool) -> (r: String)
    ensures
        r@ == member_entry(*t, up),
{
    let mut text = String::new();
    push_light(&mut text, up);
    text.append(" *");
    text.append(t.name.as_str());
    text.append("*\n`");
    text.append(t.host.as_str());
    text.append(":");
    push_decimal(&mut text, t.port as i64);
    text.append("`\n\n");
    assert(text@ =~= member_entry(*t, up));
    text
}

pub open spec fn member_entries(ts: Seq<Target>, ups: Seq<bool>, n: int) -> Seq<char>
    decreases n,
{
    if n <= 0 {
        Seq::empty()
    } else {
        member_entries(ts, ups, n - 1) + member_entry(ts[n - 1], ups[n - 1])
    }
}

/// The number of `true` among the first `n` states.
pub open spec fn count_up(ups: Seq<bool>, n: int) -> nat
    decreases n,
{
    if n <= 0 {
        0
    } else {
        count_up(ups, n - 1) + if ups[n - 1] {
            1nat
        } else {
            0nat
        }
    }
}

pub open spec fn group_status_text(name: Seq<char>, ts: Seq<Target>, ups: Seq<bool>) -> Seq<char> {
    "\u{1F4CA} *Group: "@ + name + "*\n\n"@ + member_entries(ts, ups, ts.len() as int)
        + "Summary: "@ + digits_of(count_up(ups, ups.len() as int)) + " of "@ + digits_of(
        ts.len() as nat,
    ) + " servers online"@
}

/// Writes the status report of a group; `ups[i]` is the probed state of
/// `servers[i]`. A group without servers gets a plain note instead.
pub fn group_status(name: &String, servers: &Vec<Target>, ups: &Vec<bool>) -> (r: Reply)
    requires
        servers@.len() == ups@.len(),
    ensures
        servers@.len() == 0 ==> r.text@ == "Group '"@ + name@ + "' has no servers."@ && !r.markdown,
        servers@.len() > 0 ==> r.text@ == group_status_text(name@, servers@, ups@) && r.markdown,
{
    if servers.len() == 0 {
        return framed("Group '", name.as_str(), "' has no servers.");
    }
    let mut text = String::from_str("\u{1F4CA} *Group: ");
    text.append(name.as_str());
    text.append("*\n\n");
    let mut up: u64 = 0;
    let mut i: usize = 0;
    while i < servers.len()
        invariant
            i <= servers@.len(),
            servers@.len() == ups@.len(),
            up as nat == count_up(ups@, i as int),
            up <= i,
            text@ == "\u{1F4CA} *Group: "@ + name@ + "*\n\n"@ + member_entries(servers@, ups@, i as int),
        decreases servers@.len() - i,
    {
        if ups[i] {
            up = up + 1;
        }
        let entry = member_line_text(&servers[i], ups[i]);
        text.append(entry.as_str());
        assert(text@ =~= "\u{1F4CA} *Group: "@ + name@ + "*\n\n"@ + member_entries(servers@, ups@, i as int + 1));
        i = i + 1;
    }
    text.append("Summary: ");
    push_digits(&mut text, up);
    text.append(" of ");
    push_digits(&mut text, servers.len() as u64);
    text.append(" servers online");
    assert(text@ =~= group_status_text(name@, servers@, ups@));
    Reply { text, markdown: true }
}

/// The operations whose failure is reported with the collaborator's error.
#[derive(Clone, Copy, Debug, PartialEq, Eq, Structural)]
pub enum Failure {
    FetchServers,
    FetchServer,
    FetchGroups,
    RemoveServer,
    RemoveGroup,
    StartMonitoring,
    AssignServer,
    FetchServerForGroup,
}

pub open spec fn failure_prefix(f: Failure) -> Seq<char> {
    match f {
        Failure::FetchServers => "\u{274C} Failed to fetch servers: "@,
        Failure::FetchServer => "\u{274C} Failed to fetch server: "@,
        Failure::FetchGroups => "\u{274C} Failed to fetch groups: "@,
        Failure::RemoveServer => "\u{274C} Failed to remove server: "@,
        Failure::RemoveGroup => "\u{274C} Failed to remove group: "@,
        Failure::StartMonitoring => "\u{274C} Failed to start monitoring: "@,
        Failure::AssignServer => "\u{274C} Error adding server to group: "@,
        Failure::FetchServerForGroup => "\u{274C} Error fetching server: "@,
    }
}

/// Reports that an operation failed, with the error's text.
pub fn failure(f: Failure, error: &String) -> (r: Reply)
    ensures
        r.text@ == failure_prefix(f) + error@,
        !r.markdown,
{
    let before = match f {
        Failure::FetchServers => "\u{274C} Failed to fetch servers: ",
        Failure::FetchServer => "\u{274C} Failed to fetch server: ",
        Failure::FetchGroups => "\u{274C} Failed to fetch groups: ",
        Failure::RemoveServer => "\u{274C} Failed to remove server: ",
        Failure::RemoveGroup => "\u{274C} Failed to remove group: ",
        Failure::StartMonitoring => "\u{274C} Failed to start monitoring: ",
        Failure::AssignServer => "\u{274C} Error adding server to group: ",
        Failure::FetchServerForGroup => "\u{274C} Error fetching server: ",
    };
    prefixed(before, error.as_str())
}

} // verus!
