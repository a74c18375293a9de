use server_father::dialogue::{
    begin, find_group, id_argument, name_received, read_id, read_port, receive_group_id_for_server,
    receive_host, receive_name, receive_port, route, server_assigned, server_removed,
    group_removed, Command, Handler, IdArgument, ServerOutcome, State,
};
use server_father::model::{Group, Target};
use server_father::replies::{
    escape, failure, group_created, group_status, groups_report, server_added, server_check,
    status_report, Failure,
};

fn chars(s: &str) -> Vec<char> {
    s.chars().collect()
}

fn server(id: i32, name: &str, host: &str, port: i32) -> Target {
    Target { id, name: name.to_string(), host: host.to_string(), port, group_id: None, is_active: true }
}

#[test]
fn commands_are_routed_only_at_start() {
    assert_eq!(route(&State::Start, Some(Command::AddServer)), Handler::AddServer);
    assert_eq!(route(&State::Start, Some(Command::Monitor)), Handler::StartMonitoring);
    assert_eq!(route(&State::Start, Some(Command::SetInterval)), Handler::InvalidState);
    assert_eq!(route(&State::Start, None), Handler::InvalidState);
    assert_eq!(route(&State::AwaitingServerHost, Some(Command::Start)), Handler::ReceiveHost);
    assert_eq!(route(&State::AwaitingGroupId, None), Handler::ReceiveGroupIdForServer);
}

#[test]
fn add_server_conversation() {
    let step = begin(Handler::AddServer).unwrap();
    assert!(matches!(step.next, Some(State::AwaitingServerHost)));
    assert_eq!(step.reply.unwrap().text, "Please enter the server host (IP or domain):");
    let step = receive_host(Some("example.org".to_string()));
    let state = step.next.unwrap();
    assert!(matches!(&state, State::AwaitingServerPort { name } if name == "example.org"));
    let bad = receive_port(&Some(chars("70000")), &state);
    assert!(bad.next.is_none());
    assert_eq!(
        bad.reply.unwrap().text,
        "Invalid port number. Please enter a number between 1 and 65535:"
    );
    let good = receive_port(&Some(chars("443")), &state);
    let state = good.next.unwrap();
    assert!(matches!(&state, State::AwaitingServerName { host, port: 443 } if host == "example.org"));
    let new = receive_name(Some("web".to_string()), &state).unwrap();
    assert_eq!((new.name.as_str(), new.host.as_str(), new.port), ("web", "example.org", 443));
    assert_eq!(new.group_id, None);
    let done = name_received(&new, None);
    assert!(matches!(done.next, Some(State::Start)));
    assert_eq!(done.reply.unwrap().text, "\u{2705} Server 'web' (example.org) added successfully!");
    let failed = name_received(&new, Some("db down".to_string()));
    assert!(matches!(failed.next, Some(State::Start)));
    assert_eq!(failed.reply.unwrap().text, "\u{274C} Failed to add server: db down");
    assert_eq!(
        server_added(&new.name, &new.host, Some("db down".to_string())).text,
        "\u{274C} Failed to add server: db down"
    );
}

#[test]
fn ports_and_ids_are_read_like_numbers() {
    assert_eq!(read_port(&Some(chars("1"))), Some(1));
    assert_eq!(read_port(&Some(chars("65535"))), Some(65535));
    assert_eq!(read_port(&Some(chars("0"))), None);
    assert_eq!(read_port(&Some(chars("-22"))), None);
    assert_eq!(read_port(&None), None);
    assert_eq!(read_id(&Some(chars("-2147483648"))), Some(-2147483648));
    assert_eq!(read_id(&Some(chars("2147483648"))), None);
    assert_eq!(read_id(&Some(chars("+7"))), Some(7));
    assert_eq!(read_id(&Some(chars(" 7"))), None);
    for text in ["12", "-0", "+", "-", "", "99999999999999999999", "1e3"] {
        assert_eq!(read_id(&Some(chars(text))), text.parse::<i32>().ok(), "{}", text);
    }
}

#[test]
fn command_arguments() {
    assert_eq!(id_argument(&chars("/check 12")), IdArgument::Id(12));
    assert_eq!(id_argument(&chars("  /check\t\u{3000}12  ")), IdArgument::Id(12));
    assert_eq!(id_argument(&chars("/check")), IdArgument::Missing);
    assert_eq!(id_argument(&chars("/check 1 2")), IdArgument::Missing);
    assert_eq!(id_argument(&chars("/check x")), IdArgument::Invalid);
    assert_eq!(id_argument(&chars("")), IdArgument::Missing);
}

#[test]
fn removal_replies() {
    let ok = server_removed(ServerOutcome::Found { name: "web".to_string(), done: Ok(true) });
    assert!(matches!(ok.next, Some(State::Start)));
    assert_eq!(ok.reply.unwrap().text, "\u{2705} Server 'web' removed successfully!");
    let gone = server_removed(ServerOutcome::Missing);
    assert_eq!(gone.reply.unwrap().text, "\u{274C} Server not found.");
    let failed = server_removed(ServerOutcome::Failed { error: "timeout".to_string() });
    assert_eq!(failed.reply.unwrap().text, "\u{274C} Failed to fetch server: timeout");
    let assigned = server_assigned(ServerOutcome::Found { name: "web".to_string(), done: Ok(false) });
    assert_eq!(assigned.reply.unwrap().text, "\u{274C} Failed to add server to group.");
}

#[test]
fn group_conversation() {
    let step = receive_group_id_for_server(&Some(chars("3")));
    assert!(matches!(step.next, Some(State::AwaitingServerForGroup { group_id: 3 })));
    let bad = receive_group_id_for_server(&Some(chars("three")));
    assert!(bad.next.is_none());
    assert_eq!(bad.reply.unwrap().text, "Invalid group ID. Please enter a number.");
    let groups = vec![Group { id: 4, name: "a".to_string() }, Group { id: 9, name: "b".to_string() }];
    assert_eq!(find_group(&groups, 9), Some(1));
    assert_eq!(find_group(&groups, 5), None);
    let removed = group_removed(Some("b".to_string()), Ok(true));
    assert_eq!(removed.reply.unwrap().text, "\u{2705} Group 'b' removed successfully!");
    let missing = group_removed(None, Ok(true));
    assert_eq!(missing.reply.unwrap().text, "\u{274C} Group not found.");
    assert_eq!(
        group_created(&"web".to_string(), Ok(12)).text,
        "\u{2705} Group 'web' created successfully! (ID: 12)"
    );
}

#[test]
fn status_listing() {
    let servers = vec![server(1, "my.box", "10.0.0.1", 22), server(2, "db", "db-1", 5432)];
    let r = status_report(&servers, &vec![true, false]);
    assert!(r.markdown);
    assert_eq!(
        r.text,
        "\u{1F4CA} *Server Status*\n\n\u{1F7E2} *my\\.box* \\(ID: 1\\)\n`10\\.0\\.0\\.1:22`\n\n\u{1F534} *db* \\(ID: 2\\)\n`db\\-1:5432`\n\n"
    );
    let empty = status_report(&Vec::new(), &Vec::new());
    assert_eq!(empty.text, "No servers added yet. Use /addserver to add one.");
    assert!(!empty.markdown);
    assert_eq!(escape(&"a(b)".to_string()), "a\\(b\\)");
    assert_eq!(escape(&"plain".to_string()), "plain");
    assert_eq!(escape(&"[]()~`>#+-=|{}.!".to_string()), "\\[\\]\\(\\)\\~\\`\\>\\#\\+\\-\\=\\|\\{\\}\\.\\!");
}

#[test]
fn group_reports() {
    let servers = vec![server(1, "a", "h1", 1), server(2, "b", "h2", 2), server(3, "c", "h3", 3)];
    let r = group_status(&"web".to_string(), &servers, &vec![true, false, true]);
    assert!(r.text.starts_with("\u{1F4CA} *Group: web*\n\n\u{1F7E2} *a*\n`h1:1`\n\n"));
    assert!(r.text.ends_with("Summary: 2 of 3 servers online"));
    let none = group_status(&"web".to_string(), &Vec::new(), &Vec::new());
    assert_eq!(none.text, "Group 'web' has no servers.");
    let groups = vec![Group { id: 1, name: "web".to_string() }];
    assert_eq!(
        groups_report(&groups, &vec![2]).text,
        "\u{1F4C1} *Server Groups*\n\n\u{1F465} *web* (ID: 1)\nServers: 2\n\n"
    );
    assert_eq!(groups_report(&Vec::new(), &Vec::new()).text, "No groups created yet. Use /creategroup to create one.");
}

#[test]
fn single_server_check() {
    let r = server_check(&server(5, "api", "api.local", 8080), false);
    assert_eq!(r.text, "Server Status:\n\u{1F534} *api*\n`api.local:8080`\nStatus: Offline");
    assert_eq!(failure(Failure::FetchGroups, &"boom".to_string()).text, "\u{274C} Failed to fetch groups: boom");
}
