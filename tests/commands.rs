use redisql::commands::{lower_request, ClientCommand};
use redisql::error::ErrorKind;
use redisql::worker::{Command, ReturnMethod};

fn argv(v: &[&str]) -> Vec<String> {
    v.iter().map(|s| s.to_string()).collect()
}

#[test]
fn exec_takes_exactly_three_arguments() {
    let r = lower_request(ClientCommand::Exec, &argv(&["EXEC", "db1", "CREATE TABLE t(a)"]), 5).unwrap();
    assert_eq!(r.database, "db1");
    assert!(r.destination.is_none());
    match r.command.unwrap() {
        Command::Exec { query, timeout } => {
            assert_eq!(query, "CREATE TABLE t(a)");
            assert_eq!(timeout, 10005);
        }
        _ => panic!("expected Exec"),
    }
    let e = lower_request(ClientCommand::Exec, &argv(&["EXEC", "db1"]), 5).unwrap_err();
    assert_eq!(e.kind, ErrorKind::Argument);
    assert_eq!(e.debug, "Wrong number of arguments, it accepts 3, you provide 2");
    let e = lower_request(ClientCommand::Exec, &argv(&["EXEC", "db1", "a", "b"]), 5).unwrap_err();
    assert_eq!(e.kind, ErrorKind::Argument);
}

#[test]
fn query_into_names_stream_then_database() {
    let r = lower_request(ClientCommand::QueryInto, &argv(&["Q", "log", "db1", "SELECT 1"]), 0).unwrap();
    assert_eq!(r.database, "db1");
    match r.command.unwrap() {
        Command::Query { query, return_method: ReturnMethod::Stream { name }, .. } => {
            assert_eq!(query, "SELECT 1");
            assert_eq!(name, "log");
        }
        _ => panic!("expected a streamed Query"),
    }
}

#[test]
fn statement_arguments_are_the_tail() {
    let r = lower_request(ClientCommand::ExecStatement, &argv(&["E", "db1", "ins", "5", "6"]), 0).unwrap();
    match r.command.unwrap() {
        Command::ExecStatement { identifier, arguments, .. } => {
            assert_eq!(identifier, "ins");
            assert_eq!(arguments, argv(&["5", "6"]));
        }
        _ => panic!("expected ExecStatement"),
    }
    let r = lower_request(ClientCommand::QueryStatement, &argv(&["Q", "db1", "sel"]), 0).unwrap();
    assert!(matches!(r.command.unwrap(), Command::QueryStatement { ref arguments, return_method: ReturnMethod::Reply, .. } if arguments.is_empty()));
    let r = lower_request(ClientCommand::QueryStatementInto, &argv(&["Q", "log", "db1", "sel", "x"]), 0).unwrap();
    assert_eq!(r.database, "db1");
    match r.command.unwrap() {
        Command::QueryStatement { identifier, arguments, return_method: ReturnMethod::Stream { name }, .. } => {
            assert_eq!(identifier, "sel");
            assert_eq!(arguments, argv(&["x"]));
            assert_eq!(name, "log");
        }
        _ => panic!("expected a streamed QueryStatement"),
    }
    let e = lower_request(ClientCommand::QueryStatementInto, &argv(&["Q", "log", "db1"]), 0).unwrap_err();
    assert_eq!(e.kind, ErrorKind::Argument);
}

#[test]
fn statement_changes_and_copy() {
    let r = lower_request(ClientCommand::CreateStatement, &argv(&["C", "db1", "ins", "INSERT INTO t VALUES(?1)"]), 0).unwrap();
    assert!(matches!(r.command.unwrap(), Command::CompileStatement { ref identifier, ref statement } if identifier == "ins" && statement == "INSERT INTO t VALUES(?1)"));
    let r = lower_request(ClientCommand::UpdateStatement, &argv(&["U", "db1", "ins", "SELECT 1"]), 0).unwrap();
    assert!(matches!(r.command.unwrap(), Command::UpdateStatement { .. }));
    let r = lower_request(ClientCommand::DeleteStatement, &argv(&["D", "db1", "ins"]), 0).unwrap();
    assert!(matches!(r.command.unwrap(), Command::DeleteStatement { ref identifier } if identifier == "ins"));
    let r = lower_request(ClientCommand::Copy, &argv(&["COPY", "db1", "db2"]), 0).unwrap();
    assert_eq!(r.database, "db1");
    assert_eq!(r.destination.as_deref(), Some("db2"));
    assert!(matches!(r.command.unwrap(), Command::MakeCopy));
    let e = lower_request(ClientCommand::CreateStatement, &argv(&["C", "db1", "ins"]), 0).unwrap_err();
    assert_eq!(e.kind, ErrorKind::Argument);
}

#[test]
fn deadline_saturates() {
    let r = lower_request(ClientCommand::Query, &argv(&["Q", "db1", "SELECT 1"]), u64::MAX - 5).unwrap();
    assert!(matches!(r.command.unwrap(), Command::Query { timeout: u64::MAX, .. }));
}

#[test]
fn create_db_takes_an_optional_path() {
    let r = lower_request(ClientCommand::CreateDB, &argv(&["CREATE_DB", "db1"]), 0).unwrap();
    assert_eq!(r.database, "db1");
    assert!(r.command.is_none());
    assert!(r.path.is_none());
    let r = lower_request(ClientCommand::CreateDB, &argv(&["CREATE_DB", "db1", "/data/db1"]), 0).unwrap();
    assert_eq!(r.path.as_deref(), Some("/data/db1"));
    let e = lower_request(ClientCommand::CreateDB, &argv(&["CREATE_DB"]), 0).unwrap_err();
    assert_eq!(e.debug, "Wrong number of arguments, it accepts 2 or 3");
    let e = lower_request(ClientCommand::QueryStatement, &argv(&["Q", "db1"]), 0).unwrap_err();
    assert_eq!(e.debug, "Wrong number of arguments, it needs at least 3");
}
