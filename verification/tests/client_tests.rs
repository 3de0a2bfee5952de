use kiwi_store::client::{Arguments, Cli};
use kiwi_store::command::Command;

#[test]
fn the_client_writes_one_line_for_its_arguments() {
    let put = Arguments::Put { key: "UseHttps".to_string(), value: "Off".to_string() };
    assert_eq!(put.request_line(), "SET UseHttps Off\n");
    assert_eq!(Arguments::Get { key: "UseHttps".to_string() }.request_line(), "GET UseHttps\n");
    assert_eq!(
        Arguments::Remove { key: "UseHttps".to_string() }.request_line(),
        "REMOVE UseHttps\n"
    );
    assert_eq!(Arguments::Ping.request_line(), "PING\n");
    assert_eq!(Arguments::List.request_line(), "LIST\n");
    assert_eq!(Arguments::Stats.request_line(), "STATS\n");
}

#[test]
fn the_server_reads_the_line_of_the_client_as_it_was_meant() {
    let cli = Cli {
        address: "127.0.0.1:5555".to_string(),
        argument: Arguments::Put { key: "motto".to_string(), value: "to be or not".to_string() },
    };
    assert_eq!(
        Command::parse(&cli.argument.request_line()),
        Command::Put { key: "motto".to_string(), value: "to be or not".to_string() }
    );
    assert_eq!(
        Command::parse(&Arguments::Get { key: "motto".to_string() }.request_line()),
        Command::Get { key: "motto".to_string() }
    );
    assert_eq!(
        Command::parse(&Arguments::Remove { key: "motto".to_string() }.request_line()),
        Command::Remove { key: "motto".to_string() }
    );
    assert_eq!(Command::parse(&Arguments::Ping.request_line()), Command::Ping);
    assert_eq!(Command::parse(&Arguments::List.request_line()), Command::List);
    assert_eq!(Command::parse(&Arguments::Stats.request_line()), Command::Stats);
}

#[test]
fn a_key_with_whitespace_does_not_survive_sending() {
    let put = Arguments::Put { key: "a b".to_string(), value: "c  d".to_string() };
    assert_eq!(
        Command::parse(&put.request_line()),
        Command::Put { key: "a".to_string(), value: "b c d".to_string() }
    );
}
