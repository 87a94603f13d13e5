use vitruvius::args::{parse_args, Invocation};
use vitruvius::cli::{decide_send, parse_command, CliCommand, SendDecision};
use vitruvius::collections::Assoc;
use vitruvius::error::Error;
use vitruvius::file_transfer::{
    chunk_file, file_delivered, handle_file_message, prepare_file_transfer, FileMessage,
    ReceiveState,
};
use vitruvius::gui::http::{get_html, http_response};
use vitruvius::state::{node_name_from, AppState};
use vitruvius::sync::effect::Outbox;
use vitruvius::watcher::{on_changed, on_notification, on_removed, ChangedPath, WatchNotification};

#[test]
fn a_sent_file_arrives() {
    let data: Vec<u8> = (0..100_000u32).map(|i| i as u8).collect();
    let messages = prepare_file_transfer("/home/me/photo.jpg", &data).unwrap();
    let mut states: Assoc<String, ReceiveState> = Assoc::new();
    let mut delivered = None;
    for m in messages {
        if let Some(d) = handle_file_message(m, &mut states, "/downloads").unwrap() {
            delivered = Some(d);
        }
    }
    let d = delivered.unwrap();
    assert_eq!(d.path, "/downloads/photo.jpg");
    assert_eq!(d.data, data);
    file_delivered(&"photo.jpg".to_string(), &mut states);
    assert_eq!(states.len(), 0);
}

#[test]
fn chunks_may_come_in_any_order() {
    let mut states: Assoc<String, ReceiveState> = Assoc::new();
    for name in ["f", "other"] {
        let begin = FileMessage::Metadata { name: name.to_string(), size: 3, total_chunks: 3 };
        assert!(handle_file_message(begin, &mut states, "/out").unwrap().is_none());
    }
    let mut delivered = Vec::new();
    for index in [2u32, 0, 1] {
        let chunk = FileMessage::Chunk {
            file_name: "f".to_string(),
            index,
            data: vec![index as u8],
        };
        delivered.push(handle_file_message(chunk, &mut states, "/out").unwrap());
    }
    assert!(delivered[0].is_none() && delivered[1].is_none());
    assert_eq!(delivered[2].as_ref().unwrap().data, vec![0, 1, 2]);
    file_delivered(&"f".to_string(), &mut states);
    assert!(!states.contains_key(&"f".to_string()));
    assert!(states.contains_key(&"other".to_string()));
}

#[test]
fn transfers_begin_with_metadata_and_end_with_complete() {
    let data = vec![7u8; 3];
    let messages = prepare_file_transfer("a.bin", &data).unwrap();
    assert!(matches!(
        &messages[0],
        FileMessage::Metadata { name, size: 3, total_chunks: 1 } if name == "a.bin"
    ));
    assert!(matches!(
        &messages[1],
        FileMessage::Chunk { file_name, index: 0, data } if file_name == "a.bin" && data == &vec![7u8; 3]
    ));
    assert!(matches!(&messages[2], FileMessage::Complete { file_name } if file_name == "a.bin"));
    assert_eq!(messages.len(), 3);
    assert!(matches!(prepare_file_transfer("/", &data), Err(Error::InvalidFileName)));
    assert_eq!(chunk_file(&data), vec![data]);
}

#[test]
fn an_incomplete_file_has_no_content() {
    let mut s = ReceiveState::new("f".to_string(), 2, "/out");
    assert!(!s.is_complete());
    s.add_chunk(1, vec![2]);
    assert!(matches!(s.content(), Err(Error::LostChunk { index: 0 })));
    s.add_chunk(0, vec![1]);
    assert!(s.is_complete());
    assert_eq!(s.content().unwrap(), vec![1, 2]);
}

#[test]
fn lines_are_commands() {
    assert!(matches!(parse_command("send my.txt"), CliCommand::Send { path } if path == "my.txt"));
    assert!(matches!(parse_command("send"), CliCommand::SendUsage));
    assert!(matches!(parse_command("peers"), CliCommand::Peers));
    assert!(matches!(parse_command("quit"), CliCommand::Quit));
    assert!(matches!(parse_command("help"), CliCommand::Help));
    assert!(matches!(parse_command("dance"), CliCommand::Unknown));
    assert!(matches!(decide_send(false, 3), SendDecision::FileNotFound));
    assert!(matches!(decide_send(true, 0), SendDecision::NoPeers));
    assert!(matches!(decide_send(true, 1), SendDecision::Go));
}

fn args(words: &[&str]) -> Vec<String> {
    words.iter().map(|w| w.to_string()).collect()
}

#[test]
fn options_are_read_from_the_command_line() {
    match parse_args(&args(&["vitruvius", "--http-port", "9000", "--vault", "--key-path", "/k"])) {
        Invocation::Run { options } => {
            assert_eq!(options.http_port, 9000);
            assert!(options.vault_mode);
            assert_eq!(options.key_path, Some("/k".to_string()));
            assert!(options.import_args.is_none());
        }
        other => panic!("{:?}", other),
    }
    assert!(matches!(parse_args(&args(&["vitruvius", "--help"])), Invocation::Help));
}

#[test]
fn the_page_learns_the_port_of_the_socket() {
    assert_eq!(get_html("gothic", "G", "S"), "G");
    assert_eq!(get_html("other", "G", "S"), "S");
    let page = "<html>ws://localhost:__WS_PORT__</html>";
    let r = http_response("gothic", page, page, 4242);
    assert_eq!(
        r,
        "HTTP/1.1 200 OK\r\nContent-Type: text/html; charset=utf-8\r\nContent-Length: 32\r\n\
         Cache-Control: no-cache\r\nConnection: close\r\n\r\n<html>ws://localhost:4242</html>"
    );
}

fn changed(path: &str) -> Vec<ChangedPath> {
    vec![ChangedPath { path: path.to_string(), is_file: true }]
}

#[test]
fn changes_are_told_unless_they_are_our_own() {
    let mut state = AppState::new("node".to_string());
    let n = on_changed("/sync", &changed("/sync/a.txt"), &state);
    assert!(matches!(&n[..], [WatchNotification::FileChanged { file_name }] if file_name == "a.txt"));
    state.writing_files.insert("/sync/a.txt".to_string());
    assert_eq!(on_changed("/sync", &changed("/sync/a.txt"), &state).len(), 0);
    let n = on_removed("/sync", &changed("/sync/b.txt"), &state);
    assert!(matches!(&n[..], [WatchNotification::FileDeleted { file_name }] if file_name == "b.txt"));
    state.deleting_files.insert("/sync/b.txt".to_string());
    assert_eq!(on_removed("/sync", &changed("/sync/b.txt"), &state).len(), 0);
}

#[test]
fn one_file_is_not_announced_twice_in_five_seconds() {
    let mut state = AppState::new("node".to_string());
    let id = libp2p::PeerId::random().to_string();
    state.connected_peers.insert(vitruvius::peer::PeerId::parse(&id).unwrap());
    let mut counts = vec![];
    for now in [10_000_000_000u64, 12_000_000_000, 15_000_000_000] {
        let mut out = Outbox::new();
        on_notification(
            WatchNotification::FileChanged { file_name: "a".to_string() },
            now,
            &mut state,
            &mut out,
        );
        counts.push(format!("{:?}", out.effects).matches("Request {").count());
    }
    assert_eq!(counts, vec![1, 0, 1]);
}

#[test]
fn the_node_is_named_after_its_host() {
    assert_eq!(node_name_from(Some(" host \n".to_string()), None), "host");
    assert_eq!(node_name_from(Some("  ".to_string()), Some("file\n".to_string())), "file");
    assert_eq!(node_name_from(None, None), "Vitruvius-Node");
}
