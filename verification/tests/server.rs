use bytes::BytesMut;
use tty_share::client::{ClientAction, ClientEvent, ClientSession};
use tty_share::errors::HandleClientError;
use tty_share::frame::{encode_frame, frame_msg, read_lengthed_msg, FrameRead};
use tty_share::msgs::{ServerMsg, TermDimensions};
use tty_share::server::{failure, handle_msg, Operation, ServerAction, ServerEvent, ServerSession};
use tty_share::session::{Outcome, SessionState};

fn running_server() -> ServerSession {
    let mut session = ServerSession::new();
    session.step(ServerEvent::Started);
    session
}

const ALL_OPERATIONS: [Operation; 6] = [
    Operation::Spawn,
    Operation::ReadChannel,
    Operation::WritePty,
    Operation::Resize,
    Operation::ReadPty,
    Operation::WriteChannel,
];

#[test]
fn server_starts_connected() {
    assert_eq!(ServerSession::new().current(), SessionState::Connected);
}

#[test]
fn server_runs_once_the_shell_is_there() {
    let mut session = ServerSession::new();
    assert_eq!(session.step(ServerEvent::Started), ServerAction::Nothing);
    assert_eq!(session.current(), SessionState::Running);
}

#[test]
fn server_spawn_failure_drops_the_connection() {
    let mut session = ServerSession::new();
    assert_eq!(
        session.step(ServerEvent::Failed(Operation::Spawn)),
        ServerAction::Close(Outcome::Failed(None))
    );
    assert_eq!(session.current(), SessionState::Closed);
}

#[test]
fn server_does_not_forward_before_start() {
    let payload = [1, 0, 0, 0, 40, 0, 120, 0];
    let events = [
        ServerEvent::ChannelRead(5),
        ServerEvent::ChannelRead(0),
        ServerEvent::Frame(&payload),
        ServerEvent::PtyRead(b"output"),
        ServerEvent::PtyRead(b""),
        ServerEvent::ShellExited,
    ];
    for event in events {
        let mut session = ServerSession::new();
        assert_eq!(session.step(event), ServerAction::Nothing);
        assert_eq!(session.current(), SessionState::Connected);
    }
}

#[test]
fn handle_msg_data_goes_to_the_pty() {
    assert_eq!(handle_msg(ServerMsg::Data(b"ls\n")), ServerAction::WritePty(b"ls\n"));
}

#[test]
fn handle_msg_dimensions_resize_the_pty() {
    let dim = TermDimensions { rows: 40, columns: 120 };
    assert_eq!(handle_msg(ServerMsg::SetDimensions(dim)), ServerAction::Resize(dim));
}

#[test]
fn server_data_frame_is_written_to_the_pty() {
    let mut session = running_server();
    let payload = [0, 0, 0, 0, 3, 0, 0, 0, 0, 0, 0, 0, b'l', b's', b'\n'];
    assert_eq!(session.step(ServerEvent::Frame(&payload)), ServerAction::WritePty(b"ls\n"));
    assert_eq!(session.current(), SessionState::Running);
}

#[test]
fn server_dimensions_frame_resizes_the_pty() {
    let mut session = running_server();
    let payload = [1, 0, 0, 0, 40, 0, 120, 0];
    assert_eq!(
        session.step(ServerEvent::Frame(&payload)),
        ServerAction::Resize(TermDimensions { rows: 40, columns: 120 })
    );
    assert_eq!(session.current(), SessionState::Running);
}

#[test]
fn server_same_dimensions_twice_resize_to_the_same_size() {
    let mut session = running_server();
    let payload = [1, 0, 0, 0, 40, 0, 120, 0];
    let first = session.step(ServerEvent::Frame(&payload));
    let second = session.step(ServerEvent::Frame(&payload));
    assert_eq!(first, ServerAction::Resize(TermDimensions { rows: 40, columns: 120 }));
    assert_eq!(second, first);
}

#[test]
fn server_drops_a_payload_that_is_no_message() {
    let bad: [&[u8]; 4] =
        [&[], &[7, 0, 0, 0], &[1, 0, 0, 0, 40], &[0, 0, 0, 0, 9, 0, 0, 0, 0, 0, 0, 0, 1]];
    let mut session = running_server();
    for payload in bad {
        assert_eq!(session.step(ServerEvent::Frame(payload)), ServerAction::Nothing);
        assert_eq!(session.current(), SessionState::Running);
    }
    let good = [0, 0, 0, 0, 1, 0, 0, 0, 0, 0, 0, 0, b'x'];
    assert_eq!(session.step(ServerEvent::Frame(&good)), ServerAction::WritePty(b"x"));
}

#[test]
fn server_channel_bytes_ask_for_no_work_yet() {
    let mut session = running_server();
    assert_eq!(session.step(ServerEvent::ChannelRead(10)), ServerAction::Nothing);
    assert_eq!(session.current(), SessionState::Running);
}

#[test]
fn server_pty_output_goes_to_the_channel_unframed() {
    let mut session = running_server();
    assert_eq!(session.step(ServerEvent::PtyRead(b"$")), ServerAction::WriteChannel(b"$"));
    let output = vec![0x1bu8; 1024];
    assert_eq!(
        session.step(ServerEvent::PtyRead(&output)),
        ServerAction::WriteChannel(&output)
    );
    assert_eq!(
        session.step(ServerEvent::PtyRead(b"\x00\xff\r\n")),
        ServerAction::WriteChannel(b"\x00\xff\r\n")
    );
    assert_eq!(session.current(), SessionState::Running);
}

#[test]
fn server_empty_pty_read_ends_session() {
    let mut session = running_server();
    assert_eq!(session.step(ServerEvent::PtyRead(b"")), ServerAction::Close(Outcome::Ended));
    assert_eq!(session.current(), SessionState::Closed);
}

#[test]
fn server_empty_channel_read_fails_the_client_direction() {
    let mut session = running_server();
    assert_eq!(
        session.step(ServerEvent::ChannelRead(0)),
        ServerAction::Close(Outcome::Failed(Some(HandleClientError::ClientToPtyFailed)))
    );
    assert_eq!(session.current(), SessionState::Closed);
}

#[test]
fn server_shell_exit_ends_session_at_once() {
    let mut session = running_server();
    assert_eq!(session.step(ServerEvent::ShellExited), ServerAction::Close(Outcome::Ended));
    assert_eq!(session.current(), SessionState::Closed);
    // output that the pseudo-terminal still held is not asked for
    assert_eq!(session.step(ServerEvent::PtyRead(b"output")), ServerAction::Nothing);
}

#[test]
fn failure_names_the_direction() {
    assert_eq!(failure(Operation::Spawn), None);
    assert_eq!(failure(Operation::ReadChannel), Some(HandleClientError::ClientToPtyFailed));
    assert_eq!(failure(Operation::WritePty), Some(HandleClientError::ClientToPtyFailed));
    assert_eq!(failure(Operation::Resize), Some(HandleClientError::ClientToPtyFailed));
    assert_eq!(failure(Operation::ReadPty), None);
    assert_eq!(failure(Operation::WriteChannel), Some(HandleClientError::PtyToClientFailed));
}

#[test]
fn server_failure_ends_session_with_its_direction() {
    for operation in ALL_OPERATIONS {
        let mut session = running_server();
        assert_eq!(
            session.step(ServerEvent::Failed(operation)),
            ServerAction::Close(Outcome::Failed(failure(operation)))
        );
        assert_eq!(session.current(), SessionState::Closed);
    }
}

#[test]
fn server_closed_session_does_nothing_more() {
    let payload = [1, 0, 0, 0, 40, 0, 120, 0];
    let enders = [
        ServerEvent::PtyRead(b""),
        ServerEvent::ChannelRead(0),
        ServerEvent::ShellExited,
        ServerEvent::Failed(Operation::WriteChannel),
    ];
    let later = [
        ServerEvent::Started,
        ServerEvent::ChannelRead(3),
        ServerEvent::ChannelRead(0),
        ServerEvent::Frame(&payload),
        ServerEvent::PtyRead(b"output"),
        ServerEvent::PtyRead(b""),
        ServerEvent::ShellExited,
        ServerEvent::Failed(Operation::ReadPty),
    ];
    for ender in enders {
        let mut session = running_server();
        session.step(ender);
        for event in later {
            assert_eq!(session.step(event), ServerAction::Nothing);
            assert_eq!(session.current(), SessionState::Closed);
        }
    }
}

#[test]
fn server_asks_to_close_exactly_once_on_every_way_out() {
    let payload = [0, 0, 0, 0, 1, 0, 0, 0, 0, 0, 0, 0, b'x'];
    let enders = [
        ServerEvent::PtyRead(b""),
        ServerEvent::ChannelRead(0),
        ServerEvent::ShellExited,
        ServerEvent::Failed(Operation::ReadChannel),
        ServerEvent::Failed(Operation::WritePty),
        ServerEvent::Failed(Operation::Resize),
        ServerEvent::Failed(Operation::ReadPty),
        ServerEvent::Failed(Operation::WriteChannel),
    ];
    for ender in enders {
        let events = [
            ServerEvent::Started,
            ServerEvent::ChannelRead(17),
            ServerEvent::Frame(&payload),
            ServerEvent::PtyRead(b"output"),
            ender,
            ServerEvent::ShellExited,
            ServerEvent::PtyRead(b""),
            ServerEvent::Failed(Operation::WriteChannel),
        ];
        let mut session = ServerSession::new();
        let mut closes: usize = 0;
        for event in events {
            if matches!(session.step(event), ServerAction::Close(_)) {
                closes += 1;
            }
        }
        assert_eq!(closes, 1);
        assert_eq!(session.current(), SessionState::Closed);
    }
}

/// What the client writes to the channel for `event`.
fn sent(client: &mut ClientSession, event: ClientEvent<'_>) -> Vec<u8> {
    match client.step(event) {
        ClientAction::WriteChannel(frame) => frame,
        other => panic!("the client sent nothing: {:?}", other),
    }
}

#[test]
fn scenario_input_reaches_the_pty_and_output_returns_unframed() {
    let mut client = ClientSession::new();
    let mut server = running_server();
    let mut channel = BytesMut::new();

    channel.extend_from_slice(&sent(&mut client, ClientEvent::Started(TermDimensions {
        rows: 24,
        columns: 80,
    })));
    channel.extend_from_slice(&sent(&mut client, ClientEvent::TerminalRead(b"ls\n")));

    let first = match read_lengthed_msg(&mut channel) {
        FrameRead::Frame(payload) => payload,
        FrameRead::Incomplete(_) => panic!("a frame was there"),
    };
    assert_eq!(
        server.step(ServerEvent::Frame(&first)),
        ServerAction::Resize(TermDimensions { rows: 24, columns: 80 })
    );
    let second = match read_lengthed_msg(&mut channel) {
        FrameRead::Frame(payload) => payload,
        FrameRead::Incomplete(_) => panic!("a frame was there"),
    };
    assert_eq!(server.step(ServerEvent::Frame(&second)), ServerAction::WritePty(b"ls\n"));
    assert!(matches!(read_lengthed_msg(&mut channel), FrameRead::Incomplete(4)));

    // the shell answers; its output travels back as it is
    let output: &[u8] = b"Cargo.toml  src\n";
    assert_eq!(
        server.step(ServerEvent::PtyRead(output)),
        ServerAction::WriteChannel(output)
    );
    assert_eq!(
        client.step(ClientEvent::ChannelRead(output)),
        ClientAction::WriteTerminal(output)
    );
}

#[test]
fn scenario_dimensions_reach_the_pty() {
    let mut server = running_server();
    let msg = ServerMsg::SetDimensions(TermDimensions { rows: 40, columns: 120 });
    let mut channel = BytesMut::new();
    channel.extend_from_slice(&frame_msg(&msg).unwrap());
    let payload = match read_lengthed_msg(&mut channel) {
        FrameRead::Frame(payload) => payload,
        FrameRead::Incomplete(_) => panic!("a frame was there"),
    };
    assert_eq!(
        server.step(ServerEvent::Frame(&payload)),
        ServerAction::Resize(TermDimensions { rows: 40, columns: 120 })
    );
}

#[test]
fn scenario_shell_exit_closes_without_client_input() {
    let mut server = running_server();
    assert_eq!(server.step(ServerEvent::ShellExited), ServerAction::Close(Outcome::Ended));
    assert_eq!(server.current(), SessionState::Closed);
    // the channel is dropped, so the client's next read is empty and it ends too
    let mut client = ClientSession::new();
    client.step(ClientEvent::Started(TermDimensions { rows: 24, columns: 80 }));
    assert_eq!(client.step(ClientEvent::ChannelRead(b"")), ClientAction::Close(Outcome::Ended));
}

#[test]
fn scenario_bad_frame_between_good_ones() {
    let mut server = running_server();
    let mut channel = BytesMut::new();
    channel.extend_from_slice(&frame_msg(&ServerMsg::Data(b"one")).unwrap());
    channel.extend_from_slice(&encode_frame(&[0xde, 0xad, 0xbe, 0xef, 0]).unwrap());
    channel.extend_from_slice(&frame_msg(&ServerMsg::Data(b"two")).unwrap());

    let mut written: Vec<Vec<u8>> = Vec::new();
    let mut dropped: usize = 0;
    loop {
        let payload = match read_lengthed_msg(&mut channel) {
            FrameRead::Frame(payload) => payload,
            FrameRead::Incomplete(_) => break,
        };
        match server.step(ServerEvent::Frame(&payload)) {
            ServerAction::WritePty(bytes) => written.push(bytes.to_vec()),
            ServerAction::Nothing => dropped += 1,
            other => panic!("not expected: {:?}", other),
        }
    }
    assert_eq!(written, vec![b"one".to_vec(), b"two".to_vec()]);
    assert_eq!(dropped, 1);
    assert!(channel.is_empty());
    assert_eq!(server.current(), SessionState::Running);
}

#[test]
fn terminal_input_reaches_the_pty_in_order() {
    let reads: [&[u8]; 5] = [b"ec", b"ho", b" ", b"hello world", b"\n"];
    let mut client = ClientSession::new();
    let mut stream = sent(&mut client, ClientEvent::Started(TermDimensions {
        rows: 24,
        columns: 80,
    }));
    for (i, read) in reads.iter().enumerate() {
        stream.extend_from_slice(&sent(&mut client, ClientEvent::TerminalRead(read)));
        if i == 2 {
            let resized = ClientEvent::Resized(TermDimensions { rows: 30, columns: 90 });
            stream.extend_from_slice(&sent(&mut client, resized));
        }
    }

    for size in [1usize, 2, 3, 5, 7, 16, 1000] {
        let mut server = running_server();
        let mut channel = BytesMut::new();
        let mut typed: Vec<u8> = Vec::new();
        let mut sizes: Vec<TermDimensions> = Vec::new();
        for chunk in stream.chunks(size) {
            channel.extend_from_slice(chunk);
            assert_eq!(server.step(ServerEvent::ChannelRead(chunk.len())), ServerAction::Nothing);
            loop {
                let payload = match read_lengthed_msg(&mut channel) {
                    FrameRead::Frame(payload) => payload,
                    FrameRead::Incomplete(_) => break,
                };
                match server.step(ServerEvent::Frame(&payload)) {
                    ServerAction::WritePty(bytes) => typed.extend_from_slice(bytes),
                    ServerAction::Resize(dim) => sizes.push(dim),
                    other => panic!("not expected: {:?}", other),
                }
            }
        }
        assert_eq!(typed, b"echo hello world\n".to_vec());
        assert_eq!(
            sizes,
            vec![
                TermDimensions { rows: 24, columns: 80 },
                TermDimensions { rows: 30, columns: 90 }
            ]
        );
        assert!(channel.is_empty());
    }
}

#[test]
fn shell_output_reaches_the_terminal_in_order() {
    let reads: [&[u8]; 4] = [b"Cargo", b".toml ", b" src\r\n", b"$ "];
    let mut server = running_server();
    let mut channel: Vec<u8> = Vec::new();
    for read in reads {
        match server.step(ServerEvent::PtyRead(read)) {
            ServerAction::WriteChannel(bytes) => channel.extend_from_slice(bytes),
            other => panic!("not expected: {:?}", other),
        }
    }
    assert_eq!(channel, b"Cargo.toml  src\r\n$ ".to_vec());

    for size in [1usize, 2, 3, 7, 100] {
        let mut client = ClientSession::new();
        client.step(ClientEvent::Started(TermDimensions { rows: 24, columns: 80 }));
        let mut terminal: Vec<u8> = Vec::new();
        for chunk in channel.chunks(size) {
            match client.step(ClientEvent::ChannelRead(chunk)) {
                ClientAction::WriteTerminal(bytes) => terminal.extend_from_slice(bytes),
                other => panic!("not expected: {:?}", other),
            }
        }
        assert_eq!(terminal, channel);
    }
}
