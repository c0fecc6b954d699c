use routerbot::channel::{CommandChannel, TryRecv, TrySendError};
use routerbot::command::Command;
use routerbot::control_plane::{
    loop_step, run_command_loop, CommandHandler, LoopAction, LoopEnd, LoopEvent,
};

struct Recorder {
    seen: Vec<Command>,
    fail_at: Option<usize>,
}

impl CommandHandler for Recorder {
    type Error = String;

    fn handle(&mut self, command: Command) -> Result<(), String> {
        self.seen.push(command);
        if self.fail_at == Some(self.seen.len()) {
            Err(format!("failed on command {}", self.seen.len()))
        } else {
            Ok(())
        }
    }
}

fn add(url: &str) -> Command {
    Command::AddTorrent { url: url.to_string() }
}

#[test]
fn handler_sees_commands_in_order() {
    let mut channel = CommandChannel::new(32);
    let sent = vec![Command::Start, add("a"), add("b"), Command::Start, add("c")];
    for c in sent.clone() {
        assert!(channel.try_send(c).is_ok());
    }
    channel.close_sender();
    let mut handler = Recorder { seen: Vec::new(), fail_at: None };
    assert_eq!(run_command_loop(&mut channel, &mut handler), Ok(LoopEnd::Closed));
    assert_eq!(handler.seen, sent);
    assert_eq!(channel.len(), 0);
}

#[test]
fn loop_is_idle_while_sender_lives() {
    let mut channel = CommandChannel::new(4);
    assert!(channel.try_send(add("a")).is_ok());
    let mut handler = Recorder { seen: Vec::new(), fail_at: None };
    assert_eq!(run_command_loop(&mut channel, &mut handler), Ok(LoopEnd::Idle));
    assert_eq!(handler.seen, vec![add("a")]);
    assert!(channel.try_send(add("b")).is_ok());
    channel.close_sender();
    assert_eq!(run_command_loop(&mut channel, &mut handler), Ok(LoopEnd::Closed));
    assert_eq!(handler.seen, vec![add("a"), add("b")]);
}

#[test]
fn handler_error_stops_the_loop() {
    let mut channel = CommandChannel::new(8);
    for c in [add("1"), add("2"), add("3"), add("4")] {
        assert!(channel.try_send(c).is_ok());
    }
    channel.close_sender();
    let mut handler = Recorder { seen: Vec::new(), fail_at: Some(2) };
    assert_eq!(
        run_command_loop(&mut channel, &mut handler),
        Err("failed on command 2".to_string())
    );
    assert_eq!(handler.seen, vec![add("1"), add("2")]);
    assert_eq!(channel.len(), 2);
    assert!(matches!(channel.try_recv(), TryRecv::Received(c) if c == add("3")));
}

#[test]
fn closed_empty_channel_ends_successfully() {
    let mut channel = CommandChannel::new(1);
    channel.close_sender();
    let mut handler = Recorder { seen: Vec::new(), fail_at: Some(1) };
    assert_eq!(run_command_loop(&mut channel, &mut handler), Ok(LoopEnd::Closed));
    assert!(handler.seen.is_empty());
}

#[test]
fn full_channel_hands_the_command_back() {
    let mut channel = CommandChannel::new(2);
    assert!(channel.try_send(add("a")).is_ok());
    assert!(channel.try_send(add("b")).is_ok());
    match channel.try_send(add("c")) {
        Err(TrySendError::Full(c)) => assert_eq!(c, add("c")),
        other => panic!("expected a full channel, got {:?}", other),
    }
    assert_eq!(channel.len(), 2);
    assert!(matches!(channel.try_recv(), TryRecv::Received(c) if c == add("a")));
    assert!(channel.try_send(add("c")).is_ok());
    assert!(matches!(channel.try_recv(), TryRecv::Received(c) if c == add("b")));
    assert!(matches!(channel.try_recv(), TryRecv::Received(c) if c == add("c")));
    assert!(matches!(channel.try_recv(), TryRecv::Empty));
}

#[test]
fn send_after_receiver_is_gone_fails() {
    let mut channel = CommandChannel::new(2);
    channel.close_receiver();
    match channel.try_send(Command::Start) {
        Err(TrySendError::Closed(c)) => assert_eq!(c, Command::Start),
        other => panic!("expected a closed channel, got {:?}", other),
    }
    assert_eq!(channel.len(), 0);
}

#[test]
fn buffered_commands_survive_sender_close() {
    let mut channel = CommandChannel::new(2);
    assert!(channel.try_send(Command::Start).is_ok());
    channel.close_sender();
    assert!(matches!(channel.try_recv(), TryRecv::Received(Command::Start)));
    assert!(matches!(channel.try_recv(), TryRecv::Closed));
    assert_eq!(channel.capacity(), 2);
}

#[test]
fn loop_step_decisions() {
    assert!(matches!(
        loop_step::<String>(LoopEvent::Received(Command::Start)),
        LoopAction::Handle(Command::Start)
    ));
    assert!(matches!(loop_step::<String>(LoopEvent::Closed), LoopAction::Finish(Ok(()))));
    assert!(matches!(loop_step::<String>(LoopEvent::Handled(Ok(()))), LoopAction::Receive));
    assert!(matches!(
        loop_step(LoopEvent::Handled(Err("boom".to_string()))),
        LoopAction::Finish(Err(e)) if e == "boom"
    ));
}
