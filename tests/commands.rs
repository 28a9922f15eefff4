use wasm_oss::commands::{CommandDispatcher, CommandError, CommandKind, DispatchOutcome, ShutdownState};
use wasm_oss::scheduler::Executor;
use wasm_oss::schema::client_request::ClientRequestInner;
use wasm_oss::schema::client_request_inner;
use wasm_oss::schema::client_response_inner;
use wasm_oss::schema::{
    BootClientRequest, ClientRequest, HelpClientRequest, PrintClientRequest, StatusClientRequest,
};

fn console_dispatcher() -> CommandDispatcher {
    let mut d = CommandDispatcher::new();
    d.register_handler(CommandKind::Help);
    d.register_handler(CommandKind::Print);
    d.register_handler(CommandKind::Nonce);
    d.register_handler(CommandKind::Quit);
    d
}

fn request(payload: Option<client_request_inner::Payload>, nonce: &str) -> ClientRequest {
    ClientRequest {
        inner: Some(ClientRequestInner { nonce: nonce.to_string(), payload }),
        signature_type: None,
    }
}

#[test]
fn print_returns_its_message() {
    let mut d = console_dispatcher();
    assert_eq!(d.execute("print \"hello world\"").unwrap(), "hello world");
    assert_eq!(d.execute("print hello").unwrap(), "hello");
}

#[test]
fn print_with_two_unquoted_words_matches_no_pattern() {
    let mut d = console_dispatcher();
    let e = d.execute("print hello world").unwrap_err();
    assert!(e.to_string().contains("No matching command"));
}

#[test]
fn unknown_command_is_reported() {
    let mut d = console_dispatcher();
    let e = d.execute("nosuchcmd").unwrap_err();
    assert!(matches!(e, CommandError::NoMatch(_)));
    assert_eq!(e.to_string(), "No matching command found: nosuchcmd");
}

#[test]
fn quit_requests_shutdown_without_error() {
    let mut d = console_dispatcher();
    assert_eq!(d.execute("quit").unwrap(), "Quitting...");
    assert_eq!(d.shutdown_state(), ShutdownState::ShutdownRequested);
    let mut ex = Executor::new();
    let waiting = ex.spawn();
    assert!(!ex.wait_for_exit(waiting));
    let notified = d.finalize_shutdown_if_requested(&mut ex);
    assert_eq!(notified.len(), 4);
    assert_eq!(d.shutdown_state(), ShutdownState::Finalized);
    assert!(ex.wait_for_exit(waiting));
}

#[test]
fn finalize_does_nothing_while_running() {
    let mut d = console_dispatcher();
    let mut ex = Executor::new();
    assert!(d.finalize_shutdown_if_requested(&mut ex).is_empty());
    assert_eq!(d.shutdown_state(), ShutdownState::Running);
}

#[test]
fn empty_and_badly_quoted_lines_are_errors() {
    let mut d = console_dispatcher();
    assert!(matches!(d.execute(""), Err(CommandError::EmptyCommand)));
    assert!(matches!(d.execute("   "), Err(CommandError::EmptyCommand)));
    assert!(matches!(d.execute("print \"open"), Err(CommandError::Parse(_))));
}

#[test]
fn help_lists_the_console_commands() {
    let mut d = CommandDispatcher::default();
    assert_eq!(
        d.execute("help").unwrap(),
        "Available commands:\n  nonce - Generate a random nonce\n  help - Display available commands\n  print <message> - Print a message\n  quit - Quit the application"
    );
}

#[test]
fn nonce_answers_with_its_text() {
    let mut d = console_dispatcher();
    assert_eq!(d.execute("nonce").unwrap(), "");
}

#[test]
fn dispatch_keeps_the_nonce() {
    let mut d = console_dispatcher();
    let req = request(
        Some(client_request_inner::Payload::PrintRequest(PrintClientRequest { message: "m".into() })),
        "n-1",
    );
    match d.dispatch(&req, false).unwrap() {
        DispatchOutcome::Respond(resp) => {
            let inner = resp.inner.unwrap();
            assert_eq!(inner.nonce, "n-1");
            match inner.payload.unwrap() {
                client_response_inner::Payload::PrintResponse(p) => assert_eq!(p.message, "m"),
                other => panic!("unexpected {:?}", other),
            }
        }
        other => panic!("unexpected {:?}", other),
    }
}

#[test]
fn dispatch_errors() {
    let mut d = console_dispatcher();
    let no_inner = ClientRequest { inner: None, signature_type: None };
    assert!(matches!(d.dispatch(&no_inner, false), Err(CommandError::NoInnerPayload)));
    assert!(matches!(d.dispatch(&request(None, ""), false), Err(CommandError::NoPayload)));
    let status = request(Some(client_request_inner::Payload::StatusRequest(StatusClientRequest {})), "");
    let e = d.dispatch(&status, false).unwrap_err();
    assert!(matches!(e, CommandError::Unregistered(CommandKind::Status)));
    assert!(e.to_string().contains("No handler registered"));
    assert_eq!(d.shutdown_state(), ShutdownState::Running);
}

#[test]
fn stream_commands_wait_for_their_body() {
    let mut d = console_dispatcher();
    d.register_handler(CommandKind::Boot);
    let boot = request(Some(client_request_inner::Payload::BootRequest(BootClientRequest {})), "b");
    assert!(matches!(d.dispatch(&boot, true), Ok(DispatchOutcome::AwaitStream(CommandKind::Boot))));
    match d.dispatch(&boot, false).unwrap() {
        DispatchOutcome::Respond(resp) => match resp.inner.unwrap().payload.unwrap() {
            client_response_inner::Payload::ErrorResponse(e) => assert_eq!(e.error, "No stream provided"),
            other => panic!("unexpected {:?}", other),
        },
        other => panic!("unexpected {:?}", other),
    }
    let resp = d.complete_stream(CommandKind::Boot, "b".to_string());
    assert!(matches!(
        resp.inner.unwrap().payload,
        Some(client_response_inner::Payload::BootResponse(_))
    ));
    assert_eq!(d.shutdown_state(), ShutdownState::ShutdownRequested);
}

#[test]
fn help_by_rpc() {
    let mut d = console_dispatcher();
    let req = request(Some(client_request_inner::Payload::HelpRequest(HelpClientRequest {})), "");
    match d.dispatch(&req, false).unwrap() {
        DispatchOutcome::Respond(resp) => match resp.inner.unwrap().payload.unwrap() {
            client_response_inner::Payload::HelpResponse(h) => {
                assert!(h.message.starts_with("Available commands:"))
            }
            other => panic!("unexpected {:?}", other),
        },
        other => panic!("unexpected {:?}", other),
    }
}
