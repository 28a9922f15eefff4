//! Routing of console lines and typed requests to the built-in command handlers, and the
//! coordinated shutdown that a handler may ask for.
use vstd::prelude::*;
use crate::scheduler::{exit_spec, view_wf, Executor};
use crate::schema::client_request::ClientRequestInner;
use crate::schema::client_request_inner;
use crate::schema::client_response::ClientResponseInner;
use crate::schema::client_response_inner;
use crate::schema::{
    BootClientResponse, ChainClientResponse, ClientRequest, ClientResponse, ErrorClientResponse,
    HelpClientRequest, HelpClientResponse, NonceClientRequest, NonceClientResponse,
    PrintClientRequest, PrintClientResponse, QuitClientRequest, QuitClientResponse,
    StatusClientRequest, StatusClientResponse,
};
use crate::text::str_eq;

verus! {

#[verifier::external_type_specification]
#[verifier::external_body]
pub struct ExShellParseError(shell_words::ParseError);

/// The words that shell quoting rules make of a line, or `None` where its quoting is broken.
pub uninterp spec fn shell_split(s: Seq<char>) -> Option<Seq<Seq<char>>>;

/// The characters of each string.
pub open spec fn texts(ws: Seq<String>) -> Seq<Seq<char>> {
    ws.map_values(|w: String| w@)
}

/// Relies on `shell_words::split`: the words of the line, or its error for broken quoting.
#[verifier::external_body]
fn split_words(s: &str) -> (r: Result<Vec<String>, shell_words::ParseError>)
    ensures
        r is Ok <==> shell_split(s@) is Some,
        r is Ok ==> texts(r->Ok_0@) == shell_split(s@)->Some_0,
{
    shell_words::split(s)
}

/// Where a handler may be invoked from.
#[derive(Debug, Clone, Copy, PartialEq, Eq, Structural)]
pub enum CommandRole {
    /// Typed at the console.
    Console,
    /// Sent as a typed request.
    System,
    /// Consumes a request body.
    Stream,
}

/// The closed set of command kinds; each request payload has one.
#[derive(Debug, Clone, Copy, PartialEq, Eq, Structural)]
pub enum CommandKind {
    Help,
    Print,
    Nonce,
    Quit,
    Chain,
    Status,
    Boot,
}

/// The kind of a request payload.
pub open spec fn kind_of(p: client_request_inner::Payload) -> CommandKind {
    match p {
        client_request_inner::Payload::HelpRequest(_) => CommandKind::Help,
        client_request_inner::Payload::PrintRequest(_) => CommandKind::Print,
        client_request_inner::Payload::NonceRequest(_) => CommandKind::Nonce,
        client_request_inner::Payload::QuitRequest(_) => CommandKind::Quit,
        client_request_inner::Payload::ChainRequest(_) => CommandKind::Chain,
        client_request_inner::Payload::StatusRequest(_) => CommandKind::Status,
        client_request_inner::Payload::BootRequest(_) => CommandKind::Boot,
    }
}

/// Whether a kind's handler may be invoked from the console.
pub open spec fn is_console(k: CommandKind) -> bool {
    k is Help || k is Print || k is Nonce || k is Quit || k is Status
}

/// Whether a kind's handler consumes a request body.
pub open spec fn is_stream(k: CommandKind) -> bool {
    k is Chain || k is Boot
}

/// A kind's console pattern, as whitespace-separated tokens.
pub open spec fn pattern_of(k: CommandKind) -> Seq<Seq<char>> {
    match k {
        CommandKind::Help => seq!["help"@],
        CommandKind::Print => seq!["print"@, "<message>"@],
        CommandKind::Nonce => seq!["nonce"@],
        CommandKind::Quit => seq!["quit"@],
        CommandKind::Chain => seq!["chain"@],
        CommandKind::Status => seq!["status"@],
        CommandKind::Boot => seq!["boot"@],
    }
}

/// A kind's console pattern as one line.
pub open spec fn pattern_text(k: CommandKind) -> Seq<char> {
    match k {
        CommandKind::Print => "print <message>"@,
        _ => pattern_of(k)[0],
    }
}

pub open spec fn description_of(k: CommandKind) -> Seq<char> {
    match k {
        CommandKind::Help => "Display available commands"@,
        CommandKind::Print => "Print a message"@,
        CommandKind::Nonce => "Generate a random nonce"@,
        CommandKind::Quit => "Quit the application"@,
        CommandKind::Chain => "Chain-load an uploaded image"@,
        CommandKind::Status => "Get the status of the application"@,
        CommandKind::Boot => "Stage boot images and boot them"@,
    }
}

/// A pattern token of the form `<name>`, which captures any word.
pub open spec fn is_capture(t: Seq<char>) -> bool {
    t.len() >= 2 && t[0] == '<' && t[t.len() - 1] == '>'
}

/// Each pattern token matches the word at its place: a capture matches any word, any
/// other token only itself.
pub open spec fn pattern_matches(pattern: Seq<Seq<char>>, words: Seq<Seq<char>>) -> bool {
    pattern.len() == words.len() && forall|i: int|
        0 <= i < pattern.len() ==> (is_capture(#[trigger] pattern[i]) || pattern[i] == words[i])
}

/// The first registered console handler whose pattern matches the words.
pub open spec fn console_match(handlers: Seq<CommandKind>, words: Seq<Seq<char>>) -> Option<
    CommandKind,
>
    decreases handlers.len(),
{
    if handlers.len() == 0 {
        None
    } else if is_console(handlers[0]) && pattern_matches(pattern_of(handlers[0]), words) {
        Some(handlers[0])
    } else {
        console_match(handlers.skip(1), words)
    }
}

/// The help text: a heading, then a line per registered console handler.
pub open spec fn help_text(handlers: Seq<CommandKind>) -> Seq<char> {
    "Available commands:"@ + help_lines(handlers)
}

pub open spec fn help_lines(handlers: Seq<CommandKind>) -> Seq<char>
    decreases handlers.len(),
{
    if handlers.len() == 0 {
        Seq::empty()
    } else {
        help_lines(handlers.drop_last()) + if is_console(handlers.last()) {
            "\n  "@ + pattern_text(handlers.last()) + " - "@ + description_of(handlers.last())
        } else {
            Seq::empty()
        }
    }
}

/// The text that the console shows for a matched command.
pub open spec fn console_reply(k: CommandKind, words: Seq<Seq<char>>, handlers: Seq<CommandKind>) -> Seq<
    char,
> {
    match k {
        CommandKind::Help => help_text(handlers),
        CommandKind::Print => words[1],
        CommandKind::Quit => "Quitting..."@,
        _ => Seq::empty(),
    }
}

/// The coordinated shutdown: a handler asks for it, and a later step carries it out once
/// the response has been handed back.
#[derive(Debug, Clone, Copy, PartialEq, Eq, Structural)]
pub enum ShutdownState {
    Running,
    ShutdownRequested,
    Finalized,
}

/// Why a command was not carried out.
#[derive(Debug)]
pub enum CommandError {
    /// The line's quoting is broken.
    Parse(shell_words::ParseError),
    /// The line holds no words.
    EmptyCommand,
    /// No console pattern matches the line.
    NoMatch(String),
    /// A captured argument that the handler needs is missing.
    MissingArgument(String),
    /// The request carries no inner part.
    NoInnerPayload,
    /// The request carries no payload.
    NoPayload,
    /// No handler is registered for the payload's kind.
    Unregistered(CommandKind),
}

impl CommandError {
    /// The message of this error.
    pub fn to_string(&self) -> (r: String)
        ensures
            self is Parse ==> r@ == "Invalid quoting"@,
            self is EmptyCommand ==> r@ == "Empty command"@,
            self is NoMatch ==> r@ == "No matching command found: "@ + self->NoMatch_0@,
            self is MissingArgument ==> r@ == "Missing argument: "@ + self->MissingArgument_0@,
            self is NoInnerPayload ==> r@ == "No inner payload"@,
            self is NoPayload ==> r@ == "No payload"@,
            self is Unregistered ==> r@ == "No handler registered for this request"@,
    {
        match self {
            CommandError::Parse(_) => "Invalid quoting".to_owned(),
            CommandError::EmptyCommand => "Empty command".to_owned(),
            CommandError::NoMatch(command) => {
                let mut r = "No matching command found: ".to_owned();
                r.append(command.as_str());
                r
            },
            CommandError::MissingArgument(name) => {
                let mut r = "Missing argument: ".to_owned();
                r.append(name.as_str());
                r
            },
            CommandError::NoInnerPayload => "No inner payload".to_owned(),
            CommandError::NoPayload => "No payload".to_owned(),
            CommandError::Unregistered(_) => "No handler registered for this request".to_owned(),
        }
    }
}

/// The roles of a kind's handler.
pub open spec fn roles_of(k: CommandKind) -> Seq<CommandRole> {
    match k {
        CommandKind::Help => seq![CommandRole::Console, CommandRole::System],
        CommandKind::Nonce => seq![CommandRole::System, CommandRole::Console],
        CommandKind::Chain => seq![CommandRole::System, CommandRole::Stream],
        CommandKind::Boot => seq![CommandRole::System, CommandRole::Stream],
        _ => seq![CommandRole::Console],
    }
}

/// The name inside a capture token `<name>`.
pub open spec fn capture_name(t: Seq<char>) -> Seq<char> {
    t.subrange(1, t.len() - 1)
}

/// The named arguments that a matching pattern captures, in pattern order.
pub open spec fn captures(pattern: Seq<Seq<char>>, words: Seq<Seq<char>>) -> Seq<(Seq<char>, Seq<char>)>
    decreases pattern.len(),
{
    if pattern.len() == 0 {
        Seq::empty()
    } else {
        captures(pattern.drop_last(), words.drop_last()) + if is_capture(pattern.last()) {
            seq![(capture_name(pattern.last()), words.last())]
        } else {
            Seq::empty()
        }
    }
}

/// The first argument named `name`.
pub open spec fn lookup(args: Seq<(Seq<char>, Seq<char>)>, name: Seq<char>) -> Option<Seq<char>>
    decreases args.len(),
{
    if args.len() == 0 {
        None
    } else if args[0].0 == name {
        Some(args[0].1)
    } else {
        lookup(args.skip(1), name)
    }
}

/// The characters of each argument pair.
pub open spec fn arg_texts(args: Seq<(String, String)>) -> Seq<(Seq<char>, Seq<char>)> {
    args.map_values(|a: (String, String)| (a.0@, a.1@))
}

fn find_arg(args: &Vec<(String, String)>, name: &str) -> (r: Option<String>)
    ensures
        match lookup(arg_texts(args@), name@) {
            Some(v) => r is Some && r->Some_0@ == v,
            None => r is None,
        },
{
    let mut i: usize = 0;
    assert(arg_texts(args@).skip(0) =~= arg_texts(args@));
    while i < args.len()
        invariant
            i <= args@.len(),
            lookup(arg_texts(args@), name@) == lookup(arg_texts(args@).skip(i as int), name@),
        decreases args@.len() - i,
    {
        let ghost rest = arg_texts(args@).skip(i as int);
        assert(rest[0] == (args@[i as int].0@, args@[i as int].1@));
        if str_eq(args[i].0.as_str(), name) {
            return Some(args[i].1.clone());
        }
        assert(rest.skip(1) =~= arg_texts(args@).skip(i + 1));
        i = i + 1;
    }
    None
}

/// The `help` command.
pub struct HelpCommandHandler;

impl HelpCommandHandler {
    /// The console pattern.
    pub fn cmd_pattern(&self) -> (r: &'static str)
        ensures
            r@ == pattern_text(CommandKind::Help),
    {
        "help"
    }

    pub fn cmd_description(&self) -> (r: &'static str)
        ensures
            r@ == description_of(CommandKind::Help),
    {
        "Display available commands"
    }

    pub fn cmd_roles(&self) -> (r: Vec<CommandRole>)
        ensures
            r@ == roles_of(CommandKind::Help),
    {
        let r = vec![CommandRole::Console, CommandRole::System];
        assert(r@ =~= roles_of(CommandKind::Help));
        r
    }

    /// Builds the request; the command takes no arguments.
    pub fn parse_args(&self, args: &Vec<(String, String)>) -> (r: Result<
        client_request_inner::Payload,
        CommandError,
    >)
        ensures
            r matches Ok(p) && kind_of(p) == CommandKind::Help,
    {
        Ok(client_request_inner::Payload::HelpRequest(HelpClientRequest {}))
    }

    /// The console text of a response.
    pub fn response_as_string(&self, response: &client_response_inner::Payload) -> (r: String)
        ensures
            match response {
                client_response_inner::Payload::HelpResponse(x) => r@ == x.message@,
                _ => r@ == Seq::<char>::empty(),
            },
    {
        match response {
            client_response_inner::Payload::HelpResponse(x) => x.message.clone(),
            _ => String::new(),
        }
    }
}

/// The `print <message>` command.
pub struct PrintCommandHandler;

impl PrintCommandHandler {
    /// The console pattern.
    pub fn cmd_pattern(&self) -> (r: &'static str)
        ensures
            r@ == pattern_text(CommandKind::Print),
    {
        "print <message>"
    }

    pub fn cmd_description(&self) -> (r: &'static str)
        ensures
            r@ == description_of(CommandKind::Print),
    {
        "Print a message"
    }

    pub fn cmd_roles(&self) -> (r: Vec<CommandRole>)
        ensures
            r@ == roles_of(CommandKind::Print),
    {
        let r = vec![CommandRole::Console];
        assert(r@ =~= roles_of(CommandKind::Print));
        r
    }

    /// Builds the request from the captured `message`.
    pub fn parse_args(&self, args: &Vec<(String, String)>) -> (r: Result<
        client_request_inner::Payload,
        CommandError,
    >)
        ensures
            match lookup(arg_texts(args@), "message"@) {
                Some(v) => (r matches Ok(client_request_inner::Payload::PrintRequest(q))
                    && q.message@ == v),
                None => r matches Err(CommandError::MissingArgument(_)),
            },
    {
        match find_arg(args, "message") {
            Some(message) => Ok(client_request_inner::Payload::PrintRequest(PrintClientRequest { message })),
            None => Err(CommandError::MissingArgument("message".to_owned())),
        }
    }

    /// The console text of a response.
    pub fn response_as_string(&self, response: &client_response_inner::Payload) -> (r: String)
        ensures
            match response {
                client_response_inner::Payload::PrintResponse(x) => r@ == x.message@,
                _ => r@ == Seq::<char>::empty(),
            },
    {
        match response {
            client_response_inner::Payload::PrintResponse(x) => x.message.clone(),
            _ => String::new(),
        }
    }
}

/// The `nonce` command.
pub struct NonceCommandHandler;

impl NonceCommandHandler {
    /// The console pattern.
    pub fn cmd_pattern(&self) -> (r: &'static str)
        ensures
            r@ == pattern_text(CommandKind::Nonce),
    {
        "nonce"
    }

    pub fn cmd_description(&self) -> (r: &'static str)
        ensures
            r@ == description_of(CommandKind::Nonce),
    {
        "Generate a random nonce"
    }

    pub fn cmd_roles(&self) -> (r: Vec<CommandRole>)
        ensures
            r@ == roles_of(CommandKind::Nonce),
    {
        let r = vec![CommandRole::System, CommandRole::Console];
        assert(r@ =~= roles_of(CommandKind::Nonce));
        r
    }

    /// Builds the request; the command takes no arguments.
    pub fn parse_args(&self, args: &Vec<(String, String)>) -> (r: Result<
        client_request_inner::Payload,
        CommandError,
    >)
        ensures
            r matches Ok(p) && kind_of(p) == CommandKind::Nonce,
    {
        Ok(client_request_inner::Payload::NonceRequest(NonceClientRequest {}))
    }

    /// The console text of a response.
    pub fn response_as_string(&self, response: &client_response_inner::Payload) -> (r: String)
        ensures
            match response {
                client_response_inner::Payload::NonceResponse(x) => r@ == x.nonce@,
                _ => r@ == Seq::<char>::empty(),
            },
    {
        match response {
            client_response_inner::Payload::NonceResponse(x) => x.nonce.clone(),
            _ => String::new(),
        }
    }
}

/// The `quit` command.
pub struct QuitCommandHandler;

impl QuitCommandHandler {
    /// The console pattern.
    pub fn cmd_pattern(&self) -> (r: &'static str)
        ensures
            r@ == pattern_text(CommandKind::Quit),
    {
        "quit"
    }

    pub fn cmd_description(&self) -> (r: &'static str)
        ensures
            r@ == description_of(CommandKind::Quit),
    {
        "Quit the application"
    }

    pub fn cmd_roles(&self) -> (r: Vec<CommandRole>)
        ensures
            r@ == roles_of(CommandKind::Quit),
    {
        let r = vec![CommandRole::Console];
        assert(r@ =~= roles_of(CommandKind::Quit));
        r
    }

    /// Builds the request; the command takes no arguments.
    pub fn parse_args(&self, args: &Vec<(String, String)>) -> (r: Result<
        client_request_inner::Payload,
        CommandError,
    >)
        ensures
            r matches Ok(p) && kind_of(p) == CommandKind::Quit,
    {
        Ok(client_request_inner::Payload::QuitRequest(QuitClientRequest {}))
    }

    /// The console text of a response.
    pub fn response_as_string(&self, response: &client_response_inner::Payload) -> (r: String)
        ensures
            response is QuitResponse ==> r@ == "Quitting..."@,
            !(response is QuitResponse) ==> r@ == Seq::<char>::empty(),
    {
        match response {
            client_response_inner::Payload::QuitResponse(_) => "Quitting...".to_owned(),
            _ => String::new(),
        }
    }
}

/// The `status` command.
pub struct StatusCommandHandler;

impl StatusCommandHandler {
    /// The console pattern.
    pub fn cmd_pattern(&self) -> (r: &'static str)
        ensures
            r@ == pattern_text(CommandKind::Status),
    {
        "status"
    }

    pub fn cmd_description(&self) -> (r: &'static str)
        ensures
            r@ == description_of(CommandKind::Status),
    {
        "Get the status of the application"
    }

    pub fn cmd_roles(&self) -> (r: Vec<CommandRole>)
        ensures
            r@ == roles_of(CommandKind::Status),
    {
        let r = vec![CommandRole::Console];
        assert(r@ =~= roles_of(CommandKind::Status));
        r
    }

    /// Builds the request; the command takes no arguments.
    pub fn parse_args(&self, args: &Vec<(String, String)>) -> (r: Result<
        client_request_inner::Payload,
        CommandError,
    >)
        ensures
            r matches Ok(p) && kind_of(p) == CommandKind::Status,
    {
        Ok(client_request_inner::Payload::StatusRequest(StatusClientRequest {}))
    }

    /// The console text of a response; this command shows none.
    pub fn response_as_string(&self, response: &client_response_inner::Payload) -> (r: String)
        ensures
            r@ == Seq::<char>::empty(),
    {
        String::new()
    }
}

/// Chain-loads an image that arrives as the request body.
pub struct ChainCommandHandler;

impl ChainCommandHandler {
    pub fn cmd_roles(&self) -> (r: Vec<CommandRole>)
        ensures
            r@ == roles_of(CommandKind::Chain),
    {
        let r = vec![CommandRole::System, CommandRole::Stream];
        assert(r@ =~= roles_of(CommandKind::Chain));
        r
    }
}

/// Stages boot images that arrive as the request body.
pub struct BootCommandHandler;

impl BootCommandHandler {
    pub fn cmd_roles(&self) -> (r: Vec<CommandRole>)
        ensures
            r@ == roles_of(CommandKind::Boot),
    {
        let r = vec![CommandRole::System, CommandRole::Stream];
        assert(r@ =~= roles_of(CommandKind::Boot));
        r
    }
}

/// A shutdown request moves a running dispatcher on; later states stay.
pub open spec fn requested(s: ShutdownState) -> ShutdownState {
    if s is Running {
        ShutdownState::ShutdownRequested
    } else {
        s
    }
}

/// The response payload that handler `k` gives to request payload `req`.
pub open spec fn reply_ok(
    k: CommandKind,
    req: client_request_inner::Payload,
    resp: client_response_inner::Payload,
    handlers: Seq<CommandKind>,
) -> bool {
    match k {
        CommandKind::Help => (resp matches client_response_inner::Payload::HelpResponse(h)
            && h.message@ == help_text(handlers)),
        CommandKind::Print => match (resp, req) {
            (
                client_response_inner::Payload::PrintResponse(x),
                client_request_inner::Payload::PrintRequest(q),
            ) => x.message@ == q.message@,
            _ => false,
        },
        CommandKind::Nonce => (resp matches client_response_inner::Payload::NonceResponse(x)
            && x.nonce@ == Seq::<char>::empty()),
        CommandKind::Quit => resp is QuitResponse,
        CommandKind::Status => resp is StatusResponse,
        CommandKind::Chain => resp is ChainResponse,
        CommandKind::Boot => resp is BootResponse,
    }
}

/// A response envelope that carries `payload` and the nonce `nonce`, unsigned.
pub open spec fn envelope_ok(
    resp: ClientResponse,
    nonce: Seq<char>,
    payload: spec_fn(client_response_inner::Payload) -> bool,
) -> bool {
    resp.signature_type is None && match resp.inner {
        Some(ri) => ri.nonce@ == nonce && match ri.payload {
            Some(p) => payload(p),
            None => false,
        },
        None => false,
    }
}

/// What a dispatched request leads to.
#[derive(Debug)]
pub enum DispatchOutcome {
    /// The response, ready to be handed back.
    Respond(ClientResponse),
    /// The handler of this kind consumes the request body; its response follows from
    /// `complete_stream` once the body has been consumed.
    AwaitStream(CommandKind),
}

/// The dispatcher as a value: the registered kinds in registration order, and the
/// shutdown state.
pub struct DispatcherView {
    pub handlers: Seq<CommandKind>,
    pub shutdown: ShutdownState,
}

/// The handler registry and the shutdown state that handlers share.
pub struct CommandDispatcher {
    handlers: Vec<CommandKind>,
    shutdown: ShutdownState,
}

impl View for CommandDispatcher {
    type V = DispatcherView;

    closed spec fn view(&self) -> DispatcherView {
        DispatcherView { handlers: self.handlers@, shutdown: self.shutdown }
    }
}

fn pattern_tokens(k: CommandKind) -> (r: Vec<&'static str>)
    ensures
        r@.map_values(|t: &'static str| t@) == pattern_of(k),
{
    let r = match k {
        CommandKind::Help => vec!["help"],
        CommandKind::Print => vec!["print", "<message>"],
        CommandKind::Nonce => vec!["nonce"],
        CommandKind::Quit => vec!["quit"],
        CommandKind::Chain => vec!["chain"],
        CommandKind::Status => vec!["status"],
        CommandKind::Boot => vec!["boot"],
    };
    assert(r@.map_values(|t: &'static str| t@) =~= pattern_of(k));
    r
}

fn is_console_kind(k: CommandKind) -> (r: bool)
    ensures
        r == is_console(k),
{
    match k {
        CommandKind::Help | CommandKind::Print | CommandKind::Nonce | CommandKind::Quit
        | CommandKind::Status => true,
        _ => false,
    }
}

fn pattern_line(k: CommandKind) -> (r: &'static str)
    ensures
        r@ == pattern_text(k),
{
    match k {
        CommandKind::Help => HelpCommandHandler.cmd_pattern(),
        CommandKind::Print => PrintCommandHandler.cmd_pattern(),
        CommandKind::Nonce => NonceCommandHandler.cmd_pattern(),
        CommandKind::Quit => QuitCommandHandler.cmd_pattern(),
        CommandKind::Status => StatusCommandHandler.cmd_pattern(),
        CommandKind::Chain => "chain",
        CommandKind::Boot => "boot",
    }
}

fn description_line(k: CommandKind) -> (r: &'static str)
    ensures
        r@ == description_of(k),
{
    match k {
        CommandKind::Help => HelpCommandHandler.cmd_description(),
        CommandKind::Print => PrintCommandHandler.cmd_description(),
        CommandKind::Nonce => NonceCommandHandler.cmd_description(),
        CommandKind::Quit => QuitCommandHandler.cmd_description(),
        CommandKind::Status => StatusCommandHandler.cmd_description(),
        CommandKind::Chain => "Chain-load an uploaded image",
        CommandKind::Boot => "Stage boot images and boot them",
    }
}

/// Matches console words against a pattern and collects the captured arguments.
fn match_pattern(tokens: &Vec<&'static str>, words: &Vec<String>) -> (r: Option<
    Vec<(String, String)>,
>)
    ensures
        r is Some <==> pattern_matches(tokens@.map_values(|t: &'static str| t@), texts(words@)),
        r is Some ==> arg_texts(r->Some_0@) == captures(
            tokens@.map_values(|t: &'static str| t@),
            texts(words@),
        ),
{
    let ghost pat = tokens@.map_values(|t: &'static str| t@);
    let ghost ws = texts(words@);
    if tokens.len() != words.len() {
        return None;
    }
    let mut args: Vec<(String, String)> = Vec::new();
    let mut i: usize = 0;
    assert(pat.take(0) =~= Seq::<Seq<char>>::empty());
    while i < tokens.len()
        invariant
            i <= tokens@.len(),
            tokens@.len() == words@.len(),
            pat == tokens@.map_values(|t: &'static str| t@),
            ws == texts(words@),
            forall|j: int| 0 <= j < i ==> (is_capture(#[trigger] pat[j]) || pat[j] == ws[j]),
            arg_texts(args@) == captures(pat.take(i as int), ws.take(i as int)),
        decreases tokens@.len() - i,
    {
        let t = tokens[i];
        let n = t.unicode_len();
        let capture = n >= 2 && t.get_char(0) == '<' && t.get_char(n - 1) == '>';
        assert(pat[i as int] == t@);
        assert(ws[i as int] == words@[i as int]@);
        assert(pat.take(i + 1).drop_last() =~= pat.take(i as int));
        assert(ws.take(i + 1).drop_last() =~= ws.take(i as int));
        if capture {
            let name = t.substring_char(1, n - 1).to_owned();
            let value = words[i].clone();
            let ghost before = args@;
            args.push((name, value));
            assert(arg_texts(args@) =~= arg_texts(before) + seq![(capture_name(t@), words@[i as int]@)]);
        } else {
            if !str_eq(t, words[i].as_str()) {
                return None;
            }
            assert(arg_texts(args@) =~= captures(pat.take(i + 1), ws.take(i + 1)));
        }
        i = i + 1;
    }
    assert(pat.take(i as int) =~= pat);
    assert(ws.take(i as int) =~= ws);
    Some(args)
}

impl CommandDispatcher {
    /// A dispatcher with no handlers, running.
    pub fn new() -> (r: Self)
        ensures
            r@.handlers == Seq::<CommandKind>::empty(),
            r@.shutdown == ShutdownState::Running,
    {
        CommandDispatcher { handlers: Vec::new(), shutdown: ShutdownState::Running }
    }

    /// A dispatcher with the nonce, help, print, quit and chain handlers.
    pub fn default() -> (r: Self)
        ensures
            r@.handlers == seq![
                CommandKind::Nonce,
                CommandKind::Help,
                CommandKind::Print,
                CommandKind::Quit,
                CommandKind::Chain,
            ],
            r@.shutdown == ShutdownState::Running,
    {
        let mut d = Self::new();
        d.register_handler(CommandKind::Nonce);
        d.register_handler(CommandKind::Help);
        d.register_handler(CommandKind::Print);
        d.register_handler(CommandKind::Quit);
        d.register_handler(CommandKind::Chain);
        assert(d@.handlers =~= seq![
            CommandKind::Nonce,
            CommandKind::Help,
            CommandKind::Print,
            CommandKind::Quit,
            CommandKind::Chain,
        ]);
        d
    }

    /// Registers the handler of kind `k`; a kind registered before keeps its place.
    pub fn register_handler(&mut self, k: CommandKind)
        ensures
            final(self)@.shutdown == old(self)@.shutdown,
            final(self)@.handlers == if old(self)@.handlers.contains(k) {
                old(self)@.handlers
            } else {
                old(self)@.handlers.push(k)
            },
    {
        if !self.is_registered(k) {
            self.handlers.push(k);
        }
    }

    fn is_registered(&self, k: CommandKind) -> (r: bool)
        ensures
            r == self@.handlers.contains(k),
    {
        let mut i: usize = 0;
        while i < self.handlers.len()
            invariant
                i <= self.handlers@.len(),
                forall|j: int| 0 <= j < i ==> self.handlers@[j] != k,
            decreases self.handlers@.len() - i,
        {
            if self.handlers[i] == k {
                assert(self.handlers@[i as int] == k);
                return true;
            }
            i = i + 1;
        }
        false
    }

    /// The shutdown state.
    pub fn shutdown_state(&self) -> (r: ShutdownState)
        ensures
            r == self@.shutdown,
    {
        self.shutdown
    }

    /// Asks for shutdown without stopping anything yet.
    pub fn request_shutdown(&mut self)
        ensures
            final(self)@.handlers == old(self)@.handlers,
            final(self)@.shutdown == requested(old(self)@.shutdown),
    {
        if self.shutdown == ShutdownState::Running {
            self.shutdown = ShutdownState::ShutdownRequested;
        }
    }

    fn help_message(&self) -> (r: String)
        ensures
            r@ == help_text(self@.handlers),
    {
        let mut out = "Available commands:".to_owned();
        let mut i: usize = 0;
        while i < self.handlers.len()
            invariant
                i <= self.handlers@.len(),
                out@ == "Available commands:"@ + help_lines(self.handlers@.take(i as int)),
            decreases self.handlers@.len() - i,
        {
            let k = self.handlers[i];
            let ghost before = out@;
            assert(self.handlers@.take(i + 1).drop_last() =~= self.handlers@.take(i as int));
            if is_console_kind(k) {
                out.append("\n  ");
                out.append(pattern_line(k));
                out.append(" - ");
                out.append(description_line(k));
            }
            assert(out@ =~= "Available commands:"@ + help_lines(self.handlers@.take(i + 1)));
            i = i + 1;
        }
        assert(self.handlers@.take(i as int) =~= self.handlers@);
        out
    }

    /// Runs the handler of kind `k` on a request payload of that kind that needs no body.
    fn respond(&mut self, k: CommandKind, payload: &client_request_inner::Payload) -> (r:
        client_response_inner::Payload)
        requires
            kind_of(*payload) == k,
            !is_stream(k),
        ensures
            reply_ok(k, *payload, r, old(self)@.handlers),
            final(self)@.handlers == old(self)@.handlers,
            final(self)@.shutdown == if k is Quit {
                requested(old(self)@.shutdown)
            } else {
                old(self)@.shutdown
            },
    {
        match payload {
            client_request_inner::Payload::HelpRequest(_) => {
                client_response_inner::Payload::HelpResponse(
                    HelpClientResponse { message: self.help_message() },
                )
            },
            client_request_inner::Payload::PrintRequest(q) => {
                client_response_inner::Payload::PrintResponse(
                    PrintClientResponse { message: q.message.clone() },
                )
            },
            client_request_inner::Payload::NonceRequest(_) => {
                client_response_inner::Payload::NonceResponse(
                    NonceClientResponse { nonce: String::new() },
                )
            },
            client_request_inner::Payload::QuitRequest(_) => {
                self.request_shutdown();
                client_response_inner::Payload::QuitResponse(QuitClientResponse {})
            },
            client_request_inner::Payload::StatusRequest(_) => {
                client_response_inner::Payload::StatusResponse(StatusClientResponse {})
            },
            _ => {
                proof {
                    assert(false);
                }
                client_response_inner::Payload::StatusResponse(StatusClientResponse {})
            },
        }
    }

    /// Routes a typed request to the handler registered for its payload's kind.
    /// `has_stream` tells whether a request body comes with it.
    pub fn dispatch(&mut self, request: &ClientRequest, has_stream: bool) -> (r: Result<
        DispatchOutcome,
        CommandError,
    >)
        ensures
            final(self)@.handlers == old(self)@.handlers,
            match request.inner {
                None => (r matches Err(CommandError::NoInnerPayload)) && final(self)@ == old(self)@,
                Some(inner) => match inner.payload {
                    None => (r matches Err(CommandError::NoPayload)) && final(self)@ == old(self)@,
                    Some(p) => {
                        let k = kind_of(p);
                        if !old(self)@.handlers.contains(k) {
                            (r matches Err(CommandError::Unregistered(x)) && x == k) && final(self)@
                                == old(self)@
                        } else if is_stream(k) {
                            final(self)@ == old(self)@ && if has_stream {
                                (r matches Ok(DispatchOutcome::AwaitStream(x)) && x == k)
                            } else {
                                (r matches Ok(DispatchOutcome::Respond(resp)) && envelope_ok(
                                    resp,
                                    inner.nonce@,
                                    |rp: client_response_inner::Payload|
                                        (rp matches client_response_inner::Payload::ErrorResponse(
                                            e,
                                        ) && e.error@ == "No stream provided"@),
                                ))
                            }
                        } else {
                            &&& (r matches Ok(DispatchOutcome::Respond(resp)) && envelope_ok(
                                resp,
                                inner.nonce@,
                                |rp: client_response_inner::Payload|
                                    reply_ok(k, p, rp, old(self)@.handlers),
                            ))
                            &&& final(self)@.shutdown == if k is Quit {
                                requested(old(self)@.shutdown)
                            } else {
                                old(self)@.shutdown
                            }
                        }
                    },
                },
            },
    {
        let inner = match &request.inner {
            Some(inner) => inner,
            None => {
                return Err(CommandError::NoInnerPayload);
            },
        };
        let payload = match &inner.payload {
            Some(p) => p,
            None => {
                return Err(CommandError::NoPayload);
            },
        };
        let k = match payload {
            client_request_inner::Payload::HelpRequest(_) => CommandKind::Help,
            client_request_inner::Payload::PrintRequest(_) => CommandKind::Print,
            client_request_inner::Payload::NonceRequest(_) => CommandKind::Nonce,
            client_request_inner::Payload::QuitRequest(_) => CommandKind::Quit,
            client_request_inner::Payload::ChainRequest(_) => CommandKind::Chain,
            client_request_inner::Payload::StatusRequest(_) => CommandKind::Status,
            client_request_inner::Payload::BootRequest(_) => CommandKind::Boot,
        };
        if !self.is_registered(k) {
            return Err(CommandError::Unregistered(k));
        }
        let response_payload = if k == CommandKind::Chain || k == CommandKind::Boot {
            if has_stream {
                return Ok(DispatchOutcome::AwaitStream(k));
            }
            client_response_inner::Payload::ErrorResponse(
                ErrorClientResponse { error: "No stream provided".to_owned() },
            )
        } else {
            self.respond(k, payload)
        };
        Ok(
            DispatchOutcome::Respond(
                ClientResponse {
                    inner: Some(
                        ClientResponseInner {
                            nonce: inner.nonce.clone(),
                            payload: Some(response_payload),
                        },
                    ),
                    signature_type: None,
                },
            ),
        )
    }

    /// The response of a body-consuming handler once its body has been consumed: the
    /// handler has handed control on, so shutdown is requested.
    pub fn complete_stream(&mut self, k: CommandKind, nonce: String) -> (r: ClientResponse)
        requires
            is_stream(k),
        ensures
            envelope_ok(
                r,
                nonce@,
                |rp: client_response_inner::Payload| if k is Chain {
                    rp is ChainResponse
                } else {
                    rp is BootResponse
                },
            ),
            final(self)@.handlers == old(self)@.handlers,
            final(self)@.shutdown == requested(old(self)@.shutdown),
    {
        self.request_shutdown();
        let payload = if k == CommandKind::Chain {
            client_response_inner::Payload::ChainResponse(ChainClientResponse {})
        } else {
            client_response_inner::Payload::BootResponse(BootClientResponse {})
        };
        ClientResponse {
            inner: Some(ClientResponseInner { nonce, payload: Some(payload) }),
            signature_type: None,
        }
    }

    fn run_console(&mut self, k: CommandKind, args: &Vec<(String, String)>, words: &Vec<String>) -> (r:
        Result<String, CommandError>)
        requires
            is_console(k),
            pattern_matches(pattern_of(k), texts(words@)),
            arg_texts(args@) == captures(pattern_of(k), texts(words@)),
        ensures
            (r matches Ok(t) && t@ == console_reply(k, texts(words@), old(self)@.handlers)),
            final(self)@.handlers == old(self)@.handlers,
            final(self)@.shutdown == if k is Quit {
                requested(old(self)@.shutdown)
            } else {
                old(self)@.shutdown
            },
    {
        let ghost ws = texts(words@);
        match k {
            CommandKind::Help => {
                let resp = self.respond(k, &client_request_inner::Payload::HelpRequest(HelpClientRequest {}));
                Ok(HelpCommandHandler.response_as_string(&resp))
            },
            CommandKind::Print => {
                proof {
                    reveal_strlit("print");
                    reveal_strlit("<message>");
                    reveal_strlit("message");
                    let pat = pattern_of(k);
                    assert(pat.drop_last() =~= seq!["print"@]);
                    assert(seq!["print"@].drop_last() =~= Seq::<Seq<char>>::empty());
                    assert(!is_capture("print"@));
                    assert(is_capture("<message>"@));
                    assert(capture_name("<message>"@) =~= "message"@);
                    assert(ws.len() == 2);
                    let one = seq!["print"@];
                    assert(one.last() == "print"@);
                    assert(captures(one.drop_last(), ws.drop_last().drop_last()) =~= Seq::empty());
                    assert(captures(one, ws.drop_last()) =~= Seq::empty());
                    let caps = captures(pat, ws);
                    assert(caps =~= seq![("message"@, ws[1])]);
                    assert(lookup(caps, "message"@) == Some(ws[1]));
                }
                match PrintCommandHandler.parse_args(args) {
                    Ok(payload) => {
                        let resp = self.respond(k, &payload);
                        Ok(PrintCommandHandler.response_as_string(&resp))
                    },
                    Err(e) => {
                        proof {
                            assert(false);
                        }
                        Err(e)
                    },
                }
            },
            CommandKind::Nonce => {
                let resp = self.respond(k, &client_request_inner::Payload::NonceRequest(NonceClientRequest {}));
                Ok(NonceCommandHandler.response_as_string(&resp))
            },
            CommandKind::Quit => {
                let resp = self.respond(k, &client_request_inner::Payload::QuitRequest(QuitClientRequest {}));
                Ok(QuitCommandHandler.response_as_string(&resp))
            },
            _ => {
                let resp = self.respond(
                    CommandKind::Status,
                    &client_request_inner::Payload::StatusRequest(StatusClientRequest {}),
                );
                Ok(StatusCommandHandler.response_as_string(&resp))
            },
        }
    }

    /// Runs a console line already split into words: the first registered console
    /// handler whose pattern matches them handles it, and its response's text is returned.
    /// `command` is the line itself, for the error when nothing matches.
    pub fn execute_words(&mut self, words: &Vec<String>, command: &str) -> (r: Result<
        String,
        CommandError,
    >)
        ensures
            final(self)@.handlers == old(self)@.handlers,
            words@.len() == 0 ==> (r matches Err(CommandError::EmptyCommand)) && final(self)@
                == old(self)@,
            words@.len() > 0 ==> match console_match(old(self)@.handlers, texts(words@)) {
                None => (r matches Err(CommandError::NoMatch(c)) && c@ == command@) && final(self)@
                    == old(self)@,
                Some(k) => (r matches Ok(t) && t@ == console_reply(
                    k,
                    texts(words@),
                    old(self)@.handlers,
                )) && final(self)@.shutdown == if k is Quit {
                    requested(old(self)@.shutdown)
                } else {
                    old(self)@.shutdown
                },
            },
    {
        if words.len() == 0 {
            return Err(CommandError::EmptyCommand);
        }
        let ghost ws = texts(words@);
        let ghost hs = self@.handlers;
        let mut i: usize = 0;
        assert(hs.skip(0) =~= hs);
        while i < self.handlers.len()
            invariant
                i <= hs.len(),
                hs == self@.handlers,
                self@ == old(self)@,
                ws == texts(words@),
                console_match(hs, ws) == console_match(hs.skip(i as int), ws),
            decreases hs.len() - i,
        {
            let k = self.handlers[i];
            assert(hs.skip(i as int)[0] == k);
            assert(hs.skip(i as int).skip(1) =~= hs.skip(i + 1));
            if is_console_kind(k) {
                let tokens = pattern_tokens(k);
                match match_pattern(&tokens, words) {
                    Some(args) => {
                        return self.run_console(k, &args, words);
                    },
                    None => {},
                }
            }
            i = i + 1;
        }
        assert(hs.skip(i as int) =~= Seq::<CommandKind>::empty());
        Err(CommandError::NoMatch(command.to_owned()))
    }

    /// Runs a console line: splits it by shell quoting rules, then as `execute_words`.
    pub fn execute(&mut self, command: &str) -> (r: Result<String, CommandError>)
        ensures
            final(self)@.handlers == old(self)@.handlers,
            shell_split(command@) is None ==> (r matches Err(CommandError::Parse(_))) && final(self)@ == old(self)@,
            shell_split(command@) matches Some(ws) ==> {
                if ws.len() == 0 {
                    (r matches Err(CommandError::EmptyCommand)) && final(self)@ == old(self)@
                } else {
                    match console_match(old(self)@.handlers, ws) {
                        None => (r matches Err(CommandError::NoMatch(c)) && c@ == command@)
                            && final(self)@ == old(self)@,
                        Some(k) => (r matches Ok(t) && t@ == console_reply(
                            k,
                            ws,
                            old(self)@.handlers,
                        )) && final(self)@.shutdown == if k is Quit {
                            requested(old(self)@.shutdown)
                        } else {
                            old(self)@.shutdown
                        },
                    }
                }
            },
    {
        match split_words(command) {
            Ok(words) => self.execute_words(&words, command),
            Err(e) => Err(CommandError::Parse(e)),
        }
    }

    /// Carries out a requested shutdown once the response that asked for it has been
    /// handed back: the dispatcher is finalized, the scheduler is told to exit, and the
    /// kinds whose handlers are to be notified are returned. Otherwise nothing happens.
    pub fn finalize_shutdown_if_requested(&mut self, executor: &mut Executor) -> (r: Vec<
        CommandKind,
    >)
        requires
            view_wf(old(executor)@),
        ensures
            view_wf(final(executor)@),
            final(self)@.handlers == old(self)@.handlers,
            old(self)@.shutdown is ShutdownRequested ==> final(self)@.shutdown
                == ShutdownState::Finalized && final(executor)@ == exit_spec(old(executor)@) && r@
                == old(self)@.handlers,
            !(old(self)@.shutdown is ShutdownRequested) ==> final(self)@ == old(self)@ && final(executor)@ == old(executor)@ && r@ == Seq::<CommandKind>::empty(),
    {
        if self.shutdown != ShutdownState::ShutdownRequested {
            return Vec::new();
        }
        let notified = self.handlers.clone();
        self.shutdown = ShutdownState::Finalized;
        executor.exit();
        assert(notified@ =~= self.handlers@);
        notified
    }
}

} // verus!
