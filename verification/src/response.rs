//! The answers of the command dispatcher: what a single command gives back,
//! and the envelope that carries it to the client.

use serde_json::Value;
use vstd::prelude::*;

verus! {

/// Version of the command interface that the dispatcher speaks.
pub const API_VERSION: &'static str = "3.7";

/// Seconds since the Unix epoch.
pub type Time = u64;

/// The clock that stamps the responses.
pub trait When {
    /// The time of the call.
    fn when() -> Time;
}

/// Yes or no, as the command interface spells it.
#[derive(Clone, Copy, PartialEq, Eq, Structural, Debug)]
pub enum Bool {
    N,
    Y,
}

/// Answer to the `version` command.
#[derive(Clone, PartialEq, Eq, Debug)]
pub struct Version {
    pub signature: String,
    pub miner: String,
    pub api: String,
}

/// What a `Version` holds.
pub struct VersionView {
    pub signature: Seq<char>,
    pub miner: Seq<char>,
    pub api: Seq<char>,
}

impl View for Version {
    type V = VersionView;

    open spec fn view(&self) -> VersionView {
        VersionView { signature: self.signature@, miner: self.miner@, api: self.api@ }
    }
}

/// Answer to the `check` command: whether the command exists and whether the
/// client may use it.
#[derive(Clone, Copy, PartialEq, Eq, Structural, Debug)]
pub struct Check {
    pub exists: Bool,
    pub access: Bool,
}

/// The errors that the dispatcher itself reports.
#[derive(Clone, PartialEq, Eq, Debug)]
pub enum ErrorCode {
    InvalidCommand,
    MissingAscParameter,
    MissingCommand,
    AccessDeniedCmd(String),
    MissingCheckCmd,
}

/// What an `ErrorCode` holds.
pub enum ErrorCodeView {
    InvalidCommand,
    MissingAscParameter,
    MissingCommand,
    AccessDeniedCmd(Seq<char>),
    MissingCheckCmd,
}

impl View for ErrorCode {
    type V = ErrorCodeView;

    open spec fn view(&self) -> ErrorCodeView {
        match self {
            ErrorCode::InvalidCommand => ErrorCodeView::InvalidCommand,
            ErrorCode::MissingAscParameter => ErrorCodeView::MissingAscParameter,
            ErrorCode::MissingCommand => ErrorCodeView::MissingCommand,
            ErrorCode::AccessDeniedCmd(name) => ErrorCodeView::AccessDeniedCmd(name@),
            ErrorCode::MissingCheckCmd => ErrorCodeView::MissingCheckCmd,
        }
    }
}

impl ErrorCodeView {
    /// The status code of the error in the command interface.
    pub open spec fn status(self) -> u32 {
        match self {
            ErrorCodeView::InvalidCommand => 14,
            ErrorCodeView::MissingAscParameter => 15,
            ErrorCodeView::MissingCommand => 24,
            ErrorCodeView::AccessDeniedCmd(_) => 45,
            ErrorCodeView::MissingCheckCmd => 71,
        }
    }

    /// The message that goes with the error.
    pub open spec fn message(self) -> Seq<char> {
        match self {
            ErrorCodeView::InvalidCommand => "Invalid command"@,
            ErrorCodeView::MissingAscParameter => "Missing device id parameter"@,
            ErrorCodeView::MissingCommand => "Missing JSON 'command'"@,
            ErrorCodeView::AccessDeniedCmd(name) => "Access denied to '"@ + name + "' command"@,
            ErrorCodeView::MissingCheckCmd => "Missing check cmd"@,
        }
    }

    /// What an `Error` made of this code holds.
    pub open spec fn error(self) -> ErrorView {
        ErrorView { status: self.status(), message: self.message() }
    }
}

impl ErrorCode {
    /// The status code of the error in the command interface.
    pub fn status(&self) -> (status: u32)
        ensures
            status == self@.status(),
    {
        match self {
            ErrorCode::InvalidCommand => 14,
            ErrorCode::MissingAscParameter => 15,
            ErrorCode::MissingCommand => 24,
            ErrorCode::AccessDeniedCmd(_) => 45,
            ErrorCode::MissingCheckCmd => 71,
        }
    }

    /// The message that goes with the error.
    pub fn message(&self) -> (message: String)
        ensures
            message@ == self@.message(),
    {
        match self {
            ErrorCode::InvalidCommand => String::from_str("Invalid command"),
            ErrorCode::MissingAscParameter => String::from_str("Missing device id parameter"),
            ErrorCode::MissingCommand => String::from_str("Missing JSON 'command'"),
            ErrorCode::AccessDeniedCmd(name) => String::from_str("Access denied to '").concat(
                name.as_str(),
            ).concat("' command"),
            ErrorCode::MissingCheckCmd => String::from_str("Missing check cmd"),
        }
    }
}

/// An error as a response carries it: a status code and a message for the
/// reader. The dispatcher makes its own from an `ErrorCode`; a handler may
/// report any other.
#[derive(Clone, PartialEq, Eq, Debug)]
pub struct Error {
    pub status: u32,
    pub message: String,
}

/// What an `Error` holds.
pub struct ErrorView {
    pub status: u32,
    pub message: Seq<char>,
}

impl View for Error {
    type V = ErrorView;

    open spec fn view(&self) -> ErrorView {
        ErrorView { status: self.status, message: self.message@ }
    }
}

impl Error {
    /// The error that the dispatcher reports under `code`.
    pub fn from_code(code: ErrorCode) -> (error: Error)
        ensures
            error@ == code@.error(),
    {
        Error { status: code.status(), message: code.message() }
    }
}

/// What one command gives back, before it is put in an envelope.
#[derive(PartialEq, Debug)]
pub enum Dispatch {
    /// The answer of a handler of the host.
    Body(Value),
    /// The answer to `version`.
    Version(Version),
    /// The answer to `check`.
    Check(Check),
    /// The command failed.
    Error(Error),
}

/// What a `Dispatch` holds.
pub enum DispatchView {
    Body(Value),
    Version(VersionView),
    Check(Check),
    Error(ErrorView),
}

impl View for Dispatch {
    type V = DispatchView;

    open spec fn view(&self) -> DispatchView {
        match self {
            Dispatch::Body(body) => DispatchView::Body(*body),
            Dispatch::Version(version) => DispatchView::Version(version@),
            Dispatch::Check(check) => DispatchView::Check(*check),
            Dispatch::Error(error) => DispatchView::Error(error@),
        }
    }
}

impl Dispatch {
    /// What the answer of a handler becomes.
    pub open spec fn spec_from_outcome(outcome: Result<Value, Error>) -> DispatchView {
        match outcome {
            Ok(body) => DispatchView::Body(body),
            Err(error) => DispatchView::Error(error@),
        }
    }

    /// What the dispatcher gives back when it fails with `code`.
    pub open spec fn spec_failure(code: ErrorCodeView) -> DispatchView {
        DispatchView::Error(code.error())
    }

    /// Turns the answer of a handler into a dispatch: a body is passed on as
    /// it is, and so is an error.
    pub fn from_outcome(outcome: Result<Value, Error>) -> (dispatch: Dispatch)
        ensures
            dispatch@ == Dispatch::spec_from_outcome(outcome),
    {
        match outcome {
            Ok(body) => Dispatch::Body(body),
            Err(error) => Dispatch::Error(error),
        }
    }

    /// The dispatch of a command that the dispatcher fails with `code`.
    pub fn failure(code: ErrorCode) -> (dispatch: Dispatch)
        ensures
            dispatch@ == Dispatch::spec_failure(code@),
    {
        Dispatch::Error(Error::from_code(code))
    }

    /// Puts the dispatch in its envelope.
    pub fn into_response(self, when: Time, description: String) -> (response: Response)
        ensures
            response@ == (ResponseView { when, description: description@, dispatch: self@ }),
    {
        Response { when, description, dispatch: self }
    }
}

/// The envelope of one answer: the answer itself, the time it was given and
/// the description of the miner that gave it.
#[derive(PartialEq, Debug)]
pub struct Response {
    pub when: Time,
    pub description: String,
    pub dispatch: Dispatch,
}

/// What a `Response` holds.
pub struct ResponseView {
    pub when: Time,
    pub description: Seq<char>,
    pub dispatch: DispatchView,
}

impl View for Response {
    type V = ResponseView;

    open spec fn view(&self) -> ResponseView {
        ResponseView { when: self.when, description: self.description@, dispatch: self.dispatch@ }
    }
}

/// The entries of a `MultiResponse`: the names of the commands, each with
/// what the command answered, in the order in which the names came in.
pub type Entries = Seq<(Seq<char>, ResponseView)>;

/// The answers to a batch of commands, each under the name of its command.
/// A name occurs once: a second answer under a name replaces the first and
/// stays in its place.
#[derive(PartialEq, Debug)]
pub struct MultiResponse {
    responses: Vec<(String, Response)>,
}

impl View for MultiResponse {
    type V = Entries;

    closed spec fn view(&self) -> Entries {
        Seq::new(self.responses@.len(), |i: int| (self.responses@[i].0@, self.responses@[i].1@))
    }
}

impl MultiResponse {
    /// Whether no name occurs twice in `entries`.
    pub open spec fn distinct(entries: Entries) -> bool {
        forall|i: int, j: int|
            0 <= i < entries.len() && 0 <= j < entries.len() && i != j ==> (#[trigger] entries[i]).0
                != (#[trigger] entries[j]).0
    }

    /// Whether `entries` hold an answer under `name`.
    pub open spec fn spec_contains(entries: Entries, name: Seq<char>) -> bool {
        exists|i: int| 0 <= i < entries.len() && (#[trigger] entries[i]).0 == name
    }

    /// A place at which `entries` hold an answer under `name`.
    pub open spec fn spec_position(entries: Entries, name: Seq<char>) -> int {
        choose|i: int| 0 <= i < entries.len() && (#[trigger] entries[i]).0 == name
    }

    /// The entries after `response` was added under `name`.
    pub open spec fn spec_add(entries: Entries, name: Seq<char>, response: ResponseView) -> Entries {
        if MultiResponse::spec_contains(entries, name) {
            entries.update(MultiResponse::spec_position(entries, name), (name, response))
        } else {
            entries.push((name, response))
        }
    }

    /// The entries after each of `responses` was added under its name of
    /// `names`, from the first to the last.
    pub open spec fn spec_collect(names: Seq<Seq<char>>, responses: Seq<ResponseView>) -> Entries
        decreases names.len(),
    {
        if names.len() == 0 || responses.len() != names.len() {
            Seq::empty()
        } else {
            MultiResponse::spec_add(
                MultiResponse::spec_collect(names.drop_last(), responses.drop_last()),
                names.last(),
                responses.last(),
            )
        }
    }

    #[verifier::type_invariant]
    closed spec fn names_occur_once(&self) -> bool {
        MultiResponse::distinct(self@)
    }

    /// The response that holds no answer yet.
    pub fn new() -> (responses: MultiResponse)
        ensures
            responses@ == Entries::empty(),
    {
        let responses = MultiResponse { responses: Vec::new() };
        assert(responses@ =~= Entries::empty());
        responses
    }

    /// Files `response` under `name`: in the place of the answer that is
    /// there under that name, or after all the others where there is none.
    pub fn add_response(&mut self, name: &str, response: Response)
        ensures
            final(self)@ == MultiResponse::spec_add(old(self)@, name@, response@),
            MultiResponse::distinct(old(self)@),
            MultiResponse::distinct(final(self)@),
    {
        proof {
            use_type_invariant(&*self);
        }
        let ghost before = self@;
        let name = String::from_str(name);
        let mut responses: Vec<(String, Response)> = Vec::new();
        core::mem::swap(&mut self.responses, &mut responses);
        let mut index: usize = 0;
        let mut found: bool = false;
        while index < responses.len() && !found
            invariant
                index <= responses.len(),
                before.len() == responses@.len(),
                forall|i: int|
                    0 <= i < before.len() ==> (#[trigger] before[i]) == (
                        responses@[i].0@,
                        responses@[i].1@,
                    ),
                forall|i: int| 0 <= i < index ==> (#[trigger] before[i]).0 != name@,
                found ==> index < responses.len() && before[index as int].0 == name@,
            decreases responses.len() - index + (if found { 0int } else { 1int }),
        {
            if responses[index].0 == name {
                found = true;
            } else {
                index += 1;
            }
        }
        if found {
            assert(MultiResponse::spec_position(before, name@) == index);
            responses.set(index, (name, response));
        } else {
            assert(!MultiResponse::spec_contains(before, name@));
            responses.push((name, response));
        }
        proof {
            MultiResponse::lemma_add(before, name@, response@);
        }
        let ghost after = MultiResponse::spec_add(before, name@, response@);
        assert(after =~= Seq::new(
            responses@.len(),
            |i: int| (responses@[i].0@, responses@[i].1@),
        ));
        core::mem::swap(&mut self.responses, &mut responses);
        assert(self@ =~= after);
    }

    /// The number of names that have an answer.
    pub fn len(&self) -> (len: usize)
        ensures
            len == self@.len(),
    {
        self.responses.len()
    }

    /// The names and their answers, in the order in which the names came in.
    pub fn responses(&self) -> (responses: &Vec<(String, Response)>)
        ensures
            responses@.len() == self@.len(),
            forall|i: int|
                0 <= i < responses@.len() ==> (#[trigger] self@[i]) == (
                    responses@[i].0@,
                    responses@[i].1@,
                ),
            MultiResponse::distinct(self@),
    {
        proof {
            use_type_invariant(self);
        }
        &self.responses
    }

    /// Adding an answer to entries in which no name occurs twice leaves them
    /// so, keeps the answers under the other names where they are, and puts
    /// the new answer under its name.
    pub proof fn lemma_add(entries: Entries, name: Seq<char>, response: ResponseView)
        requires
            MultiResponse::distinct(entries),
        ensures
            MultiResponse::distinct(MultiResponse::spec_add(entries, name, response)),
            MultiResponse::spec_contains(MultiResponse::spec_add(entries, name, response), name),
            entries.len() <= MultiResponse::spec_add(entries, name, response).len() <= entries.len()
                + 1,
            forall|i: int|
                0 <= i < entries.len() ==> (#[trigger] MultiResponse::spec_add(
                    entries,
                    name,
                    response,
                )[i]) == (if entries[i].0 == name {
                    (name, response)
                } else {
                    entries[i]
                }),
    {
        let added = MultiResponse::spec_add(entries, name, response);
        if MultiResponse::spec_contains(entries, name) {
            let at = MultiResponse::spec_position(entries, name);
            assert(added[at].0 == name);
        } else {
            assert(added[entries.len() as int].0 == name);
        }
    }

    /// Where the names of a batch all differ, the batch's answers stand under
    /// their names in the order of the batch.
    pub proof fn lemma_collect_in_order(names: Seq<Seq<char>>, responses: Seq<ResponseView>)
        requires
            names.len() == responses.len(),
            forall|i: int, j: int|
                0 <= i < names.len() && 0 <= j < names.len() && i != j ==> names[i] != names[j],
        ensures
            MultiResponse::spec_collect(names, responses).len() == names.len(),
            forall|i: int|
                0 <= i < names.len() ==> (#[trigger] MultiResponse::spec_collect(
                    names,
                    responses,
                )[i]) == (names[i], responses[i]),
        decreases names.len(),
    {
        if names.len() > 0 {
            let head = MultiResponse::spec_collect(names.drop_last(), responses.drop_last());
            MultiResponse::lemma_collect_in_order(names.drop_last(), responses.drop_last());
            assert forall|i: int| 0 <= i < head.len() implies (#[trigger] head[i]).0
                != names.last() by {
                assert(head[i] == (names.drop_last()[i], responses.drop_last()[i]));
            }
            assert(!MultiResponse::spec_contains(head, names.last()));
        }
    }

    /// No name occurs twice among the answers of a batch.
    pub proof fn lemma_collect_distinct(names: Seq<Seq<char>>, responses: Seq<ResponseView>)
        ensures
            MultiResponse::distinct(MultiResponse::spec_collect(names, responses)),
        decreases names.len(),
    {
        if names.len() > 0 && responses.len() == names.len() {
            MultiResponse::lemma_collect_distinct(names.drop_last(), responses.drop_last());
            MultiResponse::lemma_add(
                MultiResponse::spec_collect(names.drop_last(), responses.drop_last()),
                names.last(),
                responses.last(),
            );
        }
    }
}

/// The response to a request: the answer to its one command, or the answers
/// to the commands of a batch.
#[derive(PartialEq, Debug)]
pub enum ResponseType {
    Single(Response),
    Multi(MultiResponse),
}

/// What a `ResponseType` holds.
pub enum ResponseTypeView {
    Single(ResponseView),
    Multi(Entries),
}

impl View for ResponseType {
    type V = ResponseTypeView;

    open spec fn view(&self) -> ResponseTypeView {
        match self {
            ResponseType::Single(response) => ResponseTypeView::Single(response@),
            ResponseType::Multi(responses) => ResponseTypeView::Multi(responses@),
        }
    }
}

} // verus!
