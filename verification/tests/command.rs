use miner_core::command::{
    check_asc, is_i32, split_commands, Action, Descriptor, Handler, HandlerType,
    ParameterCheckHandler, ParameterHandler, ParameterLessHandler, Receiver, Request,
};
use miner_core::response::{
    Bool, Check, Dispatch, Error, ErrorCode, MultiResponse, Response, ResponseType, Version, When,
    API_VERSION,
};
use serde_json::Value;
use std::sync::atomic::{AtomicUsize, Ordering};
use std::sync::Mutex;

/// The clock of the tests, which stands still.
struct FixedTime;

impl When for FixedTime {
    fn when() -> u64 {
        1_567_000_000
    }
}

/// A handler that answers each command with the name of its method and
/// keeps count of the calls.
struct Recorder {
    calls: AtomicUsize,
    asc: Mutex<Vec<Option<Value>>>,
}

impl Recorder {
    fn new() -> Self {
        Recorder { calls: AtomicUsize::new(0), asc: Mutex::new(Vec::new()) }
    }

    fn answer(&self, method: &str) -> Result<Value, Error> {
        self.calls.fetch_add(1, Ordering::SeqCst);
        Ok(Value::from(method))
    }
}

impl Handler for &Recorder {
    fn handle_pools(&self) -> Result<Value, Error> {
        self.answer("pools")
    }

    fn handle_devs(&self) -> Result<Value, Error> {
        self.answer("devs")
    }

    fn handle_edevs(&self) -> Result<Value, Error> {
        self.answer("edevs")
    }

    fn handle_summary(&self) -> Result<Value, Error> {
        self.answer("summary")
    }

    fn handle_config(&self) -> Result<Value, Error> {
        self.answer("config")
    }

    fn handle_dev_details(&self) -> Result<Value, Error> {
        self.answer("devdetails")
    }

    fn handle_stats(&self) -> Result<Value, Error> {
        self.answer("stats")
    }

    fn handle_estats(&self) -> Result<Value, Error> {
        self.answer("estats")
    }

    fn handle_coin(&self) -> Result<Value, Error> {
        self.calls.fetch_add(1, Ordering::SeqCst);
        Err(Error { status: 500, message: String::from("no coin") })
    }

    fn handle_asc_count(&self) -> Result<Value, Error> {
        self.answer("asccount")
    }

    fn handle_asc(&self, parameter: Option<&Value>) -> Result<Value, Error> {
        self.asc.lock().unwrap().push(parameter.cloned());
        self.answer("asc")
    }

    fn handle_lcd(&self) -> Result<Value, Error> {
        self.answer("lcd")
    }
}

const SIGNATURE: &str = "BOSminer";
const MINER_VERSION: &str = "0.1.0-test";
const DESCRIPTION: &str = "BOSminer 0.1.0-test";

fn receiver(recorder: &Recorder) -> Receiver<&Recorder, FixedTime> {
    Receiver::new(recorder, String::from(SIGNATURE), String::from(MINER_VERSION))
}

fn request(text: &str) -> Request {
    Request::new(serde_json::from_str(text).unwrap())
}

fn ask(recorder: &Recorder, text: &str) -> ResponseType {
    receiver(recorder).handle(request(text))
}

fn single(response: ResponseType) -> Response {
    match response {
        ResponseType::Single(response) => response,
        ResponseType::Multi(_) => panic!("a single response was expected"),
    }
}

fn multi(response: ResponseType) -> MultiResponse {
    match response {
        ResponseType::Multi(responses) => responses,
        ResponseType::Single(_) => panic!("a response to a batch was expected"),
    }
}

fn envelope(dispatch: Dispatch) -> Response {
    Response { when: 1_567_000_000, description: String::from(DESCRIPTION), dispatch }
}

fn failure(code: ErrorCode) -> Response {
    envelope(Dispatch::Error(Error::from_code(code)))
}

fn body(method: &str) -> Response {
    envelope(Dispatch::Body(Value::from(method)))
}

fn names(text: &str) -> Vec<String> {
    split_commands(text)
}

#[test]
fn version_is_answered_by_the_dispatcher() {
    let recorder = Recorder::new();
    let response = single(ask(&recorder, r#"{"command":"version"}"#));
    assert_eq!(
        response,
        envelope(Dispatch::Version(Version {
            signature: String::from(SIGNATURE),
            miner: String::from(MINER_VERSION),
            api: String::from(API_VERSION),
        }))
    );
    assert_eq!(response.when, 1_567_000_000);
    assert_eq!(response.description, "BOSminer 0.1.0-test");
    assert_eq!(recorder.calls.load(Ordering::SeqCst), 0);
}

#[test]
fn asc_without_parameter_is_refused() {
    let recorder = Recorder::new();
    let response = single(ask(&recorder, r#"{"command":"asc"}"#));
    assert_eq!(response, failure(ErrorCode::MissingAscParameter));
    match response.dispatch {
        Dispatch::Error(error) => {
            assert_eq!(error.status, 15);
            assert_eq!(error.message, "Missing device id parameter");
        }
        other => panic!("an error was expected, not {:?}", other),
    }
    assert_eq!(recorder.calls.load(Ordering::SeqCst), 0);
}

#[test]
fn asc_with_a_parameter_that_is_no_i32_is_refused() {
    let recorder = Recorder::new();
    for parameter in ["\"3\"", "3.5", "2147483648", "-2147483649", "null", "true", "[3]", "{}"] {
        let text = format!(r#"{{"command":"asc","parameter":{}}}"#, parameter);
        assert_eq!(single(ask(&recorder, &text)), failure(ErrorCode::MissingAscParameter));
    }
    assert_eq!(recorder.calls.load(Ordering::SeqCst), 0);
}

#[test]
fn asc_with_integer_calls_the_handler_once() {
    let recorder = Recorder::new();
    let response = single(ask(&recorder, r#"{"command":"asc","parameter":3}"#));
    assert_eq!(response, body("asc"));
    assert_eq!(recorder.calls.load(Ordering::SeqCst), 1);
    assert_eq!(*recorder.asc.lock().unwrap(), vec![Some(Value::from(3))]);
}

#[test]
fn asc_takes_the_whole_range_of_i32() {
    let recorder = Recorder::new();
    assert_eq!(single(ask(&recorder, r#"{"command":"asc","parameter":2147483647}"#)), body("asc"));
    assert_eq!(single(ask(&recorder, r#"{"command":"asc","parameter":-2147483648}"#)), body("asc"));
    assert_eq!(
        *recorder.asc.lock().unwrap(),
        vec![Some(Value::from(2147483647)), Some(Value::from(-2147483648i64))]
    );
}

#[test]
fn batch_refuses_the_command_that_reads_the_parameter() {
    let recorder = Recorder::new();
    let responses = multi(ask(&recorder, r#"{"command":"pools+asc","parameter":3}"#));
    assert_eq!(
        *responses.responses(),
        vec![
            (String::from("pools"), body("pools")),
            (
                String::from("asc"),
                failure(ErrorCode::AccessDeniedCmd(String::from("asc")))
            ),
        ]
    );
    assert_eq!(responses.len(), 2);
    assert_eq!(recorder.calls.load(Ordering::SeqCst), 1);
    assert!(recorder.asc.lock().unwrap().is_empty());
}

#[test]
fn batch_refuses_check_too() {
    let recorder = Recorder::new();
    let responses = multi(ask(&recorder, r#"{"command":"check+version","parameter":"pools"}"#));
    let responses = responses.responses();
    assert_eq!(responses.len(), 2);
    assert_eq!(responses[0].0, "check");
    assert_eq!(responses[0].1, failure(ErrorCode::AccessDeniedCmd(String::from("check"))));
    assert_eq!(responses[1].0, "version");
    assert!(matches!(responses[1].1.dispatch, Dispatch::Version(_)));
}

#[test]
fn check_tells_whether_the_command_is_known() {
    let recorder = Recorder::new();
    let known = single(ask(&recorder, r#"{"command":"check","parameter":"pools"}"#));
    assert_eq!(known, envelope(Dispatch::Check(Check { exists: Bool::Y, access: Bool::Y })));
    let unknown = single(ask(&recorder, r#"{"command":"check","parameter":"nope"}"#));
    assert_eq!(unknown, envelope(Dispatch::Check(Check { exists: Bool::N, access: Bool::N })));
    let number = single(ask(&recorder, r#"{"command":"check","parameter":3}"#));
    assert_eq!(number, envelope(Dispatch::Check(Check { exists: Bool::N, access: Bool::N })));
    for name in [
        "pools", "devs", "edevs", "summary", "version", "config", "devdetails", "stats", "estats",
        "check", "coin", "asccount", "asc", "lcd",
    ] {
        let text = format!(r#"{{"command":"check","parameter":"{}"}}"#, name);
        assert_eq!(
            single(ask(&recorder, &text)),
            envelope(Dispatch::Check(Check { exists: Bool::Y, access: Bool::Y }))
        );
    }
    assert_eq!(recorder.calls.load(Ordering::SeqCst), 0);
}

#[test]
fn check_without_parameter_is_refused() {
    let recorder = Recorder::new();
    let response = single(ask(&recorder, r#"{"command":"check"}"#));
    assert_eq!(response, failure(ErrorCode::MissingCheckCmd));
}

#[test]
fn request_without_command_is_refused() {
    let recorder = Recorder::new();
    for text in [r#"{}"#, r#"{"parameter":3}"#, r#"{"command":3}"#, r#"{"command":null}"#, "[]", "3"] {
        assert_eq!(single(ask(&recorder, text)), failure(ErrorCode::MissingCommand));
    }
    assert_eq!(recorder.calls.load(Ordering::SeqCst), 0);
}

#[test]
fn request_that_names_no_command_is_refused() {
    let recorder = Recorder::new();
    for text in [r#"{"command":""}"#, r#"{"command":"+"}"#, r#"{"command":"+++"}"#] {
        assert_eq!(single(ask(&recorder, text)), failure(ErrorCode::InvalidCommand));
    }
}

#[test]
fn unknown_command_is_refused() {
    let recorder = Recorder::new();
    for text in [r#"{"command":"nope"}"#, r#"{"command":"Pools"}"#, r#"{"command":"pools "}"#] {
        assert_eq!(single(ask(&recorder, text)), failure(ErrorCode::InvalidCommand));
    }
    let responses = multi(ask(&recorder, r#"{"command":"nope+devs"}"#));
    assert_eq!(
        *responses.responses(),
        vec![
            (String::from("nope"), failure(ErrorCode::InvalidCommand)),
            (String::from("devs"), body("devs")),
        ]
    );
}

#[test]
fn every_command_of_the_handler_reaches_its_method() {
    let recorder = Recorder::new();
    for name in [
        "pools", "devs", "edevs", "summary", "config", "devdetails", "stats", "estats", "asccount",
        "lcd",
    ] {
        let text = format!(r#"{{"command":"{}"}}"#, name);
        assert_eq!(single(ask(&recorder, &text)), body(name));
    }
    assert_eq!(recorder.calls.load(Ordering::SeqCst), 10);
}

#[test]
fn error_of_the_handler_is_passed_on() {
    let recorder = Recorder::new();
    let response = single(ask(&recorder, r#"{"command":"coin"}"#));
    assert_eq!(
        response,
        envelope(Dispatch::Error(Error { status: 500, message: String::from("no coin") }))
    );
}

#[test]
fn batch_answers_in_the_order_of_the_request() {
    let recorder = Recorder::new();
    let responses = multi(ask(&recorder, r#"{"command":"summary+pools+devs"}"#));
    assert_eq!(
        *responses.responses(),
        vec![
            (String::from("summary"), body("summary")),
            (String::from("pools"), body("pools")),
            (String::from("devs"), body("devs")),
        ]
    );
    assert_eq!(recorder.calls.load(Ordering::SeqCst), 3);
}

#[test]
fn batch_keeps_one_answer_for_each_name() {
    let recorder = Recorder::new();
    let responses = multi(ask(&recorder, r#"{"command":"pools+devs+pools"}"#));
    assert_eq!(
        *responses.responses(),
        vec![(String::from("pools"), body("pools")), (String::from("devs"), body("devs"))]
    );
    assert_eq!(recorder.calls.load(Ordering::SeqCst), 3);
}

#[test]
fn one_name_between_plus_signs_is_a_single_command() {
    let recorder = Recorder::new();
    assert_eq!(single(ask(&recorder, r#"{"command":"+pools+"}"#)), body("pools"));
}

#[test]
fn split_commands_drops_empty_pieces() {
    assert_eq!(names(""), Vec::<String>::new());
    assert_eq!(names("+"), Vec::<String>::new());
    assert_eq!(names("pools"), vec!["pools"]);
    assert_eq!(names("pools+asc"), vec!["pools", "asc"]);
    assert_eq!(names("+pools++asc+"), vec!["pools", "asc"]);
    assert_eq!(names("a+b+c"), vec!["a", "b", "c"]);
    assert_eq!(names("pools asc"), vec!["pools asc"]);
    assert_eq!(names("d\u{e9}vs+\u{4e2d}\u{6587}"), vec!["d\u{e9}vs", "\u{4e2d}\u{6587}"]);
}

#[test]
fn is_i32_holds_for_32_bits() {
    assert!(is_i32(Some(0)));
    assert!(is_i32(Some(i32::MAX as i64)));
    assert!(is_i32(Some(i32::MIN as i64)));
    assert!(!is_i32(Some(i32::MAX as i64 + 1)));
    assert!(!is_i32(Some(i32::MIN as i64 - 1)));
    assert!(!is_i32(None));
}

#[test]
fn check_asc_wants_an_integer() {
    let three = Value::from(3);
    let text = Value::from("3");
    assert_eq!(check_asc("asc", &Some(&three)), Ok(()));
    assert_eq!(
        check_asc("asc", &Some(&text)),
        Err(Error::from_code(ErrorCode::MissingAscParameter))
    );
    assert_eq!(check_asc("asc", &None), Err(Error::from_code(ErrorCode::MissingAscParameter)));
    assert_eq!(ParameterCheckHandler::Asc.check("asc", &Some(&three)), Ok(()));
}

#[test]
fn request_reads_command_and_parameter() {
    let full = request(r#"{"command":"asc","parameter":3,"other":"x"}"#);
    assert_eq!(full.command(), Some("asc"));
    assert_eq!(full.parameter(), Some(&Value::from(3)));
    let bare = request(r#"{"other":"asc"}"#);
    assert_eq!(bare.command(), None);
    assert_eq!(bare.parameter(), None);
    let wrong = request(r#"{"command":["asc"],"parameter":null}"#);
    assert_eq!(wrong.command(), None);
    assert_eq!(wrong.parameter(), Some(&Value::Null));
}

#[test]
fn handler_types_know_whether_they_read_the_parameter() {
    assert!(!HandlerType::ParameterLess(ParameterLessHandler::Pools).has_parameters());
    assert!(HandlerType::Parameter(ParameterHandler::Asc).has_parameters());
    assert!(!HandlerType::Version.has_parameters());
    assert!(HandlerType::Check.has_parameters());
}

#[test]
fn descriptor_holds_what_it_was_made_of() {
    let asc = Descriptor::new(
        "asc",
        HandlerType::Parameter(ParameterHandler::Asc),
        Some(ParameterCheckHandler::Asc),
    );
    assert_eq!(asc.name(), "asc");
    assert_eq!(asc.handler(), HandlerType::Parameter(ParameterHandler::Asc));
    assert!(asc.has_parameters());
    assert!(asc.check(&None).is_err());
    assert_eq!(asc.check(&Some(&Value::from(-1))), Ok(()));
    let lcd = Descriptor::new("lcd", HandlerType::ParameterLess(ParameterLessHandler::Lcd), None);
    assert!(!lcd.has_parameters());
    assert_eq!(lcd.check(&None), Ok(()));
}

#[test]
fn decide_tells_what_to_do() {
    let recorder = Recorder::new();
    let receiver = receiver(&recorder);
    let three = Value::from(3);
    assert_eq!(receiver.decide("pools", None, false), Action::Call(ParameterLessHandler::Pools));
    assert_eq!(receiver.decide("pools", Some(&three), true), Action::Call(ParameterLessHandler::Pools));
    assert_eq!(
        receiver.decide("asc", Some(&three), false),
        Action::CallWithParameter(ParameterHandler::Asc)
    );
    assert_eq!(
        receiver.decide("asc", Some(&three), true),
        Action::Reply(Dispatch::failure(ErrorCode::AccessDeniedCmd(String::from("asc"))))
    );
    assert_eq!(
        receiver.decide("asc", None, false),
        Action::Reply(Dispatch::failure(ErrorCode::MissingAscParameter))
    );
    assert_eq!(
        receiver.decide("nope", None, false),
        Action::Reply(Dispatch::failure(ErrorCode::InvalidCommand))
    );
    assert_eq!(recorder.calls.load(Ordering::SeqCst), 0);
}

#[test]
fn handle_single_turns_failures_into_dispatches() {
    let recorder = Recorder::new();
    let receiver = receiver(&recorder);
    assert_eq!(receiver.handle_single("devs", None, false), Dispatch::Body(Value::from("devs")));
    assert_eq!(
        receiver.handle_single("coin", None, true),
        Dispatch::Error(Error { status: 500, message: String::from("no coin") })
    );
    assert_eq!(
        receiver.handle_single("check", None, false),
        Dispatch::failure(ErrorCode::MissingCheckCmd)
    );
}

#[test]
fn envelope_carries_time_and_description() {
    let recorder = Recorder::new();
    let receiver = receiver(&recorder);
    let response = receiver.envelope(Dispatch::Body(Value::from(1)));
    assert_eq!(response, envelope(Dispatch::Body(Value::from(1))));
    assert_eq!(
        receiver.get_single_response(Dispatch::Body(Value::from(1))),
        ResponseType::Single(envelope(Dispatch::Body(Value::from(1))))
    );
    assert_eq!(
        Dispatch::Check(Check { exists: Bool::Y, access: Bool::N })
            .into_response(7, String::from("x y")),
        Response {
            when: 7,
            description: String::from("x y"),
            dispatch: Dispatch::Check(Check { exists: Bool::Y, access: Bool::N }),
        }
    );
}

#[test]
fn error_codes_are_those_of_the_interface() {
    let denied = ErrorCode::AccessDeniedCmd(String::from("asc"));
    assert_eq!(ErrorCode::InvalidCommand.status(), 14);
    assert_eq!(ErrorCode::MissingAscParameter.status(), 15);
    assert_eq!(ErrorCode::MissingCommand.status(), 24);
    assert_eq!(denied.status(), 45);
    assert_eq!(ErrorCode::MissingCheckCmd.status(), 71);
    assert_eq!(ErrorCode::InvalidCommand.message(), "Invalid command");
    assert_eq!(ErrorCode::MissingAscParameter.message(), "Missing device id parameter");
    assert_eq!(ErrorCode::MissingCommand.message(), "Missing JSON 'command'");
    assert_eq!(denied.message(), "Access denied to 'asc' command");
    assert_eq!(ErrorCode::MissingCheckCmd.message(), "Missing check cmd");
    assert_eq!(
        Error::from_code(denied),
        Error { status: 45, message: String::from("Access denied to 'asc' command") }
    );
}

#[test]
fn dispatch_passes_the_answer_of_the_handler_on() {
    assert_eq!(Dispatch::from_outcome(Ok(Value::from(5))), Dispatch::Body(Value::from(5)));
    let error = Error { status: 107, message: String::from("Invalid ASC id") };
    assert_eq!(
        Dispatch::from_outcome(Err(error)),
        Dispatch::Error(Error { status: 107, message: String::from("Invalid ASC id") })
    );
}

#[test]
fn multi_response_replaces_in_place() {
    let mut responses = MultiResponse::new();
    assert_eq!(responses.len(), 0);
    responses.add_response("a", body("one"));
    responses.add_response("b", body("two"));
    responses.add_response("a", body("three"));
    assert_eq!(
        *responses.responses(),
        vec![(String::from("a"), body("three")), (String::from("b"), body("two"))]
    );
    assert_eq!(responses.len(), 2);
}
