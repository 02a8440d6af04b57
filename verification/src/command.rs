//! The dispatcher of the monitoring and control commands: it reads a request,
//! finds the commands that it names, checks their parameter, asks the handler
//! of the host or answers itself, and puts each answer in its envelope.

use crate::json::member;
use crate::response::{
    Bool, Check, Dispatch, DispatchView, Entries, Error, ErrorCode, ErrorCodeView, MultiResponse,
    Response, ResponseType, ResponseTypeView, ResponseView, Version, VersionView, When,
    API_VERSION,
};
use serde_json::Value;
use std::marker::PhantomData;
use vstd::prelude::*;

verus! {

/// Names of all supported commands.
pub const POOLS: &'static str = "pools";

pub const DEVS: &'static str = "devs";

pub const EDEVS: &'static str = "edevs";

pub const SUMMARY: &'static str = "summary";

pub const VERSION: &'static str = "version";

pub const CONFIG: &'static str = "config";

pub const DEVDETAILS: &'static str = "devdetails";

pub const STATS: &'static str = "stats";

pub const ESTATS: &'static str = "estats";

pub const CHECK: &'static str = "check";

pub const COIN: &'static str = "coin";

pub const ASC_COUNT: &'static str = "asccount";

pub const ASC: &'static str = "asc";

pub const LCD: &'static str = "lcd";

/// The methods of a `Handler` that take no parameter.
#[derive(Clone, Copy, PartialEq, Eq, Structural, Debug)]
pub enum ParameterLessHandler {
    Pools,
    Devs,
    Edevs,
    Summary,
    Config,
    DevDetails,
    Stats,
    Estats,
    Coin,
    AscCount,
    Lcd,
}

/// The methods of a `Handler` that take the parameter of the request.
#[derive(Clone, Copy, PartialEq, Eq, Structural, Debug)]
pub enum ParameterHandler {
    Asc,
}

/// The value behind the reference that a request lends as its parameter.
pub open spec fn lent(parameter: Option<&Value>) -> Option<Value> {
    match parameter {
        Some(value) => Some(*value),
        None => None,
    }
}

/// Whether `number` is there and fits in a signed integer of 32 bits.
pub open spec fn spec_is_i32(number: Option<i64>) -> bool {
    number matches Some(n) && -0x8000_0000 <= n <= 0x7fff_ffff
}

/// Whether `number` is there and fits in a signed integer of 32 bits.
pub fn is_i32(number: Option<i64>) -> (fits: bool)
    ensures
        fits == spec_is_i32(number),
{
    match number {
        Some(n) => -0x8000_0000 <= n && n <= 0x7fff_ffff,
        None => false,
    }
}

/// A handler to be implemented by the host of the dispatcher: it gives the
/// answer to each command that the dispatcher does not answer itself.
pub trait Handler: Send + Sync {
    /// Whether `outcome` is an answer that the handler may give to the
    /// command `command`. A handler that states nothing admits every answer.
    open spec fn answers(&self, command: ParameterLessHandler, outcome: Result<Value, Error>) -> bool {
        true
    }

    /// Whether `outcome` is an answer that the handler may give to the
    /// command `command` with the parameter `parameter`. A handler that
    /// states nothing admits every answer.
    open spec fn answers_parameter(
        &self,
        command: ParameterHandler,
        parameter: Option<Value>,
        outcome: Result<Value, Error>,
    ) -> bool {
        true
    }

    fn handle_pools(&self) -> (outcome: Result<Value, Error>)
        ensures
            self.answers(ParameterLessHandler::Pools, outcome),
    ;

    fn handle_devs(&self) -> (outcome: Result<Value, Error>)
        ensures
            self.answers(ParameterLessHandler::Devs, outcome),
    ;

    fn handle_edevs(&self) -> (outcome: Result<Value, Error>)
        ensures
            self.answers(ParameterLessHandler::Edevs, outcome),
    ;

    fn handle_summary(&self) -> (outcome: Result<Value, Error>)
        ensures
            self.answers(ParameterLessHandler::Summary, outcome),
    ;

    fn handle_config(&self) -> (outcome: Result<Value, Error>)
        ensures
            self.answers(ParameterLessHandler::Config, outcome),
    ;

    fn handle_dev_details(&self) -> (outcome: Result<Value, Error>)
        ensures
            self.answers(ParameterLessHandler::DevDetails, outcome),
    ;

    fn handle_stats(&self) -> (outcome: Result<Value, Error>)
        ensures
            self.answers(ParameterLessHandler::Stats, outcome),
    ;

    fn handle_estats(&self) -> (outcome: Result<Value, Error>)
        ensures
            self.answers(ParameterLessHandler::Estats, outcome),
    ;

    fn handle_coin(&self) -> (outcome: Result<Value, Error>)
        ensures
            self.answers(ParameterLessHandler::Coin, outcome),
    ;

    fn handle_asc_count(&self) -> (outcome: Result<Value, Error>)
        ensures
            self.answers(ParameterLessHandler::AscCount, outcome),
    ;

    /// The dispatcher calls this with a parameter that is a signed integer
    /// of 32 bits, and with no other.
    fn handle_asc(&self, parameter: Option<&Value>) -> (outcome: Result<Value, Error>)
        requires
            parameter matches Some(value) && spec_is_i32(crate::json::json_i64(*value)),
        ensures
            self.answers_parameter(ParameterHandler::Asc, lent(parameter), outcome),
    ;

    fn handle_lcd(&self) -> (outcome: Result<Value, Error>)
        ensures
            self.answers(ParameterLessHandler::Lcd, outcome),
    ;
}

/// The names that `piece` and `text` hold together, where `piece` is the start
/// of a name that goes on in `text`.
pub open spec fn spec_split_from(piece: Seq<char>, text: Seq<char>) -> Seq<Seq<char>>
    decreases text.len(),
{
    if text.len() == 0 {
        spec_piece(piece)
    } else if text[0] == '+' {
        spec_piece(piece) + spec_split_from(Seq::empty(), text.drop_first())
    } else {
        spec_split_from(piece.push(text[0]), text.drop_first())
    }
}

/// A piece of a command text as a list of names: the piece where it holds
/// anything, nothing where it is empty.
pub open spec fn spec_piece(piece: Seq<char>) -> Seq<Seq<char>> {
    if piece.len() > 0 {
        seq![piece]
    } else {
        Seq::empty()
    }
}

/// The names that the command text `text` holds: the pieces between its `+`
/// signs that are not empty, from left to right.
pub open spec fn spec_split(text: Seq<char>) -> Seq<Seq<char>> {
    spec_split_from(Seq::empty(), text)
}

/// Whether `text` holds no `+`.
pub open spec fn plus_free(text: Seq<char>) -> bool {
    forall|i: int| 0 <= i < text.len() ==> text[i] != '+'
}

/// Where `text` holds no `+`, it only goes on with the name that `piece`
/// starts.
pub proof fn lemma_split_from_plain(piece: Seq<char>, text: Seq<char>)
    requires
        plus_free(text),
    ensures
        spec_split_from(piece, text) == spec_piece(piece + text),
    decreases text.len(),
{
    if text.len() > 0 {
        assert(text[0] != '+');
        assert forall|i: int| 0 <= i < text.drop_first().len() implies text.drop_first()[i]
            != '+' by {
            assert(text.drop_first()[i] == text[i + 1]);
        }
        lemma_split_from_plain(piece.push(text[0]), text.drop_first());
        assert(piece.push(text[0]) + text.drop_first() =~= piece + text);
    } else {
        assert(piece + text =~= piece);
    }
}

/// A `+` ends the name that stands before it: the names of a text with a
/// `+` in it are those before the `+`, then those after it.
pub proof fn lemma_split_from_join(piece: Seq<char>, before: Seq<char>, after: Seq<char>)
    ensures
        spec_split_from(piece, before + seq!['+'] + after) == spec_split_from(piece, before)
            + spec_split(after),
    decreases before.len(),
{
    let text = before + seq!['+'] + after;
    if before.len() == 0 {
        assert(text[0] == '+');
        assert(text.drop_first() =~= after);
    } else {
        assert(text[0] == before[0]);
        assert(text.drop_first() =~= before.drop_first() + seq!['+'] + after);
        if before[0] == '+' {
            lemma_split_from_join(Seq::empty(), before.drop_first(), after);
            assert(spec_split_from(piece, text) =~= spec_split_from(piece, before) + spec_split(
                after,
            ));
        } else {
            lemma_split_from_join(piece.push(before[0]), before.drop_first(), after);
        }
    }
}

/// A text that is not empty and holds no `+` is one name.
pub proof fn lemma_split_plain(text: Seq<char>)
    requires
        text.len() > 0,
        plus_free(text),
    ensures
        spec_split(text) == seq![text],
{
    lemma_split_from_plain(Seq::empty(), text);
    assert(Seq::<char>::empty() + text =~= text);
}

/// The names of two texts joined by a `+` are the names of the first, then
/// the names of the second.
pub proof fn lemma_split_join(before: Seq<char>, after: Seq<char>)
    ensures
        spec_split(before + seq!['+'] + after) == spec_split(before) + spec_split(after),
{
    lemma_split_from_join(Seq::empty(), before, after);
}

/// Whether `text` can be the name of a command in a command text: it is not
/// empty and holds no `+`.
pub open spec fn is_name(text: Seq<char>) -> bool {
    text.len() > 0 && plus_free(text)
}

/// No name that a text holds after the start of a name is empty, and none
/// holds a `+`.
pub proof fn lemma_split_names(piece: Seq<char>, text: Seq<char>)
    requires
        plus_free(piece),
    ensures
        forall|i: int|
            0 <= i < spec_split_from(piece, text).len() ==> is_name(
                #[trigger] spec_split_from(piece, text)[i],
            ),
    decreases text.len(),
{
    let names = spec_split_from(piece, text);
    if text.len() > 0 {
        if text[0] == '+' {
            let rest = spec_split_from(Seq::empty(), text.drop_first());
            lemma_split_names(Seq::empty(), text.drop_first());
            assert(names == spec_piece(piece) + rest);
            assert forall|i: int| 0 <= i < names.len() implies is_name(#[trigger] names[i]) by {
                if i < spec_piece(piece).len() {
                    assert(names[i] == piece);
                } else {
                    assert(names[i] == rest[i - spec_piece(piece).len()]);
                }
            }
        } else {
            let longer = piece.push(text[0]);
            assert forall|i: int| 0 <= i < longer.len() implies longer[i] != '+' by {
                if i < piece.len() {
                    assert(longer[i] == piece[i]);
                }
            }
            lemma_split_names(longer, text.drop_first());
            assert(names == spec_split_from(longer, text.drop_first()));
        }
    } else {
        assert(names == spec_piece(piece));
        assert forall|i: int| 0 <= i < names.len() implies is_name(#[trigger] names[i]) by {
            assert(names[i] == piece);
        }
    }
}

/// Every name that a command text holds is a name: it is not empty and
/// holds no `+`.
pub proof fn lemma_split_gives_names(text: Seq<char>)
    ensures
        forall|i: int| 0 <= i < spec_split(text).len() ==> is_name(#[trigger] spec_split(text)[i]),
{
    lemma_split_names(Seq::empty(), text);
}

/// What the strings of `names` spell.
pub open spec fn spec_names(names: Seq<String>) -> Seq<Seq<char>> {
    names.map_values(|name: String| name@)
}

/// Splits a command text at its `+` signs into the names of the commands
/// that it asks for. Empty pieces are dropped.
pub fn split_commands(command: &str) -> (names: Vec<String>)
    ensures
        spec_names(names@) == spec_split(command@),
        names@.len() == spec_split(command@).len(),
        forall|i: int| 0 <= i < names@.len() ==> (#[trigger] names@[i])@ == spec_split(command@)[i],
{
    let length = command.unicode_len();
    let mut names: Vec<String> = Vec::new();
    let mut start: usize = 0;
    let mut index: usize = 0;
    proof {
        assert(command@.subrange(0, 0) =~= Seq::<char>::empty());
        assert(command@.skip(0) =~= command@);
        assert(spec_names(names@) =~= Seq::<Seq<char>>::empty());
        assert(spec_names(names@) + spec_split(command@) =~= spec_split(command@));
    }
    for c in it: command.chars()
        invariant
            it.seq() == command@,
            length == command@.len(),
            index == it.index(),
            start <= index,
            spec_split(command@) == spec_names(names@) + spec_split_from(
                command@.subrange(start as int, index as int),
                command@.skip(index as int),
            ),
    {
        let ghost piece = command@.subrange(start as int, index as int);
        let ghost rest = command@.skip(index as int);
        assert(rest[0] == c);
        if c == '+' {
            if start < index {
                names.push(String::from_str(command.substring_char(start, index)));
                assert(spec_names(names@) =~= spec_names(names@.drop_last()) + seq![piece]);
            }
            start = index + 1;
            assert(command@.subrange(start as int, index + 1) =~= Seq::<char>::empty());
        } else {
            assert(command@.subrange(start as int, index + 1) =~= piece.push(c));
        }
        assert(rest.drop_first() =~= command@.skip(index + 1));
        index += 1;
    }
    assert(command@.skip(index as int) =~= Seq::<char>::empty());
    if start < index {
        let ghost before = spec_names(names@);
        names.push(String::from_str(command.substring_char(start, index)));
        assert(spec_names(names@) =~= before + seq![command@.subrange(start as int, index as int)]);
    }
    assert forall|i: int| 0 <= i < names@.len() implies (#[trigger] names@[i])@ == spec_split(
        command@,
    )[i] by {
        assert(spec_names(names@)[i] == names@[i]@);
    }
    names
}

/// What a request asks for.
#[derive(Clone, PartialEq, Eq, Debug)]
pub enum Plan {
    /// Nothing that can be answered: the reason goes back as an error.
    Refuse(ErrorCode),
    /// One command.
    Single(String),
    /// Several commands, to be answered in this order.
    Batch(Vec<String>),
}

/// What a `Plan` holds.
pub enum PlanView {
    Refuse(ErrorCodeView),
    Single(Seq<char>),
    Batch(Seq<Seq<char>>),
}

impl View for Plan {
    type V = PlanView;

    open spec fn view(&self) -> PlanView {
        match self {
            Plan::Refuse(code) => PlanView::Refuse(code@),
            Plan::Single(name) => PlanView::Single(name@),
            Plan::Batch(names) => PlanView::Batch(spec_names(names@)),
        }
    }
}

/// Holds an incoming request: a JSON object with the text of the command
/// under `command` and, where the command takes one, its parameter under
/// `parameter`.
pub struct Request {
    value: Value,
}

impl Request {
    /// The JSON value of the request.
    pub closed spec fn spec_value(self) -> Value {
        self.value
    }

    /// The command text of the request: what it holds under `command`, where
    /// that is a string.
    pub open spec fn spec_command(self) -> Option<Seq<char>> {
        match crate::json::json_member(self.spec_value(), "command"@) {
            Some(command) => crate::json::json_text(command),
            None => None,
        }
    }

    /// The parameter of the request: what it holds under `parameter`.
    pub open spec fn spec_parameter(self) -> Option<Value> {
        crate::json::json_member(self.spec_value(), "parameter"@)
    }

    /// The request that `value` holds.
    pub fn new(value: Value) -> (request: Request)
        ensures
            request.spec_value() == value,
    {
        Request { value }
    }

    /// The command text of the request, where it has one.
    pub fn command(&self) -> (command: Option<&str>)
        ensures
            match command {
                Some(text) => self.spec_command() == Some(text@),
                None => self.spec_command() is None,
            },
    {
        match member(&self.value, "command") {
            Some(command) => command.as_str(),
            None => None,
        }
    }

    /// The parameter of the request, where it has one.
    pub fn parameter(&self) -> (parameter: Option<&Value>)
        ensures
            lent(parameter) == self.spec_parameter(),
    {
        member(&self.value, "parameter")
    }

    /// What the request asks for. A request without a command text is
    /// refused as missing its command, one whose text holds no name as
    /// invalid. A text with one name asks for that command, a text with
    /// more for a batch.
    pub open spec fn spec_plan(self) -> PlanView {
        match self.spec_command() {
            None => PlanView::Refuse(ErrorCodeView::MissingCommand),
            Some(command) => {
                let names = spec_split(command);
                if names.len() == 0 {
                    PlanView::Refuse(ErrorCodeView::InvalidCommand)
                } else if names.len() == 1 {
                    PlanView::Single(names[0])
                } else {
                    PlanView::Batch(names)
                }
            },
        }
    }

    /// Reads what the request asks for.
    pub fn plan(&self) -> (plan: Plan)
        ensures
            plan@ == self.spec_plan(),
    {
        let command = match self.command() {
            None => { return Plan::Refuse(ErrorCode::MissingCommand); },
            Some(value) => value,
        };
        let mut commands = split_commands(command);
        if commands.len() == 0 {
            Plan::Refuse(ErrorCode::InvalidCommand)
        } else if commands.len() == 1 {
            Plan::Single(commands.pop().unwrap())
        } else {
            Plan::Batch(commands)
        }
    }
}

/// How a command is answered.
#[derive(Clone, Copy, PartialEq, Eq, Structural, Debug)]
pub enum HandlerType {
    /// By a method of the handler that takes no parameter.
    ParameterLess(ParameterLessHandler),
    /// By a method of the handler that takes the parameter of the request.
    Parameter(ParameterHandler),
    /// By the dispatcher, with the versions of the miner and of the interface.
    Version,
    /// By the dispatcher, which tells whether its parameter names a command.
    Check,
}

impl HandlerType {
    /// Whether the command reads the parameter of the request.
    pub open spec fn spec_has_parameters(&self) -> bool {
        match self {
            HandlerType::ParameterLess(_) => false,
            HandlerType::Parameter(_) => true,
            HandlerType::Version => false,
            HandlerType::Check => true,
        }
    }

    /// Whether the command reads the parameter of the request.
    #[verifier::when_used_as_spec(spec_has_parameters)]
    pub fn has_parameters(&self) -> (has: bool)
        ensures
            has == self.spec_has_parameters(),
    {
        match self {
            HandlerType::ParameterLess(_) => false,
            HandlerType::Parameter(_) => true,
            HandlerType::Version => false,
            HandlerType::Check => true,
        }
    }
}

/// The checks that a command can make of its parameter before it is handed
/// to the handler.
#[derive(Clone, Copy, PartialEq, Eq, Structural, Debug)]
pub enum ParameterCheckHandler {
    /// The parameter has to be a signed integer of 32 bits.
    Asc,
}

impl ParameterCheckHandler {
    /// The error that the check finds in `parameter`, if any.
    pub open spec fn spec_check(self, command: Seq<char>, parameter: Option<Value>) -> Option<
        ErrorCodeView,
    > {
        match self {
            ParameterCheckHandler::Asc => spec_check_asc(parameter),
        }
    }

    /// Checks the parameter of the command `command`.
    pub fn check(&self, command: &str, parameter: &Option<&Value>) -> (checked: Result<(), Error>)
        ensures
            match checked {
                Ok(_) => self.spec_check(command@, lent(*parameter)) is None,
                Err(error) => self.spec_check(command@, lent(*parameter)) matches Some(code)
                    && error@ == code.error(),
            },
    {
        match self {
            ParameterCheckHandler::Asc => check_asc(command, parameter),
        }
    }
}

/// The error that the check of `asc` finds in `parameter`, if any: the
/// parameter has to be there and be a signed integer of 32 bits.
pub open spec fn spec_check_asc(parameter: Option<Value>) -> Option<ErrorCodeView> {
    if parameter matches Some(value) && spec_is_i32(crate::json::json_i64(value)) {
        None
    } else {
        Some(ErrorCodeView::MissingAscParameter)
    }
}

/// Checks the parameter of `asc`.
pub fn check_asc(_command: &str, parameter: &Option<&Value>) -> (checked: Result<(), Error>)
    ensures
        match checked {
            Ok(_) => spec_check_asc(lent(*parameter)) is None,
            Err(error) => spec_check_asc(lent(*parameter)) matches Some(code) && error@
                == code.error(),
        },
{
    match parameter {
        Some(value) => {
            if is_i32(value.as_i64()) {
                Ok(())
            } else {
                Err(Error::from_code(ErrorCode::MissingAscParameter))
            }
        },
        None => Err(Error::from_code(ErrorCode::MissingAscParameter)),
    }
}

/// Describes a command: its name, how it is answered and how its parameter
/// is checked.
#[derive(Clone, PartialEq, Eq, Debug)]
pub struct Descriptor {
    name: String,
    handler: HandlerType,
    parameter_check: Option<ParameterCheckHandler>,
}

/// What a `Descriptor` holds.
pub struct DescriptorView {
    pub name: Seq<char>,
    pub handler: HandlerType,
    pub parameter_check: Option<ParameterCheckHandler>,
}

impl DescriptorView {
    /// Whether the command reads the parameter of the request.
    pub open spec fn has_parameters(self) -> bool {
        self.handler.spec_has_parameters()
    }

    /// The error that the command finds in `parameter` before it is
    /// answered, if any.
    pub open spec fn check(self, parameter: Option<Value>) -> Option<ErrorCodeView> {
        match self.parameter_check {
            Some(check) => check.spec_check(self.name, parameter),
            None => None,
        }
    }

    /// A command that hands the parameter to the handler checks it first.
    pub open spec fn checks_what_it_hands_on(self) -> bool {
        self.handler == HandlerType::Parameter(ParameterHandler::Asc) ==> self.parameter_check
            == Some(ParameterCheckHandler::Asc)
    }
}

impl View for Descriptor {
    type V = DescriptorView;

    closed spec fn view(&self) -> DescriptorView {
        DescriptorView {
            name: self.name@,
            handler: self.handler,
            parameter_check: self.parameter_check,
        }
    }
}

impl Descriptor {
    pub fn new(
        name: &'static str,
        handler: HandlerType,
        parameter_check: Option<ParameterCheckHandler>,
    ) -> (descriptor: Descriptor)
        ensures
            descriptor@ == (DescriptorView { name: name@, handler, parameter_check }),
    {
        Descriptor { name: String::from_str(name), handler, parameter_check }
    }

    /// Whether the command reads the parameter of the request.
    #[inline]
    pub fn has_parameters(&self) -> (has: bool)
        ensures
            has == self@.has_parameters(),
    {
        self.handler.has_parameters()
    }

    /// The name of the command.
    pub fn name(&self) -> (name: &str)
        ensures
            name@ == self@.name,
    {
        self.name.as_str()
    }

    /// How the command is answered.
    pub fn handler(&self) -> (handler: HandlerType)
        ensures
            handler == self@.handler,
    {
        self.handler
    }

    /// Checks `parameter` as the command asks.
    pub fn check(&self, parameter: &Option<&Value>) -> (checked: Result<(), Error>)
        ensures
            match checked {
                Ok(_) => self@.check(lent(*parameter)) is None,
                Err(error) => self@.check(lent(*parameter)) matches Some(code) && error@
                    == code.error(),
            },
    {
        match &self.parameter_check {
            Some(check) => check.check(self.name.as_str(), parameter),
            None => Ok(()),
        }
    }
}

/// The description of a command that a method of the handler answers
/// without a parameter.
pub open spec fn spec_parameter_less(name: Seq<char>, handler: ParameterLessHandler) -> DescriptorView {
    DescriptorView { name, handler: HandlerType::ParameterLess(handler), parameter_check: None }
}

/// The commands that the dispatcher knows, in the order in which it looks
/// them up.
pub open spec fn spec_commands() -> Seq<DescriptorView> {
    seq![
        spec_parameter_less(POOLS@, ParameterLessHandler::Pools),
        spec_parameter_less(DEVS@, ParameterLessHandler::Devs),
        spec_parameter_less(EDEVS@, ParameterLessHandler::Edevs),
        spec_parameter_less(SUMMARY@, ParameterLessHandler::Summary),
        spec_parameter_less(CONFIG@, ParameterLessHandler::Config),
        spec_parameter_less(DEVDETAILS@, ParameterLessHandler::DevDetails),
        spec_parameter_less(STATS@, ParameterLessHandler::Stats),
        spec_parameter_less(ESTATS@, ParameterLessHandler::Estats),
        spec_parameter_less(COIN@, ParameterLessHandler::Coin),
        spec_parameter_less(ASC_COUNT@, ParameterLessHandler::AscCount),
        DescriptorView {
            name: ASC@,
            handler: HandlerType::Parameter(ParameterHandler::Asc),
            parameter_check: Some(ParameterCheckHandler::Asc),
        },
        spec_parameter_less(LCD@, ParameterLessHandler::Lcd),
        DescriptorView { name: VERSION@, handler: HandlerType::Version, parameter_check: None },
        DescriptorView { name: CHECK@, handler: HandlerType::Check, parameter_check: None },
    ]
}

/// The first of `commands` that goes by `name`.
pub open spec fn spec_find(commands: Seq<DescriptorView>, name: Seq<char>) -> Option<DescriptorView>
    decreases commands.len(),
{
    if commands.len() == 0 {
        None
    } else if commands[0].name == name {
        Some(commands[0])
    } else {
        spec_find(commands.drop_first(), name)
    }
}

/// What `spec_find` finds is one of the commands and goes by the name.
pub proof fn lemma_find(commands: Seq<DescriptorView>, name: Seq<char>)
    ensures
        spec_find(commands, name) matches Some(found) ==> found.name == name && commands.contains(
            found,
        ),
        spec_find(commands, name) is None ==> forall|i: int|
            0 <= i < commands.len() ==> (#[trigger] commands[i]).name != name,
    decreases commands.len(),
{
    if commands.len() > 0 && commands[0].name != name {
        let rest = commands.drop_first();
        lemma_find(rest, name);
        if let Some(found) = spec_find(rest, name) {
            let at = choose|i: int| 0 <= i < rest.len() && rest[i] == found;
            assert(commands[at + 1] == found);
        } else {
            assert forall|i: int| 0 <= i < commands.len() implies (#[trigger] commands[i]).name
                != name by {
                if i > 0 {
                    assert(rest[i - 1] == commands[i]);
                }
            }
        }
    } else if commands.len() > 0 {
        assert(commands[0] == commands[0]);
    }
}

/// What the names of the commands spell. No two of them are the same.
pub proof fn lemma_names()
    ensures
        POOLS@ == seq!['p', 'o', 'o', 'l', 's'],
        DEVS@ == seq!['d', 'e', 'v', 's'],
        EDEVS@ == seq!['e', 'd', 'e', 'v', 's'],
        SUMMARY@ == seq!['s', 'u', 'm', 'm', 'a', 'r', 'y'],
        VERSION@ == seq!['v', 'e', 'r', 's', 'i', 'o', 'n'],
        CONFIG@ == seq!['c', 'o', 'n', 'f', 'i', 'g'],
        DEVDETAILS@ == seq!['d', 'e', 'v', 'd', 'e', 't', 'a', 'i', 'l', 's'],
        STATS@ == seq!['s', 't', 'a', 't', 's'],
        ESTATS@ == seq!['e', 's', 't', 'a', 't', 's'],
        CHECK@ == seq!['c', 'h', 'e', 'c', 'k'],
        COIN@ == seq!['c', 'o', 'i', 'n'],
        ASC_COUNT@ == seq!['a', 's', 'c', 'c', 'o', 'u', 'n', 't'],
        ASC@ == seq!['a', 's', 'c'],
        LCD@ == seq!['l', 'c', 'd'],
{
    reveal_strlit("pools");
    reveal_strlit("devs");
    reveal_strlit("edevs");
    reveal_strlit("summary");
    reveal_strlit("version");
    reveal_strlit("config");
    reveal_strlit("devdetails");
    reveal_strlit("stats");
    reveal_strlit("estats");
    reveal_strlit("check");
    reveal_strlit("coin");
    reveal_strlit("asccount");
    reveal_strlit("asc");
    reveal_strlit("lcd");
    assert(POOLS@ =~= seq!['p', 'o', 'o', 'l', 's']);
    assert(DEVS@ =~= seq!['d', 'e', 'v', 's']);
    assert(EDEVS@ =~= seq!['e', 'd', 'e', 'v', 's']);
    assert(SUMMARY@ =~= seq!['s', 'u', 'm', 'm', 'a', 'r', 'y']);
    assert(VERSION@ =~= seq!['v', 'e', 'r', 's', 'i', 'o', 'n']);
    assert(CONFIG@ =~= seq!['c', 'o', 'n', 'f', 'i', 'g']);
    assert(DEVDETAILS@ =~= seq!['d', 'e', 'v', 'd', 'e', 't', 'a', 'i', 'l', 's']);
    assert(STATS@ =~= seq!['s', 't', 'a', 't', 's']);
    assert(ESTATS@ =~= seq!['e', 's', 't', 'a', 't', 's']);
    assert(CHECK@ =~= seq!['c', 'h', 'e', 'c', 'k']);
    assert(COIN@ =~= seq!['c', 'o', 'i', 'n']);
    assert(ASC_COUNT@ =~= seq!['a', 's', 'c', 'c', 'o', 'u', 'n', 't']);
    assert(ASC@ =~= seq!['a', 's', 'c']);
    assert(LCD@ =~= seq!['l', 'c', 'd']);
}

/// Every command of the dispatcher is found under its own name, and the
/// search of any name that is found ends at a command of that name.
pub proof fn lemma_commands_by_name()
    ensures
        spec_commands().len() == 14,
        forall|i: int|
            0 <= i < 14 ==> spec_find(spec_commands(), (#[trigger] spec_commands()[i]).name)
                == Some(spec_commands()[i]),
{
    lemma_names();
    let commands = spec_commands();
    assert forall|i: int, j: int| 0 <= i < 14 && 0 <= j < 14 && i != j implies (
    #[trigger] commands[i]).name != (#[trigger] commands[j]).name by {
        let a = commands[i].name;
        let b = commands[j].name;
        if a.len() == b.len() {
            assert(a[0] != b[0] || a[1] != b[1] || a[2] != b[2]);
        }
    }
    assert forall|i: int| 0 <= i < 14 implies spec_find(commands, (#[trigger] commands[i]).name)
        == Some(commands[i]) by {
        lemma_find_first(commands, i);
    }
}

/// The search of the name of a command, before which no command goes by the
/// same name, ends at that command.
pub proof fn lemma_find_first(commands: Seq<DescriptorView>, at: int)
    requires
        0 <= at < commands.len(),
        forall|i: int| 0 <= i < at ==> (#[trigger] commands[i]).name != commands[at].name,
    ensures
        spec_find(commands, commands[at].name) == Some(commands[at]),
    decreases at,
{
    if at > 0 {
        let rest = commands.drop_first();
        assert(commands[0].name != commands[at].name);
        assert(rest[at - 1] == commands[at]);
        assert forall|i: int| 0 <= i < at - 1 implies (#[trigger] rest[i]).name != rest[at
            - 1].name by {
            assert(rest[i] == commands[i + 1]);
        }
        lemma_find_first(rest, at - 1);
    }
}

/// What the descriptors of `commands` hold.
pub open spec fn spec_views(commands: Seq<Descriptor>) -> Seq<DescriptorView> {
    commands.map_values(|descriptor: Descriptor| descriptor@)
}

/// What the dispatcher does about one command.
#[derive(PartialEq, Debug)]
pub enum Action {
    /// It has the answer.
    Reply(Dispatch),
    /// It asks the handler, through the method that takes no parameter.
    Call(ParameterLessHandler),
    /// It asks the handler, through the method that takes the parameter of
    /// the request.
    CallWithParameter(ParameterHandler),
}

/// What an `Action` holds.
pub enum ActionView {
    Reply(DispatchView),
    Call(ParameterLessHandler),
    CallWithParameter(ParameterHandler),
}

impl View for Action {
    type V = ActionView;

    open spec fn view(&self) -> ActionView {
        match self {
            Action::Reply(dispatch) => ActionView::Reply(dispatch@),
            Action::Call(handler) => ActionView::Call(*handler),
            Action::CallWithParameter(handler) => ActionView::CallWithParameter(*handler),
        }
    }
}

/// The dispatcher of the commands. `H` is the handler of the host, `T` the
/// clock that stamps the responses.
pub struct Receiver<H, T> {
    handler: H,
    commands: Vec<Descriptor>,
    miner_signature: String,
    miner_version: String,
    description: String,
    _marker: PhantomData<T>,
}

impl<H, T> Receiver<H, T> {
    #[verifier::type_invariant]
    closed spec fn configured(&self) -> bool {
        &&& spec_views(self.commands@) == spec_commands()
        &&& self.description@ == self.miner_signature@ + " "@ + self.miner_version@
    }

    /// The handler of the host.
    pub closed spec fn spec_handler(&self) -> H {
        self.handler
    }

    /// The signature of the miner.
    pub closed spec fn spec_signature(&self) -> Seq<char> {
        self.miner_signature@
    }

    /// The version of the miner.
    pub closed spec fn spec_miner_version(&self) -> Seq<char> {
        self.miner_version@
    }

    /// The description of the miner: its signature, a space and its version.
    pub open spec fn spec_description(&self) -> Seq<char> {
        self.spec_signature() + " "@ + self.spec_miner_version()
    }

    /// The answer to `version`.
    pub open spec fn spec_version(&self) -> VersionView {
        VersionView {
            signature: self.spec_signature(),
            miner: self.spec_miner_version(),
            api: API_VERSION@,
        }
    }

    /// The answer to `check` with `parameter`: an error where there is no
    /// parameter, else whether the parameter is a string that names a
    /// command.
    pub open spec fn spec_check(parameter: Option<Value>) -> DispatchView {
        match parameter {
            None => Dispatch::spec_failure(ErrorCodeView::MissingCheckCmd),
            Some(command) => {
                let known = match crate::json::json_text(command) {
                    Some(name) => spec_find(spec_commands(), name) is Some,
                    None => false,
                };
                let result = if known {
                    Bool::Y
                } else {
                    Bool::N
                };
                DispatchView::Check(Check { exists: result, access: result })
            },
        }
    }

    /// What the dispatcher does about the command `name` of a request with
    /// the parameter `parameter`. `multi_command` tells that the request
    /// asks for more than one command.
    pub open spec fn spec_decide(
        &self,
        name: Seq<char>,
        parameter: Option<Value>,
        multi_command: bool,
    ) -> ActionView {
        match spec_find(spec_commands(), name) {
            None => ActionView::Reply(Dispatch::spec_failure(ErrorCodeView::InvalidCommand)),
            Some(descriptor) => if multi_command && descriptor.has_parameters() {
                ActionView::Reply(Dispatch::spec_failure(ErrorCodeView::AccessDeniedCmd(name)))
            } else {
                match descriptor.check(parameter) {
                    Some(code) => ActionView::Reply(Dispatch::spec_failure(code)),
                    None => match descriptor.handler {
                        HandlerType::ParameterLess(handler) => ActionView::Call(handler),
                        HandlerType::Parameter(handler) => ActionView::CallWithParameter(handler),
                        HandlerType::Version => ActionView::Reply(
                            DispatchView::Version(self.spec_version()),
                        ),
                        HandlerType::Check => ActionView::Reply(
                            Receiver::<H, T>::spec_check(parameter),
                        ),
                    },
                }
            },
        }
    }

    /// Whether `response` is an envelope of this dispatcher around the
    /// failure `code`.
    pub open spec fn fails(&self, code: ErrorCodeView, response: ResponseTypeView) -> bool {
        &&& response matches ResponseTypeView::Single(single)
        &&& single.description == self.spec_description()
        &&& single.dispatch == Dispatch::spec_failure(code)
    }

    /// Sets up the dispatcher of a miner with the given signature and
    /// version, which asks `handler` for what it does not answer itself.
    pub fn new(handler: H, miner_signature: String, miner_version: String) -> (receiver: Self)
        ensures
            receiver.spec_handler() == handler,
            receiver.spec_signature() == miner_signature@,
            receiver.spec_miner_version() == miner_version@,
    {
        let mut commands: Vec<Descriptor> = Vec::new();
        // add generic commands
        commands.push(command(POOLS, ParameterLessHandler::Pools));
        commands.push(command(DEVS, ParameterLessHandler::Devs));
        commands.push(command(EDEVS, ParameterLessHandler::Edevs));
        commands.push(command(SUMMARY, ParameterLessHandler::Summary));
        commands.push(command(CONFIG, ParameterLessHandler::Config));
        commands.push(command(DEVDETAILS, ParameterLessHandler::DevDetails));
        commands.push(command(STATS, ParameterLessHandler::Stats));
        commands.push(command(ESTATS, ParameterLessHandler::Estats));
        commands.push(command(COIN, ParameterLessHandler::Coin));
        commands.push(command(ASC_COUNT, ParameterLessHandler::AscCount));
        commands.push(
            Descriptor::new(
                ASC,
                HandlerType::Parameter(ParameterHandler::Asc),
                Some(ParameterCheckHandler::Asc),
            ),
        );
        commands.push(command(LCD, ParameterLessHandler::Lcd));
        // add special built-in commands
        commands.push(Descriptor::new(VERSION, HandlerType::Version, None));
        commands.push(Descriptor::new(CHECK, HandlerType::Check, None));
        assert(spec_views(commands@) =~= spec_commands());

        let description = miner_signature.clone().concat(" ").concat(miner_version.as_str());
        Receiver {
            handler,
            commands,
            miner_signature,
            miner_version,
            description,
            _marker: PhantomData,
        }
    }

    /// Looks up the command that goes by `name`.
    fn find(&self, name: &str) -> (found: Option<&Descriptor>)
        ensures
            match found {
                Some(descriptor) => spec_find(spec_commands(), name@) == Some(descriptor@),
                None => spec_find(spec_commands(), name@) is None,
            },
    {
        proof {
            use_type_invariant(self);
        }
        let wanted = String::from_str(name);
        let ghost all = spec_views(self.commands@);
        let mut index: usize = 0;
        assert(all.skip(0) =~= all);
        while index < self.commands.len()
            invariant
                index <= self.commands.len(),
                wanted@ == name@,
                all == spec_views(self.commands@),
                all == spec_commands(),
                spec_find(all, name@) == spec_find(all.skip(index as int), name@),
            decreases self.commands.len() - index,
        {
            let descriptor = &self.commands[index];
            assert(all.skip(index as int)[0] == descriptor@);
            assert(all.skip(index as int).drop_first() =~= all.skip(index + 1));
            if descriptor.name == wanted {
                return Some(descriptor);
            }
            index += 1;
        }
        None
    }

    /// Answers `version`.
    fn handle_version(&self) -> (version: Result<Version, Error>)
        ensures
            version matches Ok(version) && version@ == self.spec_version(),
    {
        Ok(
            Version {
                signature: self.miner_signature.clone(),
                miner: self.miner_version.clone(),
                api: String::from_str(API_VERSION),
            },
        )
    }

    /// Answers `check`.
    fn handle_check(&self, parameter: Option<&Value>) -> (check: Result<Check, Error>)
        ensures
            match check {
                Ok(check) => DispatchView::Check(check) == Receiver::<H, T>::spec_check(
                    lent(parameter),
                ),
                Err(error) => DispatchView::Error(error@) == Receiver::<H, T>::spec_check(
                    lent(parameter),
                ),
            },
    {
        let command = match parameter {
            Some(command) => command,
            None => { return Err(Error::from_code(ErrorCode::MissingCheckCmd)); },
        };
        let result = match command.as_str() {
            Some(name) => match self.find(name) {
                Some(_) => Bool::Y,
                None => Bool::N,
            },
            None => Bool::N,
        };
        Ok(Check { exists: result, access: result })
    }

    /// Decides what to do about the command `command` of a request with the
    /// parameter `parameter`: to answer, or to ask the handler. The
    /// `multi_command` flag tells that the request asks for more than one
    /// command, which no command that reads the parameter may be part of.
    pub fn decide(&self, command: &str, parameter: Option<&Value>, multi_command: bool) -> (action:
        Action)
        ensures
            action@ == self.spec_decide(command@, lent(parameter), multi_command),
    {
        match self.find(command) {
            Some(descriptor) => {
                if multi_command && descriptor.has_parameters() {
                    Action::Reply(
                        Dispatch::failure(ErrorCode::AccessDeniedCmd(String::from_str(command))),
                    )
                } else {
                    match descriptor.check(&parameter) {
                        Ok(_) => match descriptor.handler() {
                            HandlerType::ParameterLess(handler) => Action::Call(handler),
                            HandlerType::Parameter(handler) => Action::CallWithParameter(handler),
                            HandlerType::Version => match self.handle_version() {
                                Ok(version) => Action::Reply(Dispatch::Version(version)),
                                Err(error) => Action::Reply(Dispatch::Error(error)),
                            },
                            HandlerType::Check => match self.handle_check(parameter) {
                                Ok(check) => Action::Reply(Dispatch::Check(check)),
                                Err(error) => Action::Reply(Dispatch::Error(error)),
                            },
                        },
                        Err(error) => Action::Reply(Dispatch::Error(error)),
                    }
                }
            },
            None => Action::Reply(Dispatch::failure(ErrorCode::InvalidCommand)),
        }
    }

    /// A command whose parameter goes to the handler has had it checked:
    /// the parameter is a signed integer of 32 bits.
    pub proof fn lemma_handler_gets_checked(
        &self,
        name: Seq<char>,
        parameter: Option<Value>,
        multi_command: bool,
    )
        requires
            self.spec_decide(name, parameter, multi_command) is CallWithParameter,
        ensures
            parameter matches Some(value) && spec_is_i32(crate::json::json_i64(value)),
    {
        lemma_find(spec_commands(), name);
        let found = spec_find(spec_commands(), name)->Some_0;
        let at = choose|i: int| 0 <= i < spec_commands().len() && spec_commands()[i] == found;
        assert(spec_commands()[at].checks_what_it_hands_on());
    }


    /// The handler of the host.
    pub fn handler(&self) -> (handler: &H)
        ensures
            *handler == self.spec_handler(),
    {
        &self.handler
    }
}

impl<H, T: When> Receiver<H, T> {
    /// Puts `dispatch` in the envelope of this miner, stamped by the clock.
    pub fn envelope(&self, dispatch: Dispatch) -> (response: Response)
        ensures
            response@.dispatch == dispatch@,
            response@.description == self.spec_description(),
    {
        proof {
            use_type_invariant(self);
        }
        dispatch.into_response(T::when(), self.description.clone())
    }

    /// The response to a request for one command, which gave `dispatch`.
    #[inline]
    pub fn get_single_response(&self, dispatch: Dispatch) -> (response: ResponseType)
        ensures
            response@ matches ResponseTypeView::Single(single) && single.dispatch == dispatch@
                && single.description == self.spec_description(),
    {
        ResponseType::Single(self.envelope(dispatch))
    }
}

impl<H: Handler, T: When> Receiver<H, T> {
    /// Whether `dispatch` is what the command `name` can give back: the
    /// answer of the dispatcher where it has one, else some answer of the
    /// handler to the method that stands for the command.
    pub open spec fn admits(
        &self,
        name: Seq<char>,
        parameter: Option<Value>,
        multi_command: bool,
        dispatch: DispatchView,
    ) -> bool {
        match self.spec_decide(name, parameter, multi_command) {
            ActionView::Reply(reply) => dispatch == reply,
            ActionView::Call(handler) => exists|outcome: Result<Value, Error>|
                #[trigger] self.spec_handler().answers(handler, outcome) && dispatch
                    == Dispatch::spec_from_outcome(outcome),
            ActionView::CallWithParameter(handler) => exists|outcome: Result<Value, Error>|
                #[trigger] self.spec_handler().answers_parameter(handler, parameter, outcome)
                    && dispatch == Dispatch::spec_from_outcome(outcome),
        }
    }

    /// Whether `response` is an envelope of this dispatcher around what the
    /// command `name` can give back. The time of the response is left open.
    pub open spec fn gives(
        &self,
        name: Seq<char>,
        parameter: Option<Value>,
        multi_command: bool,
        response: ResponseView,
    ) -> bool {
        &&& response.description == self.spec_description()
        &&& self.admits(name, parameter, multi_command, response.dispatch)
    }

    /// Whether `entries` are what the batch of the commands `names` can give
    /// back: the envelopes of what the commands give back, collected under
    /// their names from the first to the last.
    pub open spec fn collects(
        &self,
        names: Seq<Seq<char>>,
        parameter: Option<Value>,
        entries: Entries,
    ) -> bool {
        exists|parts: Seq<ResponseView>|
            {
                &&& parts.len() == names.len()
                &&& forall|i: int|
                    0 <= i < names.len() ==> self.gives(
                        names[i],
                        parameter,
                        true,
                        #[trigger] parts[i],
                    )
                &&& entries == #[trigger] MultiResponse::spec_collect(names, parts)
            }
    }

    /// Whether `response` is a response of this dispatcher to `request`: to
    /// a request that is refused, the envelope of the error; to a request
    /// for one command, the envelope of what the command gives back; to a
    /// batch, what the batch gives back.
    pub open spec fn responds(&self, request: Request, response: ResponseTypeView) -> bool {
        match request.spec_plan() {
            PlanView::Refuse(code) => self.fails(code, response),
            PlanView::Single(name) => {
                &&& response matches ResponseTypeView::Single(single)
                &&& self.gives(name, request.spec_parameter(), false, single)
            },
            PlanView::Batch(names) => {
                &&& response matches ResponseTypeView::Multi(entries)
                &&& self.collects(names, request.spec_parameter(), entries)
            },
        }
    }

    /// A command that reads the parameter is refused as part of a batch,
    /// whatever the parameter is; a command that does not is treated in a
    /// batch as it is alone. So a request for two commands of which only the
    /// second reads the parameter gets two answers, in the order of the
    /// request: for the first what it would get alone, for the second the
    /// error that access is denied, which names the command.
    pub proof fn lemma_batch_refuses_parameter(
        &self,
        request: Request,
        response: ResponseTypeView,
        first: Seq<char>,
        second: Seq<char>,
    )
        requires
            first.len() > 0,
            second.len() > 0,
            plus_free(first),
            plus_free(second),
            spec_find(spec_commands(), first) matches Some(descriptor)
                && !descriptor.has_parameters(),
            spec_find(spec_commands(), second) matches Some(descriptor)
                && descriptor.has_parameters(),
            request.spec_command() == Some(first + seq!['+'] + second),
            self.responds(request, response),
        ensures
            spec_split(first + seq!['+'] + second) == seq![first, second],
            self.spec_decide(second, request.spec_parameter(), true) == ActionView::Reply(
                Dispatch::spec_failure(ErrorCodeView::AccessDeniedCmd(second)),
            ),
            self.spec_decide(first, request.spec_parameter(), true) == self.spec_decide(
                first,
                request.spec_parameter(),
                false,
            ),
            response matches ResponseTypeView::Multi(entries) && {
                &&& entries.len() == 2
                &&& entries[0].0 == first
                &&& self.gives(first, request.spec_parameter(), false, entries[0].1)
                &&& entries[1].0 == second
                &&& entries[1].1.description == self.spec_description()
                &&& entries[1].1.dispatch == Dispatch::spec_failure(
                    ErrorCodeView::AccessDeniedCmd(second),
                )
            },
    {
        let names = spec_split(first + seq!['+'] + second);
        lemma_split_join(first, second);
        lemma_split_plain(first);
        lemma_split_plain(second);
        assert(names =~= seq![first, second]);
        let parameter = request.spec_parameter();
        let entries = response->Multi_0;
        assert(request.spec_plan() == PlanView::Batch(names));
        assert(self.collects(names, parameter, entries));
        let parts = choose|parts: Seq<ResponseView>|
            {
                &&& parts.len() == names.len()
                &&& forall|i: int|
                    0 <= i < names.len() ==> self.gives(
                        names[i],
                        parameter,
                        true,
                        #[trigger] parts[i],
                    )
                &&& entries == #[trigger] MultiResponse::spec_collect(names, parts)
            };
        MultiResponse::lemma_collect_in_order(names, parts);
        assert(self.gives(names[0], parameter, true, parts[0]));
        assert(self.gives(names[1], parameter, true, parts[1]));
        assert(entries[0] == (names[0], parts[0]));
        assert(entries[1] == (names[1], parts[1]));
    }

    /// Asks the handler through its method `handler`.
    fn call(&self, handler: ParameterLessHandler) -> (outcome: Result<Value, Error>)
        ensures
            self.spec_handler().answers(handler, outcome),
    {
        match handler {
            ParameterLessHandler::Pools => self.handler.handle_pools(),
            ParameterLessHandler::Devs => self.handler.handle_devs(),
            ParameterLessHandler::Edevs => self.handler.handle_edevs(),
            ParameterLessHandler::Summary => self.handler.handle_summary(),
            ParameterLessHandler::Config => self.handler.handle_config(),
            ParameterLessHandler::DevDetails => self.handler.handle_dev_details(),
            ParameterLessHandler::Stats => self.handler.handle_stats(),
            ParameterLessHandler::Estats => self.handler.handle_estats(),
            ParameterLessHandler::Coin => self.handler.handle_coin(),
            ParameterLessHandler::AscCount => self.handler.handle_asc_count(),
            ParameterLessHandler::Lcd => self.handler.handle_lcd(),
        }
    }

    /// Asks the handler through its method `handler`, which takes the
    /// parameter of the request.
    fn call_with_parameter(&self, handler: ParameterHandler, parameter: Option<&Value>) -> (outcome:
        Result<Value, Error>)
        requires
            parameter matches Some(value) && spec_is_i32(crate::json::json_i64(*value)),
        ensures
            self.spec_handler().answers_parameter(handler, lent(parameter), outcome),
    {
        match handler {
            ParameterHandler::Asc => self.handler.handle_asc(parameter),
        }
    }

    /// Handles the single command `command` with the parameter `parameter`.
    /// The `multi_command` flag ensures that no command that reads the
    /// parameter is processed in a batch. Whatever fails becomes an error in
    /// the dispatch.
    pub fn handle_single(&self, command: &str, parameter: Option<&Value>, multi_command: bool) -> (dispatch:
        Dispatch)
        ensures
            self.admits(command@, lent(parameter), multi_command, dispatch@),
    {
        match self.decide(command, parameter, multi_command) {
            Action::Reply(dispatch) => dispatch,
            Action::Call(handler) => Dispatch::from_outcome(self.call(handler)),
            Action::CallWithParameter(handler) => {
                proof {
                    self.lemma_handler_gets_checked(command@, lent(parameter), multi_command);
                }
                Dispatch::from_outcome(self.call_with_parameter(handler, parameter))
            },
        }
    }

    /// Handles a request, which may ask for one command or, with the names
    /// joined by `+`, for several. A request for one command gets a single
    /// response. A request for several gets the responses of all of them,
    /// each under the name of its command, in the order of the request.
    pub fn handle(&self, command_request: Request) -> (response: ResponseType)
        ensures
            self.responds(command_request, response@),
    {
        let parameter = command_request.parameter();
        match command_request.plan() {
            Plan::Refuse(code) => {
                let response = self.get_single_response(Dispatch::failure(code));
                assert(self.fails(code@, response@));
                response
            },
            Plan::Single(command) => {
                let response = self.get_single_response(
                    self.handle_single(command.as_str(), parameter, false),
                );
                assert(self.gives(command@, lent(parameter), false, response@->Single_0));
                response
            },
            Plan::Batch(commands) => {
                let ghost names = spec_names(commands@);
                let mut responses = MultiResponse::new();
                let ghost mut parts: Seq<ResponseView> = Seq::empty();
                let mut index: usize = 0;
                assert(names.take(0) =~= Seq::<Seq<char>>::empty());
                while index < commands.len()
                    invariant
                        index <= commands.len(),
                        names == spec_names(commands@),
                        parts.len() == index,
                        forall|i: int|
                            0 <= i < index ==> self.gives(
                                names[i],
                                lent(parameter),
                                true,
                                #[trigger] parts[i],
                            ),
                        responses@ == MultiResponse::spec_collect(names.take(index as int), parts),
                    decreases commands.len() - index,
                {
                    let name = commands[index].as_str();
                    assert(name@ == names[index as int]);
                    let single = self.envelope(self.handle_single(name, parameter, true));
                    proof {
                        let before = names.take(index as int);
                        let after = names.take(index + 1);
                        assert(after.drop_last() =~= before);
                        assert(parts.push(single@).drop_last() =~= parts);
                        parts = parts.push(single@);
                    }
                    responses.add_response(name, single);
                    index += 1;
                }
                assert(names.take(index as int) =~= names);
                assert(command_request.spec_plan() == PlanView::Batch(names));
                assert(responses@ == MultiResponse::spec_collect(names, parts));
                let response = ResponseType::Multi(responses);
                assert(self.collects(names, lent(parameter), response@->Multi_0));
                assert(self.responds(command_request, response@));
                response
            },
        }
    }
}

/// The descriptor of a command that a method of the handler answers without
/// a parameter.
fn command(name: &'static str, handler: ParameterLessHandler) -> (descriptor: Descriptor)
    ensures
        descriptor@ == spec_parameter_less(name@, handler),
{
    Descriptor::new(name, HandlerType::ParameterLess(handler), None)
}

} // verus!
