use vstd::prelude::*;

use crate::conversation::{Message, Role};
use crate::error::MyError;
use crate::text::{chars_of, find_from, is_first_at, same_text, split_commas_trimmed, split_on, trimmed};

verus! {

/// A JSON-compatible argument value. Numbers that are not integers, arrays
/// and objects are kept as their JSON text.
#[derive(Debug)]
pub enum ArgValue {
    Null,
    Bool(bool),
    Int(i64),
    Text(String),
    Other(String),
}

/// A call of a named tool with named arguments, as the model wrote it.
#[derive(Debug)]
pub struct FunctionCall {
    pub name: String,
    pub arguments: Vec<(String, ArgValue)>,
}

/// A structured request, in an assistant message, to run a registered tool.
#[derive(Debug)]
pub enum ToolCall {
    FunctionCall(FunctionCall),
}

impl ToolCall {
    pub open spec fn spec_call(&self) -> FunctionCall {
        match *self {
            ToolCall::FunctionCall(c) => c,
        }
    }

    pub fn call(&self) -> (r: &FunctionCall)
        ensures
            *r == self.spec_call(),
    {
        match self {
            ToolCall::FunctionCall(c) => c,
        }
    }
}

/// The type that a tool parameter demands of its value.
#[derive(Clone, Copy, PartialEq, Eq, Structural, Debug)]
pub enum ParamKind {
    Text,
    Integer,
    Boolean,
    /// A text that reads as an RFC 3339 date and time.
    Timestamp,
}

#[derive(Debug)]
pub struct Param {
    pub name: String,
    pub kind: ParamKind,
    pub required: bool,
}

/// A registered tool: its name, what it does, and its parameter schema.
#[derive(Debug)]
pub struct Function {
    pub name: String,
    pub description: String,
    pub parameters: Vec<Param>,
}

/// What a tool-call inspection found in a message.
#[derive(PartialEq, Eq, Structural, Debug)]
pub enum ToolDecision {
    NoToolCall,
    ToolCallDetected { count: usize },
}

/// The instant that chrono reads from an RFC 3339 text, in seconds since
/// the Unix epoch; `None` where it reads none.
pub uninterp spec fn utc_seconds(s: Seq<char>) -> Option<i64>;

/// Relies on chrono's `FromStr` for `DateTime<Utc>` and on
/// `DateTime::timestamp`.
#[verifier::external_body]
fn parse_utc(s: &str) -> (r: Option<i64>)
    ensures
        r == utc_seconds(s@),
{
    s.parse::<chrono::DateTime<chrono::Utc>>().ok().map(|t| t.timestamp())
}

pub open spec fn value_fits(v: ArgValue, k: ParamKind) -> bool {
    match k {
        ParamKind::Text => v is Text,
        ParamKind::Integer => v is Int,
        ParamKind::Boolean => v is Bool,
        ParamKind::Timestamp => match v {
            ArgValue::Text(s) => utc_seconds(s@) is Some,
            _ => false,
        },
    }
}

pub open spec fn has_arg(args: Seq<(String, ArgValue)>, name: Seq<char>) -> bool {
    exists|i: int| 0 <= i < args.len() && (#[trigger] args[i]).0@ == name
}

/// Every required parameter has an argument, and every argument named
/// like a parameter has that parameter's type.
pub open spec fn args_valid(params: Seq<Param>, args: Seq<(String, ArgValue)>) -> bool {
    &&& forall|j: int|
        0 <= j < params.len() && (#[trigger] params[j]).required ==> has_arg(args, params[j].name@)
    &&& forall|j: int, i: int|
        0 <= j < params.len() && 0 <= i < args.len() && (#[trigger] args[i]).0@ == (
        #[trigger] params[j]).name@ ==> value_fits(args[i].1, params[j].kind)
}

pub open spec fn has_tool(tools: Seq<Function>, name: Seq<char>) -> bool {
    exists|i: int| 0 <= i < tools.len() && (#[trigger] tools[i]).name@ == name
}

/// `i` is the first registered tool with this name.
pub open spec fn is_first_tool(tools: Seq<Function>, name: Seq<char>, i: int) -> bool {
    &&& 0 <= i < tools.len()
    &&& tools[i].name@ == name
    &&& forall|k: int| 0 <= k < i ==> (#[trigger] tools[k]).name@ != name
}

pub open spec fn first_tool(tools: Seq<Function>, name: Seq<char>) -> int {
    choose|i: int| is_first_tool(tools, name, i)
}

fn arg_fits(v: &ArgValue, k: ParamKind) -> (r: bool)
    ensures
        r == value_fits(*v, k),
{
    match k {
        ParamKind::Text => matches!(v, ArgValue::Text(_)),
        ParamKind::Integer => matches!(v, ArgValue::Int(_)),
        ParamKind::Boolean => matches!(v, ArgValue::Bool(_)),
        ParamKind::Timestamp => match v {
            ArgValue::Text(s) => parse_utc(s.as_str()).is_some(),
            _ => false,
        },
    }
}

/// Checks arguments against a parameter schema.
pub fn validate(params: &Vec<Param>, args: &Vec<(String, ArgValue)>) -> (r: bool)
    ensures
        r == args_valid(params@, args@),
{
    let mut j: usize = 0;
    while j < params.len()
        invariant
            j <= params@.len(),
            forall|jj: int|
                0 <= jj < j && (#[trigger] params@[jj]).required ==> has_arg(args@, params@[jj].name@),
            forall|jj: int, i: int|
                0 <= jj < j && 0 <= i < args@.len() && (#[trigger] args@[i]).0@ == (
                #[trigger] params@[jj]).name@ ==> value_fits(args@[i].1, params@[jj].kind),
        decreases params@.len() - j,
    {
        let p = &params[j];
        let mut found = false;
        let ghost mut witness: int = 0;
        let mut i: usize = 0;
        while i < args.len()
            invariant
                i <= args@.len(),
                j < params@.len(),
                p == params@[j as int],
                found ==> 0 <= witness < args@.len() && args@[witness].0@ == p.name@,
                !found ==> forall|ii: int| 0 <= ii < i ==> (#[trigger] args@[ii]).0@ != p.name@,
                forall|ii: int|
                    0 <= ii < i && (#[trigger] args@[ii]).0@ == p.name@ ==> value_fits(
                        args@[ii].1,
                        p.kind,
                    ),
            decreases args@.len() - i,
        {
            if same_text(args[i].0.as_str(), p.name.as_str()) {
                if !arg_fits(&args[i].1, p.kind) {
                    assert(args@[i as int].0@ == params@[j as int].name@);
                    return false;
                }
                found = true;
                proof {
                    witness = i as int;
                }
            }
            i += 1;
        }
        if p.required && !found {
            assert(!has_arg(args@, params@[j as int].name@));
            return false;
        }
        if found {
            assert(has_arg(args@, p.name@)) by {
                assert(args@[witness].0@ == p.name@);
            }
        }
        j += 1;
    }
    true
}

/// The first registered tool with this name.
pub fn find_tool(tools: &Vec<Function>, name: &str) -> (r: Option<usize>)
    ensures
        match r {
            Some(i) => is_first_tool(tools@, name@, i as int),
            None => !has_tool(tools@, name@),
        },
{
    let mut i: usize = 0;
    while i < tools.len()
        invariant
            i <= tools@.len(),
            forall|k: int| 0 <= k < i ==> (#[trigger] tools@[k]).name@ != name@,
        decreases tools@.len() - i,
    {
        if same_text(tools[i].name.as_str(), name) {
            return Some(i);
        }
        i += 1;
    }
    None
}

/// The verdict on a tool call: the index of the tool to run, or why none
/// may run.
pub fn check_call(tools: &Vec<Function>, call: &FunctionCall) -> (r: Result<usize, MyError>)
    ensures
        match r {
            Ok(i) => is_first_tool(tools@, call.name@, i as int) && args_valid(
                tools@[i as int].parameters@,
                call.arguments@,
            ),
            Err(MyError::UnknownTool(n)) => !has_tool(tools@, call.name@) && n@ == call.name@,
            Err(MyError::Argument(_)) => has_tool(tools@, call.name@) && !args_valid(
                tools@[first_tool(tools@, call.name@)].parameters@,
                call.arguments@,
            ),
            Err(_) => false,
        },
{
    match find_tool(tools, call.name.as_str()) {
        None => Err(MyError::UnknownTool(call.name.clone())),
        Some(i) => {
            proof {
                lemma_first_tool_unique(tools@, call.name@, i as int);
            }
            if validate(&tools[i].parameters, &call.arguments) {
                Ok(i)
            } else {
                Err(MyError::Argument(String::from_str("arguments do not match the tool's parameters")))
            }
        },
    }
}

proof fn lemma_first_tool_unique(tools: Seq<Function>, name: Seq<char>, i: int)
    requires
        is_first_tool(tools, name, i),
    ensures
        has_tool(tools, name),
        first_tool(tools, name) == i,
{
    assert(tools[i].name@ == name);
    let c = first_tool(tools, name);
    assert(is_first_tool(tools, name, c));
    if c < i {
        assert(tools[c].name@ != name);
    } else if i < c {
        assert(tools[i].name@ != name);
    }
}

/// `a` is the first `(` and `b` the first `)` of a text-form call such as
/// `get_weather(London, 2024-08-28T14:00:00Z)`, and the one opens before the
/// other closes.
pub open spec fn call_parens(input: Seq<char>, a: int, b: int) -> bool {
    is_first_at(input, "("@, 0, a) && is_first_at(input, ")"@, 0, b) && a < b
}

pub open spec fn has_call_parens(input: Seq<char>) -> bool {
    exists|a: int, b: int| #[trigger] call_parens(input, a, b)
}

/// A parameter of this type can be given in text form.
pub open spec fn text_fits(s: Seq<char>, k: ParamKind) -> bool {
    k == ParamKind::Text || (k == ParamKind::Timestamp && utc_seconds(s) is Some)
}

/// Positional text arguments, trimmed, fit the parameters they stand for.
pub open spec fn text_args_valid(params: Seq<Param>, pieces: Seq<Seq<char>>) -> bool {
    forall|j: int, k: int|
        0 <= j < params.len() && 0 <= k < params.len() && (#[trigger] params[k]).name@ == (
        #[trigger] params[j]).name@ ==> text_fits(trimmed(pieces[k]), params[j].kind)
}

/// `args` names each positional text argument after its parameter.
pub open spec fn args_from_text(
    params: Seq<Param>,
    pieces: Seq<Seq<char>>,
    args: Seq<(String, ArgValue)>,
) -> bool {
    &&& args.len() == params.len()
    &&& forall|k: int|
        0 <= k < args.len() ==> (#[trigger] args[k]).0@ == params[k].name@ && (args[k].1 matches ArgValue::Text(
            t,
        ) && t@ == trimmed(pieces[k]))
}

/// What a text-form call names and passes, between the parentheses at
/// `a` and `b`: its tool exists, takes as many parameters as it is given,
/// and accepts them.
pub open spec fn text_call_accepted(tools: Seq<Function>, input: Seq<char>, a: int, b: int) -> bool {
    let name = input.subrange(0, a);
    let pieces = split_on(input.subrange(a + 1, b), ',');
    let params = tools[first_tool(tools, name)].parameters@;
    has_tool(tools, name) && pieces.len() == params.len() && text_args_valid(params, pieces)
}

proof fn lemma_first_at_unique(s: Seq<char>, p: Seq<char>, from: int, i: int, j: int)
    requires
        is_first_at(s, p, from, i),
        is_first_at(s, p, from, j),
    ensures
        i == j,
{
}

proof fn lemma_text_args(params: Seq<Param>, pieces: Seq<Seq<char>>, args: Seq<(String, ArgValue)>)
    requires
        pieces.len() == params.len(),
        args_from_text(params, pieces, args),
    ensures
        args_valid(params, args) == text_args_valid(params, pieces),
{
    assert forall|j: int| 0 <= j < params.len() && (#[trigger] params[j]).required implies has_arg(
        args,
        params[j].name@,
    ) by {
        assert(args[j].0@ == params[j].name@);
    }
    if text_args_valid(params, pieces) {
        assert forall|j: int, i: int|
            0 <= j < params.len() && 0 <= i < args.len() && (#[trigger] args[i]).0@ == (
            #[trigger] params[j]).name@ implies value_fits(args[i].1, params[j].kind) by {
            assert(params[i].name@ == params[j].name@);
        }
    }
    if args_valid(params, args) {
        assert forall|j: int, k: int|
            0 <= j < params.len() && 0 <= k < params.len() && (#[trigger] params[k]).name@ == (
            #[trigger] params[j]).name@ implies text_fits(trimmed(pieces[k]), params[j].kind) by {
            assert(args[k].0@ == params[j].name@);
        }
    }
}

/// Reads a text-form call, `name(arg, arg, ...)`, and makes it a call of
/// the registered tool of that name: the arguments, trimmed, stand for the
/// tool's parameters in order.
pub fn parse_and_call(tools: &Vec<Function>, input: &str) -> (r: Result<ToolCall, MyError>)
    ensures
        match r {
            Ok(ToolCall::FunctionCall(c)) => exists|a: int, b: int|
                #[trigger] call_parens(input@, a, b) && text_call_accepted(tools@, input@, a, b)
                    && c.name@ == input@.subrange(0, a) && args_from_text(
                    tools@[first_tool(tools@, c.name@)].parameters@,
                    split_on(input@.subrange(a + 1, b), ','),
                    c.arguments@,
                ),
            Err(MyError::UnknownTool(n)) => exists|a: int, b: int|
                #[trigger] call_parens(input@, a, b) && n@ == input@.subrange(0, a) && !has_tool(
                    tools@,
                    n@,
                ),
            Err(MyError::Argument(_)) => !has_call_parens(input@) || exists|a: int, b: int|
                #[trigger] call_parens(input@, a, b) && has_tool(tools@, input@.subrange(0, a))
                    && !text_call_accepted(tools@, input@, a, b),
            Err(_) => false,
        },
{
    let cs = chars_of(input);
    let open = chars_of("(");
    let close = chars_of(")");
    let a = match find_from(&cs, &open, 0) {
        Some(a) => a,
        None => return Err(MyError::Argument(String::from_str("a call needs an opening parenthesis"))),
    };
    let b = match find_from(&cs, &close, 0) {
        Some(b) => b,
        None => return Err(MyError::Argument(String::from_str("a call needs a closing parenthesis"))),
    };
    if b <= a {
        proof {
            assert forall|a2: int, b2: int| !#[trigger] call_parens(input@, a2, b2) by {
                if call_parens(input@, a2, b2) {
                    lemma_first_at_unique(input@, "("@, 0, a as int, a2);
                    lemma_first_at_unique(input@, ")"@, 0, b as int, b2);
                }
            }
        }
        return Err(MyError::Argument(String::from_str("a call closes before it opens")));
    }
    assert(call_parens(input@, a as int, b as int));
    let name = input.substring_char(0, a);
    let inner = input.substring_char(a + 1, b);
    let pieces = split_commas_trimmed(inner);
    let i = match find_tool(tools, name) {
        Some(i) => i,
        None => return Err(MyError::UnknownTool(name.to_owned())),
    };
    proof {
        lemma_first_tool_unique(tools@, name@, i as int);
    }
    let params = &tools[i].parameters;
    if pieces.len() != params.len() {
        return Err(MyError::Argument(String::from_str("wrong number of arguments")));
    }
    let ghost split = split_on(inner@, ',');
    let mut args: Vec<(String, ArgValue)> = Vec::new();
    let mut k: usize = 0;
    while k < params.len()
        invariant
            k <= params@.len(),
            pieces@.len() == params@.len(),
            split.len() == pieces@.len(),
            forall|q: int| 0 <= q < pieces@.len() ==> #[trigger] pieces@[q]@ == trimmed(split[q]),
            args@.len() == k,
            forall|q: int|
                0 <= q < k ==> (#[trigger] args@[q]).0@ == params@[q].name@ && (args@[q].1 matches ArgValue::Text(
                    t,
                ) && t@ == trimmed(split[q])),
        decreases params@.len() - k,
    {
        args.push((params[k].name.clone(), ArgValue::Text(pieces[k].clone())));
        k += 1;
    }
    proof {
        lemma_text_args(params@, split, args@);
    }
    if !validate(params, &args) {
        return Err(MyError::Argument(String::from_str("arguments do not match the tool's parameters")));
    }
    Ok(ToolCall::FunctionCall(FunctionCall { name: name.to_owned(), arguments: args }))
}

/// The schema of the weather tool: a location and an instant.
pub fn weather_function() -> (r: Function)
    ensures
        r.name@ == "get_weather"@,
        r.parameters@.len() == 2,
        r.parameters@[0].name@ == "location"@,
        r.parameters@[0].kind == ParamKind::Text,
        r.parameters@[0].required,
        r.parameters@[1].name@ == "time"@,
        r.parameters@[1].kind == ParamKind::Timestamp,
        r.parameters@[1].required,
{
    let mut parameters: Vec<Param> = Vec::new();
    parameters.push(Param { name: String::from_str("location"), kind: ParamKind::Text, required: true });
    parameters.push(Param { name: String::from_str("time"), kind: ParamKind::Timestamp, required: true });
    Function {
        name: String::from_str("get_weather"),
        description: String::from_str("Get the weather for a location at a given time"),
        parameters,
    }
}

/// Whether a message asks for tools: only an assistant's can.
pub fn inspect(m: &Message) -> (r: ToolDecision)
    ensures
        r == (if m.role == Role::Assistant && m.tool_calls@.len() > 0 {
            ToolDecision::ToolCallDetected { count: m.tool_calls@.len() as usize }
        } else {
            ToolDecision::NoToolCall
        }),
{
    if m.role == Role::Assistant && m.is_tool_call() {
        ToolDecision::ToolCallDetected { count: m.tool_calls.len() }
    } else {
        ToolDecision::NoToolCall
    }
}

} // verus!
