//! The command line that the Stream Deck application starts the plugin with:
//! `-port <port> -pluginUUID <uuid> -registerEvent <event> -info <json>`.

use vstd::prelude::*;
use vstd::string::StringExecFns;

use crate::text::{
    chars_of, decimal, decimal_reads_back, digits_value, is_digit, prefix_value_bounded,
    unsigned_digits,
};

verus! {

/// Why a decimal number could not be read (the kinds of `ParseIntError`).
#[derive(Debug, Clone, Copy, PartialEq, Eq, Structural)]
pub enum IntError {
    /// cannot parse integer from empty string
    Empty,
    /// invalid digit found in string
    InvalidDigit,
    /// number too large to fit in target type
    TooLarge,
}

impl IntError {
    /// The text shown to the user.
    pub fn to_string(&self) -> (s: String)
        ensures
            s@ == match *self {
                IntError::Empty => "cannot parse integer from empty string"@,
                IntError::InvalidDigit => "invalid digit found in string"@,
                IntError::TooLarge => "number too large to fit in target type"@,
            },
    {
        match self {
            IntError::Empty => String::from_str("cannot parse integer from empty string"),
            IntError::InvalidDigit => String::from_str("invalid digit found in string"),
            IntError::TooLarge => String::from_str("number too large to fit in target type"),
        }
    }
}

/// At position `k` of the digits `d`, reading stops: a non-digit, or a
/// prefix whose value exceeds 65535.
pub open spec fn port_stops_at(d: Seq<char>, k: int) -> bool {
    !is_digit(d[k], 10) || digits_value(d.take(k + 1), 10) > 0xFFFF
}

/// A port number read as `u16::from_str` reads it: the digits after an
/// optional `+`, left to right; the first non-digit, or the first digit that
/// takes the value past 65535, ends the reading with an error.
pub open spec fn port_reading(s: Seq<char>) -> Result<u16, IntError> {
    let d = unsigned_digits(s);
    if s.len() == 0 {
        Err(IntError::Empty)
    } else if d.len() == 0 {
        Err(IntError::InvalidDigit)
    } else if exists|k: int| 0 <= k < d.len() && port_stops_at(d, k) {
        let k = choose|k: int|
            0 <= k < d.len() && port_stops_at(d, k) && forall|j: int|
                0 <= j < k ==> !port_stops_at(d, j);
        if !is_digit(d[k], 10) {
            Err(IntError::InvalidDigit)
        } else {
            Err(IntError::TooLarge)
        }
    } else {
        Ok(digits_value(d, 10) as u16)
    }
}

proof fn lemma_first_stop(d: Seq<char>, k: int)
    requires
        0 <= k < d.len(),
        port_stops_at(d, k),
        forall|j: int| 0 <= j < k ==> !port_stops_at(d, j),
    ensures
        (choose|w: int|
            0 <= w < d.len() && port_stops_at(d, w) && forall|j: int|
                0 <= j < w ==> !port_stops_at(d, j)) == k,
{
    let w = choose|w: int|
        0 <= w < d.len() && port_stops_at(d, w) && forall|j: int| 0 <= j < w ==> !port_stops_at(d, j);
    if w < k {
        assert(!port_stops_at(d, w));
    } else if w > k {
        assert(!port_stops_at(d, k));
    }
}

/// Read a port number.
pub fn parse_port(text: &str) -> (r: Result<u16, IntError>)
    ensures
        r == port_reading(text@),
{
    let s = chars_of(text);
    if s.len() == 0 {
        return Err(IntError::Empty);
    }
    let ghost d = unsigned_digits(s@);
    let start: usize = if s[0] == '+' {
        1
    } else {
        0
    };
    if start >= s.len() {
        return Err(IntError::InvalidDigit);
    }
    let mut value: u32 = 0;
    let mut i: usize = start;
    while i < s.len()
        invariant
            s@ == text@,
            start == 0 || start == 1,
            start < s@.len(),
            start <= i <= s@.len(),
            d == unsigned_digits(s@),
            d == s@.subrange(start as int, s@.len() as int),
            value == digits_value(d.take(i - start), 10),
            value <= 0xFFFF,
            forall|j: int| 0 <= j < i - start ==> !port_stops_at(d, j),
        decreases s@.len() - i,
    {
        let c = s[i];
        let k: usize = i - start;
        proof {
            assert(d[k as int] == c);
            assert(d.take(k + 1).drop_last() =~= d.take(k as int));
            assert(d.take(k + 1).last() == c);
        }
        if !('0' <= c && c <= '9') {
            proof {
                assert(port_stops_at(d, k as int));
                lemma_first_stop(d, k as int);
            }
            return Err(IntError::InvalidDigit);
        }
        let next: u32 = value * 10 + (c as u32 - 48);
        if next > 0xFFFF {
            proof {
                assert(port_stops_at(d, k as int));
                lemma_first_stop(d, k as int);
            }
            return Err(IntError::TooLarge);
        }
        value = next;
        i = i + 1;
    }
    proof {
        assert(d.take(d.len() as int) =~= d);
    }
    Ok(value as u16)
}

/// The options of the plugin's command line.
#[derive(Debug, Clone, Copy, PartialEq, Eq, Structural)]
pub enum PluginOption {
    Port,
    PluginUuid,
    RegisterEvent,
    Info,
}

/// The name of an option without its dash.
pub open spec fn option_name(o: PluginOption) -> Seq<char> {
    match o {
        PluginOption::Port => "port"@,
        PluginOption::PluginUuid => "pluginUUID"@,
        PluginOption::RegisterEvent => "registerEvent"@,
        PluginOption::Info => "info"@,
    }
}

/// A problem with the plugin's command line.
#[derive(Debug, Clone, Copy, PartialEq, Eq, Structural)]
pub enum PluginArgError {
    /// The option is the last argument.
    MissingValue(PluginOption),
    /// The port is not a number from 0 to 65535.
    InvalidPort(IntError),
    /// The option never occurs.
    MissingArgument(PluginOption),
}

impl PluginArgError {
    /// The text shown to the user.
    pub fn to_string(&self) -> (s: String)
        ensures
            s@ == match *self {
                PluginArgError::MissingValue(o) => "Missing "@ + option_name(o) + " value"@,
                PluginArgError::InvalidPort(e) => match e {
                    IntError::Empty => "cannot parse integer from empty string"@,
                    IntError::InvalidDigit => "invalid digit found in string"@,
                    IntError::TooLarge => "number too large to fit in target type"@,
                },
                PluginArgError::MissingArgument(o) => "Missing -"@ + option_name(o) + " argument"@,
            },
    {
        match self {
            PluginArgError::MissingValue(o) => {
                let mut s = String::from_str("Missing ");
                s.append(option_text(*o));
                s.append(" value");
                s
            },
            PluginArgError::InvalidPort(e) => e.to_string(),
            PluginArgError::MissingArgument(o) => {
                let mut s = String::from_str("Missing -");
                s.append(option_text(*o));
                s.append(" argument");
                s
            },
        }
    }
}

fn option_text(o: PluginOption) -> (s: &'static str)
    ensures
        s@ == option_name(o),
{
    match o {
        PluginOption::Port => "port",
        PluginOption::PluginUuid => "pluginUUID",
        PluginOption::RegisterEvent => "registerEvent",
        PluginOption::Info => "info",
    }
}

/// One option read from the command line, with its value.
#[derive(Debug, Clone)]
pub enum PluginArg {
    Port(u16),
    PluginUuid(String),
    RegisterEvent(String),
    /// The JSON text describing the application and its devices.
    Info(String),
    /// An argument that is no option of the plugin.
    Ignored,
}

/// The option an argument names.
pub open spec fn option_of(arg: Seq<char>) -> Option<PluginOption> {
    if arg == "-port"@ {
        Some(PluginOption::Port)
    } else if arg == "-pluginUUID"@ {
        Some(PluginOption::PluginUuid)
    } else if arg == "-registerEvent"@ {
        Some(PluginOption::RegisterEvent)
    } else if arg == "-info"@ {
        Some(PluginOption::Info)
    } else {
        None
    }
}

/// Read the argument at `i` (the program name is at 0): an option takes the
/// following argument as its value; the result gives the position after
/// what was read.
pub fn plugin_arg_at(args: &Vec<String>, i: usize) -> (r: Result<(PluginArg, usize), PluginArgError>)
    requires
        i < args@.len(),
    ensures
        match option_of(args@[i as int]@) {
            None => r matches Ok((PluginArg::Ignored, next)) && next == i + 1,
            Some(o) => if i + 1 >= args@.len() {
                r == Err::<(PluginArg, usize), PluginArgError>(PluginArgError::MissingValue(o))
            } else {
                let value = args@[i + 1]@;
                match o {
                    PluginOption::Port => match port_reading(value) {
                        Ok(p) => r matches Ok((PluginArg::Port(q), next)) && q == p && next == i + 2,
                        Err(e) => r == Err::<(PluginArg, usize), PluginArgError>(
                            PluginArgError::InvalidPort(e),
                        ),
                    },
                    PluginOption::PluginUuid => r matches Ok((PluginArg::PluginUuid(v), next)) && v@
                        == value && next == i + 2,
                    PluginOption::RegisterEvent => r matches Ok((PluginArg::RegisterEvent(v), next))
                        && v@ == value && next == i + 2,
                    PluginOption::Info => r matches Ok((PluginArg::Info(v), next)) && v@ == value
                        && next == i + 2,
                }
            },
        },
{
    let n = args.len();
    let arg = &args[i];
    let port_flag = String::from_str("-port");
    let uuid_flag = String::from_str("-pluginUUID");
    let register_flag = String::from_str("-registerEvent");
    let info_flag = String::from_str("-info");
    let option = if *arg == port_flag {
        PluginOption::Port
    } else if *arg == uuid_flag {
        PluginOption::PluginUuid
    } else if *arg == register_flag {
        PluginOption::RegisterEvent
    } else if *arg == info_flag {
        PluginOption::Info
    } else {
        return Ok((PluginArg::Ignored, i + 1));
    };
    if i + 1 >= n {
        return Err(PluginArgError::MissingValue(option));
    }
    let value = &args[i + 1];
    let parsed = match option {
        PluginOption::Port => match parse_port(value.as_str()) {
            Ok(p) => PluginArg::Port(p),
            Err(e) => {
                return Err(PluginArgError::InvalidPort(e));
            },
        },
        PluginOption::PluginUuid => PluginArg::PluginUuid(value.clone()),
        PluginOption::RegisterEvent => PluginArg::RegisterEvent(value.clone()),
        PluginOption::Info => PluginArg::Info(value.clone()),
    };
    Ok((parsed, i + 2))
}

/// What an argument read from the command line stands for, by value.
pub enum ArgValue {
    Port(u16),
    PluginUuid(Seq<char>),
    RegisterEvent(Seq<char>),
    Info(Seq<char>),
    Ignored,
}

/// The value of an argument that was read.
pub open spec fn arg_value(a: PluginArg) -> ArgValue {
    match a {
        PluginArg::Port(p) => ArgValue::Port(p),
        PluginArg::PluginUuid(v) => ArgValue::PluginUuid(v@),
        PluginArg::RegisterEvent(v) => ArgValue::RegisterEvent(v@),
        PluginArg::Info(v) => ArgValue::Info(v@),
        PluginArg::Ignored => ArgValue::Ignored,
    }
}

/// The value that option `o` takes from the text following it.
pub open spec fn option_value(o: PluginOption, value: Seq<char>) -> Result<ArgValue, PluginArgError> {
    match o {
        PluginOption::Port => match port_reading(value) {
            Ok(p) => Ok(ArgValue::Port(p)),
            Err(e) => Err(PluginArgError::InvalidPort(e)),
        },
        PluginOption::PluginUuid => Ok(ArgValue::PluginUuid(value)),
        PluginOption::RegisterEvent => Ok(ArgValue::RegisterEvent(value)),
        PluginOption::Info => Ok(ArgValue::Info(value)),
    }
}

/// Reading the arguments from position `i` on, left to right: the values
/// read, in order, and the error that stopped the reading, if any.
pub open spec fn args_from(args: Seq<Seq<char>>, i: int) -> (Seq<ArgValue>, Option<PluginArgError>)
    decreases args.len() - i,
{
    if i < 0 || i >= args.len() {
        (Seq::empty(), None)
    } else {
        match option_of(args[i]) {
            None => {
                let rest = args_from(args, i + 1);
                (seq![ArgValue::Ignored] + rest.0, rest.1)
            },
            Some(o) => if i + 1 >= args.len() {
                (Seq::empty(), Some(PluginArgError::MissingValue(o)))
            } else {
                match option_value(o, args[i + 1]) {
                    Ok(v) => {
                        let rest = args_from(args, i + 2);
                        (seq![v] + rest.0, rest.1)
                    },
                    Err(e) => (Seq::empty(), Some(e)),
                }
            },
        }
    }
}

/// The texts of the arguments.
pub open spec fn arg_texts(args: Seq<String>) -> Seq<Seq<char>> {
    args.map_values(|a: String| a@)
}

/// Read the whole command line after the program name: the options read, in
/// order, and the error that stopped the reading, if any. The options read
/// before an error are handed back too, so that the caller can handle them
/// in order before it reports the error.
pub fn plugin_args(args: &Vec<String>) -> (r: (Vec<PluginArg>, Option<PluginArgError>))
    ensures
        r.0@.map_values(|a: PluginArg| arg_value(a)) == args_from(arg_texts(args@), 1).0,
        r.1 == args_from(arg_texts(args@), 1).1,
{
    let ghost texts = arg_texts(args@);
    let ghost whole = args_from(texts, 1);
    let mut out: Vec<PluginArg> = Vec::new();
    let mut i: usize = 1;
    if args.len() == 0 {
        return (out, None);
    }
    while i < args.len()
        invariant
            texts == arg_texts(args@),
            whole == args_from(texts, 1),
            1 <= i <= args@.len(),
            out@.map_values(|a: PluginArg| arg_value(a)) + args_from(texts, i as int).0 == whole.0,
            args_from(texts, i as int).1 == whole.1,
        decreases args@.len() - i,
    {
        let ghost before = args_from(texts, i as int);
        proof {
            assert(texts[i as int] == args@[i as int]@);
            if i + 1 < args@.len() {
                assert(texts[i + 1] == args@[i + 1]@);
            }
        }
        match plugin_arg_at(args, i) {
            Ok((arg, next)) => {
                let ghost v = arg_value(arg);
                proof {
                    assert(before.0 == seq![v] + args_from(texts, next as int).0);
                    assert(before.1 == args_from(texts, next as int).1);
                }
                let ghost prev = out@.map_values(|a: PluginArg| arg_value(a));
                out.push(arg);
                proof {
                    assert(out@.map_values(|a: PluginArg| arg_value(a)) =~= prev.push(v));
                    assert(prev.push(v) + args_from(texts, next as int).0 =~= prev + (seq![v]
                        + args_from(texts, next as int).0));
                }
                i = next;
            },
            Err(e) => {
                proof {
                    assert(before == (Seq::<ArgValue>::empty(), Some(e)));
                    assert(out@.map_values(|a: PluginArg| arg_value(a)) + Seq::<ArgValue>::empty()
                        =~= out@.map_values(|a: PluginArg| arg_value(a)));
                }
                return (out, Some(e));
            },
        }
    }
    proof {
        assert(out@.map_values(|a: PluginArg| arg_value(a)) + Seq::<ArgValue>::empty()
            =~= out@.map_values(|a: PluginArg| arg_value(a)));
    }
    (out, None)
}

/// The first option, in the order port, plugin UUID, register event, info,
/// that the command line lacks.
pub fn first_missing_option(port: bool, plugin_uuid: bool, register_event: bool, info: bool) -> (missing:
    Option<PluginOption>)
    ensures
        missing == (if !port {
            Some(PluginOption::Port)
        } else if !plugin_uuid {
            Some(PluginOption::PluginUuid)
        } else if !register_event {
            Some(PluginOption::RegisterEvent)
        } else if !info {
            Some(PluginOption::Info)
        } else {
            None
        }),
{
    if !port {
        Some(PluginOption::Port)
    } else if !plugin_uuid {
        Some(PluginOption::PluginUuid)
    } else if !register_event {
        Some(PluginOption::RegisterEvent)
    } else if !info {
        Some(PluginOption::Info)
    } else {
        None
    }
}

/// A port written in decimal reads back as itself.
pub proof fn port_reads_back(port: u16)
    ensures
        port_reading(decimal(port as nat)) == Ok::<u16, IntError>(port),
{
    let d = decimal(port as nat);
    decimal_reads_back(port as nat);
    assert forall|k: int| 0 <= k < d.len() implies !port_stops_at(d, k) by {
        prefix_value_bounded(d, 10, k + 1);
    }
}

/// A request of the property inspector.
#[derive(Debug, Clone, Copy, PartialEq, Eq, Structural)]
pub enum InspectorRequest {
    /// `getDevices`: list the connected devices.
    GetDevices,
    /// `getState`: report the cached device state.
    GetState,
    /// Any other command, which is ignored.
    Other,
}

/// The request that a property inspector command names.
pub fn inspector_request(command: &str) -> (r: InspectorRequest)
    ensures
        r == (if command@ == "getDevices"@ {
            InspectorRequest::GetDevices
        } else if command@ == "getState"@ {
            InspectorRequest::GetState
        } else {
            InspectorRequest::Other
        }),
{
    let text = String::from_str(command);
    let devices = String::from_str("getDevices");
    let state = String::from_str("getState");
    if text == devices {
        InspectorRequest::GetDevices
    } else if text == state {
        InspectorRequest::GetState
    } else {
        InspectorRequest::Other
    }
}

} // verus!
