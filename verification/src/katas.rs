//! Small reading exercises: owned and borrowed session IDs, matching events, optional limits,
//! dispatch through traits, and choosing between borrowed texts.
use crate::text::{decimal, decimal_text};
use std::num::ParseIntError;
use vstd::prelude::*;
use vstd::string::*;

verus! {

#[verifier::external_type_specification]
#[verifier::external_body]
pub struct ExParseIntError(ParseIntError);

/// A session ID: an owned string that cannot be confused with any other string.
#[derive(Debug, Clone, PartialEq, Eq)]
pub struct SessionId(pub String);

impl SessionId {
    pub fn new(raw: &str) -> (id: Self)
        ensures
            id.0@ == raw@,
    {
        Self(raw.to_owned())
    }

    pub fn as_str(&self) -> (s: &str)
        ensures
            s@ == self.0@,
    {
        self.0.as_str()
    }
}

#[derive(Debug, PartialEq, Eq)]
pub enum TurnEvent {
    Started { prompt_id: String },
    Finished { prompt_id: String, tokens: u64 },
    Cancelled,
}

/// How an event is described.
pub open spec fn description(event: TurnEvent) -> Seq<char> {
    match event {
        TurnEvent::Started { prompt_id } => "start:"@ + prompt_id@,
        TurnEvent::Finished { prompt_id, tokens } => "finish:"@ + prompt_id@ + ":"@ + decimal(
            tokens as nat,
        ),
        TurnEvent::Cancelled => "cancelled"@,
    }
}

pub fn describe(event: &TurnEvent) -> (r: String)
    ensures
        r@ == description(*event),
{
    match event {
        TurnEvent::Started { prompt_id } => String::from_str("start:").concat(prompt_id.as_str()),
        TurnEvent::Finished { prompt_id, tokens } => {
            let mut out = String::from_str("finish:");
            out.append(prompt_id.as_str());
            out.append(":");
            let count = decimal_text(*tokens);
            out.append(count.as_str());
            out
        },
        TurnEvent::Cancelled => String::from_str("cancelled"),
    }
}

/// The prompt of a finished event; nothing for any other event.
pub fn completed_task_id(event: &TurnEvent) -> (r: Option<&str>)
    ensures
        match *event {
            TurnEvent::Finished { prompt_id, .. } => r is Some && r->0@ == prompt_id@,
            _ => r is None,
        },
{
    match event {
        TurnEvent::Finished { prompt_id, .. } => Some(prompt_id.as_str()),
        _ => None,
    }
}

pub open spec fn is_ascii_digit(c: char) -> bool {
    '0' <= c && c <= '9'
}

/// The number an ASCII digit string spells.
pub open spec fn digits_value(s: Seq<char>) -> nat
    decreases s.len(),
{
    if s.len() == 0 {
        0
    } else {
        digits_value(s.drop_last()) * 10 + (s.last() as nat - '0' as nat) as nat
    }
}

/// The value of an unsigned decimal numeral: an optional `+`, then one or more ASCII digits
/// and nothing else.
pub open spec fn unsigned_value(s: Seq<char>) -> Option<nat> {
    let digits = if s.len() > 0 && s[0] == '+' {
        s.drop_first()
    } else {
        s
    };
    if digits.len() > 0 && forall|i: int| 0 <= i < digits.len() ==> is_ascii_digit(#[trigger] digits[i]) {
        Some(digits_value(digits))
    } else {
        None
    }
}

/// Calls `str::parse::<u32>`. Trusted: per std's documentation it accepts exactly an
/// optional `+` followed by ASCII digits whose value fits a `u32`, and fails otherwise.
#[verifier::external_body]
fn parse_u32(s: &str) -> (r: Result<u32, ParseIntError>)
    ensures
        match r {
            Ok(v) => unsigned_value(s@) == Some(v as nat),
            Err(_) => unsigned_value(s@) is None || unsigned_value(s@)->0 > u32::MAX,
        },
{
    s.parse::<u32>()
}

/// Calls `str::parse::<u64>`. Trusted: per std's documentation it accepts exactly an
/// optional `+` followed by ASCII digits whose value fits a `u64`, and fails otherwise.
#[verifier::external_body]
pub(crate) fn parse_u64(s: &str) -> (r: Result<u64, ParseIntError>)
    ensures
        match r {
            Ok(v) => unsigned_value(s@) == Some(v as nat),
            Err(_) => unsigned_value(s@) is None || unsigned_value(s@)->0 > u64::MAX,
        },
{
    s.parse::<u64>()
}

/// An absent limit stays absent; a present one is parsed, and its parse error is returned.
pub fn parse_optional_limit(raw: Option<&str>) -> (r: Result<Option<u32>, ParseIntError>)
    ensures
        match raw {
            None => r == Ok::<Option<u32>, ParseIntError>(None),
            Some(s) => match r {
                Ok(v) => v is Some && unsigned_value(s@) == Some(v->0 as nat),
                Err(_) => unsigned_value(s@) is None || unsigned_value(s@)->0 > u32::MAX,
            },
        },
{
    match raw {
        None => Ok(None),
        Some(s) => match parse_u32(s) {
            Ok(v) => Ok(Some(v)),
            Err(e) => Err(e),
        },
    }
}

#[derive(Debug)]
pub enum LimitError {
    InvalidNumber(ParseIntError),
    Zero,
}

impl From<ParseIntError> for LimitError {
    fn from(error: ParseIntError) -> (r: Self) {
        Self::InvalidNumber(error)
    }
}

impl vstd::std_specs::convert::FromSpecImpl<ParseIntError> for LimitError {
    open spec fn obeys_from_spec() -> bool {
        true
    }

    open spec fn from_spec(error: ParseIntError) -> LimitError {
        LimitError::InvalidNumber(error)
    }
}

/// A positive limit: the text must parse, and zero is refused.
pub fn positive_limit(raw: &str) -> (r: Result<u32, LimitError>)
    ensures
        match r {
            Ok(v) => unsigned_value(raw@) == Some(v as nat) && v > 0,
            Err(LimitError::Zero) => unsigned_value(raw@) == Some(0nat),
            Err(LimitError::InvalidNumber(_)) => unsigned_value(raw@) is None || unsigned_value(
                raw@,
            )->0 > u32::MAX,
        },
{
    let value = match parse_u32(raw) {
        Ok(v) => v,
        Err(e) => {
            return Err(LimitError::from(e));
        },
    };
    if value == 0 {
        return Err(LimitError::Zero);
    }
    Ok(value)
}

/// Something that renders itself as text.
pub trait Render {
    spec fn rendered(&self) -> Seq<char>;

    fn render(&self) -> (r: String)
        ensures
            r@ == self.rendered(),
    ;

    /// Whether the rendering is empty.
    fn is_empty(&self) -> (r: bool)
        ensures
            r == (self.rendered().len() == 0),
    {
        self.render().as_str().is_empty()
    }
}

impl Render for SessionId {
    open spec fn rendered(&self) -> Seq<char> {
        "session:"@ + self.0@
    }

    fn render(&self) -> (r: String) {
        String::from_str("session:").concat(self.as_str())
    }
}

/// Renders through a statically known type.
pub fn render_static<R: Render>(value: &R) -> (r: String)
    ensures
        r@ == value.rendered(),
{
    value.render()
}

/// Renders through a trait object.
pub fn render_dynamic(value: &dyn Render) -> (r: String)
    ensures
        r@ == value.rendered(),
{
    value.render()
}

/// Something that decodes into a value or fails.
pub trait Decode {
    type Output;

    type Error;

    fn decode(&self) -> Result<Self::Output, Self::Error>;
}

/// An encoded token count.
pub struct TokenCount<'a>(pub &'a str);

impl<'a> Decode for TokenCount<'a> {
    type Output = u64;

    type Error = ParseIntError;

    fn decode(&self) -> (r: Result<u64, ParseIntError>)
        ensures
            match r {
                Ok(v) => unsigned_value(self.0@) == Some(v as nat),
                Err(_) => unsigned_value(self.0@) is None || unsigned_value(self.0@)->0 > u64::MAX,
            },
    {
        parse_u64(self.0)
    }
}

/// Something with a name.
pub trait Named {
    spec fn spec_name(&self) -> Seq<char>;

    fn name(&self) -> (r: &str)
        ensures
            r@ == self.spec_name(),
    ;
}

impl Named for SessionId {
    open spec fn spec_name(&self) -> Seq<char> {
        self.0@
    }

    fn name(&self) -> (r: &str) {
        self.as_str()
    }
}

impl<T: Named + ?Sized> Named for Box<T> {
    open spec fn spec_name(&self) -> Seq<char> {
        (**self).spec_name()
    }

    fn name(&self) -> (r: &str) {
        (**self).name()
    }
}

/// The primary text unless it is empty, else the fallback.
pub fn choose_nonempty<'a>(primary: &'a str, fallback: &'a str) -> (r: &'a str)
    ensures
        r@ == if primary@.len() == 0 {
            fallback@
        } else {
            primary@
        },
{
    if primary.is_empty() {
        fallback
    } else {
        primary
    }
}

/// The label of the first session, owned by the caller: a label built inside a function is
/// handed out as an owned `String`, never as a borrow of a local.
pub fn session_label() -> (r: String)
    ensures
        r@ == "session-1"@,
{
    String::from_str("session-1")
}

} // verus!
