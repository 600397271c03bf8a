use vstd::prelude::*;

verus! {

/// The error of a parser: an optional message, "failed to parse" without one.
pub struct ParseError {
    pub message: Option<String>,
}

/// The message that a parse error reads as.
pub open spec fn description_of(message: Option<Seq<char>>) -> Seq<char> {
    match message {
        Some(m) => m,
        None => "failed to parse"@,
    }
}

impl ParseError {
    /// The message it was made with, if any.
    pub open spec fn message_view(&self) -> Option<Seq<char>> {
        match self.message {
            Some(m) => Some(m@),
            None => None,
        }
    }

    /// An error carrying the message `msg`.
    pub fn new(msg: &str) -> (r: Self)
        ensures
            r.message_view() == Some(msg@),
    {
        ParseError { message: Some(msg.to_string()) }
    }

    /// The message of the error, or "failed to parse" where it has none.
    pub fn description(&self) -> (r: &str)
        ensures
            r@ == description_of(self.message_view()),
    {
        match &self.message {
            Some(desc) => desc.as_str(),
            None => "failed to parse",
        }
    }

    /// The error as text: its description.
    pub fn to_string(&self) -> (r: String)
        ensures
            r@ == description_of(self.message_view()),
    {
        self.description().to_string()
    }
}

/// A failed parse with the default message.
pub fn parse_error<O>() -> (r: Result<O, ParseError>)
    ensures
        r matches Err(e) && e.message_view() is None,
{
    Err(ParseError { message: None })
}

} // verus!
