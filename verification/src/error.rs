use vstd::prelude::*;

verus! {

/// What std's `Debug` formatting of a string slice produces: the text in
/// double quotes, with the characters that `Debug` escapes written as escapes.
pub uninterp spec fn str_debug(text: Seq<char>) -> Seq<char>;

/// Calls std's `Debug` formatting (`format!("{:?}", ..)`) on a string slice.
/// The contract only names the result: it is `str_debug` of the text, a value
/// fixed by the text alone; how std escapes each character is not stated.
#[verifier::external_body]
fn debug_quote(text: &str) -> (quoted: String)
    ensures
        quoted@ == str_debug(text@),
{
    format!("{:?}", text)
}

/// The errors a request can end in.
///
/// The variants that stand for an error of a radio, link or socket library
/// carry that error already rendered as its `Debug` text; the others carry
/// the message the server wrote.
#[derive(Debug, Clone, PartialEq, Eq)]
pub enum Error {
    DeserializeError(String),
    CrazyradioError(String),
    LinkError(String),
    SocketError(String),
    ArgumentError(String),
    ServerError(String),
}

impl Error {
    /// The text of an error as the server reports it, in the shape `Debug`
    /// gives an enum variant: the variant's name and its content in brackets,
    /// the server's own messages quoted as `Debug` quotes a string.
    pub open spec fn rendered(self) -> Seq<char> {
        match self {
            Error::DeserializeError(d) => "DeserializeError("@ + d@ + ")"@,
            Error::CrazyradioError(d) => "CrazyradioError("@ + d@ + ")"@,
            Error::LinkError(d) => "LinkError("@ + d@ + ")"@,
            Error::SocketError(d) => "SocketError("@ + d@ + ")"@,
            Error::ArgumentError(m) => "ArgumentError("@ + str_debug(m@) + ")"@,
            Error::ServerError(m) => "ServerError("@ + str_debug(m@) + ")"@,
        }
    }

    /// Renders the error as the text a failed request reports.
    pub fn describe(&self) -> (text: String)
        ensures
            text@ == self.rendered(),
    {
        let mut text;
        match self {
            Error::DeserializeError(d) => {
                text = String::from_str("DeserializeError(");
                text.append(d.as_str());
            },
            Error::CrazyradioError(d) => {
                text = String::from_str("CrazyradioError(");
                text.append(d.as_str());
            },
            Error::LinkError(d) => {
                text = String::from_str("LinkError(");
                text.append(d.as_str());
            },
            Error::SocketError(d) => {
                text = String::from_str("SocketError(");
                text.append(d.as_str());
            },
            Error::ArgumentError(m) => {
                text = String::from_str("ArgumentError(");
                let quoted = debug_quote(m.as_str());
                text.append(quoted.as_str());
            },
            Error::ServerError(m) => {
                text = String::from_str("ServerError(");
                let quoted = debug_quote(m.as_str());
                text.append(quoted.as_str());
            },
        }
        text.append(")");
        text
    }
}

} // verus!
