use vstd::prelude::*;

use crate::error::Error;

verus! {

/// The state a connection's relay threads last reported.
#[derive(Debug, Clone, PartialEq, Eq)]
pub enum ConnectionStatus {
    Connected,
    Disconnected(String),
}

/// Whether a status counts as connected.
pub open spec fn status_connected(status: ConnectionStatus) -> bool {
    status is Connected
}

/// The status line a client is shown.
pub open spec fn status_text(status: ConnectionStatus) -> Seq<char> {
    match status {
        ConnectionStatus::Connected => "Connected"@,
        ConnectionStatus::Disconnected(message) => "Disconnected: "@ + message@,
    }
}

/// What the status of a connection means to a client: it counts as
/// connected exactly when it is `Connected`, whatever message a
/// disconnected status carries; the status line of a disconnected link is
/// "Disconnected: " followed by its message, so it is never the line of a
/// connected link, and it gives the message back.
pub proof fn law_status_meaning(status: ConnectionStatus)
    ensures
        status_connected(status) <==> status is Connected,
        status_text(status) == "Connected"@ <==> status is Connected,
        status matches ConnectionStatus::Disconnected(message) ==> {
            &&& status_text(status).len() == 14 + message@.len()
            &&& status_text(status).subrange(0, 14) == "Disconnected: "@
            &&& status_text(status).subrange(14, status_text(status).len() as int) == message@
        },
{
    reveal_strlit("Connected");
    reveal_strlit("Disconnected: ");
    if let ConnectionStatus::Disconnected(message) = status {
        let text = status_text(status);
        assert(text.subrange(0, 14) =~= "Disconnected: "@);
        assert(text.subrange(14, text.len() as int) =~= message@);
        assert(text[0] == 'D');
        assert("Connected"@[0] == 'C');
        assert(text != "Connected"@);
    }
}

/// The pair reported to clients for a status: whether it is connected, and
/// its status line.
pub fn status_report(status: &ConnectionStatus) -> (report: (bool, String))
    ensures
        report.0 == status_connected(*status),
        report.1@ == status_text(*status),
        report.0 <==> *status is Connected,
        match *status {
            ConnectionStatus::Connected => report.1@ == "Connected"@,
            ConnectionStatus::Disconnected(message) => report.1@ == "Disconnected: "@ + message@,
        },
{
    match status {
        ConnectionStatus::Connected => (true, String::from_str("Connected")),
        ConnectionStatus::Disconnected(message) => {
            let mut text = String::from_str("Disconnected: ");
            text.append(message.as_str());
            (false, text)
        },
    }
}

/// The status a connection takes when one of its relay loops ends in an error.
pub fn status_after_error(error: &Error) -> (status: ConnectionStatus)
    ensures
        status matches ConnectionStatus::Disconnected(message)
            && message@ == "Connection error: "@ + error.rendered(),
{
    let mut message = String::from_str("Connection error: ");
    let rendered = error.describe();
    message.append(rendered.as_str());
    ConnectionStatus::Disconnected(message)
}

} // verus!
