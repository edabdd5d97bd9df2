//! Why the program stops.
use vstd::prelude::*;
use vstd::string::StringExecFns;

verus! {

/// `std::io::Error`, carried as it is.
#[verifier::external_type_specification]
#[verifier::external_body]
pub struct ExIoError(std::io::Error);

/// `tungstenite::Error`, carried as it is.
#[verifier::external_type_specification]
#[verifier::external_body]
pub struct ExWebSocketError(tokio_tungstenite::tungstenite::Error);

/// Why the program stops.
#[derive(Debug)]
pub enum ProgramError {
    Disconnect(std::io::Error),
    Connect(tokio_tungstenite::tungstenite::Error),
    Custom(String),
}

/// What the user is told of an error.
pub open spec fn message_of(error: ProgramError) -> Seq<char> {
    match error {
        ProgramError::Disconnect(_) => "Failed to bind"@,
        ProgramError::Connect(_) => "Failed to connect to websocket"@,
        ProgramError::Custom(reason) => "Error occurred: "@ + reason@,
    }
}

impl ProgramError {
    /// What the user is told of the error.
    pub fn message(&self) -> (text: String)
        ensures
            text@ == message_of(*self),
    {
        match self {
            ProgramError::Disconnect(_) => "Failed to bind".to_owned(),
            ProgramError::Connect(_) => "Failed to connect to websocket".to_owned(),
            ProgramError::Custom(reason) => {
                let mut text = "Error occurred: ".to_owned();
                text.append(reason.as_str());
                text
            },
        }
    }
}

impl From<std::io::Error> for ProgramError {
    fn from(error: std::io::Error) -> (res: ProgramError)
        ensures
            res == ProgramError::Disconnect(error),
    {
        ProgramError::Disconnect(error)
    }
}

impl vstd::std_specs::convert::FromSpecImpl<std::io::Error> for ProgramError {
    open spec fn obeys_from_spec() -> bool {
        true
    }

    open spec fn from_spec(error: std::io::Error) -> ProgramError {
        ProgramError::Disconnect(error)
    }
}

impl From<tokio_tungstenite::tungstenite::Error> for ProgramError {
    fn from(error: tokio_tungstenite::tungstenite::Error) -> (res: ProgramError)
        ensures
            res == ProgramError::Connect(error),
    {
        ProgramError::Connect(error)
    }
}

impl vstd::std_specs::convert::FromSpecImpl<tokio_tungstenite::tungstenite::Error> for ProgramError {
    open spec fn obeys_from_spec() -> bool {
        true
    }

    open spec fn from_spec(error: tokio_tungstenite::tungstenite::Error) -> ProgramError {
        ProgramError::Connect(error)
    }
}

/// Each kind of error has its own text, whatever lies behind it; a reason that the program
/// gives is told in full, behind a fixed beginning.
pub proof fn law_errors_are_told(
    io: std::io::Error,
    websocket: tokio_tungstenite::tungstenite::Error,
    reason: String,
)
    ensures
        message_of(ProgramError::Disconnect(io)) == "Failed to bind"@,
        message_of(ProgramError::Connect(websocket)) == "Failed to connect to websocket"@,
        message_of(ProgramError::Custom(reason)).len() == 16 + reason@.len(),
        message_of(ProgramError::Custom(reason)).subrange(0, 16) == "Error occurred: "@,
        message_of(ProgramError::Custom(reason)).subrange(
            16,
            16 + reason@.len() as int,
        ) == reason@,
{
    reveal_strlit("Error occurred: ");
    let text = message_of(ProgramError::Custom(reason));
    assert(text.subrange(0, 16) =~= "Error occurred: "@);
    assert(text.subrange(16, 16 + reason@.len() as int) =~= reason@);
}

} // verus!
