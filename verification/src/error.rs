//! The errors that reading configurations and running tasks can give.
use vstd::prelude::*;

verus! {

/// An error of the tool. Each kind carries its message.
#[derive(Debug)]
pub enum BError {
    ParseError(String),
    ParseArtifactsError(String),
    ParseTasksError(String),
    ParseManifestError(String),
    JsonParseError(String),
    IOError(String),
    ValueError(String),
    WsError(String),
    CliError(String),
    ArchiverError(String),
    CmdError(String),
    CtxKeyError(String),
    CollectorError(String),
}

impl BError {
    /// The message that the error carries.
    pub open spec fn message(&self) -> Seq<char> {
        match self {
            BError::ParseError(m) => m@,
            BError::ParseArtifactsError(m) => m@,
            BError::ParseTasksError(m) => m@,
            BError::ParseManifestError(m) => m@,
            BError::JsonParseError(m) => m@,
            BError::IOError(m) => m@,
            BError::ValueError(m) => m@,
            BError::WsError(m) => m@,
            BError::CliError(m) => m@,
            BError::ArchiverError(m) => m@,
            BError::CmdError(m) => m@,
            BError::CtxKeyError(m) => m@,
            BError::CollectorError(m) => m@,
        }
    }

    /// The text in front of the message when the error is shown.
    pub open spec fn spec_prefix(&self) -> Seq<char> {
        match self {
            BError::ParseArtifactsError(_) => "Invalid 'artifact' node in build config. "@,
            BError::ParseTasksError(_) => "Invalid 'task' node in build config. "@,
            BError::ParseManifestError(_) => "Invalid 'manifest' node in build config. "@,
            BError::JsonParseError(_) => "Failed to parse JSON. "@,
            _ => seq![],
        }
    }

    /// The text of the error as shown to the user.
    pub fn to_string(&self) -> (res: String)
        ensures
            res@ == self.spec_prefix() + self.message(),
    {
        proof {
            reveal_strlit("Invalid 'artifact' node in build config. ");
            reveal_strlit("Invalid 'task' node in build config. ");
            reveal_strlit("Invalid 'manifest' node in build config. ");
            reveal_strlit("Failed to parse JSON. ");
        }
        match self {
            BError::ParseError(m) => m.clone(),
            BError::ParseArtifactsError(m) => "Invalid 'artifact' node in build config. ".to_string().concat(m.as_str()),
            BError::ParseTasksError(m) => "Invalid 'task' node in build config. ".to_string().concat(m.as_str()),
            BError::ParseManifestError(m) => "Invalid 'manifest' node in build config. ".to_string().concat(m.as_str()),
            BError::JsonParseError(m) => "Failed to parse JSON. ".to_string().concat(m.as_str()),
            BError::IOError(m) => m.clone(),
            BError::ValueError(m) => m.clone(),
            BError::WsError(m) => m.clone(),
            BError::CliError(m) => m.clone(),
            BError::ArchiverError(m) => m.clone(),
            BError::CmdError(m) => m.clone(),
            BError::CtxKeyError(m) => m.clone(),
            BError::CollectorError(m) => m.clone(),
        }
    }
}

} // verus!
