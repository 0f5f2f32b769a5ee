//! The ways in which the execution of a statement fails.

use crate::text::{decimal, decimal_text};
use vstd::prelude::*;
use vstd::string::StringExecFns;

verus! {

/// Why a statement gave no rows.
#[derive(Clone, Debug, PartialEq, Eq)]
pub enum ExecutionError {
    /// No server is saved under the id. Nothing was connected.
    ConfigNotFound { server_id: i32 },
    /// The handshake failed: the network, the login, or the time limit.
    ConnectError { cause: String },
    /// The backend refused or failed the statement. No row is returned.
    QueryError { backend_message: String },
    /// The connection that had just been ensured was gone at checkout.
    InternalInvariantViolation,
}

/// The message that goes with a failure.
pub open spec fn message_of(error: ExecutionError) -> Seq<char> {
    match error {
        ExecutionError::ConfigNotFound { server_id } => "Servidor "@ + decimal(server_id as int)
            + " não encontrado"@,
        ExecutionError::ConnectError { cause } => "Erro ao conectar: "@ + cause@,
        ExecutionError::QueryError { backend_message } => "Erro na query: "@ + backend_message@,
        ExecutionError::InternalInvariantViolation => "Conexão não encontrada"@,
    }
}

impl ExecutionError {
    /// Words the failure for the caller. A failed handshake and a failed
    /// statement carry the backend's own message.
    pub fn message(&self) -> (text: String)
        ensures
            text@ == message_of(*self),
    {
        match self {
            ExecutionError::ConfigNotFound { server_id } => {
                let mut text = "Servidor ".to_owned();
                text.append(decimal_text(*server_id as i64).as_str());
                text.append(" não encontrado");
                text
            },
            ExecutionError::ConnectError { cause } => {
                let mut text = "Erro ao conectar: ".to_owned();
                text.append(cause.as_str());
                text
            },
            ExecutionError::QueryError { backend_message } => {
                let mut text = "Erro na query: ".to_owned();
                text.append(backend_message.as_str());
                text
            },
            ExecutionError::InternalInvariantViolation => "Conexão não encontrada".to_owned(),
        }
    }
}

} // verus!
