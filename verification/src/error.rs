//! The ways in which the agent fails.

use vstd::prelude::*;

verus! {

/// Why a call or a start-up step failed.
#[derive(Debug, Clone, Copy, PartialEq, Eq, Structural)]
pub enum AgentError {
    /// The caller gave no bus name, or one that is not the daemon's.
    AccessDenied,
    /// The connection profile lacks a required property, or holds it with
    /// another type than text.
    MalformedRequest,
    /// The daemon asked for new credentials, which a read-only agent cannot
    /// give.
    UnsupportedFlag,
    /// The file behind a secret that applies to the request could not be read.
    SourceUnreadable,
    /// The bus did not say who owns the daemon's name.
    IdentityQueryFailed,
    /// The daemon did not accept the agent's registration.
    RegistrationFailed,
}

/// The text that describes an error.
pub open spec fn message_text(e: AgentError) -> Seq<char> {
    match e {
        AgentError::AccessDenied => "Access Denied"@,
        AgentError::MalformedRequest => "Connection profile lacks a text property that is required"@,
        AgentError::UnsupportedFlag => "NetworkManager requested new credentials which cannot be provided by this agent"@,
        AgentError::SourceUnreadable => "Could not read secret content from configured files"@,
        AgentError::IdentityQueryFailed => "Could not query owner of name org.freedesktop.NetworkManager"@,
        AgentError::RegistrationFailed => "Could not register as secret agent with NetworkManager"@,
    }
}

impl AgentError {
    /// A description for logs and for the failure reply on the bus. It never
    /// holds a secret.
    pub fn message(&self) -> (text: String)
        ensures
            text@ == message_text(*self),
    {
        match self {
            AgentError::AccessDenied => "Access Denied".to_owned(),
            AgentError::MalformedRequest => "Connection profile lacks a text property that is required".to_owned(),
            AgentError::UnsupportedFlag => "NetworkManager requested new credentials which cannot be provided by this agent".to_owned(),
            AgentError::SourceUnreadable => "Could not read secret content from configured files".to_owned(),
            AgentError::IdentityQueryFailed => "Could not query owner of name org.freedesktop.NetworkManager".to_owned(),
            AgentError::RegistrationFailed => "Could not register as secret agent with NetworkManager".to_owned(),
        }
    }
}

} // verus!
