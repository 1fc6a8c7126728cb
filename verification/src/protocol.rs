//! Numbers of the daemon's secret agent protocol.

use crate::error::AgentError;
use vstd::prelude::*;

verus! {

/// The bus name under which the daemon is known, whoever owns it.
pub const NM_BUS_NAME: &'static str = "org.freedesktop.NetworkManager";

/// The name by which the agent registers itself.
pub const AGENT_IDENTIFIER: &'static str = "nm-file-secret-agent";

/// The interface that the agent serves.
pub const AGENT_INTERFACE: &'static str = "org.freedesktop.NetworkManager.SecretAgent";

/// The object path at which the agent serves.
pub const AGENT_PATH: &'static str = "/org/freedesktop/NetworkManager/SecretAgent";

/// The object path of the daemon's agent manager, which takes registrations.
pub const AGENT_MANAGER_PATH: &'static str = "/org/freedesktop/NetworkManager/AgentManager";

/// What an agent tells the daemon it can do, when it registers.
#[derive(Debug, Clone, Copy, PartialEq, Eq, Structural)]
pub enum SecretAgentCapabilities {
    /// No special capability.
    NoCapabilities,
    /// The agent passes hints on to the dialogs of VPN plugins.
    VpnHints,
}

impl SecretAgentCapabilities {
    /// The number that stands for the capability on the bus.
    pub open spec fn mask(self) -> u32 {
        match self {
            SecretAgentCapabilities::NoCapabilities => 0,
            SecretAgentCapabilities::VpnHints => 1,
        }
    }

    /// The number that stands for the capability on the bus.
    pub fn bits(&self) -> (b: u32)
        ensures
            b == self.mask(),
    {
        match self {
            SecretAgentCapabilities::NoCapabilities => 0,
            SecretAgentCapabilities::VpnHints => 1,
        }
    }
}

/// The flags that the daemon may set on a request for secrets.
#[derive(Debug, Clone, Copy, PartialEq, Eq, Structural)]
pub enum GetSecretsFlags {
    /// No flag: answer from what is stored, without asking anybody.
    NoFlags,
    /// The agent may ask the user.
    AllowInteraction,
    /// The daemon holds the stored secrets for wrong and wants new ones.
    RequestNew,
    /// A user's action started the request.
    UserRequested,
    /// WPS enrollment by push button is under way.
    WbsPbcActive,
}

impl GetSecretsFlags {
    /// The bit that stands for the flag.
    pub open spec fn mask(self) -> u32 {
        match self {
            GetSecretsFlags::NoFlags => 0x0,
            GetSecretsFlags::AllowInteraction => 0x1,
            GetSecretsFlags::RequestNew => 0x2,
            GetSecretsFlags::UserRequested => 0x4,
            GetSecretsFlags::WbsPbcActive => 0x8,
        }
    }

    /// The bit that stands for the flag.
    pub fn bits(&self) -> (b: u32)
        ensures
            b == self.mask(),
    {
        match self {
            GetSecretsFlags::NoFlags => 0x0,
            GetSecretsFlags::AllowInteraction => 0x1,
            GetSecretsFlags::RequestNew => 0x2,
            GetSecretsFlags::UserRequested => 0x4,
            GetSecretsFlags::WbsPbcActive => 0x8,
        }
    }
}

/// Whether `flags` ask for new credentials.
pub open spec fn requests_new(flags: u32) -> bool {
    flags & 0x2 == 0x2
}

/// Whether `flags` ask for new credentials.
pub fn asks_for_new_secrets(flags: u32) -> (asked: bool)
    ensures
        asked == requests_new(flags),
{
    let bit: u32 = GetSecretsFlags::RequestNew.bits();
    (flags & bit) == bit
}

/// What the agent declares when it registers: its identifier and its
/// capabilities as a number.
pub struct Registration {
    pub identifier: String,
    pub capabilities: u32,
}

/// The registration of this agent: the fixed identifier, and no special
/// capability.
pub fn agent_registration() -> (call: Registration)
    ensures
        call.identifier@ == AGENT_IDENTIFIER@,
        call.capabilities == 0,
{
    Registration {
        identifier: AGENT_IDENTIFIER.to_owned(),
        capabilities: SecretAgentCapabilities::NoCapabilities.bits(),
    }
}

/// What to make of the daemon's answer to the registration: an agent that
/// the daemon did not accept is not asked for secrets, so a refusal is a
/// failure.
pub fn confirm_registration(accepted: bool) -> (done: Result<(), AgentError>)
    ensures
        accepted ==> done is Ok,
        !accepted ==> done == Err::<(), AgentError>(AgentError::RegistrationFailed),
{
    if accepted {
        Ok(())
    } else {
        Err(AgentError::RegistrationFailed)
    }
}

} // verus!
