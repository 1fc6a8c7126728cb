//! The agent's side of the protocol: which callers are the daemon, and what
//! each of the four calls gives back.

use crate::config::{opt_str_text, AgentConfig};
use crate::error::AgentError;
use crate::mapping::{get_secret, is_answer, matching_profile, may_read, SecretsReply};
use crate::protocol::{requests_new, NM_BUS_NAME};
use crate::request::profile_is_usable;
use crate::settings::NestedSettingsMap;
use crate::string_set::{texts, StringSet};
use vstd::prelude::*;

verus! {

/// The bus names that are the daemon at this moment: its well-known name and
/// the unique names of the connections that own it.
#[derive(Debug)]
pub struct IdentitySet {
    names: StringSet,
}

/// What has to follow a change of the daemon's name.
#[derive(Debug, Clone, Copy, PartialEq, Eq, Structural)]
pub enum IdentityAction {
    /// Nothing.
    Nothing,
    /// The agent registers again, once: a new daemon does not know it.
    Reregister,
}

/// A name that is given and is not the empty text.
pub open spec fn is_present(name: Option<Seq<char>>) -> bool {
    name matches Some(n) && n.len() > 0
}

/// The daemon's names after a notice that `subject` went from `old_owner`
/// to `new_owner`. A notice about another name changes nothing. Otherwise
/// the old owner leaves, if one is named, and then the new owner enters, if
/// one is named.
pub open spec fn identities_after(
    known: Set<Seq<char>>,
    old_owner: Option<Seq<char>>,
    new_owner: Option<Seq<char>>,
    subject: Seq<char>,
) -> Set<Seq<char>> {
    if subject != NM_BUS_NAME@ {
        known
    } else {
        let left = if is_present(old_owner) {
            known.remove(old_owner->Some_0)
        } else {
            known
        };
        if is_present(new_owner) {
            left.insert(new_owner->Some_0)
        } else {
            left
        }
    }
}

/// What has to follow a notice that `subject` now belongs to `new_owner`:
/// the agent registers again where the daemon's name got a new owner.
pub open spec fn action_after(new_owner: Option<Seq<char>>, subject: Seq<char>) -> IdentityAction {
    if subject == NM_BUS_NAME@ && is_present(new_owner) {
        IdentityAction::Reregister
    } else {
        IdentityAction::Nothing
    }
}

/// Whether the two texts are equal.
fn same_text(a: &str, b: &str) -> (same: bool)
    ensures
        same == (a@ == b@),
{
    let x: String = a.to_owned();
    let y: String = b.to_owned();
    x == y
}

/// Whether a name is given and is not empty.
fn given(name: Option<&str>) -> (yes: bool)
    ensures
        yes == is_present(opt_str_text(name)),
{
    match name {
        Some(n) => !n.is_empty(),
        None => false,
    }
}

impl View for IdentitySet {
    type V = Set<Seq<char>>;

    closed spec fn view(&self) -> Set<Seq<char>> {
        self.names@
    }
}

impl Clone for IdentitySet {
    fn clone(&self) -> (copy: Self)
        ensures
            copy@ == self@,
    {
        IdentitySet { names: self.names.clone() }
    }
}

impl IdentitySet {
    /// No name at all: nobody is the daemon yet.
    pub fn new() -> (set: Self)
        ensures
            set@ == Set::<Seq<char>>::empty(),
    {
        IdentitySet { names: StringSet::new() }
    }

    /// Starts over from what the bus said when it was asked who owns the
    /// daemon's well-known name. With an owner the daemon's names are the
    /// well-known name and that owner, for a caller may come under either.
    /// Without an answer the query has failed, and the names stay as they
    /// were.
    pub fn seed(&mut self, owner: Option<String>) -> (done: Result<(), AgentError>)
        ensures
            match owner {
                Some(name) => done is Ok && final(self)@ == Set::<Seq<char>>::empty().insert(
                    name@,
                ).insert(NM_BUS_NAME@),
                None => final(self)@ == old(self)@ && done == Err::<(), AgentError>(
                    AgentError::IdentityQueryFailed,
                ),
            },
    {
        match owner {
            Some(name) => {
                let mut names = StringSet::new();
                names.insert(name);
                names.insert(NM_BUS_NAME.to_owned());
                self.names = names;
                Ok(())
            },
            None => Err(AgentError::IdentityQueryFailed),
        }
    }

    /// Whether `identity` is one of the daemon's names.
    pub fn contains(&self, identity: &str) -> (known: bool)
        ensures
            known == self@.contains(identity@),
    {
        self.names.contains(identity)
    }

    /// The number of names.
    pub fn len(&self) -> (n: usize)
        ensures
            self@.finite(),
            n == self@.len(),
    {
        self.names.len()
    }

    /// Takes note that the bus name `subject` went from `old_owner` to
    /// `new_owner`. Only the daemon's well-known name is of interest.
    /// The old owner, if named, is no longer the daemon; the new owner, if
    /// named, is, and the agent has to register with it.
    pub fn on_identity_change(
        &mut self,
        old_owner: Option<&str>,
        new_owner: Option<&str>,
        subject: &str,
    ) -> (action: IdentityAction)
        ensures
            final(self)@ == identities_after(
                old(self)@,
                opt_str_text(old_owner),
                opt_str_text(new_owner),
                subject@,
            ),
            action == action_after(opt_str_text(new_owner), subject@),
    {
        if !same_text(subject, NM_BUS_NAME) {
            return IdentityAction::Nothing;
        }
        if given(old_owner) {
            if let Some(name) = old_owner {
                self.names.remove(name);
            }
        }
        if given(new_owner) {
            if let Some(name) = new_owner {
                self.names.insert(name.to_owned());
            }
            IdentityAction::Reregister
        } else {
            IdentityAction::Nothing
        }
    }
}

/// After the daemon's name went from `a` to another owner `b`, `a` is no
/// longer one of the daemon's names, `b` is, and the agent registers again.
pub proof fn lemma_restart_swaps_identity(known: Set<Seq<char>>, a: Seq<char>, b: Seq<char>)
    requires
        known.contains(a),
        a.len() > 0,
        b.len() > 0,
        a != b,
    ensures
        !identities_after(known, Some(a), Some(b), NM_BUS_NAME@).contains(a),
        identities_after(known, Some(a), Some(b), NM_BUS_NAME@).contains(b),
        action_after(Some(b), NM_BUS_NAME@) == IdentityAction::Reregister,
{
}

/// A notice about another name than the daemon's changes nothing and asks
/// for nothing.
pub proof fn lemma_other_names_are_ignored(
    known: Set<Seq<char>>,
    old_owner: Option<Seq<char>>,
    new_owner: Option<Seq<char>>,
    subject: Seq<char>,
)
    requires
        subject != NM_BUS_NAME@,
    ensures
        identities_after(known, old_owner, new_owner, subject) == known,
        action_after(new_owner, subject) == IdentityAction::Nothing,
{
}

/// Lets a call pass only where its sender is the daemon: a call without a
/// sender is denied, and so is one whose sender is not among the daemon's
/// names.
pub fn verify_access(known_nm_names: &IdentitySet, sender: Option<&str>) -> (verdict: Result<
    (),
    AgentError,
>)
    ensures
        verdict is Ok <==> (sender matches Some(name) && known_nm_names@.contains(name@)),
        verdict matches Err(e) ==> e == AgentError::AccessDenied,
{
    match sender {
        None => Err(AgentError::AccessDenied),
        Some(name) => if known_nm_names.contains(name) {
            Ok(())
        } else {
            Err(AgentError::AccessDenied)
        },
    }
}

/// The call that asks for secrets. A caller that is not the daemon is
/// denied, whatever it asks for, and nothing is read for it; the daemon gets
/// what `get_secret` gives.
pub fn fetch_secrets<R: Fn(&String) -> Option<String>>(
    known_nm_names: &IdentitySet,
    config: &mut AgentConfig,
    sender: Option<&str>,
    request: (&NestedSettingsMap, &str, &[String], u32),
    read: R,
) -> (result: Result<SecretsReply, AgentError>)
    requires
        (sender matches Some(name) && known_nm_names@.contains(name@)) && profile_is_usable(
            request.0@,
        ) && !requests_new(request.3) ==> may_read(
            read,
            matching_profile(old(config).entries@, request.0@, request.1@),
        ),
    ensures
        *final(config) == *old(config),
        !(sender matches Some(name) && known_nm_names@.contains(name@)) ==> result is Err
            && result->Err_0 == AgentError::AccessDenied,
        (sender matches Some(name) && known_nm_names@.contains(name@)) ==> is_answer(
            old(config).entries@,
            request.0@,
            request.1@,
            texts(request.2@),
            request.3,
            read,
            result,
        ),
{
    match verify_access(known_nm_names, sender) {
        Ok(()) => get_secret(config, request, read),
        Err(e) => Err(e),
    }
}

/// The call that withdraws a request for secrets. Requests are answered at
/// once, so there is nothing to withdraw: the call succeeds and does nothing.
pub fn cancel_get_secrets(connection_path: &str, setting_name: &str) -> (done: Result<
    (),
    AgentError,
>)
    ensures
        done is Ok,
{
    Ok(())
}

/// The call that offers secrets for keeping. The agent only reads: the call
/// succeeds and keeps nothing.
pub fn save_secrets(connection_profile: &NestedSettingsMap, connection_path: &str) -> (done: Result<
    (),
    AgentError,
>)
    ensures
        done is Ok,
{
    Ok(())
}

/// The call that asks to forget the secrets of a connection. The agent only
/// reads: the call succeeds and forgets nothing.
pub fn delete_secrets(connection_profile: &NestedSettingsMap, connection_path: &str) -> (done:
    Result<(), AgentError>)
    ensures
        done is Ok,
{
    Ok(())
}

} // verus!
