//! Answering a request for secrets: from the rules that apply, through the
//! content of their files, to the settings that go back to the daemon.

use crate::config::{AgentConfig, MappingEntry};
use crate::encoding::{encode, encoded_props, secret_keys, secret_views, Secret, SecretView};
use crate::error::AgentError;
use crate::ordered_map::OrderedMap;
use crate::protocol::{asks_for_new_secrets, requests_new};
use crate::request::{matching_request, profile_is_usable, request_of, ConnectionRequest};
use crate::settings::{NestedSettingsMap, SettingValueView};
use crate::string_set::{texts, StringSet};
use vstd::prelude::*;

verus! {

/// The settings that answer a request, and the hints that they leave unmet.
#[derive(Debug)]
pub struct SecretsReply {
    /// The secrets, by setting and by name.
    pub secrets: NestedSettingsMap,
    /// The hints of the request for which no secret is configured, in the
    /// order of the request. They are for a diagnostic only.
    pub missing_hints: Vec<String>,
}

/// Whether the source of the rule at index `i` gave its content.
pub open spec fn readable_at(outcomes: Seq<Option<String>>, i: int) -> bool {
    0 <= i < outcomes.len() && outcomes[i] is Some
}

/// Whether the sources of the first `count` rules all gave their content.
pub open spec fn all_readable(count: nat, outcomes: Seq<Option<String>>) -> bool {
    forall|i: int| 0 <= i < count ==> readable_at(outcomes, i)
}

/// The secrets that rules and the content of their sources give: for each
/// rule its key, with the content read.
pub open spec fn gathered(entries: Seq<MappingEntry>, outcomes: Seq<Option<String>>) -> Seq<
    SecretView,
> {
    Seq::new(
        entries.len(),
        |i: int| SecretView { key: entries[i].key@, value: outcomes[i]->Some_0@ },
    )
}

/// `read` can be called on the file of each of `entries`.
pub open spec fn may_read<R: Fn(&String) -> Option<String>>(
    read: R,
    entries: Seq<MappingEntry>,
) -> bool {
    forall|i: int| 0 <= i < entries.len() ==> call_requires(read, (&(#[trigger] entries[i]).file,))
}

/// What reading the sources of `entries` with `read` may give: one outcome
/// for each rule, in order, each a possible result of `read` on that rule's
/// file.
pub open spec fn reads_of<R: Fn(&String) -> Option<String>>(
    read: R,
    entries: Seq<MappingEntry>,
    outcomes: Seq<Option<String>>,
) -> bool {
    &&& outcomes.len() == entries.len()
    &&& forall|i: int|
        0 <= i < entries.len() ==> call_ensures(read, (&entries[i].file,), #[trigger] outcomes[i])
}

/// How the outcomes of reading decide a resolution: the secrets where every
/// source was read, and `SourceUnreadable` where one was not.
pub open spec fn resolution_of(
    entries: Seq<MappingEntry>,
    outcomes: Seq<Option<String>>,
    result: Result<Vec<Secret>, AgentError>,
) -> bool {
    match result {
        Ok(secrets) => all_readable(entries.len(), outcomes) && secret_views(secrets@) == gathered(
            entries,
            outcomes,
        ),
        Err(e) => !all_readable(entries.len(), outcomes) && e == AgentError::SourceUnreadable,
    }
}

/// The hints that name no inserted key, in their order.
pub open spec fn unmet_hints(hints: Seq<Seq<char>>, inserted: Set<Seq<char>>) -> Seq<Seq<char>> {
    hints.filter(|h: Seq<char>| !inserted.contains(h))
}

/// The settings of a reply: nothing where there is no secret, else the
/// requested setting alone, with its encoded secrets.
pub open spec fn reply_settings(setting_name: Seq<char>, secrets: Seq<SecretView>) -> Map<
    Seq<char>,
    Map<Seq<char>, SettingValueView>,
> {
    if secrets.len() == 0 {
        Map::empty()
    } else {
        Map::empty().insert(setting_name, encoded_props(setting_name, secrets))
    }
}

/// The hints that a reply reports as unmet: none where there is no secret,
/// else those that name no secret.
pub open spec fn reply_missing_hints(hints: Seq<Seq<char>>, secrets: Seq<SecretView>) -> Seq<
    Seq<char>,
> {
    if secrets.len() == 0 {
        Seq::empty()
    } else {
        unmet_hints(hints, secret_keys(secrets))
    }
}

/// Whether `reply` is the reply for these secrets.
pub open spec fn is_reply_for(
    reply: SecretsReply,
    setting_name: Seq<char>,
    hints: Seq<Seq<char>>,
    secrets: Seq<SecretView>,
) -> bool {
    &&& reply.secrets@ == reply_settings(setting_name, secrets)
    &&& texts(reply.missing_hints@) == reply_missing_hints(hints, secrets)
}

/// The rules that apply to the request that a usable profile gives for a
/// setting.
pub open spec fn matching_profile(
    entries: Seq<MappingEntry>,
    profile: Map<Seq<char>, Map<Seq<char>, SettingValueView>>,
    setting_name: Seq<char>,
) -> Seq<MappingEntry> {
    matching_request(entries, request_of(profile, setting_name, Seq::empty(), 0))
}

/// How the outcomes of reading decide the answer to a request: the reply
/// for the secrets where every source was read, and `SourceUnreadable` where
/// one was not.
pub open spec fn answer_of(
    entries: Seq<MappingEntry>,
    outcomes: Seq<Option<String>>,
    setting_name: Seq<char>,
    hints: Seq<Seq<char>>,
    result: Result<SecretsReply, AgentError>,
) -> bool {
    match result {
        Ok(reply) => all_readable(entries.len(), outcomes) && is_reply_for(
            reply,
            setting_name,
            hints,
            gathered(entries, outcomes),
        ),
        Err(e) => !all_readable(entries.len(), outcomes) && e == AgentError::SourceUnreadable,
    }
}

/// What a request may be answered with, given the rules and the way to read
/// a file: a malformed profile and a request for new credentials are
/// refused, in this order; every other request is answered from the outcomes
/// of reading the files of the rules that apply.
pub open spec fn is_answer<R: Fn(&String) -> Option<String>>(
    entries: Seq<MappingEntry>,
    profile: Map<Seq<char>, Map<Seq<char>, SettingValueView>>,
    setting_name: Seq<char>,
    hints: Seq<Seq<char>>,
    flags: u32,
    read: R,
    result: Result<SecretsReply, AgentError>,
) -> bool {
    if !profile_is_usable(profile) {
        result is Err && result->Err_0 == AgentError::MalformedRequest
    } else if requests_new(flags) {
        result is Err && result->Err_0 == AgentError::UnsupportedFlag
    } else {
        exists|outcomes: Seq<Option<String>>|
            {
                &&& #[trigger] reads_of(
                    read,
                    matching_profile(entries, profile, setting_name),
                    outcomes,
                )
                &&& answer_of(
                    matching_profile(entries, profile, setting_name),
                    outcomes,
                    setting_name,
                    hints,
                    result,
                )
            }
    }
}

/// Where no rule applies to a usable request for stored secrets, the answer
/// is a success that holds no setting and reports no hint: to have nothing
/// for the daemon is no failure.
pub proof fn lemma_no_rule_no_secrets<R: Fn(&String) -> Option<String>>(
    entries: Seq<MappingEntry>,
    profile: Map<Seq<char>, Map<Seq<char>, SettingValueView>>,
    setting_name: Seq<char>,
    hints: Seq<Seq<char>>,
    flags: u32,
    read: R,
    result: Result<SecretsReply, AgentError>,
)
    requires
        is_answer(entries, profile, setting_name, hints, flags, read, result),
        profile_is_usable(profile),
        !requests_new(flags),
        matching_profile(entries, profile, setting_name).len() == 0,
    ensures
        result is Ok,
        result->Ok_0.secrets@ == Map::<Seq<char>, Map<Seq<char>, SettingValueView>>::empty(),
        texts(result->Ok_0.missing_hints@) == Seq::<Seq<char>>::empty(),
{
}

/// An answer fails in one of three ways and no other, and each stands for
/// its own cause: a profile that is not usable, a request for new
/// credentials, a source that was not read.
pub proof fn lemma_answer_failures<R: Fn(&String) -> Option<String>>(
    entries: Seq<MappingEntry>,
    profile: Map<Seq<char>, Map<Seq<char>, SettingValueView>>,
    setting_name: Seq<char>,
    hints: Seq<Seq<char>>,
    flags: u32,
    read: R,
    result: Result<SecretsReply, AgentError>,
)
    requires
        is_answer(entries, profile, setting_name, hints, flags, read, result),
    ensures
        result == Err::<SecretsReply, AgentError>(AgentError::MalformedRequest)
            <==> !profile_is_usable(profile),
        result == Err::<SecretsReply, AgentError>(AgentError::UnsupportedFlag) <==> (
        profile_is_usable(profile) && requests_new(flags)),
        result is Err ==> result->Err_0 == AgentError::MalformedRequest || result->Err_0
            == AgentError::UnsupportedFlag || result->Err_0 == AgentError::SourceUnreadable,
        result == Err::<SecretsReply, AgentError>(AgentError::SourceUnreadable) ==> exists|
            i: int,
        |
            0 <= i < matching_profile(entries, profile, setting_name).len() && call_ensures(
                read,
                (&(#[trigger] matching_profile(entries, profile, setting_name)[i]).file,),
                None,
            ),
{
    if profile_is_usable(profile) && !requests_new(flags) {
        let found = matching_profile(entries, profile, setting_name);
        let outcomes = choose|outcomes: Seq<Option<String>>| #[trigger]
            reads_of(read, found, outcomes) && answer_of(
                found,
                outcomes,
                setting_name,
                hints,
                result,
            );
        if result is Err {
            let i = choose|i: int| 0 <= i < found.len() && !readable_at(outcomes, i);
            assert(outcomes[i] == None::<String>);
            assert(call_ensures(read, (&found[i].file,), outcomes[i]));
        }
    }
}

/// Pairs each rule with the content read from its source. One source that
/// was not read fails the whole: no part of the secrets is handed out. An
/// outcome that is missing from the list counts as not read.
pub fn gather_secrets(entries: &[MappingEntry], outcomes: &[Option<String>]) -> (result: Result<
    Vec<Secret>,
    AgentError,
>)
    ensures
        resolution_of(entries@, outcomes@, result),
{
    let mut secrets: Vec<Secret> = Vec::new();
    let mut i: usize = 0;
    while i < entries.len()
        invariant
            i <= entries.len(),
            secrets.len() == i,
            all_readable(i as nat, outcomes@),
            forall|j: int|
                0 <= j < i ==> (#[trigger] secrets[j])@ == gathered(entries@, outcomes@)[j],
        decreases entries.len() - i,
    {
        if i >= outcomes.len() {
            proof {
                assert(!readable_at(outcomes@, i as int));
            }
            return Err(AgentError::SourceUnreadable);
        }
        match &outcomes[i] {
            Some(content) => {
                secrets.push(Secret { key: entries[i].key.clone(), value: content.clone() });
            },
            None => {
                proof {
                    assert(!readable_at(outcomes@, i as int));
                }
                return Err(AgentError::SourceUnreadable);
            },
        }
        i = i + 1;
    }
    proof {
        assert(secret_views(secrets@) =~= gathered(entries@, outcomes@));
    }
    Ok(secrets)
}

/// Finds the secrets for a request: the rules that apply, each with the
/// content that `read` gives for its file. A request that asks for new
/// credentials is refused before any rule is looked at. Where `read` fails
/// on the file of one rule that applies, the whole request fails; where no
/// rule applies, the result is the empty list.
///
/// `read` is called on the files of the rules that apply and on no other,
/// and not at all for a request that is refused: no more is asked of it.
pub fn resolve<R: Fn(&String) -> Option<String>>(
    config: &AgentConfig,
    request: &ConnectionRequest,
    read: R,
) -> (result: Result<Vec<Secret>, AgentError>)
    requires
        !requests_new(request.flags) ==> may_read(
            read,
            matching_request(config.entries@, request@),
        ),
    ensures
        requests_new(request.flags) ==> result == Err::<Vec<Secret>, AgentError>(
            AgentError::UnsupportedFlag,
        ),
        !requests_new(request.flags) ==> exists|outcomes: Seq<Option<String>>|
            {
                &&& #[trigger] reads_of(
                    read,
                    matching_request(config.entries@, request@),
                    outcomes,
                )
                &&& resolution_of(matching_request(config.entries@, request@), outcomes, result)
            },
        !requests_new(request.flags) && matching_request(config.entries@, request@).len() == 0
            ==> result is Ok && result->Ok_0@.len() == 0,
{
    if asks_for_new_secrets(request.flags) {
        return Err(AgentError::UnsupportedFlag);
    }
    let found = config.find_matches(request);
    let mut outcomes: Vec<Option<String>> = Vec::new();
    let mut i: usize = 0;
    while i < found.len()
        invariant
            i <= found.len(),
            outcomes.len() == i,
            may_read(read, found@),
            forall|j: int|
                0 <= j < i ==> call_ensures(read, (&found[j].file,), #[trigger] outcomes[j]),
        decreases found.len() - i,
    {
        let outcome = read(&found[i].file);
        outcomes.push(outcome);
        i = i + 1;
    }
    let result = gather_secrets(found.as_slice(), outcomes.as_slice());
    proof {
        assert(reads_of(read, matching_request(config.entries@, request@), outcomes@));
        if result is Ok {
            assert(secret_views(result->Ok_0@).len() == found.len());
        }
    }
    result
}

/// The hints among `hints` that name no key of `inserted`, in their order.
pub fn missing_hints(hints: &[String], inserted: &StringSet) -> (missing: Vec<String>)
    ensures
        texts(missing@) == unmet_hints(texts(hints@), inserted@),
{
    let ghost all = texts(hints@);
    let ghost pred = |h: Seq<char>| !inserted@.contains(h);
    let mut missing: Vec<String> = Vec::new();
    let mut i: usize = 0;
    proof {
        reveal(Seq::filter);
        assert(all.take(0).filter(pred) =~= Seq::<Seq<char>>::empty());
        assert(texts(missing@) =~= Seq::<Seq<char>>::empty());
    }
    while i < hints.len()
        invariant
            i <= hints.len(),
            all == texts(hints@),
            pred == (|h: Seq<char>| !inserted@.contains(h)),
            texts(missing@) == all.take(i as int).filter(pred),
        decreases hints.len() - i,
    {
        let hint = &hints[i];
        let ghost before = missing@;
        proof {
            reveal(Seq::filter);
            assert(all.take(i + 1).drop_last() =~= all.take(i as int));
            assert(all.take(i + 1).last() == hint@);
        }
        if !inserted.contains(hint.as_str()) {
            missing.push(hint.clone());
            proof {
                assert(texts(missing@) =~= texts(before).push(hint@));
            }
        }
        i = i + 1;
    }
    proof {
        assert(all.take(i as int) =~= all);
    }
    missing
}

/// Builds the reply from the secrets of a request. Without secrets the
/// reply is empty: the agent has nothing to offer, which is no failure.
/// Otherwise it holds the requested setting alone, encoded for WireGuard
/// where the setting is `wireguard` and flat for every other, and lists the
/// hints for which no secret is there.
pub fn build_reply(requested_setting: &str, hints: &[String], secrets: &[Secret]) -> (reply:
    SecretsReply)
    ensures
        is_reply_for(reply, requested_setting@, texts(hints@), secret_views(secrets@)),
{
    let mut result: NestedSettingsMap = OrderedMap::new();
    if secrets.len() == 0 {
        let none: Vec<String> = Vec::new();
        proof {
            assert(texts(none@) =~= Seq::<Seq<char>>::empty());
        }
        return SecretsReply { secrets: result, missing_hints: none };
    }
    let (settings, inserted_keys) = encode(requested_setting, secrets);
    result.insert(requested_setting.to_owned(), settings);
    let missing = missing_hints(hints, &inserted_keys);
    SecretsReply { secrets: result, missing_hints: missing }
}

/// Answers a request for the secrets of one setting of a connection.
///
/// The request is the connection profile, the name of the setting, the hints
/// and the flags. The profile must be usable, else the request is malformed;
/// a request for new credentials is refused; then the rules that apply are
/// resolved with `read`, and the secrets are encoded into the reply. The
/// configuration is left as it was. `read` is called on the files of the
/// rules that apply and on no other.
pub fn get_secret<R: Fn(&String) -> Option<String>>(
    config: &mut AgentConfig,
    request: (&NestedSettingsMap, &str, &[String], u32),
    read: R,
) -> (result: Result<SecretsReply, AgentError>)
    requires
        profile_is_usable(request.0@) && !requests_new(request.3) ==> may_read(
            read,
            matching_profile(old(config).entries@, request.0@, request.1@),
        ),
    ensures
        *final(config) == *old(config),
        is_answer(
            old(config).entries@,
            request.0@,
            request.1@,
            texts(request.2@),
            request.3,
            read,
            result,
        ),
{
    let (connection_profile, requested_setting, hints, flags) = request;
    let asked = match ConnectionRequest::from_profile(
        connection_profile,
        requested_setting,
        hints,
        flags,
    ) {
        Ok(r) => r,
        Err(e) => {
            return Err(e);
        },
    };
    let resolved = resolve(&*config, &asked, read);
    let ghost found = matching_profile(config.entries@, connection_profile@, requested_setting@);
    proof {
        assert(found == matching_request(config.entries@, asked@));
    }
    let ghost outcomes = choose|outcomes: Seq<Option<String>>| #[trigger]
        reads_of(read, found, outcomes) && resolution_of(found, outcomes, resolved);
    let secrets = match resolved {
        Ok(s) => s,
        Err(e) => {
            proof {
                if !requests_new(flags) {
                    assert(reads_of(read, found, outcomes));
                }
            }
            return Err(e);
        },
    };
    let reply = build_reply(requested_setting, hints, secrets.as_slice());
    proof {
        assert(reads_of(read, found, outcomes));
    }
    Ok(reply)
}

} // verus!
