//! What one request for secrets says about the connection it is for.

use crate::config::{matching, opt_text, AgentConfig, MappingEntry};
use crate::error::AgentError;
use crate::settings::{NestedSettingsMap, PropMap, SettingValueView};
use crate::string_set::texts;
use vstd::prelude::*;

verus! {

/// The attributes of a request by which rules are chosen, with the hints and
/// flags that came with it.
#[derive(Debug, PartialEq, Eq)]
pub struct ConnectionRequest {
    pub id: String,
    pub uuid: String,
    pub conn_type: String,
    pub iface_name: Option<String>,
    pub setting_name: String,
    pub hints: Vec<String>,
    pub flags: u32,
}

/// The texts of a request.
pub struct RequestView {
    pub id: Seq<char>,
    pub uuid: Seq<char>,
    pub conn_type: Seq<char>,
    pub iface_name: Option<Seq<char>>,
    pub setting_name: Seq<char>,
    pub hints: Seq<Seq<char>>,
    pub flags: u32,
}

impl View for ConnectionRequest {
    type V = RequestView;

    open spec fn view(&self) -> RequestView {
        RequestView {
            id: self.id@,
            uuid: self.uuid@,
            conn_type: self.conn_type@,
            iface_name: opt_text(self.iface_name),
            setting_name: self.setting_name@,
            hints: texts(self.hints@),
            flags: self.flags,
        }
    }
}

/// The rules that apply to a request.
pub open spec fn matching_request(entries: Seq<MappingEntry>, request: RequestView) -> Seq<
    MappingEntry,
> {
    matching(
        entries,
        request.id,
        request.uuid,
        request.conn_type,
        request.iface_name,
        request.setting_name,
    )
}

impl AgentConfig {
    /// The rules that apply to `request`, in the order of the configuration;
    /// none where no rule applies.
    pub fn find_matches(&self, request: &ConnectionRequest) -> (found: Vec<MappingEntry>)
        ensures
            found@ == matching_request(self.entries@, request@),
    {
        let iface: Option<&str> = match &request.iface_name {
            Some(name) => Some(name.as_str()),
            None => None,
        };
        self.find_matching_secrets(
            request.id.as_str(),
            request.uuid.as_str(),
            request.conn_type.as_str(),
            iface,
            request.setting_name.as_str(),
        )
    }
}

/// The text held under `name`, where the section has that property and it is
/// a text.
pub open spec fn text_of(section: Map<Seq<char>, SettingValueView>, name: Seq<char>) -> Option<
    Seq<char>,
> {
    if section.contains_key(name) {
        match section[name] {
            SettingValueView::Text(t) => Some(t),
            _ => None,
        }
    } else {
        None
    }
}

/// A profile from which a request can be made: its `connection` section
/// holds `id`, `uuid` and `type` as texts, and `interface-name`, if at all,
/// as a text.
pub open spec fn profile_is_usable(
    profile: Map<Seq<char>, Map<Seq<char>, SettingValueView>>,
) -> bool {
    &&& profile.contains_key("connection"@)
    &&& text_of(profile["connection"@], "id"@) is Some
    &&& text_of(profile["connection"@], "uuid"@) is Some
    &&& text_of(profile["connection"@], "type"@) is Some
    &&& profile["connection"@].contains_key("interface-name"@) ==> text_of(
        profile["connection"@],
        "interface-name"@,
    ) is Some
}

/// The request that a usable profile gives.
pub open spec fn request_of(
    profile: Map<Seq<char>, Map<Seq<char>, SettingValueView>>,
    setting_name: Seq<char>,
    hints: Seq<Seq<char>>,
    flags: u32,
) -> RequestView {
    let connection = profile["connection"@];
    RequestView {
        id: text_of(connection, "id"@)->Some_0,
        uuid: text_of(connection, "uuid"@)->Some_0,
        conn_type: text_of(connection, "type"@)->Some_0,
        iface_name: text_of(connection, "interface-name"@),
        setting_name,
        hints,
        flags,
    }
}

/// The text held under `name` in `section`, if there is one.
fn text_property(section: &PropMap, name: &str) -> (text: Option<String>)
    ensures
        opt_text(text) == text_of(section@, name@),
{
    match section.get(name) {
        Some(value) => match value.as_str() {
            Some(t) => Some(t.to_owned()),
            None => None,
        },
        None => None,
    }
}

/// A copy of a list of strings.
pub fn copy_strings(list: &[String]) -> (copy: Vec<String>)
    ensures
        copy@ == list@,
{
    let mut copy: Vec<String> = Vec::new();
    let mut i: usize = 0;
    while i < list.len()
        invariant
            i <= list.len(),
            copy@ == list@.take(i as int),
        decreases list.len() - i,
    {
        copy.push(list[i].clone());
        proof {
            assert(list@.take(i + 1) =~= list@.take(i as int).push(list@[i as int]));
        }
        i = i + 1;
    }
    proof {
        assert(list@.take(i as int) =~= list@);
    }
    copy
}

impl ConnectionRequest {
    /// Reads the attributes of a request out of the connection profile that
    /// came with it. The profile is refused where `id`, `uuid` or `type` is
    /// missing from its `connection` section or is no text, and where
    /// `interface-name` is there and is no text.
    pub fn from_profile(
        connection_profile: &NestedSettingsMap,
        setting_name: &str,
        hints: &[String],
        flags: u32,
    ) -> (made: Result<ConnectionRequest, AgentError>)
        ensures
            match made {
                Ok(request) => profile_is_usable(connection_profile@) && request@ == request_of(
                    connection_profile@,
                    setting_name@,
                    texts(hints@),
                    flags,
                ),
                Err(e) => !profile_is_usable(connection_profile@) && e
                    == AgentError::MalformedRequest,
            },
    {
        let connection = match connection_profile.get("connection") {
            Some(section) => section,
            None => {
                return Err(AgentError::MalformedRequest);
            },
        };
        let id = match text_property(connection, "id") {
            Some(t) => t,
            None => {
                return Err(AgentError::MalformedRequest);
            },
        };
        let uuid = match text_property(connection, "uuid") {
            Some(t) => t,
            None => {
                return Err(AgentError::MalformedRequest);
            },
        };
        let conn_type = match text_property(connection, "type") {
            Some(t) => t,
            None => {
                return Err(AgentError::MalformedRequest);
            },
        };
        let iface_name = text_property(connection, "interface-name");
        if iface_name.is_none() && connection.contains_key("interface-name") {
            return Err(AgentError::MalformedRequest);
        }
        Ok(
            ConnectionRequest {
                id,
                uuid,
                conn_type,
                iface_name,
                setting_name: setting_name.to_owned(),
                hints: copy_strings(hints),
                flags,
            },
        )
    }
}

} // verus!
