//! The configured rules: which secret file answers which request.

use vstd::prelude::*;

verus! {

/// One rule: the request attributes it asks for, the name of the secret, and
/// the file that holds the secret's content.
#[derive(Debug, PartialEq, Eq)]
pub struct MappingEntry {
    pub match_id: Option<String>,
    pub match_uuid: Option<String>,
    pub match_type: Option<String>,
    pub match_iface: Option<String>,
    pub match_setting: Option<String>,
    pub key: String,
    pub file: String,
}

/// What a rule says, as plain texts.
pub struct EntryView {
    pub match_id: Option<Seq<char>>,
    pub match_uuid: Option<Seq<char>>,
    pub match_type: Option<Seq<char>>,
    pub match_iface: Option<Seq<char>>,
    pub match_setting: Option<Seq<char>>,
    pub key: Seq<char>,
    pub file: Seq<char>,
}

/// The text of an optional string.
pub open spec fn opt_text(s: Option<String>) -> Option<Seq<char>> {
    match s {
        Some(t) => Some(t@),
        None => None,
    }
}

/// The text of an optional string slice.
pub open spec fn opt_str_text(s: Option<&str>) -> Option<Seq<char>> {
    match s {
        Some(t) => Some(t@),
        None => None,
    }
}

impl View for MappingEntry {
    type V = EntryView;

    open spec fn view(&self) -> EntryView {
        EntryView {
            match_id: opt_text(self.match_id),
            match_uuid: opt_text(self.match_uuid),
            match_type: opt_text(self.match_type),
            match_iface: opt_text(self.match_iface),
            match_setting: opt_text(self.match_setting),
            key: self.key@,
            file: self.file@,
        }
    }
}

impl Clone for MappingEntry {
    fn clone(&self) -> (copy: Self)
        ensures
            copy == *self,
    {
        MappingEntry {
            match_id: self.match_id.clone(),
            match_uuid: self.match_uuid.clone(),
            match_type: self.match_type.clone(),
            match_iface: self.match_iface.clone(),
            match_setting: self.match_setting.clone(),
            key: self.key.clone(),
            file: self.file.clone(),
        }
    }
}

/// A match field that is unset admits every value; one that is set admits
/// the value equal to it, letter for letter.
pub open spec fn field_admits(rule: Option<Seq<char>>, actual: Seq<char>) -> bool {
    match rule {
        Some(r) => r == actual,
        None => true,
    }
}

/// As `field_admits`, for an attribute that a request may lack: a field that
/// is set admits no request without the attribute.
pub open spec fn optional_field_admits(rule: Option<Seq<char>>, actual: Option<Seq<char>>) -> bool {
    match rule {
        Some(r) => actual == Some(r),
        None => true,
    }
}

/// Whether a rule applies to a request with the given attributes.
pub open spec fn entry_matches(
    entry: EntryView,
    id: Seq<char>,
    uuid: Seq<char>,
    conn_type: Seq<char>,
    iface_name: Option<Seq<char>>,
    setting_name: Seq<char>,
) -> bool {
    &&& field_admits(entry.match_id, id)
    &&& field_admits(entry.match_uuid, uuid)
    &&& field_admits(entry.match_type, conn_type)
    &&& optional_field_admits(entry.match_iface, iface_name)
    &&& field_admits(entry.match_setting, setting_name)
}

/// The test that selects the rules for a request.
pub open spec fn matcher(
    id: Seq<char>,
    uuid: Seq<char>,
    conn_type: Seq<char>,
    iface_name: Option<Seq<char>>,
    setting_name: Seq<char>,
) -> spec_fn(MappingEntry) -> bool {
    |e: MappingEntry| entry_matches(e@, id, uuid, conn_type, iface_name, setting_name)
}

/// The rules among `entries` that apply to a request, in their order.
pub open spec fn matching(
    entries: Seq<MappingEntry>,
    id: Seq<char>,
    uuid: Seq<char>,
    conn_type: Seq<char>,
    iface_name: Option<Seq<char>>,
    setting_name: Seq<char>,
) -> Seq<MappingEntry> {
    entries.filter(matcher(id, uuid, conn_type, iface_name, setting_name))
}

/// Whether a match field admits `actual`.
fn admits(rule: &Option<String>, actual: &String) -> (ok: bool)
    ensures
        ok == field_admits(opt_text(*rule), actual@),
{
    match rule {
        Some(r) => *r == *actual,
        None => true,
    }
}

/// Whether a match field admits an attribute that the request may lack.
fn admits_optional(rule: &Option<String>, actual: &Option<String>) -> (ok: bool)
    ensures
        ok == optional_field_admits(opt_text(*rule), opt_text(*actual)),
{
    match rule {
        Some(r) => match actual {
            Some(a) => *r == *a,
            None => false,
        },
        None => true,
    }
}

impl MappingEntry {
    /// A rule names its secret: the key is not empty.
    pub open spec fn well_formed(&self) -> bool {
        self.key@.len() > 0
    }

    /// Whether this rule applies to a request with the given attributes.
    pub fn applies_to(
        &self,
        id: &String,
        uuid: &String,
        conn_type: &String,
        iface_name: &Option<String>,
        setting_name: &String,
    ) -> (ok: bool)
        ensures
            ok == entry_matches(
                self@,
                id@,
                uuid@,
                conn_type@,
                opt_text(*iface_name),
                setting_name@,
            ),
    {
        admits(&self.match_id, id) && admits(&self.match_uuid, uuid) && admits(
            &self.match_type,
            conn_type,
        ) && admits_optional(&self.match_iface, iface_name) && admits(
            &self.match_setting,
            setting_name,
        )
    }
}

/// The rules of the agent, in the order of the configuration.
#[derive(Debug, PartialEq, Eq)]
pub struct AgentConfig {
    pub entries: Vec<MappingEntry>,
}

impl Clone for AgentConfig {
    fn clone(&self) -> (copy: Self)
        ensures
            copy.entries@ == self.entries@,
    {
        let mut entries: Vec<MappingEntry> = Vec::new();
        let mut i: usize = 0;
        while i < self.entries.len()
            invariant
                i <= self.entries.len(),
                entries@ == self.entries@.take(i as int),
            decreases self.entries.len() - i,
        {
            entries.push(self.entries[i].clone());
            proof {
                assert(self.entries@.take(i + 1) =~= self.entries@.take(i as int).push(
                    self.entries@[i as int],
                ));
            }
            i = i + 1;
        }
        proof {
            assert(self.entries@.take(i as int) =~= self.entries@);
        }
        AgentConfig { entries }
    }
}

impl AgentConfig {
    /// Every rule names its secret.
    pub open spec fn well_formed(&self) -> bool {
        forall|i: int| 0 <= i < self.entries.len() ==> (#[trigger] self.entries[i]).well_formed()
    }

    /// Whether every rule names its secret.
    pub fn has_named_secrets(&self) -> (ok: bool)
        ensures
            ok == self.well_formed(),
    {
        let mut i: usize = 0;
        while i < self.entries.len()
            invariant
                i <= self.entries.len(),
                forall|j: int| 0 <= j < i ==> (#[trigger] self.entries[j]).well_formed(),
            decreases self.entries.len() - i,
        {
            if self.entries[i].key.as_str().is_empty() {
                return false;
            }
            i = i + 1;
        }
        true
    }

    /// The rules that apply to a request with the given attributes, in the
    /// order of the configuration. An attribute that a rule leaves unset
    /// admits every request; a rule that asks for an interface name never
    /// applies to a request without one.
    pub fn find_matching_secrets(
        &self,
        conn_id: &str,
        conn_uuid: &str,
        conn_type: &str,
        iface_name: Option<&str>,
        setting_name: &str,
    ) -> (found: Vec<MappingEntry>)
        ensures
            found@ == matching(
                self.entries@,
                conn_id@,
                conn_uuid@,
                conn_type@,
                opt_str_text(iface_name),
                setting_name@,
            ),
    {
        let id: String = conn_id.to_owned();
        let uuid: String = conn_uuid.to_owned();
        let ty: String = conn_type.to_owned();
        let iface: Option<String> = match iface_name {
            Some(name) => Some(name.to_owned()),
            None => None,
        };
        let setting: String = setting_name.to_owned();
        let ghost pred = matcher(id@, uuid@, ty@, opt_text(iface), setting@);
        let mut found: Vec<MappingEntry> = Vec::new();
        let mut i: usize = 0;
        proof {
            reveal(Seq::filter);
            assert(self.entries@.take(0).filter(pred) =~= Seq::<MappingEntry>::empty());
        }
        while i < self.entries.len()
            invariant
                i <= self.entries.len(),
                pred == matcher(id@, uuid@, ty@, opt_text(iface), setting@),
                found@ == self.entries@.take(i as int).filter(pred),
            decreases self.entries.len() - i,
        {
            let entry = &self.entries[i];
            proof {
                reveal(Seq::filter);
                assert(self.entries@.take(i + 1).drop_last() =~= self.entries@.take(i as int));
                assert(self.entries@.take(i + 1).last() == self.entries@[i as int]);
            }
            if entry.applies_to(&id, &uuid, &ty, &iface, &setting) {
                found.push(entry.clone());
            }
            i = i + 1;
        }
        proof {
            assert(self.entries@.take(i as int) =~= self.entries@);
        }
        found
    }
}

/// Whether `uuid::Uuid::parse_str` takes `text` for a UUID.
pub uninterp spec fn uuid_accepts(text: Seq<char>) -> bool;

/// Asks `uuid::Uuid::parse_str` whether `text` is a UUID. The parser reads
/// its argument and nothing else, so the answer is a function of the text;
/// it returns an error for every text that it does not take, and never
/// panics.
#[verifier::external_body]
fn is_uuid(text: &str) -> (ok: bool)
    ensures
        ok == uuid_accepts(text@),
{
    uuid::Uuid::parse_str(text).is_ok()
}

/// A rule that asks for a connection UUID which is none: it can apply to no
/// connection that the daemon knows.
pub open spec fn has_dead_uuid(entry: EntryView) -> bool {
    entry.match_uuid matches Some(u) && !uuid_accepts(u)
}

/// The places of the rules that ask for a UUID which is none, in increasing
/// order.
pub open spec fn is_warning_list(entries: Seq<MappingEntry>, places: Seq<usize>) -> bool {
    &&& forall|a: int, b: int| 0 <= a < b < places.len() ==> places[a] < places[b]
    &&& forall|a: int| 0 <= a < places.len() ==> (#[trigger] places[a]) < entries.len()
    &&& forall|i: int|
        0 <= i < entries.len() ==> (places.contains(i as usize) <==> has_dead_uuid(
            (#[trigger] entries[i])@,
        ))
}

/// What the UUID parser said of each rule, in order: nothing for a rule
/// that asks for no UUID, else whether the parser took its UUID.
pub open spec fn uuid_checks_of(entries: Seq<MappingEntry>, checks: Seq<Option<bool>>) -> bool {
    &&& checks.len() == entries.len()
    &&& forall|i: int|
        0 <= i < entries.len() ==> #[trigger] checks[i] == match entries[i].match_uuid {
            Some(u) => Some(uuid_accepts(u@)),
            None => None,
        }
}

/// The places in `checks` that hold a refusal, in increasing order.
pub open spec fn is_refusal_list(checks: Seq<Option<bool>>, places: Seq<usize>) -> bool {
    &&& forall|a: int, b: int| 0 <= a < b < places.len() ==> places[a] < places[b]
    &&& forall|a: int| 0 <= a < places.len() ==> (#[trigger] places[a]) < checks.len()
    &&& forall|i: int|
        0 <= i < checks.len() ==> (places.contains(i as usize) <==> #[trigger] checks[i] == Some(
            false,
        ))
}

/// The places of the rules whose UUID the parser refused, in increasing
/// order. `checks` holds, for each rule, what the parser said.
pub fn refused_uuids(checks: &[Option<bool>]) -> (places: Vec<usize>)
    ensures
        is_refusal_list(checks@, places@),
{
    let mut places: Vec<usize> = Vec::new();
    let mut i: usize = 0;
    while i < checks.len()
        invariant
            i <= checks.len(),
            forall|a: int, b: int| 0 <= a < b < places.len() ==> places[a] < places[b],
            forall|a: int| 0 <= a < places.len() ==> (#[trigger] places[a]) < i,
            forall|k: int|
                0 <= k < i ==> (places@.contains(k as usize) <==> #[trigger] checks[k] == Some(
                    false,
                )),
        decreases checks.len() - i,
    {
        let ghost before = places@;
        let refused: bool = match checks[i] {
            Some(ok) => !ok,
            None => false,
        };
        if refused {
            places.push(i);
            proof {
                assert(places@[places.len() - 1] == i);
                assert forall|k: int| 0 <= k < i + 1 implies (places@.contains(k as usize)
                    <==> #[trigger] checks[k] == Some(false)) by {
                    if before.contains(k as usize) {
                        let a = before.index_of(k as usize);
                        assert(places@[a] == k as usize);
                    }
                    if places@.contains(k as usize) && k < i {
                        let a = places@.index_of(k as usize);
                        assert(before[a] == k as usize);
                    }
                }
            }
        } else {
            proof {
                assert(!places@.contains(i)) by {
                    if places@.contains(i) {
                        let a = places@.index_of(i);
                        assert(places@[a] < i);
                    }
                }
            }
        }
        i = i + 1;
    }
    proof {
        assert forall|k: int| 0 <= k < checks.len() implies (places@.contains(k as usize)
            <==> #[trigger] checks[k] == Some(false)) by {}
    }
    places
}

impl AgentConfig {
    /// Looks the rules over before the agent starts to serve. `can_open` says
    /// whether a file can be opened for reading. The first rule whose file
    /// cannot be opened fails the validation, which then gives that rule's
    /// place. Otherwise the result lists the places of the rules that ask for
    /// a UUID which is none: they deserve a warning, for they never apply.
    pub fn validate<F: Fn(&String) -> bool>(&self, can_open: F) -> (verdict: Result<
        Vec<usize>,
        usize,
    >)
        requires
            forall|i: int|
                0 <= i < self.entries.len() ==> call_requires(
                    can_open,
                    (&(#[trigger] self.entries[i]).file,),
                ),
        ensures
            match verdict {
                Ok(warnings) => {
                    &&& forall|i: int|
                        0 <= i < self.entries.len() ==> call_ensures(
                            can_open,
                            (&(#[trigger] self.entries[i]).file,),
                            true,
                        )
                    &&& is_warning_list(self.entries@, warnings@)
                },
                Err(place) => {
                    &&& place < self.entries.len()
                    &&& call_ensures(can_open, (&self.entries[place as int].file,), false)
                    &&& forall|i: int|
                        0 <= i < place ==> call_ensures(
                            can_open,
                            (&(#[trigger] self.entries[i]).file,),
                            true,
                        )
                },
            },
    {
        let mut checks: Vec<Option<bool>> = Vec::new();
        let mut i: usize = 0;
        while i < self.entries.len()
            invariant
                i <= self.entries.len(),
                forall|j: int|
                    0 <= j < self.entries.len() ==> call_requires(
                        can_open,
                        (&(#[trigger] self.entries[j]).file,),
                    ),
                forall|j: int|
                    0 <= j < i ==> call_ensures(
                        can_open,
                        (&(#[trigger] self.entries[j]).file,),
                        true,
                    ),
                uuid_checks_of(self.entries@.take(i as int), checks@),
            decreases self.entries.len() - i,
        {
            let entry = &self.entries[i];
            if !can_open(&entry.file) {
                return Err(i);
            }
            let check: Option<bool> = match &entry.match_uuid {
                Some(u) => Some(is_uuid(u.as_str())),
                None => None,
            };
            checks.push(check);
            i = i + 1;
        }
        proof {
            assert(self.entries@.take(i as int) =~= self.entries@);
        }
        let warnings = refused_uuids(checks.as_slice());
        proof {
            assert forall|k: int| 0 <= k < self.entries.len() implies (warnings@.contains(
                k as usize,
            ) <==> has_dead_uuid((#[trigger] self.entries@[k])@)) by {
                assert(checks@[k] == Some(false) <==> has_dead_uuid(self.entries@[k]@));
            }
        }
        Ok(warnings)
    }
}

/// Every rule that `matching` selects is one of the rules and applies to the
/// request.
pub proof fn lemma_matching_sound(
    entries: Seq<MappingEntry>,
    id: Seq<char>,
    uuid: Seq<char>,
    conn_type: Seq<char>,
    iface_name: Option<Seq<char>>,
    setting_name: Seq<char>,
    i: int,
)
    requires
        0 <= i < matching(entries, id, uuid, conn_type, iface_name, setting_name).len(),
    ensures
        ({
            let found = matching(entries, id, uuid, conn_type, iface_name, setting_name);
            &&& entries.contains(found[i])
            &&& entry_matches(found[i]@, id, uuid, conn_type, iface_name, setting_name)
        }),
{
    let pred = matcher(id, uuid, conn_type, iface_name, setting_name);
    entries.lemma_filter_pred(pred, i);
    entries.lemma_filter_contains_rev(pred, entries.filter(pred)[i]);
}

/// Every rule that applies to the request is selected.
pub proof fn lemma_matching_complete(
    entries: Seq<MappingEntry>,
    id: Seq<char>,
    uuid: Seq<char>,
    conn_type: Seq<char>,
    iface_name: Option<Seq<char>>,
    setting_name: Seq<char>,
    i: int,
)
    requires
        0 <= i < entries.len(),
        entry_matches(entries[i]@, id, uuid, conn_type, iface_name, setting_name),
    ensures
        matching(entries, id, uuid, conn_type, iface_name, setting_name).contains(entries[i]),
{
    entries.lemma_filter_contains(matcher(id, uuid, conn_type, iface_name, setting_name), i);
}

/// A rule with no match field set applies to every request.
pub proof fn lemma_unconstrained_entry_matches(
    entry: EntryView,
    id: Seq<char>,
    uuid: Seq<char>,
    conn_type: Seq<char>,
    iface_name: Option<Seq<char>>,
    setting_name: Seq<char>,
)
    requires
        entry.match_id is None,
        entry.match_uuid is None,
        entry.match_type is None,
        entry.match_iface is None,
        entry.match_setting is None,
    ensures
        entry_matches(entry, id, uuid, conn_type, iface_name, setting_name),
{
}

/// Without rules nothing applies, whatever the request.
pub proof fn lemma_empty_store_matches_nothing(
    id: Seq<char>,
    uuid: Seq<char>,
    conn_type: Seq<char>,
    iface_name: Option<Seq<char>>,
    setting_name: Seq<char>,
)
    ensures
        matching(Seq::<MappingEntry>::empty(), id, uuid, conn_type, iface_name, setting_name)
            == Seq::<MappingEntry>::empty(),
{
    reveal(Seq::filter);
}

} // verus!
