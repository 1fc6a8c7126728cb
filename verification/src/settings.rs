//! The values that travel over the bus as connection settings: a map from
//! setting names to property maps, whose values are held here as far as the
//! agent reads or writes them.

use crate::ordered_map::OrderedMap;
use vstd::prelude::*;

verus! {

/// One property value of a connection setting.
#[derive(Debug)]
pub enum SettingValue {
    /// A text.
    Text(String),
    /// A list of peers, each a map from property names to texts.
    Peers(Vec<OrderedMap<String>>),
    /// A value of any other type. The agent never reads into one and never
    /// produces one.
    Other,
}

/// What a `SettingValue` stands for.
pub enum SettingValueView {
    Text(Seq<char>),
    Peers(Seq<Map<Seq<char>, Seq<char>>>),
    Other,
}

/// The properties of one setting, by name.
pub type PropMap = OrderedMap<SettingValue>;

/// The settings of a connection, by name.
pub type NestedSettingsMap = OrderedMap<PropMap>;

/// The maps of a list of peers, in order.
pub open spec fn peer_views(peers: Seq<OrderedMap<String>>) -> Seq<Map<Seq<char>, Seq<char>>> {
    peers.map_values(|p: OrderedMap<String>| p@)
}

impl View for SettingValue {
    type V = SettingValueView;

    open spec fn view(&self) -> SettingValueView {
        match self {
            SettingValue::Text(s) => SettingValueView::Text(s@),
            SettingValue::Peers(p) => SettingValueView::Peers(peer_views(p@)),
            SettingValue::Other => SettingValueView::Other,
        }
    }
}

impl SettingValue {
    /// The text of a text value; `None` for every other value.
    pub fn as_str(&self) -> (text: Option<&str>)
        ensures
            match text {
                Some(t) => self@ == SettingValueView::Text(t@),
                None => !(self@ is Text),
            },
    {
        match self {
            SettingValue::Text(s) => Some(s.as_str()),
            _ => None,
        }
    }
}

impl OrderedMap<SettingValue> {
    /// The bus type of a property map, whatever it holds: a dictionary from
    /// strings to variants.
    pub fn signature(&self) -> (sig: String)
        ensures
            sig@ == "a{sv}"@,
    {
        "a{sv}".to_owned()
    }
}

} // verus!
