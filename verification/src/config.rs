//! Forwarding rules: where to listen, where to forward to, and whom to let in.

use crate::json::{parse, parsed_json, JsonValue};
use vstd::prelude::*;

verus! {

/// One forwarding rule.
#[derive(Debug, PartialEq, Eq)]
pub struct ForwardInfo {
    /// The local address to listen on, as `host:port`.
    pub listen_to: String,
    /// The address to forward each accepted connection to, as `host:port`.
    pub forward_to: String,
    /// The remote IP addresses that may connect; none listed means all may.
    pub whitelist: Vec<String>,
}

/// The mathematical content of a [`ForwardInfo`].
pub struct RuleView {
    pub listen_to: Seq<char>,
    pub forward_to: Seq<char>,
    pub whitelist: Seq<Seq<char>>,
}

impl RuleView {
    /// Whether this rule lets a peer with address `ip` in: its whitelist is
    /// empty or lists `ip`.
    pub open spec fn admits(self, ip: Seq<char>) -> bool {
        self.whitelist.len() == 0 || self.whitelist.contains(ip)
    }
}

/// The texts of a list of strings, in the same order.
pub open spec fn texts(list: Seq<String>) -> Seq<Seq<char>> {
    list.map_values(|s: String| s@)
}

impl View for ForwardInfo {
    type V = RuleView;

    open spec fn view(&self) -> RuleView {
        RuleView {
            listen_to: self.listen_to@,
            forward_to: self.forward_to@,
            whitelist: texts(self.whitelist@),
        }
    }
}

impl Clone for ForwardInfo {
    fn clone(&self) -> (copy: ForwardInfo)
        ensures
            copy@ == self@,
    {
        let whitelist = self.whitelist.clone();
        assert(texts(whitelist@) =~= texts(self.whitelist@));
        ForwardInfo {
            listen_to: self.listen_to.clone(),
            forward_to: self.forward_to.clone(),
            whitelist,
        }
    }
}

/// The texts of `items`, if every one of them is a string.
pub open spec fn all_text(items: Seq<JsonValue>) -> Option<Seq<Seq<char>>> {
    if forall|i: int| 0 <= i < items.len() ==> (#[trigger] items[i]).text() is Some {
        Some(Seq::new(items.len(), |i: int| items[i].text().unwrap()))
    } else {
        None
    }
}

/// The whitelist that the JSON object `elem` spells out: the strings of its
/// member `whitelist`, or the empty list where it has no such member.
/// A `whitelist` that is not an array of strings gives nothing.
pub open spec fn whitelist_of(elem: JsonValue) -> Option<Seq<Seq<char>>> {
    match elem.field("whitelist"@) {
        None => Some(Seq::empty()),
        Some(list) => match list.items() {
            Some(items) => all_text(items),
            None => None,
        },
    }
}

/// The rule that the JSON value `elem` spells out: an object whose members
/// `listen_to` and `forward_to` are strings, with an optional `whitelist`.
pub open spec fn rule_of(elem: JsonValue) -> Option<RuleView> {
    match (elem.field("listen_to"@), elem.field("forward_to"@), whitelist_of(elem)) {
        (Some(listen), Some(forward), Some(whitelist)) => match (listen.text(), forward.text()) {
            (Some(listen_to), Some(forward_to)) => Some(
                RuleView { listen_to, forward_to, whitelist },
            ),
            _ => None,
        },
        _ => None,
    }
}

/// The rules that the JSON document `doc` spells out: an array of which
/// every item is a rule.
pub open spec fn config_of(doc: JsonValue) -> Option<Seq<RuleView>> {
    match doc.items() {
        Some(items) => if forall|i: int|
            0 <= i < items.len() ==> rule_of(#[trigger] items[i]) is Some {
            Some(Seq::new(items.len(), |i: int| rule_of(items[i]).unwrap()))
        } else {
            None
        },
        None => None,
    }
}

/// The rules that `text` spells out, where it parses as JSON.
pub open spec fn config_of_text(text: Seq<char>) -> Option<Seq<RuleView>> {
    match parsed_json(text) {
        Some(doc) => config_of(doc),
        None => None,
    }
}

/// Copies the strings out of `items`; nothing if one of them is no string.
fn string_list(items: &Vec<JsonValue>) -> (list: Option<Vec<String>>)
    ensures
        match list {
            Some(strings) => all_text(items@) == Some(texts(strings@)),
            None => all_text(items@) is None,
        },
{
    let mut strings: Vec<String> = Vec::new();
    let mut i: usize = 0;
    while i < items.len()
        invariant
            i <= items.len(),
            strings@.len() == i,
            forall|k: int| 0 <= k < i ==> (#[trigger] items@[k]).text() == Some(strings@[k]@),
        decreases items.len() - i,
    {
        match items[i].as_str() {
            Some(text) => strings.push(text.clone()),
            None => {
                return None;
            },
        }
        i = i + 1;
    }
    assert(texts(strings@) =~= Seq::new(items@.len(), |i: int| items@[i].text().unwrap()));
    Some(strings)
}

impl ForwardInfo {
    /// Reads one rule out of a JSON value.
    pub fn from_value(elem: &JsonValue) -> (rule: Option<ForwardInfo>)
        ensures
            match rule {
                Some(info) => rule_of(*elem) == Some(info@),
                None => rule_of(*elem) is None,
            },
    {
        let listen_to = match elem.get(&"listen_to".to_owned()) {
            Some(value) => match value.as_str() {
                Some(text) => text.clone(),
                None => {
                    return None;
                },
            },
            None => {
                return None;
            },
        };
        let forward_to = match elem.get(&"forward_to".to_owned()) {
            Some(value) => match value.as_str() {
                Some(text) => text.clone(),
                None => {
                    return None;
                },
            },
            None => {
                return None;
            },
        };
        let whitelist = match elem.get(&"whitelist".to_owned()) {
            Some(value) => match value.as_array() {
                Some(items) => match string_list(items) {
                    Some(strings) => strings,
                    None => {
                        return None;
                    },
                },
                None => {
                    return None;
                },
            },
            None => Vec::new(),
        };
        assert(texts(Seq::<String>::empty()) =~= Seq::<Seq<char>>::empty());
        Some(ForwardInfo { listen_to, forward_to, whitelist })
    }
}

/// The rules of one forwarder, in the order in which they were given.
#[derive(Debug, PartialEq, Eq)]
pub struct Config {
    pub forward_info: Vec<ForwardInfo>,
}

impl View for Config {
    type V = Seq<RuleView>;

    open spec fn view(&self) -> Seq<RuleView> {
        self.forward_info@.map_values(|rule: ForwardInfo| rule@)
    }
}

impl Config {
    /// Reads the rules out of a JSON document.
    pub fn from_value(doc: &JsonValue) -> (config: Option<Config>)
        ensures
            match config {
                Some(cfg) => config_of(*doc) == Some(cfg@),
                None => config_of(*doc) is None,
            },
    {
        let items = match doc.as_array() {
            Some(items) => items,
            None => {
                return None;
            },
        };
        let mut rules: Vec<ForwardInfo> = Vec::new();
        let mut i: usize = 0;
        while i < items.len()
            invariant
                i <= items.len(),
                rules@.len() == i,
                doc.items() == Some(items@),
                forall|k: int| 0 <= k < i ==> rule_of(#[trigger] items@[k]) == Some(rules@[k]@),
            decreases items.len() - i,
        {
            match ForwardInfo::from_value(&items[i]) {
                Some(rule) => rules.push(rule),
                None => {
                    return None;
                },
            }
            i = i + 1;
        }
        let config = Config { forward_info: rules };
        assert(config@ =~= Seq::new(items@.len(), |i: int| rule_of(items@[i]).unwrap()));
        Some(config)
    }

    /// Reads the rules out of the text of a JSON document.
    ///
    /// The text must be a JSON array of objects, each with the strings
    /// `listen_to` and `forward_to` and, optionally, an array of strings
    /// `whitelist`.
    pub fn from_json(text: &str) -> (config: Option<Config>)
        ensures
            match config {
                Some(cfg) => config_of_text(text@) == Some(cfg@),
                None => config_of_text(text@) is None,
            },
    {
        match parse(text) {
            Some(doc) => Config::from_value(&doc),
            None => None,
        }
    }
}

} // verus!
