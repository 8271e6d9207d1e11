//! A property-list value as the System Configuration dynamic store hands it
//! out (dictionaries of strings, booleans, numbers and arrays), with typed
//! lookups.
use vstd::prelude::*;
use vstd::string::StringExecFns;

verus! {

/// One property-list value. A number is kept as the `i32` it converts to,
/// `None` when it has no such value (a fraction, or out of range).
#[derive(Debug, PartialEq)]
pub enum PropertyValue {
    Bool(bool),
    Number(Option<i32>),
    Text(String),
    Array(Vec<PropertyValue>),
    Dict(Dictionary),
    Other,
}

/// A dictionary with text keys, in the order the store listed them; a key
/// occurs at most once, and lookups take the first entry with the key.
#[derive(Debug, PartialEq)]
pub struct Dictionary {
    pub entries: Vec<(String, PropertyValue)>,
}

/// The value stored under `k`: the first entry whose key is `k`.
pub open spec fn lookup(d: Seq<(String, PropertyValue)>, k: Seq<char>) -> Option<PropertyValue>
    decreases d.len(),
{
    if d.len() == 0 {
        None
    } else if d[0].0@ == k {
        Some(d[0].1)
    } else {
        lookup(d.drop_first(), k)
    }
}

/// Looks `key` up in `dict`.
pub fn find<'a>(dict: &'a Dictionary, key: &str) -> (r: Option<&'a PropertyValue>)
    ensures
        r matches Some(v) ==> lookup(dict.entries@, key@) == Some(*v),
        r is None ==> lookup(dict.entries@, key@) is None,
{
    let k = String::from_str(key);
    let mut i: usize = 0;
    assert(dict.entries@.skip(0) == dict.entries@);
    while i < dict.entries.len()
        invariant
            k@ == key@,
            0 <= i <= dict.entries.len(),
            lookup(dict.entries@, key@) == lookup(dict.entries@.skip(i as int), key@),
        decreases dict.entries.len() - i,
    {
        assert(dict.entries@.skip(i as int).drop_first() == dict.entries@.skip(i + 1));
        if dict.entries[i].0 == k {
            return Some(&dict.entries[i].1);
        }
        i = i + 1;
    }
    None
}

/// The text stored under `k`, if the value there is text.
pub open spec fn text_at(d: Dictionary, k: Seq<char>) -> Option<Seq<char>> {
    match lookup(d.entries@, k) {
        Some(PropertyValue::Text(s)) => Some(s@),
        _ => None,
    }
}

pub fn cf_string(dict: &Dictionary, key: &str) -> (r: Option<String>)
    ensures
        match r {
            Some(s) => text_at(*dict, key@) == Some(s@),
            None => text_at(*dict, key@) is None,
        },
{
    match find(dict, key) {
        Some(PropertyValue::Text(s)) => Some(s.clone()),
        _ => None,
    }
}

/// The text items of an array, in order, other items skipped.
pub open spec fn text_items(items: Seq<PropertyValue>) -> Seq<Seq<char>>
    decreases items.len(),
{
    if items.len() == 0 {
        Seq::empty()
    } else {
        let prev = text_items(items.drop_last());
        match items.last() {
            PropertyValue::Text(s) => prev.push(s@),
            _ => prev,
        }
    }
}

/// The text items of the array stored under `k`; empty when the value is
/// missing or not an array.
pub open spec fn text_array_at(d: Dictionary, k: Seq<char>) -> Seq<Seq<char>> {
    match lookup(d.entries@, k) {
        Some(PropertyValue::Array(items)) => text_items(items@),
        _ => Seq::empty(),
    }
}

pub fn cf_string_array(dict: &Dictionary, key: &str) -> (r: Vec<String>)
    ensures
        crate::interfaces::texts(r@) == text_array_at(*dict, key@),
{
    let mut out: Vec<String> = Vec::new();
    match find(dict, key) {
        Some(PropertyValue::Array(items)) => {
            let mut i: usize = 0;
            while i < items.len()
                invariant
                    0 <= i <= items.len(),
                    crate::interfaces::texts(out@) == text_items(items@.take(i as int)),
                decreases items.len() - i,
            {
                assert(items@.take(i + 1).drop_last() == items@.take(i as int));
                match &items[i] {
                    PropertyValue::Text(s) => {
                        out.push(s.clone());
                    },
                    _ => {},
                }
                assert(crate::interfaces::texts(out@) == text_items(items@.take(i + 1)));
                i = i + 1;
            }
            assert(items@.take(items.len() as int) == items@);
        },
        _ => {},
    }
    out
}

/// The dictionary items of an array, in order, other items skipped.
pub open spec fn dict_items(items: Seq<PropertyValue>) -> Seq<Dictionary>
    decreases items.len(),
{
    if items.len() == 0 {
        Seq::empty()
    } else {
        let prev = dict_items(items.drop_last());
        match items.last() {
            PropertyValue::Dict(d) => prev.push(d),
            _ => prev,
        }
    }
}

pub open spec fn dict_array_at(d: Dictionary, k: Seq<char>) -> Seq<Dictionary> {
    match lookup(d.entries@, k) {
        Some(PropertyValue::Array(items)) => dict_items(items@),
        _ => Seq::empty(),
    }
}

pub open spec fn derefs<'a>(v: Seq<&'a Dictionary>) -> Seq<Dictionary> {
    v.map_values(|d: &'a Dictionary| *d)
}

/// The dictionaries of the array stored under `key` (e.g. each
/// `{DestinationAddress, SubnetMask}` of `AdditionalRoutes`).
pub fn cf_dict_array<'a>(dict: &'a Dictionary, key: &str) -> (r: Vec<&'a Dictionary>)
    ensures
        derefs(r@) == dict_array_at(*dict, key@),
{
    let mut out: Vec<&'a Dictionary> = Vec::new();
    match find(dict, key) {
        Some(PropertyValue::Array(items)) => {
            let mut i: usize = 0;
            while i < items.len()
                invariant
                    0 <= i <= items.len(),
                    derefs(out@) == dict_items(items@.take(i as int)),
                decreases items.len() - i,
            {
                assert(items@.take(i + 1).drop_last() == items@.take(i as int));
                match &items[i] {
                    PropertyValue::Dict(d) => {
                        out.push(d);
                    },
                    _ => {},
                }
                assert(derefs(out@) == dict_items(items@.take(i + 1)));
                i = i + 1;
            }
            assert(items@.take(items.len() as int) == items@);
        },
        _ => {},
    }
    out
}

/// A boolean stored under `k`; anything else reads as `false`.
pub open spec fn bool_at(d: Dictionary, k: Seq<char>) -> bool {
    match lookup(d.entries@, k) {
        Some(PropertyValue::Bool(b)) => b,
        _ => false,
    }
}

pub fn cf_bool(dict: &Dictionary, key: &str) -> (r: bool)
    ensures
        r == bool_at(*dict, key@),
{
    match find(dict, key) {
        Some(PropertyValue::Bool(b)) => *b,
        _ => false,
    }
}

/// A port stored under `k`: a number whose `i32` value fits in `u16`.
pub open spec fn port_at(d: Dictionary, k: Seq<char>) -> Option<u16> {
    match lookup(d.entries@, k) {
        Some(PropertyValue::Number(Some(n))) => if 0 <= n <= 65535 {
            Some(n as u16)
        } else {
            None
        },
        _ => None,
    }
}

pub fn cf_port(dict: &Dictionary, key: &str) -> (r: Option<u16>)
    ensures
        r == port_at(*dict, key@),
{
    match find(dict, key) {
        Some(PropertyValue::Number(Some(n))) => if 0 <= *n && *n <= 65535 {
            Some(*n as u16)
        } else {
            None
        },
        _ => None,
    }
}

/// The dictionary stored under `k` in a store snapshot, if the value there
/// is a dictionary.
pub open spec fn dict_at(store: Dictionary, k: Seq<char>) -> Option<Dictionary> {
    match lookup(store.entries@, k) {
        Some(PropertyValue::Dict(d)) => Some(d),
        _ => None,
    }
}

/// Reads `key` from a snapshot of the dynamic store as a dictionary.
pub fn get_dict<'a>(store: &'a Dictionary, key: &str) -> (r: Option<&'a Dictionary>)
    ensures
        match r {
            Some(d) => dict_at(*store, key@) == Some(*d),
            None => dict_at(*store, key@) is None,
        },
{
    match find(store, key) {
        Some(PropertyValue::Dict(d)) => Some(d),
        _ => None,
    }
}

} // verus!
