//! Manifests: the parsed description of a package, as a tree of values, and
//! the directory it was found in.

use crate::text::same_str;
use std::sync::Arc;
use vstd::prelude::*;

verus! {

/// A value of a manifest.
#[derive(Debug)]
pub enum Value {
    Null,
    Bool(bool),
    /// A number; the resolver never reads one.
    Number,
    Text(String),
    List(Vec<Value>),
    /// The members of an object, in the order in which they are declared.
    Object(Vec<(String, Value)>),
}

/// The value of the first member at or after `i` whose name is `key`.
pub open spec fn member(entries: Seq<(String, Value)>, key: Seq<char>, i: int) -> Option<Value>
    decreases entries.len() - i,
{
    if i < 0 || i >= entries.len() {
        None
    } else if entries[i].0@ == key {
        Some(entries[i].1)
    } else {
        member(entries, key, i + 1)
    }
}

impl Value {
    /// The member `key` of an object; nothing for any other value.
    pub open spec fn field(self, key: Seq<char>) -> Option<Value> {
        match self {
            Value::Object(entries) => member(entries@, key, 0),
            _ => None,
        }
    }

    /// The text of a text value.
    pub open spec fn text(self) -> Option<Seq<char>> {
        match self {
            Value::Text(s) => Some(s@),
            _ => None,
        }
    }

    /// The text of the member `key`, where it is a text.
    pub open spec fn text_field(self, key: Seq<char>) -> Option<Seq<char>> {
        match self.field(key) {
            Some(v) => v.text(),
            None => None,
        }
    }

    /// The member `key` of an object.
    pub fn get(&self, key: &str) -> (r: Option<&Value>)
        ensures
            match r {
                Some(v) => self.field(key@) == Some(*v),
                None => self.field(key@) is None,
            },
    {
        match self {
            Value::Object(entries) => {
                let mut i: usize = 0;
                while i < entries.len()
                    invariant
                        i <= entries.len(),
                        self.field(key@) == member(entries@, key@, i as int),
                    decreases entries.len() - i,
                {
                    if same_str(entries[i].0.as_str(), key) {
                        proof {
                            assert(entries@[i as int].0@ == key@);
                            assert(member(entries@, key@, i as int) == Some(entries@[i as int].1));
                        }
                        return Some(&entries[i].1);
                    }
                    i += 1;
                }
                None
            },
            _ => None,
        }
    }

    /// The text of a text value.
    pub fn as_text(&self) -> (r: Option<&String>)
        ensures
            match r {
                Some(s) => self.text() == Some(s@),
                None => self.text() is None,
            },
    {
        match self {
            Value::Text(s) => Some(s),
            _ => None,
        }
    }

    /// The text of the member `key`, where it is a text.
    pub fn get_text(&self, key: &str) -> (r: Option<&String>)
        ensures
            match r {
                Some(s) => self.text_field(key@) == Some(s@),
                None => self.text_field(key@) is None,
            },
    {
        match self.get(key) {
            Some(v) => v.as_text(),
            None => None,
        }
    }
}

/// The manifest of a directory.
#[derive(Debug)]
pub struct DescriptionData {
    /// The directory that holds the manifest.
    pub dir: String,
    /// What the manifest says.
    pub json: Value,
}

impl DescriptionData {
    pub fn new(dir: String, json: Value) -> (d: DescriptionData)
        ensures
            d.dir == dir,
            d.json == json,
    {
        DescriptionData { dir, json }
    }

    /// The name that the package declares.
    pub open spec fn name_spec(self) -> Option<Seq<char>> {
        self.json.text_field("name"@)
    }

    /// The name that the package declares.
    pub fn name(&self) -> (r: Option<&String>)
        ensures
            match r {
                Some(s) => self.name_spec() == Some(s@),
                None => self.name_spec() is None,
            },
    {
        self.json.get_text("name")
    }
}

/// The manifest behind a shared handle.
pub open spec fn shared_manifest(p: Arc<DescriptionData>) -> DescriptionData {
    *p
}

} // verus!
