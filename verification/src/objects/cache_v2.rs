//! The cache object, major version 2.

use crate::decode::{
    names_of, required_failure, required_is, unknown_failure, Decode, DecodeError, DecodeFailure,
    Expected, Otherwise, Record, Schema, Strict,
};
use crate::json::Json;
use crate::objects::{MajorMinor, Object, ObjectKind};
use serde_json::Value;
use vstd::prelude::*;

verus! {

/// The cache object: the entries of the persistent cache of the build tree.
#[derive(Default, Debug, Clone, PartialEq)]
pub struct Cache {
    /// The kind of the object.
    pub kind: ObjectKind,
    /// The version of the object.
    pub version: MajorMinor,
    /// The entries of the cache.
    pub entries: Vec<Entry>,
}

impl Schema for Cache {
    open spec fn names() -> Seq<Seq<char>> {
        seq!["kind"@, "version"@, "entries"@]
    }

    fn field_names() -> (r: &'static [&'static str]) {
        let r: &'static [&'static str] = &["kind", "version", "entries"];
        assert(names_of(r@) =~= Self::names());
        r
    }
}

impl Strict for Cache {
    proof fn lemma_unknown_member_fails(members: Seq<(Seq<char>, Json)>) {
    }
}

impl Decode for Cache {
    open spec fn failure(j: Json) -> Option<DecodeFailure> {
        match j {
            Json::Object(members) => unknown_failure(members, Self::names())
                .otherwise(required_failure::<ObjectKind>(members, "kind"@))
                .otherwise(required_failure::<MajorMinor>(members, "version"@))
                .otherwise(required_failure::<Vec<Entry>>(members, "entries"@)),
            _ => Some(DecodeFailure::InvalidType(Expected::Object)),
        }
    }

    open spec fn decodes(&self, j: Json) -> bool {
        match j {
            Json::Object(members) => {
                &&& required_is(&self.kind, members, "kind"@)
                &&& required_is(&self.version, members, "version"@)
                &&& required_is(&self.entries, members, "entries"@)
            },
            _ => false,
        }
    }

    fn decode(v: &Value) -> (r: Result<Cache, DecodeError>) {
        let record = Record::open(v)?;
        record.deny_unknown::<Cache>()?;
        let kind = record.required::<ObjectKind>("kind")?;
        let version = record.required::<MajorMinor>("version")?;
        let entries = record.required::<Vec<Entry>>("entries")?;
        Ok(Cache { kind, version, entries })
    }
}

/// One entry of the cache.
#[derive(Default, Debug, Clone, PartialEq)]
pub struct Entry {
    /// The name of the entry.
    pub name: String,
    /// The value of the entry.
    pub value: String,
    /// The type of the entry, as the CMake GUI uses it.
    pub entry_type: String,
    /// The properties of the entry.
    pub properties: Vec<Property>,
}

impl Schema for Entry {
    open spec fn names() -> Seq<Seq<char>> {
        seq!["name"@, "value"@, "type"@, "properties"@]
    }

    fn field_names() -> (r: &'static [&'static str]) {
        let r: &'static [&'static str] = &["name", "value", "type", "properties"];
        assert(names_of(r@) =~= Self::names());
        r
    }
}

impl Strict for Entry {
    proof fn lemma_unknown_member_fails(members: Seq<(Seq<char>, Json)>) {
    }
}

impl Decode for Entry {
    open spec fn failure(j: Json) -> Option<DecodeFailure> {
        match j {
            Json::Object(members) => unknown_failure(members, Self::names())
                .otherwise(required_failure::<String>(members, "name"@))
                .otherwise(required_failure::<String>(members, "value"@))
                .otherwise(required_failure::<String>(members, "type"@))
                .otherwise(required_failure::<Vec<Property>>(members, "properties"@)),
            _ => Some(DecodeFailure::InvalidType(Expected::Object)),
        }
    }

    open spec fn decodes(&self, j: Json) -> bool {
        match j {
            Json::Object(members) => {
                &&& required_is(&self.name, members, "name"@)
                &&& required_is(&self.value, members, "value"@)
                &&& required_is(&self.entry_type, members, "type"@)
                &&& required_is(&self.properties, members, "properties"@)
            },
            _ => false,
        }
    }

    fn decode(v: &Value) -> (r: Result<Entry, DecodeError>) {
        let record = Record::open(v)?;
        record.deny_unknown::<Entry>()?;
        let name = record.required::<String>("name")?;
        let value = record.required::<String>("value")?;
        let entry_type = record.required::<String>("type")?;
        let properties = record.required::<Vec<Property>>("properties")?;
        Ok(Entry { name, value, entry_type, properties })
    }
}

/// One property of a cache entry.
#[derive(Default, Debug, Clone, PartialEq)]
pub struct Property {
    /// The name of the property.
    pub name: String,
    /// The value of the property.
    pub value: String,
}

impl Schema for Property {
    open spec fn names() -> Seq<Seq<char>> {
        seq!["name"@, "value"@]
    }

    fn field_names() -> (r: &'static [&'static str]) {
        let r: &'static [&'static str] = &["name", "value"];
        assert(names_of(r@) =~= Self::names());
        r
    }
}

impl Strict for Property {
    proof fn lemma_unknown_member_fails(members: Seq<(Seq<char>, Json)>) {
    }
}

impl Decode for Property {
    open spec fn failure(j: Json) -> Option<DecodeFailure> {
        match j {
            Json::Object(members) => unknown_failure(members, Self::names())
                .otherwise(required_failure::<String>(members, "name"@))
                .otherwise(required_failure::<String>(members, "value"@)),
            _ => Some(DecodeFailure::InvalidType(Expected::Object)),
        }
    }

    open spec fn decodes(&self, j: Json) -> bool {
        match j {
            Json::Object(members) => {
                &&& required_is(&self.name, members, "name"@)
                &&& required_is(&self.value, members, "value"@)
            },
            _ => false,
        }
    }

    fn decode(v: &Value) -> (r: Result<Property, DecodeError>) {
        let record = Record::open(v)?;
        record.deny_unknown::<Property>()?;
        let name = record.required::<String>("name")?;
        let value = record.required::<String>("value")?;
        Ok(Property { name, value })
    }
}

impl Object for Cache {
    open spec fn object_kind() -> ObjectKind {
        ObjectKind::Cache
    }

    open spec fn object_major() -> u32 {
        2
    }

    fn kind() -> (k: ObjectKind) {
        ObjectKind::Cache
    }

    fn major() -> (m: u32) {
        2
    }

    fn next_reference(&self) -> (r: Option<&str>) {
        None
    }

    fn resolve_reference(self, v: &Value) -> (r: Result<Cache, DecodeError>) {
        Ok(self)
    }
}

} // verus!
