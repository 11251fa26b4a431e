//! The configureLog object, major version 1.

use crate::decode::{
    names_of, required_failure, required_is, unknown_failure, Decode, DecodeError, DecodeFailure,
    Expected, Otherwise, Record, Schema, Strict,
};
use crate::json::Json;
use crate::objects::{MajorMinor, Object, ObjectKind};
use serde_json::Value;
use vstd::prelude::*;

verus! {

/// The configureLog object: where the configure log lies and what it may hold.
#[derive(Default, Debug, Clone, PartialEq)]
pub struct ConfigureLog {
    /// The kind of the object.
    pub kind: ObjectKind,
    /// The version of the object.
    pub version: MajorMinor,
    /// The path of the configure log. The file may be absent where nothing was logged.
    pub path: String,
    /// The names of the kinds of event that the log may hold.
    pub event_kind_names: Vec<String>,
}

impl Schema for ConfigureLog {
    open spec fn names() -> Seq<Seq<char>> {
        seq!["kind"@, "version"@, "path"@, "eventKindNames"@]
    }

    fn field_names() -> (r: &'static [&'static str]) {
        let r: &'static [&'static str] = &["kind", "version", "path", "eventKindNames"];
        assert(names_of(r@) =~= Self::names());
        r
    }
}

impl Strict for ConfigureLog {
    proof fn lemma_unknown_member_fails(members: Seq<(Seq<char>, Json)>) {
    }
}

impl Decode for ConfigureLog {
    open spec fn failure(j: Json) -> Option<DecodeFailure> {
        match j {
            Json::Object(members) => unknown_failure(members, Self::names())
                .otherwise(required_failure::<ObjectKind>(members, "kind"@))
                .otherwise(required_failure::<MajorMinor>(members, "version"@))
                .otherwise(required_failure::<String>(members, "path"@))
                .otherwise(required_failure::<Vec<String>>(members, "eventKindNames"@)),
            _ => Some(DecodeFailure::InvalidType(Expected::Object)),
        }
    }

    open spec fn decodes(&self, j: Json) -> bool {
        match j {
            Json::Object(members) => {
                &&& required_is(&self.kind, members, "kind"@)
                &&& required_is(&self.version, members, "version"@)
                &&& required_is(&self.path, members, "path"@)
                &&& required_is(&self.event_kind_names, members, "eventKindNames"@)
            },
            _ => false,
        }
    }

    fn decode(v: &Value) -> (r: Result<ConfigureLog, DecodeError>) {
        let record = Record::open(v)?;
        record.deny_unknown::<ConfigureLog>()?;
        let kind = record.required::<ObjectKind>("kind")?;
        let version = record.required::<MajorMinor>("version")?;
        let path = record.required::<String>("path")?;
        let event_kind_names = record.required::<Vec<String>>("eventKindNames")?;
        Ok(ConfigureLog { kind, version, path, event_kind_names })
    }
}

impl Object for ConfigureLog {
    open spec fn object_kind() -> ObjectKind {
        ObjectKind::ConfigureLog
    }

    open spec fn object_major() -> u32 {
        1
    }

    fn kind() -> (k: ObjectKind) {
        ObjectKind::ConfigureLog
    }

    fn major() -> (m: u32) {
        1
    }

    fn next_reference(&self) -> (r: Option<&str>) {
        None
    }

    fn resolve_reference(self, v: &Value) -> (r: Result<ConfigureLog, DecodeError>) {
        Ok(self)
    }
}

} // verus!
