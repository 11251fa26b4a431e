//! The kinds of object that a reply can hold, and what every kind shares.

pub mod cache_v2;
pub mod cmake_files_v1;
pub mod codemodel_v2;
pub mod configure_log_v1;
pub mod toolchains_v1;

pub use cache_v2::Cache as CacheV2;
pub use cmake_files_v1::CMakeFiles as CMakeFilesV1;
pub use codemodel_v2::CodeModel as CodeModelV2;
pub use configure_log_v1::ConfigureLog as ConfigureLogV1;
pub use toolchains_v1::Toolchains as ToolchainsV1;

use crate::decode::{
    names_of, required_failure, required_is, unknown_failure, Decode, DecodeError, DecodeFailure,
    Expected, Otherwise, Record, Schema, Strict,
};
use crate::json::{json_of, Json};
use crate::text::same_text;
use serde_json::Value;
use vstd::prelude::*;

verus! {

/// The version of an object: a major number, which changes with the shape of the object, and a
/// minor one, which grows as members are added.
#[derive(Default, Debug, Clone, Copy, PartialEq, Eq)]
pub struct MajorMinor {
    /// The major version.
    pub major: u32,
    /// The minor version.
    pub minor: u32,
}

impl Schema for MajorMinor {
    open spec fn names() -> Seq<Seq<char>> {
        seq!["major"@, "minor"@]
    }

    fn field_names() -> (r: &'static [&'static str]) {
        let r: &'static [&'static str] = &["major", "minor"];
        assert(names_of(r@) =~= Self::names());
        r
    }
}

impl Strict for MajorMinor {
    proof fn lemma_unknown_member_fails(members: Seq<(Seq<char>, Json)>) {
    }
}

impl Decode for MajorMinor {
    open spec fn failure(j: Json) -> Option<DecodeFailure> {
        match j {
            Json::Object(members) => unknown_failure(members, Self::names())
                .otherwise(required_failure::<u32>(members, "major"@))
                .otherwise(required_failure::<u32>(members, "minor"@)),
            _ => Some(DecodeFailure::InvalidType(Expected::Object)),
        }
    }

    open spec fn decodes(&self, j: Json) -> bool {
        match j {
            Json::Object(members) => {
                &&& required_is(&self.major, members, "major"@)
                &&& required_is(&self.minor, members, "minor"@)
            },
            _ => false,
        }
    }

    fn decode(v: &Value) -> (r: Result<MajorMinor, DecodeError>) {
        let record = Record::open(v)?;
        record.deny_unknown::<MajorMinor>()?;
        let major = record.required::<u32>("major")?;
        let minor = record.required::<u32>("minor")?;
        Ok(MajorMinor { major, minor })
    }
}

/// The kinds of object that a reply can hold.
#[derive(Default, Debug, Clone, Copy, PartialEq, Eq, Structural)]
#[non_exhaustive]
pub enum ObjectKind {
    #[default]
    CodeModel,
    Toolchains,
    Cache,
    CMakeFiles,
    ConfigureLog,
}

impl ObjectKind {
    /// The name of the kind in documents and in file names.
    pub open spec fn tag(self) -> Seq<char> {
        match self {
            ObjectKind::CodeModel => "codemodel"@,
            ObjectKind::Toolchains => "toolchains"@,
            ObjectKind::Cache => "cache"@,
            ObjectKind::CMakeFiles => "cmakeFiles"@,
            ObjectKind::ConfigureLog => "configureLog"@,
        }
    }

    /// The kind that `tag` names, if it names one.
    pub open spec fn named(tag: Seq<char>) -> Option<ObjectKind> {
        if tag == "codemodel"@ {
            Some(ObjectKind::CodeModel)
        } else if tag == "toolchains"@ {
            Some(ObjectKind::Toolchains)
        } else if tag == "cache"@ {
            Some(ObjectKind::Cache)
        } else if tag == "cmakeFiles"@ {
            Some(ObjectKind::CMakeFiles)
        } else if tag == "configureLog"@ {
            Some(ObjectKind::ConfigureLog)
        } else {
            None
        }
    }

    /// The name of the kind in documents and in file names.
    #[must_use]
    pub fn as_str(&self) -> (r: &'static str)
        ensures
            r@ == self.tag(),
    {
        match self {
            ObjectKind::CodeModel => "codemodel",
            ObjectKind::Toolchains => "toolchains",
            ObjectKind::Cache => "cache",
            ObjectKind::CMakeFiles => "cmakeFiles",
            ObjectKind::ConfigureLog => "configureLog",
        }
    }

    /// The kind that `tag` names, if it names one.
    pub fn from_tag(tag: &str) -> (r: Option<ObjectKind>)
        ensures
            r == ObjectKind::named(tag@),
    {
        if same_text(tag, "codemodel") {
            Some(ObjectKind::CodeModel)
        } else if same_text(tag, "toolchains") {
            Some(ObjectKind::Toolchains)
        } else if same_text(tag, "cache") {
            Some(ObjectKind::Cache)
        } else if same_text(tag, "cmakeFiles") {
            Some(ObjectKind::CMakeFiles)
        } else if same_text(tag, "configureLog") {
            Some(ObjectKind::ConfigureLog)
        } else {
            None
        }
    }

    /// Every kind is the one that its own name names: no two kinds share a
    /// name.
    pub proof fn lemma_tag_names_kind(kind: ObjectKind)
        ensures
            ObjectKind::named(kind.tag()) == Some(kind),
    {
        reveal_strlit("codemodel");
        reveal_strlit("toolchains");
        reveal_strlit("cache");
        reveal_strlit("cmakeFiles");
        reveal_strlit("configureLog");
        assert("codemodel"@[1] == 'o');
        assert("toolchains"@[0] == 't');
        assert("cache"@[1] == 'a');
        assert("cmakeFiles"@[1] == 'm');
        assert("configureLog"@[2] == 'n');
        assert("codemodel"@[2] == 'd');
    }
}

impl Decode for ObjectKind {
    open spec fn failure(j: Json) -> Option<DecodeFailure> {
        match j {
            Json::String(tag) => if ObjectKind::named(tag) is Some {
                None
            } else {
                Some(DecodeFailure::UnknownVariant(tag))
            },
            _ => Some(DecodeFailure::InvalidType(Expected::String)),
        }
    }

    open spec fn decodes(&self, j: Json) -> bool {
        match j {
            Json::String(tag) => ObjectKind::named(tag) == Some(*self),
            _ => false,
        }
    }

    fn decode(v: &Value) -> (r: Result<ObjectKind, DecodeError>) {
        match v.as_str() {
            Some(tag) => match ObjectKind::from_tag(tag) {
                Some(kind) => Ok(kind),
                None => Err(DecodeError::UnknownVariant(tag.to_owned())),
            },
            None => Err(DecodeError::InvalidType(Expected::String)),
        }
    }
}

/// An object of a reply: a document of one kind and one major version.
///
/// Some objects refer to further documents of the reply. Such an object is
/// first read from its own document, with the references unresolved, and
/// then handed the documents it refers to, one after the other and in the
/// order in which it asks for them.
pub trait Object: Decode {
    /// The kind of the object.
    spec fn object_kind() -> ObjectKind;

    /// The major version that this library reads.
    spec fn object_major() -> u32;

    /// The path, relative to the reply directory, of the document that has
    /// to be resolved next; `None` where every reference is resolved, as it
    /// is in an object that has none.
    open spec fn pending(&self) -> Option<Seq<char>> {
        None
    }

    /// Why the object cannot take `j` as the document it is waiting for.
    open spec fn reference_failure(&self, j: Json) -> Option<DecodeFailure> {
        None
    }

    /// That `after` is `self` with the pending reference resolved to what
    /// `j` decodes to.
    open spec fn resolves_to(&self, after: &Self, j: Json) -> bool {
        after == self
    }

    fn kind() -> (k: ObjectKind)
        ensures
            k == Self::object_kind(),
    ;

    fn major() -> (m: u32)
        ensures
            m == Self::object_major(),
    ;

    /// The path, relative to the reply directory, of the document that has
    /// to be resolved next.
    fn next_reference(&self) -> (r: Option<&str>)
        ensures
            match r {
                Some(path) => self.pending() == Some(path@),
                None => self.pending() is None,
            },
    ;

    /// Resolves the pending reference to the document `v`. An object without
    /// a pending reference comes back as it is.
    fn resolve_reference(self, v: &Value) -> (r: Result<Self, DecodeError>)
        ensures
            self.pending() is None ==> r == Ok::<Self, DecodeError>(self),
            self.pending() is Some ==> match r {
                Ok(after) => self.resolves_to(&after, json_of(*v)) && self.reference_failure(
                    json_of(*v),
                ) is None,
                Err(e) => self.reference_failure(json_of(*v)) == Some(e@),
            },
    ;
}

/// A document together with the path under which the object asked for it.
pub struct Answer {
    /// The path that was pending, relative to the reply directory.
    pub path: Seq<char>,
    /// The document that was handed over in answer.
    pub document: Json,
}

/// That `after` is `before` with the documents of `answers` resolved one
/// after the other, each handed over when the object was waiting for the
/// path that the answer names.
pub open spec fn resolved_by<T: Object>(before: T, answers: Seq<Answer>, after: T) -> bool
    decreases answers.len(),
{
    if answers.len() == 0 {
        after == before
    } else {
        exists|middle: T|
            {
                &&& resolved_by(before, answers.drop_last(), middle)
                &&& middle.pending() == Some(answers.last().path)
                &&& #[trigger] middle.resolves_to(&after, answers.last().document)
            }
    }
}

/// Resolving one more document continues a resolution.
pub proof fn lemma_resolved_by_one_more<T: Object>(
    before: T,
    answers: Seq<Answer>,
    middle: T,
    j: Json,
    after: T,
)
    requires
        resolved_by(before, answers, middle),
        middle.pending() is Some,
        middle.resolves_to(&after, j),
    ensures
        resolved_by(
            before,
            answers.push(Answer { path: middle.pending()->0, document: j }),
            after,
        ),
{
    let more = answers.push(Answer { path: middle.pending()->0, document: j });
    assert(more.drop_last() =~= answers);
    assert(more.last() == Answer { path: middle.pending()->0, document: j });
}

} // verus!
