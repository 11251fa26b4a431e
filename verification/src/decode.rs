//! Decoding JSON documents into the library's records.
//!
//! A type that can be read from a document implements [`Decode`]: a spec
//! function that says why a document is rejected, if it is, a relation
//! between a value and the document it was read from, and the function that
//! does the reading. Records are read member by member through [`Record`].

use crate::json::{
    distinct_keys, entries, error_text, json_document, json_of, lookup, parse, Json, Number,
};
use crate::text::same_text;
use serde_json::Value;
use vstd::prelude::*;

verus! {

/// The JSON type that a decoder asked for.
#[derive(Clone, Copy, Debug, PartialEq, Eq, Structural)]
pub enum Expected {
    Boolean,
    Integer,
    String,
    Array,
    Object,
}

/// Why a document was rejected, as a mathematical value.
pub enum DecodeFailure {
    /// The text is not JSON.
    Syntax,
    /// A value has another JSON type than its place asks for.
    InvalidType(Expected),
    /// An integer does not fit the type of its field.
    OutOfRange,
    /// A record lacks a member that it must have.
    MissingField(Seq<char>),
    /// A record holds a member that is none of those it may have.
    UnknownField { name: Seq<char>, expected: Seq<Seq<char>> },
    /// A string names no variant of an enumeration.
    UnknownVariant(Seq<char>),
    /// A value has none of the shapes that its place accepts.
    NoMatchingShape,
}

/// Why a document was rejected.
#[derive(Debug)]
pub enum DecodeError {
    /// The text is not JSON; the parser's error says where.
    Syntax(serde_json::Error),
    /// A value has another JSON type than its place asks for.
    InvalidType(Expected),
    /// An integer does not fit the type of its field.
    OutOfRange,
    /// A record lacks a member that it must have.
    MissingField(&'static str),
    /// A record holds a member that is none of those it may have.
    UnknownField { name: String, expected: &'static [&'static str] },
    /// A string names no variant of an enumeration.
    UnknownVariant(String),
    /// A value has none of the shapes that its place accepts.
    NoMatchingShape,
}

impl View for DecodeError {
    type V = DecodeFailure;

    open spec fn view(&self) -> DecodeFailure {
        match self {
            DecodeError::Syntax(_) => DecodeFailure::Syntax,
            DecodeError::InvalidType(expected) => DecodeFailure::InvalidType(*expected),
            DecodeError::OutOfRange => DecodeFailure::OutOfRange,
            DecodeError::MissingField(name) => DecodeFailure::MissingField(name@),
            DecodeError::UnknownField { name, expected } => DecodeFailure::UnknownField {
                name: name@,
                expected: names_of(expected@),
            },
            DecodeError::UnknownVariant(name) => DecodeFailure::UnknownVariant(name@),
            DecodeError::NoMatchingShape => DecodeFailure::NoMatchingShape,
        }
    }
}

impl Expected {
    /// The JSON type in words.
    pub open spec fn phrase(self) -> Seq<char> {
        match self {
            Expected::Boolean => "a boolean"@,
            Expected::Integer => "an integer"@,
            Expected::String => "a string"@,
            Expected::Array => "an array"@,
            Expected::Object => "an object"@,
        }
    }

    /// The JSON type in words.
    pub fn as_str(&self) -> (r: &'static str)
        ensures
            r@ == self.phrase(),
    {
        match self {
            Expected::Boolean => "a boolean",
            Expected::Integer => "an integer",
            Expected::String => "a string",
            Expected::Array => "an array",
            Expected::Object => "an object",
        }
    }
}

/// A name between backticks.
pub open spec fn quoted(name: Seq<char>) -> Seq<char> {
    "`"@ + name + "`"@
}

/// The names, each between backticks, with a comma and a space between
/// one and the next.
pub open spec fn listing(names: Seq<Seq<char>>) -> Seq<char>
    decreases names.len(),
{
    if names.len() == 0 {
        Seq::empty()
    } else if names.len() == 1 {
        quoted(names[0])
    } else {
        listing(names.drop_last()) + ", "@ + quoted(names.last())
    }
}

/// What was expected in place of an unknown name.
pub open spec fn one_of(names: Seq<Seq<char>>) -> Seq<char> {
    if names.len() == 0 {
        "there are no fields"@
    } else if names.len() == 1 {
        "expected "@ + quoted(names[0])
    } else if names.len() == 2 {
        "expected "@ + quoted(names[0]) + " or "@ + quoted(names[1])
    } else {
        "expected one of "@ + listing(names)
    }
}

impl DecodeFailure {
    /// The failure in words. A syntax error is worded by the parser that
    /// met it.
    pub open spec fn message(self) -> Seq<char> {
        match self {
            DecodeFailure::Syntax => "syntax error"@,
            DecodeFailure::InvalidType(expected) => "invalid type, expected "@ + expected.phrase(),
            DecodeFailure::OutOfRange => "invalid value, integer out of range"@,
            DecodeFailure::MissingField(name) => "missing field "@ + quoted(name),
            DecodeFailure::UnknownField { name, expected } => "unknown field "@ + quoted(name)
                + ", "@ + one_of(expected),
            DecodeFailure::UnknownVariant(name) => "unknown variant "@ + quoted(name),
            DecodeFailure::NoMatchingShape => "data did not match any of the expected shapes"@,
        }
    }
}

/// Appends `name` between backticks.
fn append_quoted(out: &mut String, name: &str)
    ensures
        final(out)@ == old(out)@ + quoted(name@),
{
    let ghost before = out@;
    out.append("`");
    out.append(name);
    out.append("`");
    assert(out@ =~= before + quoted(name@));
}

/// Appends what was expected in place of an unknown name.
fn append_one_of(out: &mut String, names: &[&'static str])
    ensures
        final(out)@ == old(out)@ + one_of(names_of(names@)),
{
    let ghost before = out@;
    let ghost all = names_of(names@);
    if names.len() == 0 {
        out.append("there are no fields");
    } else if names.len() == 1 {
        out.append("expected ");
        append_quoted(out, names[0]);
        assert(out@ =~= before + one_of(all));
    } else if names.len() == 2 {
        out.append("expected ");
        append_quoted(out, names[0]);
        out.append(" or ");
        append_quoted(out, names[1]);
        assert(out@ =~= before + one_of(all));
    } else {
        out.append("expected one of ");
        let ghost head = out@;
        append_quoted(out, names[0]);
        assert(all.take(1).len() == 1 && all.take(1)[0] == names@[0]@);
        let mut i: usize = 1;
        while i < names.len()
            invariant
                1 <= i <= names.len(),
                all == names_of(names@),
                out@ == head + listing(all.take(i as int)),
            decreases names.len() - i,
        {
            let ghost so_far = out@;
            out.append(", ");
            append_quoted(out, names[i]);
            proof {
                let next = all.take(i + 1);
                assert(next.drop_last() =~= all.take(i as int));
                assert(next.last() == names@[i as int]@);
                assert(next.len() >= 2);
                assert(out@ =~= head + listing(next));
            }
            i = i + 1;
        }
        assert(all.take(names.len() as int) =~= all);
        assert(out@ =~= before + one_of(all));
    }
}

impl DecodeError {
    /// The error in words.
    pub fn message(&self) -> (r: String)
        ensures
            !(self is Syntax) ==> r@ == self@.message(),
    {
        match self {
            DecodeError::Syntax(error) => error_text(error),
            DecodeError::InvalidType(expected) => {
                let mut out = "invalid type, expected ".to_owned();
                out.append(expected.as_str());
                out
            },
            DecodeError::OutOfRange => "invalid value, integer out of range".to_owned(),
            DecodeError::MissingField(name) => {
                let mut out = "missing field ".to_owned();
                append_quoted(&mut out, name);
                out
            },
            DecodeError::UnknownField { name, expected } => {
                let mut out = "unknown field ".to_owned();
                append_quoted(&mut out, name.as_str());
                out.append(", ");
                append_one_of(&mut out, expected);
                out
            },
            DecodeError::UnknownVariant(name) => {
                let mut out = "unknown variant ".to_owned();
                append_quoted(&mut out, name.as_str());
                out
            },
            DecodeError::NoMatchingShape => "data did not match any of the expected shapes"
                .to_owned(),
        }
    }
}

/// Chaining of checks: the first failure wins.
pub trait Otherwise {
    spec fn otherwise(self, next: Self) -> Self;
}

impl Otherwise for Option<DecodeFailure> {
    open spec fn otherwise(self, next: Self) -> Self {
        if self is Some {
            self
        } else {
            next
        }
    }
}

/// A type that can be read from a JSON document.
pub trait Decode: Sized {
    /// Why `j` cannot be read as a value of this type; `None` where it can.
    spec fn failure(j: Json) -> Option<DecodeFailure>;

    /// That `self` is the value read from `j`.
    spec fn decodes(&self, j: Json) -> bool;

    /// Reads a value from `v`, or says why `v` holds none.
    fn decode(v: &Value) -> (r: Result<Self, DecodeError>)
        ensures
            match r {
                Ok(x) => x.decodes(json_of(*v)) && Self::failure(json_of(*v)) is None,
                Err(e) => Self::failure(json_of(*v)) == Some(e@),
            },
    ;
}

/// The names that a list of string literals holds.
pub open spec fn names_of(list: Seq<&'static str>) -> Seq<Seq<char>> {
    Seq::new(list.len(), |i: int| list[i]@)
}

/// A record with a fixed set of members.
pub trait Schema {
    /// The names of the members that the record may have, in the order of
    /// its fields.
    spec fn names() -> Seq<Seq<char>>;

    /// The names of the members that the record may have, in the order of
    /// its fields.
    fn field_names() -> (r: &'static [&'static str])
        ensures
            names_of(r@) == Self::names(),
    ;
}

/// A record that is read strictly: it rejects what it does not know.
pub trait Strict: Schema + Decode {
    /// An object that holds a member that the record may not have is
    /// rejected for that, whatever else it holds.
    proof fn lemma_unknown_member_fails(members: Seq<(Seq<char>, Json)>)
        requires
            unknown_failure(members, Self::names()) is Some,
        ensures
            Self::failure(Json::Object(members)) == unknown_failure(members, Self::names()),
    ;
}

/// Whether `key` is one of `names`.
pub fn is_listed(names: &[&'static str], key: &str) -> (b: bool)
    ensures
        b == names_of(names@).contains(key@),
{
    let mut i: usize = 0;
    while i < names.len()
        invariant
            0 <= i <= names.len(),
            forall|k: int| 0 <= k < i ==> names_of(names@)[k] != key@,
        decreases names.len() - i,
    {
        if same_text(names[i], key) {
            assert(names_of(names@)[i as int] == key@);
            return true;
        }
        i = i + 1;
    }
    false
}

/// The name of the first member that is none of `names`.
pub open spec fn unknown_member(members: Seq<(Seq<char>, Json)>, names: Seq<Seq<char>>) -> Option<
    Seq<char>,
>
    decreases members.len(),
{
    if members.len() == 0 {
        None
    } else if !names.contains(members[0].0) {
        Some(members[0].0)
    } else {
        unknown_member(members.drop_first(), names)
    }
}

/// The failure of a record that may have the members `names` and holds
/// another.
pub open spec fn unknown_failure(members: Seq<(Seq<char>, Json)>, names: Seq<Seq<char>>) -> Option<
    DecodeFailure,
> {
    match unknown_member(members, names) {
        Some(name) => Some(DecodeFailure::UnknownField { name, expected: names }),
        None => None,
    }
}

/// Why the member `key`, which must be there, cannot be read as a `T`.
pub open spec fn required_failure<T: Decode>(
    members: Seq<(Seq<char>, Json)>,
    key: Seq<char>,
) -> Option<DecodeFailure> {
    match lookup(members, key) {
        Some(j) => T::failure(j),
        None => Some(DecodeFailure::MissingField(key)),
    }
}

/// That `x` is what the member `key` holds.
pub open spec fn required_is<T: Decode>(
    x: &T,
    members: Seq<(Seq<char>, Json)>,
    key: Seq<char>,
) -> bool {
    match lookup(members, key) {
        Some(j) => x.decodes(j),
        None => false,
    }
}

/// Why the member `key`, which may be absent or null, cannot be read as a `T`.
pub open spec fn optional_failure<T: Decode>(
    members: Seq<(Seq<char>, Json)>,
    key: Seq<char>,
) -> Option<DecodeFailure> {
    match lookup(members, key) {
        Some(j) => if j is Null {
            None
        } else {
            T::failure(j)
        },
        None => None,
    }
}

/// That `x` is what the member `key` holds: nothing where it is absent or
/// null.
pub open spec fn optional_is<T: Decode>(
    x: &Option<T>,
    members: Seq<(Seq<char>, Json)>,
    key: Seq<char>,
) -> bool {
    match lookup(members, key) {
        Some(j) => if j is Null {
            x is None
        } else {
            x is Some && x->0.decodes(j)
        },
        None => x is None,
    }
}

/// Why the member `key`, which may be absent, cannot be read as a list of `T`.
pub open spec fn listed_failure<T: Decode>(
    members: Seq<(Seq<char>, Json)>,
    key: Seq<char>,
) -> Option<DecodeFailure> {
    match lookup(members, key) {
        Some(j) => Vec::<T>::failure(j),
        None => None,
    }
}

/// That `xs` is the list that the member `key` holds: the empty one where it
/// is absent.
pub open spec fn listed_is<T: Decode>(
    xs: &Vec<T>,
    members: Seq<(Seq<char>, Json)>,
    key: Seq<char>,
) -> bool {
    match lookup(members, key) {
        Some(j) => xs.decodes(j),
        None => xs@.len() == 0,
    }
}

/// Why the member `key`, which may be absent, cannot be read as a flag.
pub open spec fn flag_failure(members: Seq<(Seq<char>, Json)>, key: Seq<char>) -> Option<
    DecodeFailure,
> {
    match lookup(members, key) {
        Some(j) => bool::failure(j),
        None => None,
    }
}

/// That `x` is the flag that the member `key` holds: false where it is
/// absent.
pub open spec fn flag_is(x: bool, members: Seq<(Seq<char>, Json)>, key: Seq<char>) -> bool {
    match lookup(members, key) {
        Some(j) => x.decodes(j),
        None => !x,
    }
}

/// The failure of the first element that cannot be read as a `T`.
pub open spec fn elements_failure<T: Decode>(items: Seq<Json>) -> Option<DecodeFailure>
    decreases items.len(),
{
    if items.len() == 0 {
        None
    } else if T::failure(items[0]) is Some {
        T::failure(items[0])
    } else {
        elements_failure::<T>(items.drop_first())
    }
}

/// That `xs` holds, position by position, what `items` decodes to.
pub open spec fn elements_are<T: Decode>(xs: Seq<T>, items: Seq<Json>) -> bool {
    &&& xs.len() == items.len()
    &&& forall|i: int| 0 <= i < xs.len() ==> (#[trigger] xs[i]).decodes(items[i])
}

/// The failure of the first member whose value cannot be read as a `T`.
pub open spec fn values_failure<T: Decode>(members: Seq<(Seq<char>, Json)>) -> Option<
    DecodeFailure,
>
    decreases members.len(),
{
    if members.len() == 0 {
        None
    } else if T::failure(members[0].1) is Some {
        T::failure(members[0].1)
    } else {
        values_failure::<T>(members.drop_first())
    }
}

/// That `xs` holds, member by member and under the same names, what the
/// values of `members` decode to.
pub open spec fn values_are<T: Decode>(
    xs: Seq<(String, T)>,
    members: Seq<(Seq<char>, Json)>,
) -> bool {
    &&& xs.len() == members.len()
    &&& forall|i: int|
        0 <= i < xs.len() ==> (#[trigger] xs[i]).0@ == members[i].0 && xs[i].1.decodes(
            members[i].1,
        )
}

/// Why `j` cannot be read as a map from names to `T`.
pub open spec fn map_failure<T: Decode>(j: Json) -> Option<DecodeFailure> {
    match j {
        Json::Object(members) => values_failure::<T>(members),
        _ => Some(DecodeFailure::InvalidType(Expected::Object)),
    }
}

/// No two of the entries have the same label.
pub open spec fn distinct_labels<T>(xs: Seq<(String, T)>) -> bool {
    forall|i: int, j: int| 0 <= i < j < xs.len() ==> (#[trigger] xs[i]).0@ != (#[trigger] xs[j]).0@
}

/// That `xs` is the map read from `j`: one entry per member, under the
/// member's name, and so no two under the same.
pub open spec fn map_is<T: Decode>(xs: Seq<(String, T)>, j: Json) -> bool {
    match j {
        Json::Object(members) => values_are(xs, members) && distinct_labels(xs),
        _ => false,
    }
}

/// No member of the first `n` has the name `key`.
pub open spec fn absent_before(members: Seq<(Seq<char>, Json)>, key: Seq<char>, n: int) -> bool {
    forall|k: int| 0 <= k < n ==> (#[trigger] members[k]).0 != key
}

/// A member whose name occurs nowhere before it is the one that `lookup`
/// finds.
pub proof fn lemma_lookup_found(members: Seq<(Seq<char>, Json)>, key: Seq<char>, i: int)
    requires
        0 <= i < members.len(),
        absent_before(members, key, i),
        members[i].0 == key,
    ensures
        lookup(members, key) == Some(members[i].1),
    decreases i,
{
    if i > 0 {
        let rest = members.drop_first();
        assert forall|k: int| 0 <= k < i - 1 implies (#[trigger] rest[k]).0 != key by {
            assert(rest[k] == members[k + 1]);
        }
        lemma_lookup_found(rest, key, i - 1);
    }
}

/// `lookup` finds nothing under a name that no member has.
pub proof fn lemma_lookup_absent(members: Seq<(Seq<char>, Json)>, key: Seq<char>)
    requires
        absent_before(members, key, members.len() as int),
    ensures
        lookup(members, key) is None,
    decreases members.len(),
{
    if members.len() > 0 {
        let rest = members.drop_first();
        assert forall|k: int| 0 <= k < rest.len() implies (#[trigger] rest[k]).0 != key by {
            assert(rest[k] == members[k + 1]);
        }
        assert(members[0].0 != key);
        lemma_lookup_absent(rest, key);
    }
}

/// Where each of the first `i` members is one of `names`, the first unknown
/// member of the whole is the first unknown member from `i` on.
pub proof fn lemma_unknown_skip(members: Seq<(Seq<char>, Json)>, names: Seq<Seq<char>>, i: int)
    requires
        0 <= i <= members.len(),
        forall|k: int| 0 <= k < i ==> names.contains((#[trigger] members[k]).0),
    ensures
        unknown_member(members, names) == unknown_member(members.skip(i), names),
    decreases i,
{
    if i == 0 {
        assert(members.skip(0) =~= members);
    } else {
        let rest = members.drop_first();
        assert forall|k: int| 0 <= k < i - 1 implies names.contains((#[trigger] rest[k]).0) by {
            assert(rest[k] == members[k + 1]);
        }
        assert(names.contains(members[0].0));
        lemma_unknown_skip(rest, names, i - 1);
        assert(rest.skip(i - 1) =~= members.skip(i));
    }
}

/// The first member that a record of type `S` may not have is the one that
/// its rejection names.
pub proof fn lemma_first_unknown_member_is_named<S: Strict>(
    members: Seq<(Seq<char>, Json)>,
    at: int,
)
    requires
        0 <= at < members.len(),
        !S::names().contains(members[at].0),
        forall|k: int| 0 <= k < at ==> S::names().contains((#[trigger] members[k]).0),
    ensures
        S::failure(Json::Object(members)) == Some(
            DecodeFailure::UnknownField { name: members[at].0, expected: S::names() },
        ),
{
    lemma_unknown_skip(members, S::names(), at);
    assert(members.skip(at)[0] == members[at]);
    S::lemma_unknown_member_fails(members);
}

/// A record that is not rejected holds only members that it may have.
pub proof fn lemma_accepted_members_are_known<S: Strict>(members: Seq<(Seq<char>, Json)>)
    requires
        S::failure(Json::Object(members)) is None,
    ensures
        forall|k: int| 0 <= k < members.len() ==> S::names().contains((#[trigger] members[k]).0),
    decreases members.len(),
{
    if unknown_failure(members, S::names()) is Some {
        S::lemma_unknown_member_fails(members);
    }
    lemma_no_unknown_member(members, S::names());
}

/// Where no member is unknown, every member is one of `names`.
pub proof fn lemma_no_unknown_member(members: Seq<(Seq<char>, Json)>, names: Seq<Seq<char>>)
    requires
        unknown_member(members, names) is None,
    ensures
        forall|k: int| 0 <= k < members.len() ==> names.contains((#[trigger] members[k]).0),
    decreases members.len(),
{
    if members.len() > 0 {
        let rest = members.drop_first();
        lemma_no_unknown_member(rest, names);
        assert forall|k: int| 0 <= k < members.len() implies names.contains(
            (#[trigger] members[k]).0,
        ) by {
            if k > 0 {
                assert(members[k] == rest[k - 1]);
            }
        }
    }
}

/// A document that a record type accepts is rejected once it holds one
/// member more, under a name that the record may not have; the rejection
/// names that member.
pub proof fn lemma_extra_member_is_rejected<S: Strict>(
    members: Seq<(Seq<char>, Json)>,
    at: int,
    name: Seq<char>,
    value: Json,
)
    requires
        S::failure(Json::Object(members)) is None,
        0 <= at <= members.len(),
        !S::names().contains(name),
    ensures
        S::failure(Json::Object(members.insert(at, (name, value)))) == Some(
            DecodeFailure::UnknownField { name, expected: S::names() },
        ),
{
    lemma_accepted_members_are_known::<S>(members);
    let more = members.insert(at, (name, value));
    assert forall|k: int| 0 <= k < at implies S::names().contains((#[trigger] more[k]).0) by {
        assert(more[k] == members[k]);
    }
    lemma_first_unknown_member_is_named::<S>(more, at);
}

/// Where the first `i` elements can be read, the first failure of the whole
/// is the first failure from `i` on.
pub proof fn lemma_elements_skip<T: Decode>(items: Seq<Json>, i: int)
    requires
        0 <= i <= items.len(),
        forall|k: int| 0 <= k < i ==> T::failure(#[trigger] items[k]) is None,
    ensures
        elements_failure::<T>(items) == elements_failure::<T>(items.skip(i)),
    decreases i,
{
    if i == 0 {
        assert(items.skip(0) =~= items);
    } else {
        let rest = items.drop_first();
        assert forall|k: int| 0 <= k < i - 1 implies T::failure(#[trigger] rest[k]) is None by {
            assert(rest[k] == items[k + 1]);
        }
        assert(T::failure(items[0]) is None);
        lemma_elements_skip::<T>(rest, i - 1);
        assert(rest.skip(i - 1) =~= items.skip(i));
    }
}

/// Where the values of the first `i` members can be read, the first failure
/// of the whole is the first failure from `i` on.
pub proof fn lemma_values_skip<T: Decode>(members: Seq<(Seq<char>, Json)>, i: int)
    requires
        0 <= i <= members.len(),
        forall|k: int| 0 <= k < i ==> T::failure((#[trigger] members[k]).1) is None,
    ensures
        values_failure::<T>(members) == values_failure::<T>(members.skip(i)),
    decreases i,
{
    if i == 0 {
        assert(members.skip(0) =~= members);
    } else {
        let rest = members.drop_first();
        assert forall|k: int| 0 <= k < i - 1 implies T::failure((#[trigger] rest[k]).1) is None by {
            assert(rest[k] == members[k + 1]);
        }
        assert(T::failure(members[0].1) is None);
        lemma_values_skip::<T>(rest, i - 1);
        assert(rest.skip(i - 1) =~= members.skip(i));
    }
}

/// The members of a JSON object, lent by the document that holds them.
pub struct Record<'a> {
    entries: Vec<(&'a String, &'a Value)>,
}

impl<'a> Record<'a> {
    /// The members as a mathematical sequence.
    pub closed spec fn members(&self) -> Seq<(Seq<char>, Json)> {
        Seq::new(self.entries@.len(), |i: int| (self.entries@[i].0@, json_of(*self.entries@[i].1)))
    }

    /// Opens `v` as a record; `v` must be an object.
    pub fn open(v: &'a Value) -> (r: Result<Record<'a>, DecodeError>)
        ensures
            match r {
                Ok(record) => json_of(*v) == Json::Object(record.members()) && distinct_keys(
                    record.members(),
                ),
                Err(e) => !(json_of(*v) is Object) && e@ == DecodeFailure::InvalidType(
                    Expected::Object,
                ),
            },
    {
        match v.as_object() {
            Some(map) => {
                let record = Record { entries: entries(map) };
                assert(record.members() =~= crate::json::members_of(*map));
                assert forall|i: int, j: int| 0 <= i < j < record.members().len() implies (
                #[trigger] record.members()[i]).0 != (#[trigger] record.members()[j]).0 by {
                    assert(record.entries@[i].0@ != record.entries@[j].0@);
                }
                Ok(record)
            },
            None => Err(DecodeError::InvalidType(Expected::Object)),
        }
    }

    /// The value of the first member named `key`.
    pub fn get(&self, key: &str) -> (r: Option<&'a Value>)
        ensures
            match r {
                Some(v) => lookup(self.members(), key@) == Some(json_of(*v)),
                None => lookup(self.members(), key@) is None,
            },
    {
        let mut i: usize = 0;
        while i < self.entries.len()
            invariant
                0 <= i <= self.entries.len(),
                absent_before(self.members(), key@, i as int),
            decreases self.entries.len() - i,
        {
            if same_text(self.entries[i].0.as_str(), key) {
                proof {
                    lemma_lookup_found(self.members(), key@, i as int);
                }
                return Some(self.entries[i].1);
            }
            i = i + 1;
        }
        proof {
            lemma_lookup_absent(self.members(), key@);
        }
        None
    }

    /// Rejects a record that holds a member that `S` may not have.
    pub fn deny_unknown<S: Schema>(&self) -> (r: Result<(), DecodeError>)
        ensures
            match r {
                Ok(_) => unknown_failure(self.members(), S::names()) is None,
                Err(e) => unknown_failure(self.members(), S::names()) == Some(e@),
            },
    {
        let names = S::field_names();
        let mut i: usize = 0;
        while i < self.entries.len()
            invariant
                0 <= i <= self.entries.len(),
                names_of(names@) == S::names(),
                forall|k: int|
                    0 <= k < i ==> S::names().contains((#[trigger] self.members()[k]).0),
            decreases self.entries.len() - i,
        {
            if !is_listed(names, self.entries[i].0.as_str()) {
                proof {
                    lemma_unknown_skip(self.members(), S::names(), i as int);
                    assert(self.members().skip(i as int)[0] == self.members()[i as int]);
                }
                return Err(
                    DecodeError::UnknownField { name: self.entries[i].0.clone(), expected: names },
                );
            }
            i = i + 1;
        }
        proof {
            lemma_unknown_skip(self.members(), S::names(), self.entries.len() as int);
        }
        Ok(())
    }

    /// Reads the member `key`, which must be there.
    pub fn required<T: Decode>(&self, key: &'static str) -> (r: Result<T, DecodeError>)
        ensures
            match r {
                Ok(x) => required_is(&x, self.members(), key@) && required_failure::<T>(
                    self.members(),
                    key@,
                ) is None,
                Err(e) => required_failure::<T>(self.members(), key@) == Some(e@),
            },
    {
        match self.get(key) {
            Some(v) => T::decode(v),
            None => Err(DecodeError::MissingField(key)),
        }
    }

    /// Reads the member `key`, which may be absent or null.
    pub fn optional<T: Decode>(&self, key: &'static str) -> (r: Result<Option<T>, DecodeError>)
        ensures
            match r {
                Ok(x) => optional_is(&x, self.members(), key@) && optional_failure::<T>(
                    self.members(),
                    key@,
                ) is None,
                Err(e) => optional_failure::<T>(self.members(), key@) == Some(e@),
            },
    {
        match self.get(key) {
            Some(v) => {
                if v.is_null() {
                    Ok(None)
                } else {
                    match T::decode(v) {
                        Ok(x) => Ok(Some(x)),
                        Err(e) => Err(e),
                    }
                }
            },
            None => Ok(None),
        }
    }

    /// Reads the list under `key`; an absent member is the empty list.
    pub fn listed<T: Decode>(&self, key: &'static str) -> (r: Result<Vec<T>, DecodeError>)
        ensures
            match r {
                Ok(xs) => listed_is(&xs, self.members(), key@) && listed_failure::<T>(
                    self.members(),
                    key@,
                ) is None,
                Err(e) => listed_failure::<T>(self.members(), key@) == Some(e@),
            },
    {
        match self.get(key) {
            Some(v) => Vec::<T>::decode(v),
            None => Ok(Vec::new()),
        }
    }

    /// Reads the flag under `key`; an absent member is false.
    pub fn flag(&self, key: &'static str) -> (r: Result<bool, DecodeError>)
        ensures
            match r {
                Ok(x) => flag_is(x, self.members(), key@) && flag_failure(self.members(), key@)
                    is None,
                Err(e) => flag_failure(self.members(), key@) == Some(e@),
            },
    {
        match self.get(key) {
            Some(v) => bool::decode(v),
            None => Ok(false),
        }
    }
}

impl Decode for bool {
    open spec fn failure(j: Json) -> Option<DecodeFailure> {
        if j is Bool {
            None
        } else {
            Some(DecodeFailure::InvalidType(Expected::Boolean))
        }
    }

    open spec fn decodes(&self, j: Json) -> bool {
        j == Json::Bool(*self)
    }

    fn decode(v: &Value) -> (r: Result<bool, DecodeError>) {
        match v.as_bool() {
            Some(b) => Ok(b),
            None => Err(DecodeError::InvalidType(Expected::Boolean)),
        }
    }
}

impl Decode for String {
    open spec fn failure(j: Json) -> Option<DecodeFailure> {
        if j is String {
            None
        } else {
            Some(DecodeFailure::InvalidType(Expected::String))
        }
    }

    open spec fn decodes(&self, j: Json) -> bool {
        j == Json::String(self@)
    }

    fn decode(v: &Value) -> (r: Result<String, DecodeError>) {
        match v.as_str() {
            Some(s) => Ok(s.to_owned()),
            None => Err(DecodeError::InvalidType(Expected::String)),
        }
    }
}

/// Why `j` is no integer from 0 to `high`.
pub open spec fn unsigned_failure(j: Json, high: int) -> Option<DecodeFailure> {
    match j {
        Json::Number(Number::Unsigned(n)) => if n <= high {
            None
        } else {
            Some(DecodeFailure::OutOfRange)
        },
        Json::Number(Number::Negative(_)) => Some(DecodeFailure::OutOfRange),
        _ => Some(DecodeFailure::InvalidType(Expected::Integer)),
    }
}

/// Why `j` is no integer from `low` to `high`.
pub open spec fn signed_failure(j: Json, low: int, high: int) -> Option<DecodeFailure> {
    match j {
        Json::Number(Number::Unsigned(n)) => if n <= high {
            None
        } else {
            Some(DecodeFailure::OutOfRange)
        },
        Json::Number(Number::Negative(n)) => if low <= n <= high {
            None
        } else {
            Some(DecodeFailure::OutOfRange)
        },
        _ => Some(DecodeFailure::InvalidType(Expected::Integer)),
    }
}

/// That `j` is the integer `n`.
pub open spec fn integer_is(n: int, j: Json) -> bool {
    match j {
        Json::Number(Number::Unsigned(m)) => m == n,
        Json::Number(Number::Negative(m)) => m == n,
        _ => false,
    }
}

impl Decode for u32 {
    open spec fn failure(j: Json) -> Option<DecodeFailure> {
        unsigned_failure(j, u32::MAX as int)
    }

    open spec fn decodes(&self, j: Json) -> bool {
        integer_is(*self as int, j)
    }

    fn decode(v: &Value) -> (r: Result<u32, DecodeError>) {
        match v.as_u64() {
            Some(n) => {
                if n <= u32::MAX as u64 {
                    Ok(n as u32)
                } else {
                    Err(DecodeError::OutOfRange)
                }
            },
            None => {
                match v.as_i64() {
                    Some(_) => Err(DecodeError::OutOfRange),
                    None => Err(DecodeError::InvalidType(Expected::Integer)),
                }
            },
        }
    }
}

impl Decode for usize {
    open spec fn failure(j: Json) -> Option<DecodeFailure> {
        unsigned_failure(j, usize::MAX as int)
    }

    open spec fn decodes(&self, j: Json) -> bool {
        integer_is(*self as int, j)
    }

    fn decode(v: &Value) -> (r: Result<usize, DecodeError>) {
        match v.as_u64() {
            Some(n) => {
                if n <= usize::MAX as u64 {
                    Ok(n as usize)
                } else {
                    Err(DecodeError::OutOfRange)
                }
            },
            None => {
                match v.as_i64() {
                    Some(_) => Err(DecodeError::OutOfRange),
                    None => Err(DecodeError::InvalidType(Expected::Integer)),
                }
            },
        }
    }
}

impl Decode for i32 {
    open spec fn failure(j: Json) -> Option<DecodeFailure> {
        signed_failure(j, i32::MIN as int, i32::MAX as int)
    }

    open spec fn decodes(&self, j: Json) -> bool {
        integer_is(*self as int, j)
    }

    fn decode(v: &Value) -> (r: Result<i32, DecodeError>) {
        match v.as_i64() {
            Some(n) => {
                if i32::MIN as i64 <= n && n <= i32::MAX as i64 {
                    Ok(n as i32)
                } else {
                    Err(DecodeError::OutOfRange)
                }
            },
            None => {
                match v.as_u64() {
                    Some(_) => Err(DecodeError::OutOfRange),
                    None => Err(DecodeError::InvalidType(Expected::Integer)),
                }
            },
        }
    }
}

impl<T: Decode> Decode for Vec<T> {
    open spec fn failure(j: Json) -> Option<DecodeFailure> {
        match j {
            Json::Array(items) => elements_failure::<T>(items),
            _ => Some(DecodeFailure::InvalidType(Expected::Array)),
        }
    }

    open spec fn decodes(&self, j: Json) -> bool {
        match j {
            Json::Array(items) => elements_are(self@, items),
            _ => false,
        }
    }

    fn decode(v: &Value) -> (r: Result<Vec<T>, DecodeError>) {
        match v.as_array() {
            Some(array) => {
                let ghost items = array@.map_values(|e: Value| json_of(e));
                let mut xs: Vec<T> = Vec::new();
                let mut i: usize = 0;
                while i < array.len()
                    invariant
                        0 <= i <= array.len(),
                        items == array@.map_values(|e: Value| json_of(e)),
                        json_of(*v) == Json::Array(items),
                        xs@.len() == i,
                        forall|k: int| 0 <= k < i ==> (#[trigger] xs@[k]).decodes(items[k]),
                        forall|k: int| 0 <= k < i ==> T::failure(#[trigger] items[k]) is None,
                    decreases array.len() - i,
                {
                    match T::decode(&array[i]) {
                        Ok(x) => {
                            xs.push(x);
                        },
                        Err(e) => {
                            proof {
                                lemma_elements_skip::<T>(items, i as int);
                                assert(items.skip(i as int)[0] == items[i as int]);
                            }
                            return Err(e);
                        },
                    }
                    i = i + 1;
                }
                proof {
                    lemma_elements_skip::<T>(items, items.len() as int);
                }
                Ok(xs)
            },
            None => Err(DecodeError::InvalidType(Expected::Array)),
        }
    }
}

impl Decode for Value {
    open spec fn failure(j: Json) -> Option<DecodeFailure> {
        None
    }

    open spec fn decodes(&self, j: Json) -> bool {
        json_of(*self) == j
    }

    fn decode(v: &Value) -> (r: Result<Value, DecodeError>) {
        Ok(v.clone())
    }
}

/// Reads `v` as a map from names to `T`, member by member.
pub fn decode_map<T: Decode>(v: &Value) -> (r: Result<Vec<(String, T)>, DecodeError>)
    ensures
        match r {
            Ok(xs) => map_is(xs@, json_of(*v)) && map_failure::<T>(json_of(*v)) is None,
            Err(e) => map_failure::<T>(json_of(*v)) == Some(e@),
        },
{
    let record = Record::open(v)?;
    let mut xs: Vec<(String, T)> = Vec::new();
    let mut i: usize = 0;
    while i < record.entries.len()
        invariant
            0 <= i <= record.entries.len(),
            json_of(*v) == Json::Object(record.members()),
            xs@.len() == i,
            forall|k: int|
                0 <= k < i ==> (#[trigger] xs@[k]).0@ == record.members()[k].0 && xs@[k].1.decodes(
                    record.members()[k].1,
                ),
            forall|k: int| 0 <= k < i ==> T::failure((#[trigger] record.members()[k]).1) is None,
        decreases record.entries.len() - i,
    {
        match T::decode(record.entries[i].1) {
            Ok(x) => {
                xs.push((record.entries[i].0.clone(), x));
            },
            Err(e) => {
                proof {
                    lemma_values_skip::<T>(record.members(), i as int);
                    assert(record.members().skip(i as int)[0] == record.members()[i as int]);
                }
                return Err(e);
            },
        }
        i = i + 1;
    }
    proof {
        lemma_values_skip::<T>(record.members(), record.members().len() as int);
        assert forall|a: int, b: int| 0 <= a < b < xs@.len() implies (#[trigger] xs@[a]).0@ != (
        #[trigger] xs@[b]).0@ by {
            assert(record.members()[a].0 != record.members()[b].0);
        }
    }
    Ok(xs)
}

/// Why the text `text` cannot be read as a `T`.
pub open spec fn text_failure<T: Decode>(text: Seq<char>) -> Option<DecodeFailure> {
    match json_document(text) {
        Some(j) => T::failure(j),
        None => Some(DecodeFailure::Syntax),
    }
}

/// That `x` is the value read from the text `text`.
pub open spec fn text_decodes<T: Decode>(x: &T, text: Seq<char>) -> bool {
    match json_document(text) {
        Some(j) => x.decodes(j),
        None => false,
    }
}

/// Reads a `T` from a JSON text.
///
/// The text is parsed into a tree before anything is read from it. The
/// parser keeps one value per name, so an object that writes a member twice
/// counts as holding it once, with the value written last.
pub fn from_text<T: Decode>(text: &str) -> (r: Result<T, DecodeError>)
    ensures
        match r {
            Ok(x) => text_decodes(&x, text@) && text_failure::<T>(text@) is None,
            Err(e) => text_failure::<T>(text@) == Some(e@),
        },
{
    match parse(text) {
        Ok(v) => T::decode(&v),
        Err(e) => Err(DecodeError::Syntax(e)),
    }
}

} // verus!
