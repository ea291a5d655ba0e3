//! Strongly-typed identifiers, each a UUID held as its 128-bit value.

use vstd::arithmetic::power::pow;
use vstd::prelude::*;

verus! {

/// Whether `v` is a random (version 4) UUID of the usual variant.
pub open spec fn is_v4(v: u128) -> bool {
    &&& v as int / pow(16, 19) % 16 == 4
    &&& v as int / pow(2, 62) % 4 == 2
}

/// The lower-case hexadecimal digit of `d`, for `d < 16`.
pub open spec fn hex_digit(d: int) -> char {
    if d < 10 {
        (48 + d) as char
    } else {
        (87 + d) as char
    }
}

/// The hexadecimal digit of `v` at position `i` of 32, counted from the left.
pub open spec fn hex_at(v: u128, i: int) -> char {
    hex_digit(v as int / pow(16, (31 - i) as nat) % 16)
}

/// The hyphenated text of a UUID: 32 hexadecimal digits in groups of 8, 4, 4, 4
/// and 12.
pub open spec fn hyphenated(v: u128) -> Seq<char> {
    Seq::new(
        36,
        |i: int|
            if i < 8 {
                hex_at(v, i)
            } else if i == 8 || i == 13 || i == 18 || i == 23 {
                '-'
            } else if i < 13 {
                hex_at(v, i - 1)
            } else if i < 18 {
                hex_at(v, i - 2)
            } else if i < 23 {
                hex_at(v, i - 3)
            } else {
                hex_at(v, i - 4)
            },
    )
}

/// The UUID that the uuid crate reads in a text, if it reads one.
pub uninterp spec fn uuid_value(text: Seq<char>) -> Option<u128>;

/// `uuid::Uuid::new_v4`: a random value, of which only the version and the
/// variant are known.
#[verifier::external_body]
fn random_uuid() -> (r: u128)
    ensures
        is_v4(r),
{
    uuid::Uuid::new_v4().as_u128()
}

/// The text of a UUID as `uuid::Uuid` displays it: lower case, hyphenated.
#[verifier::external_body]
fn uuid_text(value: u128) -> (r: String)
    ensures
        r@ == hyphenated(value),
{
    uuid::Uuid::from_u128(value).to_string()
}

/// `uuid::Uuid::parse_str`, a function of the text alone, which reads back the
/// hyphenated text of every UUID.
#[verifier::external_body]
fn parse_uuid(text: &str) -> (r: Option<u128>)
    ensures
        r == uuid_value(text@),
        forall|v: u128| text@ == #[trigger] hyphenated(v) ==> r == Some(v),
{
    uuid::Uuid::parse_str(text).ok().map(|u| u.as_u128())
}

#[derive(Debug, Clone, Copy, PartialEq, Eq, Hash, Structural)]
pub struct TaskId {
    pub value: u128,
}

impl TaskId {
    pub fn new() -> (r: Self)
        ensures
            is_v4(r.value),
    {
        TaskId { value: random_uuid() }
    }

    pub fn text(&self) -> (r: String)
        ensures
            r@ == hyphenated(self.value),
    {
        uuid_text(self.value)
    }
}

#[derive(Debug, Clone, Copy, PartialEq, Eq, Hash, Structural)]
pub struct EventId {
    pub value: u128,
}

impl EventId {
    pub fn new() -> (r: Self)
        ensures
            is_v4(r.value),
    {
        EventId { value: random_uuid() }
    }

    pub fn text(&self) -> (r: String)
        ensures
            r@ == hyphenated(self.value),
    {
        uuid_text(self.value)
    }
}

#[derive(Debug, Clone, Copy, PartialEq, Eq, Hash, Structural)]
pub struct DelegateId {
    pub value: u128,
}

impl DelegateId {
    pub fn new() -> (r: Self)
        ensures
            is_v4(r.value),
    {
        DelegateId { value: random_uuid() }
    }

    pub fn text(&self) -> (r: String)
        ensures
            r@ == hyphenated(self.value),
    {
        uuid_text(self.value)
    }
}

#[derive(Debug, Clone, Copy, PartialEq, Eq, Hash, Structural)]
pub struct NodeId {
    pub value: u128,
}

impl NodeId {
    pub fn new() -> (r: Self)
        ensures
            is_v4(r.value),
    {
        NodeId { value: random_uuid() }
    }
}

#[derive(Debug, Clone, Copy, PartialEq, Eq, Hash, Structural)]
pub struct UserId {
    pub value: u128,
}

impl UserId {
    pub fn new() -> (r: Self)
        ensures
            is_v4(r.value),
    {
        UserId { value: random_uuid() }
    }
}

/// The text of a fresh id.
pub fn fresh_text() -> (r: String)
    ensures
        exists|v: u128| is_v4(v) && r@ == #[trigger] hyphenated(v),
{
    uuid_text(random_uuid())
}

/// The id stored as `text`, or `spare` where `text` is no UUID.
pub fn id_or(text: &str, spare: u128) -> (r: u128)
    ensures
        r == (match uuid_value(text@) {
            Some(v) => v,
            None => spare,
        }),
        forall|v: u128| text@ == #[trigger] hyphenated(v) ==> r == v,
{
    match parse_uuid(text) {
        Some(v) => v,
        None => spare,
    }
}

/// The id stored as `text`, or a fresh one where `text` is no UUID.
pub fn parse_id(text: &str) -> (r: u128)
    ensures
        match uuid_value(text@) {
            Some(v) => r == v,
            None => is_v4(r),
        },
        forall|v: u128| text@ == #[trigger] hyphenated(v) ==> r == v,
{
    id_or(text, random_uuid())
}

} // verus!
