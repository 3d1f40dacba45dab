//! Object names: `prefix/<uuid>` when a prefix is configured, else `<uuid>`.

use vstd::prelude::*;
use vstd::string::StringExecFns;

verus! {

/// Length of a UUID in its hyphenated text form.
pub const UUID_TEXT_LEN: usize = 36;

/// Relies on uuid's `Uuid::new_v4` and its `Display`, which writes the
/// hyphenated form of `Hyphenated::LENGTH` (36) characters.
#[verifier::external_body]
fn new_uuid_text() -> (r: String)
    ensures
        r@.len() == UUID_TEXT_LEN,
{
    uuid::Uuid::new_v4().to_string()
}

/// The name of an object with identifier `id` under an optional prefix.
pub open spec fn object_name_spec(prefix: Option<Seq<char>>, id: Seq<char>) -> Seq<char> {
    match prefix {
        Some(p) => p + seq!['/'] + id,
        None => id,
    }
}

/// The view of an optional prefix.
pub open spec fn prefix_view(prefix: Option<&str>) -> Option<Seq<char>> {
    match prefix {
        Some(p) => Some(p@),
        None => None,
    }
}

/// Joins an optional prefix and an identifier into an object name.
pub fn compose_object_name(prefix: Option<&str>, id: &str) -> (r: String)
    ensures
        r@ == object_name_spec(prefix_view(prefix), id@),
{
    match prefix {
        Some(p) => {
            let mut name = String::from_str(p);
            name.append("/");
            name.append(id);
            proof {
                reveal_strlit("/");
            }
            assert(name@ == p@ + seq!['/'] + id@);
            name
        },
        None => String::from_str(id),
    }
}

/// A fresh name for an object to write: a random version-4 UUID, under the
/// prefix when one is configured.
pub fn generate_object_name(prefix: Option<&str>) -> (r: String)
    ensures
        exists|id: Seq<char>|
            id.len() == UUID_TEXT_LEN && r@ == #[trigger] object_name_spec(prefix_view(prefix), id),
{
    let id = new_uuid_text();
    let r = compose_object_name(prefix, id.as_str());
    assert(r@ == object_name_spec(prefix_view(prefix), id@));
    r
}

/// An identifier for this run's documents: the host name followed by a
/// random version-4 UUID.
pub fn run_source(host: &str) -> (r: String)
    ensures
        exists|id: Seq<char>| id.len() == UUID_TEXT_LEN && r@ == #[trigger] (host@ + id),
{
    let id = new_uuid_text();
    let mut r = String::from_str(host);
    r.append(id.as_str());
    assert(r@ == host@ + id@);
    r
}

} // verus!
