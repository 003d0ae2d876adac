//! The reply to a successful command: an attribute log kept in the host's
//! own response type.

use vstd::prelude::*;

verus! {

/// `cosmwasm_std::Empty`, the host's placeholder for "no custom message":
/// it only fills the parameter of the response type.
#[verifier::external_type_specification]
#[verifier::external_body]
pub struct ExEmpty(cosmwasm_std::Empty);

/// `cosmwasm_std::Response`, the host's reply to a command: a value of it
/// is built through the two functions below and otherwise not read.
#[verifier::external_type_specification]
#[verifier::external_body]
#[verifier::reject_recursive_types(T)]
pub struct ExResponse<T>(cosmwasm_std::Response<T>);

/// The field `attributes` of a `cosmwasm_std::Response`: its attributes in
/// the order in which they were added, each as a pair of key and value.
pub uninterp spec fn attributes_of(r: cosmwasm_std::Response) -> Seq<(Seq<char>, Seq<char>)>;

/// Whether the host accepts `key` as an attribute key: keys that begin with
/// an underscore are reserved.
pub open spec fn key_allowed(key: Seq<char>) -> bool {
    key.len() == 0 || key[0] != '_'
}

/// `cosmwasm_std::Response::new`: a response without attributes.
#[verifier::external_body]
pub(crate) fn empty_response() -> (r: cosmwasm_std::Response)
    ensures
        attributes_of(r) == Seq::<(Seq<char>, Seq<char>)>::empty(),
{
    cosmwasm_std::Response::new()
}

/// `cosmwasm_std::Response::add_attribute`: the same response with the pair
/// of `key` and `value` appended to its attributes. The host panics in debug
/// builds on a reserved key, which the precondition leaves out.
#[verifier::external_body]
pub(crate) fn with_attribute(r: cosmwasm_std::Response, key: &str, value: &str) -> (out:
    cosmwasm_std::Response)
    requires
        key_allowed(key@),
    ensures
        attributes_of(out) == attributes_of(r).push((key@, value@)),
{
    r.add_attribute(key, value)
}

/// The reply to a command that only reports which action ran.
pub fn action_response(action: &str) -> (r: cosmwasm_std::Response)
    ensures
        attributes_of(r) == seq![("action"@, action@)],
{
    proof {
        reveal_strlit("action");
    }
    let r = with_attribute(empty_response(), "action", action);
    assert(attributes_of(r) =~= seq![("action"@, action@)]);
    r
}

} // verus!
