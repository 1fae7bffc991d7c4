//! What this crate takes on trust from the crates it is built on.
//!
//! Each item below states a contract that the verifier believes without
//! proof. Everything else in the crate is proved from these.

use vstd::prelude::*;
use vstd::string::*;
use indexmap::IndexMap;
use crate::collection::Recipe;
use crate::text::utf8;

verus! {

/// `indexmap::IndexMap`, an insertion-ordered hash map. Opaque to the
/// verifier; its contents are spoken of through `override_entries` and
/// `recipe_values`.
#[verifier::external_type_specification]
#[verifier::external_body]
#[verifier::reject_recursive_types(K)]
#[verifier::reject_recursive_types(V)]
#[verifier::reject_recursive_types(S)]
pub struct ExIndexMap<K, V, S>(IndexMap<K, V, S>);

/// The key-to-value mapping that a map of overrides holds.
pub uninterp spec fn override_entries(m: IndexMap<String, String>) -> Map<Seq<char>, Seq<char>>;

/// The values of a map of recipes, in the map's order.
pub uninterp spec fn recipe_values(m: IndexMap<String, Recipe>) -> Seq<Recipe>;

/// The map without entries.
pub open spec fn no_entries() -> Map<Seq<char>, Seq<char>> {
    Map::empty()
}

/// `IndexMap::new`: the new map holds no entry.
#[verifier::external_body]
pub(crate) fn overrides_new() -> (m: IndexMap<String, String>)
    ensures
        override_entries(m) == no_entries(),
{
    IndexMap::new()
}

/// `IndexMap::get`: the value stored under `key`, or `None` when the map has
/// no such key.
#[verifier::external_body]
pub(crate) fn overrides_get<'a>(m: &'a IndexMap<String, String>, key: &str) -> (r: Option<
    &'a String,
>)
    ensures
        r is Some <==> override_entries(*m).dom().contains(key@),
        r matches Some(v) ==> v@ == override_entries(*m)[key@],
{
    m.get(key)
}

/// `IndexMap::insert`: afterwards `key` maps to `value`, and every other key
/// to what it mapped to before.
#[verifier::external_body]
pub(crate) fn overrides_insert(m: &mut IndexMap<String, String>, key: String, value: String)
    ensures
        override_entries(*final(m)) == override_entries(*old(m)).insert(key@, value@),
{
    m.insert(key, value);
}

/// `IndexMap::into_values`: the values in the order of the map.
#[verifier::external_body]
pub(crate) fn recipes_into_vec(m: IndexMap<String, Recipe>) -> (v: Vec<Recipe>)
    ensures
        v@ == recipe_values(m),
{
    m.into_values().collect()
}

/// The normal form that `reqwest::header::HeaderName` gives a header name,
/// or `None` where it refuses the name.
pub uninterp spec fn header_name_form(name: Seq<char>) -> Option<Seq<char>>;

/// `HeaderName::try_from` followed by `HeaderName::as_str`: the accepted
/// name in its normal form, or `None` for a name that is refused.
#[verifier::external_body]
pub(crate) fn header_name(name: &str) -> (r: Option<String>)
    ensures
        (match r {
            Some(s) => Some(s@),
            None => None,
        }) == header_name_form(name@),
{
    match reqwest::header::HeaderName::try_from(name) {
        Ok(n) => Some(n.as_str().to_owned()),
        Err(_) => None,
    }
}

/// A byte that may stand in a header value: a tab, or anything from the
/// space on except DEL.
pub open spec fn is_header_value_byte(b: u8) -> bool {
    (b >= 32 && b != 127) || b == 9
}

/// `HeaderValue::try_from` on a string: accepted exactly when every byte of
/// the string may stand in a header value.
#[verifier::external_body]
pub(crate) fn header_value_accepted(value: &str) -> (r: bool)
    ensures
        r == (forall|i: int|
            0 <= i < utf8(value@).len() ==> is_header_value_byte(#[trigger] utf8(value@)[i])),
{
    reqwest::header::HeaderValue::try_from(value).is_ok()
}

/// `chrono::Utc::now`, as milliseconds since the Unix epoch. Nothing is
/// known of the value. The call panics on a machine whose clock stands
/// before the epoch.
#[verifier::external_body]
pub(crate) fn utc_now_millis() -> i64 {
    chrono::Utc::now().timestamp_millis()
}

/// The number is a version 4 UUID of the usual variant: the four bits from
/// bit 76 on hold the version, 4, and the two bits from bit 62 on hold the
/// variant, binary 10. The other 122 bits are free.
pub open spec fn is_uuid_v4(v: u128) -> bool {
    (v / 0x1000_0000_0000_0000_0000) % 16 == 4 && (v / 0x4000_0000_0000_0000) % 4 == 2
}

/// `uuid::Uuid::new_v4` followed by `Uuid::as_u128`: random bits with the
/// version and the variant set over them, so every outcome is a version 4
/// UUID; nothing else is known of the value. The call panics where the
/// operating system gives no random bytes.
#[verifier::external_body]
pub(crate) fn random_uuid() -> (r: u128)
    ensures
        is_uuid_v4(r),
{
    uuid::Uuid::new_v4().as_u128()
}

} // verus!
