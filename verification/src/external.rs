//! Declarations of the outside types the library carries, and the calls it
//! makes into outside crates.

use vstd::prelude::*;

verus! {

/// A MessagePack value (`rmpv::Value`), carried through untouched as an extra
/// property of elements and join metadata.
#[verifier::external_type_specification]
#[verifier::external_body]
pub struct ExMessagePackValue(rmpv::Value);

} // verus!

verus! {

/// The sending half of a one-shot channel (`tokio::sync::oneshot::Sender`),
/// carried inside a join command so that the room can answer it.
#[verifier::external_type_specification]
#[verifier::external_body]
#[verifier::reject_recursive_types(T)]
pub struct ExOneshotSender<T>(tokio::sync::oneshot::Sender<T>);

} // verus!

verus! {

/// The sending half of a bounded multi-producer channel
/// (`tokio::sync::mpsc::Sender`).
#[verifier::external_type_specification]
#[verifier::external_body]
#[verifier::reject_recursive_types(T)]
pub struct ExMpscSender<T>(tokio::sync::mpsc::Sender<T>);

/// The receiving half of a bounded multi-producer channel
/// (`tokio::sync::mpsc::Receiver`).
#[verifier::external_type_specification]
#[verifier::external_body]
#[verifier::reject_recursive_types(T)]
pub struct ExMpscReceiver<T>(tokio::sync::mpsc::Receiver<T>);

/// The sending half of a broadcast channel (`tokio::sync::broadcast::Sender`).
#[verifier::external_type_specification]
#[verifier::external_body]
#[verifier::reject_recursive_types(T)]
pub struct ExBroadcastSender<T>(tokio::sync::broadcast::Sender<T>);

/// Calls `tokio::sync::mpsc::channel`, which opens a bounded channel holding
/// at most `buffer` messages. It panics when `buffer` is 0 or more than the
/// semaphore's permit limit (`usize::MAX >> 3`), which `requires` leaves out.
/// Nothing is claimed of the two halves.
#[verifier::external_body]
pub(crate) fn bounded_channel<T>(buffer: usize) -> (tokio::sync::mpsc::Sender<T>, tokio::sync::mpsc::Receiver<T>)
    requires
        0 < buffer <= usize::MAX / 8,
{
    tokio::sync::mpsc::channel(buffer)
}

/// Calls `tokio::sync::broadcast::channel` and keeps its sending half; the
/// first receiver is dropped, as new ones come from `subscribe`. The call
/// panics when `capacity` is 0 or above `usize::MAX / 2`, which `requires`
/// leaves out. Nothing is claimed of the sender.
#[verifier::external_body]
pub(crate) fn broadcast_sender<T: Clone>(capacity: usize) -> tokio::sync::broadcast::Sender<T>
    requires
        0 < capacity <= usize::MAX / 2,
{
    tokio::sync::broadcast::channel(capacity).0
}

/// Calls `Clone::clone` on a `tokio::sync::mpsc::Sender`, which hands back a
/// sender of the same channel (it clones the shared channel handle). The
/// contract claims that the clone is the same value as the sender it was made from.
#[verifier::external_body]
pub(crate) fn clone_mpsc_sender<T>(s: &tokio::sync::mpsc::Sender<T>) -> (r: tokio::sync::mpsc::Sender<T>)
    ensures
        r == *s,
{
    s.clone()
}

/// Calls `Clone::clone` on a `tokio::sync::broadcast::Sender`, which hands
/// back a sender of the same channel (it clones the shared state's `Arc`).
/// The contract claims that the clone is the same value as the sender it was made from.
#[verifier::external_body]
pub(crate) fn clone_broadcast_sender<T>(s: &tokio::sync::broadcast::Sender<T>) -> (r: tokio::sync::broadcast::Sender<T>)
    ensures
        r == *s,
{
    s.clone()
}

/// A concurrent hash map (`dashmap::DashMap`).
#[verifier::external_type_specification]
#[verifier::external_body]
#[verifier::reject_recursive_types(K)]
#[verifier::reject_recursive_types(V)]
#[verifier::reject_recursive_types(S)]
pub struct ExDashMap<K, V, S>(dashmap::DashMap<K, V, S>);

} // verus!

verus! {

/// Calls `str::strip_prefix` with a string prefix: when `s` starts with
/// `prefix` it returns the rest of `s`, otherwise nothing.
#[verifier::external_body]
pub(crate) fn str_strip_prefix<'a>(s: &'a str, prefix: &str) -> (r: Option<&'a str>)
    ensures
        r is Some <==> prefix@.is_prefix_of(s@),
        r matches Some(rest) ==> rest@ == s@.skip(prefix@.len() as int),
{
    s.strip_prefix(prefix)
}

/// Whether a character is a lower-case hexadecimal digit.
pub open spec fn is_lower_hex_digit(c: char) -> bool {
    ('0' as u32 <= c as u32 <= '9' as u32) || ('a' as u32 <= c as u32 <= 'f' as u32)
}

/// Whether a text is a version 4 UUID in hyphenated lower-case form: 36
/// characters, hyphens at positions 8, 13, 18 and 23, lower-case hexadecimal
/// digits elsewhere, the version digit `4` at position 14 and one of `8`,
/// `9`, `a`, `b` (the RFC 4122 variant) at position 19.
pub open spec fn is_hyphenated_uuid_v4(s: Seq<char>) -> bool {
    &&& s.len() == 36
    &&& forall|i: int|
        0 <= i < 36 ==> if i == 8 || i == 13 || i == 18 || i == 23 {
            s[i] == '-'
        } else {
            is_lower_hex_digit(s[i])
        }
    &&& s[14] == '4'
    &&& (s[19] == '8' || s[19] == '9' || s[19] == 'a' || s[19] == 'b')
}

/// Calls `uuid::Uuid::new_v4` and formats the random id with `to_string`.
/// `new_v4` sets the version nibble to 4 and the variant bits to RFC 4122,
/// and `Display` writes the lower-case hyphenated form (`LowerHex` of
/// `Hyphenated`). Which id comes out is chance; only its form is claimed.
#[verifier::external_body]
pub(crate) fn random_user_id() -> (r: String)
    ensures
        is_hyphenated_uuid_v4(r@),
{
    uuid::Uuid::new_v4().to_string()
}

} // verus!
