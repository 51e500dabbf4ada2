//! `dashmap::DashMap` with string keys.
//!
//! A map is only changed through `&mut`, so its contents are those that its
//! owner put there. Everything marked `external_body` here is believed and not
//! proved.
use crate::channels::{CommandSender, ReplySender};
use crate::messages::CloudCommand;
use dashmap::DashMap;
use std::collections::VecDeque;
use vstd::prelude::*;

verus! {

#[verifier::external_type_specification]
#[verifier::external_body]
#[verifier::reject_recursive_types(K)]
#[verifier::reject_recursive_types(V)]
#[verifier::reject_recursive_types(S)]
pub struct ExDashMap<K, V, S>(dashmap::DashMap<K, V, S>);

/// What a map from client ids to command streams holds.
pub uninterp spec fn senders_in(table: DashMap<String, CommandSender>) -> Map<
    Seq<char>,
    CommandSender,
>;

/// What a map from client ids to waiting commands holds.
pub uninterp spec fn queues_in(table: DashMap<String, VecDeque<CloudCommand>>) -> Map<
    Seq<char>,
    VecDeque<CloudCommand>,
>;

/// What a map from client ids to clock readings holds.
pub uninterp spec fn readings_in(table: DashMap<String, u128>) -> Map<Seq<char>, u128>;

/// What a map from command ids to waiting callers holds.
pub uninterp spec fn waiters_in(table: DashMap<String, ReplySender>) -> Map<Seq<char>, ReplySender>;

/// A type of value that the registry keeps under string keys.
pub(crate) trait Stored: Sized {
    /// The entries of a map of such values.
    spec fn entries(table: DashMap<String, Self>) -> Map<Seq<char>, Self>;
}

impl Stored for CommandSender {
    open spec fn entries(table: DashMap<String, Self>) -> Map<Seq<char>, Self> {
        senders_in(table)
    }
}

impl Stored for VecDeque<CloudCommand> {
    open spec fn entries(table: DashMap<String, Self>) -> Map<Seq<char>, Self> {
        queues_in(table)
    }
}

impl Stored for u128 {
    open spec fn entries(table: DashMap<String, Self>) -> Map<Seq<char>, Self> {
        readings_in(table)
    }
}

impl Stored for ReplySender {
    open spec fn entries(table: DashMap<String, Self>) -> Map<Seq<char>, Self> {
        waiters_in(table)
    }
}

/// `DashMap::new`: an empty map, for command streams.
#[verifier::external_body]
pub(crate) fn no_senders() -> (table: DashMap<String, CommandSender>)
    ensures
        senders_in(table) == (Map::<Seq<char>, CommandSender>::empty()),
{
    DashMap::new()
}

/// `DashMap::new`: an empty map, for waiting commands.
#[verifier::external_body]
pub(crate) fn no_queues() -> (table: DashMap<String, VecDeque<CloudCommand>>)
    ensures
        queues_in(table) == (Map::<Seq<char>, VecDeque<CloudCommand>>::empty()),
{
    DashMap::new()
}

/// `DashMap::new`: an empty map, for clock readings.
#[verifier::external_body]
pub(crate) fn no_readings() -> (table: DashMap<String, u128>)
    ensures
        readings_in(table) == (Map::<Seq<char>, u128>::empty()),
{
    DashMap::new()
}

/// `DashMap::new`: an empty map, for waiting callers.
#[verifier::external_body]
pub(crate) fn no_waiters() -> (table: DashMap<String, ReplySender>)
    ensures
        waiters_in(table) == (Map::<Seq<char>, ReplySender>::empty()),
{
    DashMap::new()
}

/// `DashMap::insert`: puts the value under the key, in place of what was there.
#[verifier::external_body]
pub(crate) fn put<V: Stored>(table: &mut DashMap<String, V>, key: String, value: V)
    ensures
        V::entries(*final(table)) == V::entries(*old(table)).insert(key@, value),
{
    let _ = table.insert(key, value);
}

/// `DashMap::remove`: takes out what is under the key, if anything is.
#[verifier::external_body]
pub(crate) fn take<V: Stored>(table: &mut DashMap<String, V>, key: &str) -> (value: Option<V>)
    ensures
        V::entries(*final(table)) == V::entries(*old(table)).remove(key@),
        value == (if V::entries(*old(table)).contains_key(key@) {
            Some(V::entries(*old(table))[key@])
        } else {
            None
        }),
{
    table.remove(key).map(|entry| entry.1)
}

/// `DashMap::get`: a clone of what is under the key, if anything is.
#[verifier::external_body]
pub(crate) fn look_up<V: Stored + Clone>(table: &DashMap<String, V>, key: &str) -> (value: Option<
    V,
>)
    ensures
        value is Some <==> V::entries(*table).contains_key(key@),
        value is Some ==> cloned(V::entries(*table)[key@], value->0),
{
    table.get(key).map(|entry| entry.value().clone())
}

/// `DashMap::iter`, its keys: each key of the map once, in an order that is
/// left open.
#[verifier::external_body]
pub(crate) fn keys<V: Stored>(table: &DashMap<String, V>) -> (keys: Vec<String>)
    ensures
        forall|i: int|
            0 <= i < keys@.len() ==> V::entries(*table).contains_key(#[trigger] keys@[i]@),
        forall|key: Seq<char>| #[trigger]
            V::entries(*table).contains_key(key) ==> exists|i: int|
                0 <= i < keys@.len() && #[trigger] keys@[i]@ == key,
        forall|i: int, j: int|
            0 <= i < j < keys@.len() ==> #[trigger] keys@[i]@ != #[trigger] keys@[j]@,
{
    table.iter().map(|entry| entry.key().clone()).collect()
}

} // verus!
