//! The registry of queues: a `DashMap` from queue URL to queue, and the
//! service address from which queue URLs are derived.
//!
//! Verus does not look into the map. What its methods do is stated here over
//! `held_queues`, the queues that a map holds, and trusted without proof.
//! The statements speak of a map that the caller holds exclusively: each
//! method that changes the map takes it by `&mut`, so that what the map held
//! before the call and what it holds after can be told apart. An operation
//! of the service therefore has the state of the service to itself for as
//! long as it runs. Callers that share the state put it behind a lock and
//! take the lock for one operation at a time.

use crate::attributes::Attributes;
use crate::state::{Queue, QueueView};
use crate::text::{decimal, decimal_string, parse_decimal, parse_decimal_spec};
use dashmap::DashMap;
use vstd::prelude::*;

verus! {

/// `dashmap::DashMap`, declared so that it can stand in signatures and
/// fields. Verus sees nothing inside a map.
#[verifier::external_type_specification]
#[verifier::external_body]
#[verifier::reject_recursive_types(K)]
#[verifier::reject_recursive_types(V)]
#[verifier::reject_recursive_types(S)]
pub struct ExDashMap<K, V, S>(DashMap<K, V, S>);

/// The queues that `map` holds, each under the URL that is its key.
pub uninterp spec fn held_queues(map: &DashMap<String, Queue>) -> Map<Seq<char>, QueueView>;

/// The registry without queues.
pub open spec fn no_queues() -> Map<Seq<char>, QueueView> {
    Map::empty()
}

/// Calls `DashMap::new`: the new map holds nothing.
#[verifier::external_body]
pub(crate) fn queue_map_new() -> (map: DashMap<String, Queue>)
    ensures
        held_queues(&map) == no_queues(),
{
    DashMap::new()
}

/// Calls `DashMap::contains_key`: whether the map holds a queue under `url`.
#[verifier::external_body]
pub(crate) fn queue_map_contains(map: &DashMap<String, Queue>, url: &str) -> (found: bool)
    ensures
        found == held_queues(map).contains_key(url@),
{
    map.contains_key(url)
}

/// Calls `DashMap::insert`: afterwards the map holds `queue` under `url` and
/// is otherwise unchanged; the queue held there before is returned.
#[verifier::external_body]
pub(crate) fn queue_map_insert(map: &mut DashMap<String, Queue>, url: String, queue: Queue) -> (
    previous: Option<Queue>
)
    ensures
        held_queues(final(map)) == held_queues(old(map)).insert(url@, queue@),
        match previous {
            Some(q) => held_queues(old(map)).contains_key(url@) && q@ == held_queues(
                old(map),
            )[url@],
            None => !held_queues(old(map)).contains_key(url@),
        },
{
    map.insert(url, queue)
}

/// Calls `DashMap::remove`: afterwards the map holds nothing under `url` and
/// is otherwise unchanged; the queue held there before is returned.
#[verifier::external_body]
pub(crate) fn queue_map_remove(map: &mut DashMap<String, Queue>, url: &str) -> (removed: Option<
    Queue,
>)
    ensures
        held_queues(final(map)) == held_queues(old(map)).remove(url@),
        match removed {
            Some(q) => held_queues(old(map)).contains_key(url@) && q@ == held_queues(
                old(map),
            )[url@],
            None => !held_queues(old(map)).contains_key(url@),
        },
{
    map.remove(url).map(|entry| entry.1)
}

/// Calls `DashMap::get` and copies the attributes of the queue found: those
/// of the queue held under `url`, if there is one.
#[verifier::external_body]
pub(crate) fn queue_map_attributes(map: &DashMap<String, Queue>, url: &str) -> (found: Option<
    Attributes,
>)
    ensures
        match found {
            Some(attributes) => held_queues(map).contains_key(url@) && attributes@ == held_queues(
                map,
            )[url@].attributes,
            None => !held_queues(map).contains_key(url@),
        },
{
    map.get(url).map(|queue| queue.attributes.clone())
}

/// Whether `listing` gives, for each queue of `queues`, its URL and its
/// name, and for none of them twice.
pub open spec fn is_listing_of(
    listing: Seq<(String, String)>,
    queues: Map<Seq<char>, QueueView>,
) -> bool {
    &&& forall|i: int, j: int|
        0 <= i < j < listing.len() ==> (#[trigger] listing[i]).0@ != (#[trigger] listing[j]).0@
    &&& forall|url: Seq<char>|
        queues.contains_key(url) <==> exists|i: int|
            0 <= i < listing.len() && (#[trigger] listing[i]).0@ == url
    &&& forall|i: int|
        0 <= i < listing.len() ==> (#[trigger] listing[i]).1@ == queues[listing[i].0@].name
}

/// Calls `DashMap::iter` and copies, for each queue that the map holds, its
/// URL and its name. Each URL of the map comes once; in which order is left
/// open.
#[verifier::external_body]
pub(crate) fn queue_map_names(map: &DashMap<String, Queue>) -> (listing: Vec<(String, String)>)
    ensures
        is_listing_of(listing@, held_queues(map)),
{
    map.iter().map(|entry| (entry.key().clone(), entry.value().name.clone())).collect()
}

/// The host of a service that is given none.
pub open spec fn default_host() -> Seq<char> {
    "localhost"@
}

/// The port of a service that is given none.
pub const DEFAULT_PORT: u16 = 9324;

/// The host that a service is set up with.
pub open spec fn configured_host(host: Option<String>) -> Seq<char> {
    match host {
        Some(h) => h@,
        None => default_host(),
    }
}

/// The port that a service is set up with: the number that `port` writes,
/// or the default where there is none or it is no port number.
pub open spec fn configured_port(port: Option<String>) -> u16 {
    match port {
        Some(p) => match parse_decimal_spec(p@, u16::MAX as nat) {
            Some(number) => number as u16,
            None => DEFAULT_PORT,
        },
        None => DEFAULT_PORT,
    }
}

/// The URL of the queue named `name` of the service at `host` and `port`.
pub open spec fn queue_url_of(host: Seq<char>, port: u16, name: Seq<char>) -> Seq<char> {
    "http://"@ + host + ":"@ + decimal(port as nat) + "/"@ + name
}

/// The state of the service: its queues and its address.
#[derive(Debug)]
pub struct AppState {
    pub queues: DashMap<String, Queue>,
    pub host: String,
    pub port: u16,
}

/// What the state of the service holds, as mathematical values.
pub struct AppStateView {
    pub queues: Map<Seq<char>, QueueView>,
    pub host: Seq<char>,
    pub port: u16,
}

impl View for AppState {
    type V = AppStateView;

    open spec fn view(&self) -> AppStateView {
        AppStateView { queues: held_queues(&self.queues), host: self.host@, port: self.port }
    }
}

impl AppState {
    /// A service without queues, at the host and port given; `port` is read
    /// as a decimal number.
    pub fn new(host: Option<String>, port: Option<String>) -> (state: AppState)
        ensures
            state@ == (AppStateView {
                queues: no_queues(),
                host: configured_host(host),
                port: configured_port(port),
            }),
    {
        let host = match host {
            Some(h) => h,
            None => String::from_str("localhost"),
        };
        let port = match port {
            Some(p) => match parse_decimal(p.as_str(), u16::MAX as u64) {
                Some(number) => number as u16,
                None => DEFAULT_PORT,
            },
            None => DEFAULT_PORT,
        };
        AppState { queues: queue_map_new(), host, port }
    }

    /// The URL under which the service holds the queue named `name`.
    pub fn queue_url(&self, name: &str) -> (url: String)
        ensures
            url@ == queue_url_of(self@.host, self@.port, name@),
    {
        let mut url = String::from_str("http://");
        url.append(self.host.as_str());
        url.append(":");
        let port = decimal_string(self.port as u64);
        url.append(port.as_str());
        url.append("/");
        url.append(name);
        url
    }
}

} // verus!
