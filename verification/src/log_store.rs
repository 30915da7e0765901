//! Entries of the log store on Kafka and the namespaces that they belong to.

use vstd::prelude::*;

verus! {

/// Id of an entry of the log.
pub type EntryId = u64;

/// The namespace of the entries of one region: the region and the topic
/// that its entries go to.
#[derive(Debug, PartialEq, Eq, Hash)]
pub struct NamespaceImpl {
    region_id: u64,
    topic: String,
}

/// What a [`NamespaceImpl`] stands for.
pub struct NamespaceView {
    pub region_id: u64,
    pub topic: Seq<char>,
}

impl View for NamespaceImpl {
    type V = NamespaceView;

    closed spec fn view(&self) -> NamespaceView {
        NamespaceView { region_id: self.region_id, topic: self.topic@ }
    }
}

impl Clone for NamespaceImpl {
    fn clone(&self) -> (r: Self)
        ensures
            r@ == self@,
    {
        NamespaceImpl { region_id: self.region_id, topic: self.topic.clone() }
    }
}

impl NamespaceImpl {
    pub fn new(region_id: u64, topic: &str) -> (r: Self)
        ensures
            r@ == (NamespaceView { region_id, topic: topic@ }),
    {
        NamespaceImpl { region_id, topic: topic.to_owned() }
    }

    /// The id of the namespace: the id of its region.
    pub fn id(&self) -> (r: u64)
        ensures
            r == self@.region_id,
    {
        self.region_id
    }

    /// The topic that the entries of the namespace go to.
    pub fn topic(&self) -> (r: &str)
        ensures
            r@ == self@.topic,
    {
        self.topic.as_str()
    }
}

/// An entry of the log.
#[derive(Debug, PartialEq)]
pub struct EntryImpl {
    /// The payload.
    data: Vec<u8>,
    /// The logical id of the entry.
    id: EntryId,
    /// The namespace, which keeps the entries of different regions apart.
    ns: NamespaceImpl,
}

/// What an [`EntryImpl`] stands for.
pub struct EntryView {
    pub data: Seq<u8>,
    pub id: EntryId,
    pub ns: NamespaceView,
}

impl View for EntryImpl {
    type V = EntryView;

    closed spec fn view(&self) -> EntryView {
        EntryView { data: self.data@, id: self.id, ns: self.ns@ }
    }
}

impl EntryImpl {
    pub fn new(data: Vec<u8>, id: EntryId, ns: NamespaceImpl) -> (r: Self)
        ensures
            r@ == (EntryView { data: data@, id, ns: ns@ }),
    {
        EntryImpl { data, id, ns }
    }

    /// The payload of the entry.
    pub fn data(&self) -> (r: &[u8])
        ensures
            r@ == self@.data,
    {
        self.data.as_slice()
    }

    /// The id of the entry.
    pub fn id(&self) -> (r: EntryId)
        ensures
            r == self@.id,
    {
        self.id
    }

    /// The namespace of the entry.
    pub fn namespace(&self) -> (r: NamespaceImpl)
        ensures
            r@ == self@.ns,
    {
        self.ns.clone()
    }
}

} // verus!
