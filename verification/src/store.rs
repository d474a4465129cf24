//! The content-addressed record/link store, modeled.
//!
//! The index consumes its store through a narrow interface: write an
//! immutable record and get a hash back, read a record by hash, create a
//! tagged link from a path node to a record, enumerate the links at a node,
//! delete one link. This module gives that interface an explicit,
//! deterministic model so that everything built on top of it can be
//! reasoned about exactly:
//!
//! - records live in an append-only log and are addressed by a fresh hash
//!   per write — like the real store, writing twice yields two records;
//! - links live in an append-only log with a tombstone for deletion, so a
//!   link's id stays stable for as long as the store lives;
//! - enumeration returns the live links of a node in creation order, one
//!   fixed refinement of the unordered enumeration a replicated store
//!   gives, which keeps tie-breaking by discovery order stable.
//!
//! The model does not stop a caller from writing a record that is not a
//! product group or a link whose target no record carries; the query side
//! is verified to tolerate both, as it must tolerate foreign records and
//! stale links in the real store.

use crate::paths::NodeHash;
use crate::product::ProductGroup;
use crate::product::ProductGroupView;
use vstd::prelude::*;

verus! {

/// A record payload: a product group, or the bytes of some record this
/// index does not interpret.
#[derive(Debug)]
pub enum RecordPayload {
    Group(ProductGroup),
    Opaque(Vec<u8>),
}

/// The mathematical value of a [`RecordPayload`].
pub enum RecordPayloadView {
    Group(ProductGroupView),
    Opaque(Seq<u8>),
}

impl View for RecordPayload {
    type V = RecordPayloadView;

    open spec fn view(&self) -> RecordPayloadView {
        match self {
            RecordPayload::Group(g) => RecordPayloadView::Group(g@),
            RecordPayload::Opaque(b) => RecordPayloadView::Opaque(b@),
        }
    }
}

impl DeepView for RecordPayload {
    type V = RecordPayloadView;

    open spec fn deep_view(&self) -> RecordPayloadView {
        self.view()
    }
}

impl Clone for RecordPayload {
    fn clone(&self) -> (r: Self)
        ensures
            r@ == self@,
    {
        match self {
            RecordPayload::Group(g) => RecordPayload::Group(g.clone()),
            RecordPayload::Opaque(b) => RecordPayload::Opaque(clone_bytes(b)),
        }
    }
}

/// Clones a byte vector.
fn clone_bytes(bytes: &Vec<u8>) -> (r: Vec<u8>)
    ensures
        r@ == bytes@,
{
    let mut r: Vec<u8> = Vec::new();
    let mut i: usize = 0;
    while i < bytes.len()
        invariant
            i <= bytes.len(),
            r@ == bytes@.take(i as int),
        decreases bytes.len() - i,
    {
        r.push(bytes[i]);
        proof {
            assert(r@ =~= bytes@.take(i as int + 1));
        }
        i = i + 1;
    }
    proof {
        assert(bytes@.take(bytes@.len() as int) =~= bytes@);
    }
    r
}

/// One link as the store keeps it: base node, target record hash, tag
/// bytes, and whether the link has been deleted.
struct LinkEntry {
    base: NodeHash,
    target: u64,
    tag: Vec<u8>,
    deleted: bool,
}

/// The mathematical value of one kept link.
pub struct LinkEntryView {
    pub base: Seq<char>,
    pub target: u64,
    pub tag: Seq<u8>,
    pub deleted: bool,
}

impl View for LinkEntry {
    type V = LinkEntryView;

    closed spec fn view(&self) -> LinkEntryView {
        LinkEntryView { base: self.base@, target: self.target, tag: self.tag@, deleted: self.deleted }
    }
}

/// What link enumeration hands back for one live link: the link's stable
/// id, its target record hash, and its tag bytes.
#[derive(Debug)]
pub struct LinkInfo {
    pub link_id: u64,
    pub target: u64,
    pub tag: Vec<u8>,
}

/// The mathematical value of a [`LinkInfo`].
pub struct LinkInfoView {
    pub link_id: u64,
    pub target: u64,
    pub tag: Seq<u8>,
}

impl View for LinkInfo {
    type V = LinkInfoView;

    open spec fn view(&self) -> LinkInfoView {
        LinkInfoView { link_id: self.link_id, target: self.target, tag: self.tag@ }
    }
}

impl DeepView for LinkInfo {
    type V = LinkInfoView;

    open spec fn deep_view(&self) -> LinkInfoView {
        self.view()
    }
}

impl Clone for LinkInfo {
    fn clone(&self) -> (r: Self)
        ensures
            r@ == self@,
    {
        LinkInfo { link_id: self.link_id, target: self.target, tag: clone_bytes(&self.tag) }
    }
}

/// One fetched record: its hash together with its payload.
#[derive(Debug)]
pub struct FetchedRecord {
    pub hash: u64,
    pub payload: RecordPayload,
}

/// The mathematical value of a [`FetchedRecord`].
pub struct FetchedRecordView {
    pub hash: u64,
    pub payload: RecordPayloadView,
}

impl View for FetchedRecord {
    type V = FetchedRecordView;

    open spec fn view(&self) -> FetchedRecordView {
        FetchedRecordView { hash: self.hash, payload: self.payload@ }
    }
}

impl DeepView for FetchedRecord {
    type V = FetchedRecordView;

    open spec fn deep_view(&self) -> FetchedRecordView {
        self.view()
    }
}

/// The mathematical value of the whole store: the record log and the link
/// log.
pub struct StoreView {
    pub records: Seq<RecordPayloadView>,
    pub links: Seq<LinkEntryView>,
}

/// The live links at one node, in creation order, as enumeration returns
/// them. A link's id is its position in the link log.
pub open spec fn spec_links_at(links: Seq<LinkEntryView>, node: Seq<char>) -> Seq<LinkInfoView>
    decreases links.len(),
{
    if links.len() == 0 {
        Seq::empty()
    } else {
        let prefix = spec_links_at(links.drop_last(), node);
        let l = links.last();
        if !l.deleted && l.base == node {
            prefix.push(
                LinkInfoView { link_id: (links.len() - 1) as u64, target: l.target, tag: l.tag },
            )
        } else {
            prefix
        }
    }
}

/// The record a hash reads as, if the hash is known.
pub open spec fn spec_record_at(s: StoreView, hash: u64) -> Option<RecordPayloadView> {
    if hash < s.records.len() {
        Some(s.records[hash as int])
    } else {
        None
    }
}

/// The content-addressed record/link store.
pub struct CatalogStore {
    records: Vec<RecordPayload>,
    links: Vec<LinkEntry>,
}

impl View for CatalogStore {
    type V = StoreView;

    closed spec fn view(&self) -> StoreView {
        StoreView {
            records: self.records.deep_view(),
            links: Seq::new(self.links@.len(), |i: int| self.links@[i]@),
        }
    }
}

impl CatalogStore {
    /// The logs a store's view describes fit the model's hash types: both
    /// are backed by in-memory vectors.
    pub proof fn lemma_view_bounds(&self)
        ensures
            self@.links.len() <= u64::MAX,
            self@.records.len() <= u64::MAX,
    {
        broadcast use vstd::std_specs::vec::axiom_spec_len;

        assert(self@.links.len() == self.links@.len());
        assert(self@.records.len() == self.records@.len());
        assert(vstd::std_specs::vec::spec_vec_len(&self.links) == self.links@.len());
        assert(vstd::std_specs::vec::spec_vec_len(&self.records) == self.records@.len());
        assert(self.links@.len() <= usize::MAX);
        assert(self.records@.len() <= usize::MAX);
    }

    /// An empty store.
    pub fn new() -> (s: Self)
        ensures
            s@.records.len() == 0,
            s@.links.len() == 0,
    {
        CatalogStore { records: Vec::new(), links: Vec::new() }
    }

    /// Writes an immutable record and returns its fresh hash. Every write
    /// yields a new record; nothing is ever overwritten.
    pub fn create_record(&mut self, payload: RecordPayload) -> (hash: u64)
        ensures
            final(self)@.records == old(self)@.records.push(payload@),
            final(self)@.links == old(self)@.links,
            hash as int == old(self)@.records.len(),
    {
        let hash = self.records.len() as u64;
        self.records.push(payload);
        proof {
            assert(self@.records =~= old(self)@.records.push(payload@));
            assert(self@.links =~= old(self)@.links);
        }
        hash
    }

    /// Reads the record a hash addresses, or nothing when the hash is
    /// unknown.
    pub fn get_record(&self, hash: u64) -> (r: Option<&RecordPayload>)
        ensures
            match r {
                Some(p) => spec_record_at(self@, hash) == Some(p@),
                None => spec_record_at(self@, hash) is None,
            },
    {
        if hash < self.records.len() as u64 {
            Some(&self.records[hash as usize])
        } else {
            None
        }
    }

    /// Creates a link from a path node to a target record hash, carrying
    /// the given tag, and returns the new link's stable id.
    pub fn create_link(&mut self, base: &NodeHash, target: u64, tag: Vec<u8>) -> (link_id: u64)
        ensures
            final(self)@.records == old(self)@.records,
            final(self)@.links == old(self)@.links.push(
                LinkEntryView { base: base@, target, tag: tag@, deleted: false },
            ),
            link_id as int == old(self)@.links.len(),
    {
        let link_id = self.links.len() as u64;
        self.links.push(LinkEntry { base: base.clone(), target, tag, deleted: false });
        proof {
            assert(self@.links =~= old(self)@.links.push(
                LinkEntryView { base: base@, target, tag: tag@, deleted: false },
            ));
            assert(self@.records =~= old(self)@.records);
        }
        link_id
    }

    /// Deletes the link with the given id. Deleting an unknown or already
    /// deleted link changes nothing.
    pub fn delete_link(&mut self, link_id: u64)
        ensures
            final(self)@.records == old(self)@.records,
            (link_id as int) < old(self)@.links.len() ==> final(self)@.links == old(self)@.links.update(
                link_id as int,
                LinkEntryView { deleted: true, ..old(self)@.links[link_id as int] },
            ),
            (link_id as int) >= old(self)@.links.len() ==> final(self)@.links == old(self)@.links,
    {
        if link_id < self.links.len() as u64 {
            let i = link_id as usize;
            self.links[i].deleted = true;
            proof {
                assert(self@.links =~= old(self)@.links.update(
                    link_id as int,
                    LinkEntryView { deleted: true, ..old(self)@.links[link_id as int] },
                ));
                assert(self@.records =~= old(self)@.records);
            }
        } else {
            proof {
                assert(self@.links =~= old(self)@.links);
                assert(self@.records =~= old(self)@.records);
            }
        }
    }

    /// Enumerates the live links at a node, in creation order.
    pub fn get_links(&self, node: &NodeHash) -> (out: Vec<LinkInfo>)
        ensures
            out.deep_view() == spec_links_at(self@.links, node@),
    {
        let ghost all: Seq<LinkEntryView> = self@.links;
        let mut out: Vec<LinkInfo> = Vec::new();
        let mut i: usize = 0;
        while i < self.links.len()
            invariant
                i <= self.links.len(),
                all == self@.links,
                all.len() == self.links@.len(),
                forall|j: int| 0 <= j < all.len() ==> all[j] == #[trigger] self.links@[j]@,
                out.deep_view() == spec_links_at(all.take(i as int), node@),
            decreases self.links.len() - i,
        {
            let entry = &self.links[i];
            if !entry.deleted && entry.base == *node {
                out.push(LinkInfo { link_id: i as u64, target: entry.target, tag: clone_bytes(&entry.tag) });
            }
            proof {
                assert(all.take(i as int + 1).drop_last() =~= all.take(i as int));
                assert(all.take(i as int + 1).last() == all[i as int]);
                assert(out.deep_view() =~= spec_links_at(all.take(i as int + 1), node@));
            }
            i = i + 1;
        }
        proof {
            assert(all.take(self.links@.len() as int) =~= all);
        }
        out
    }

    /// Fetches many records in one pass, keeping the order of the hashes
    /// and skipping hashes the store does not know. One fetch serves any
    /// number of references to the same record.
    pub fn concurrent_get_records(&self, hashes: &Vec<u64>) -> (out: Vec<FetchedRecord>)
        ensures
            out.deep_view() == spec_fetch_records(self@, hashes@),
    {
        let ghost hs: Seq<u64> = hashes@;
        let mut out: Vec<FetchedRecord> = Vec::new();
        let mut i: usize = 0;
        while i < hashes.len()
            invariant
                i <= hashes.len(),
                hs == hashes@,
                out.deep_view() == spec_fetch_records(self@, hs.take(i as int)),
            decreases hashes.len() - i,
        {
            let h = hashes[i];
            match self.get_record(h) {
                Some(p) => {
                    out.push(FetchedRecord { hash: h, payload: p.clone() });
                },
                None => {},
            }
            proof {
                assert(hs.take(i as int + 1).drop_last() =~= hs.take(i as int));
                assert(hs.take(i as int + 1).last() == hs[i as int]);
                assert(out.deep_view() =~= spec_fetch_records(self@, hs.take(i as int + 1)));
            }
            i = i + 1;
        }
        proof {
            assert(hs.take(hashes@.len() as int) =~= hs);
        }
        out
    }
}

/// Law: enumeration at a node returns exactly the live links whose base is
/// that node — each result points back into the link log, every live
/// matching log entry is returned, and the results carry strictly
/// increasing link ids (creation order).
pub proof fn lemma_links_at_characterization(links: Seq<LinkEntryView>, node: Seq<char>)
    requires
        links.len() <= u64::MAX,
    ensures
        ({
            let l = spec_links_at(links, node);
            &&& forall|j: int|
                0 <= j < l.len() ==> {
                    let i = #[trigger] l[j].link_id as int;
                    &&& 0 <= i < links.len()
                    &&& links[i].base == node
                    &&& !links[i].deleted
                    &&& links[i].target == l[j].target
                    &&& links[i].tag == l[j].tag
                }
            &&& forall|i: int|
                0 <= i < links.len() && (#[trigger] links[i]).base == node && !links[i].deleted
                    ==> exists|j: int| 0 <= j < l.len() && (#[trigger] l[j].link_id) as int == i
            &&& forall|j1: int, j2: int|
                0 <= j1 < j2 < l.len() ==> (#[trigger] l[j1].link_id) < (#[trigger] l[j2].link_id)
        }),
    decreases links.len(),
{
    let l = spec_links_at(links, node);
    if links.len() == 0 {
    } else {
        lemma_links_at_characterization(links.drop_last(), node);
        let dl = links.drop_last();
        let prefix = spec_links_at(dl, node);
        assert(forall|i: int| 0 <= i < dl.len() ==> dl[i] == links[i]);
        let last = links.last();
        if !last.deleted && last.base == node {
            assert(l == prefix.push(
                LinkInfoView {
                    link_id: (links.len() - 1) as u64,
                    target: last.target,
                    tag: last.tag,
                },
            ));
            assert forall|i: int|
                0 <= i < links.len() && (#[trigger] links[i]).base == node
                    && !links[i].deleted implies exists|j: int|
                0 <= j < l.len() && (#[trigger] l[j].link_id) as int == i by {
                if i < links.len() - 1 {
                    let j = choose|j: int|
                        0 <= j < prefix.len() && (#[trigger] prefix[j].link_id) as int == i;
                    assert(l[j].link_id as int == i);
                } else {
                    assert(l[l.len() - 1].link_id as int == i);
                }
            }
        } else {
            assert(l == prefix);
            assert forall|i: int|
                0 <= i < links.len() && (#[trigger] links[i]).base == node
                    && !links[i].deleted implies exists|j: int|
                0 <= j < l.len() && (#[trigger] l[j].link_id) as int == i by {
                assert(i < links.len() - 1);
                let j = choose|j: int|
                    0 <= j < prefix.len() && (#[trigger] prefix[j].link_id) as int == i;
                assert(l[j].link_id as int == i);
            }
        }
    }
}

/// The records a hash list fetches: hash order kept, unknown hashes
/// skipped.
pub open spec fn spec_fetch_records(s: StoreView, hashes: Seq<u64>) -> Seq<FetchedRecordView>
    decreases hashes.len(),
{
    if hashes.len() == 0 {
        Seq::empty()
    } else {
        let prefix = spec_fetch_records(s, hashes.drop_last());
        let h = hashes.last();
        match spec_record_at(s, h) {
            Some(p) => prefix.push(FetchedRecordView { hash: h, payload: p }),
            None => prefix,
        }
    }
}

/// Law: every fetched record carries the payload the store keeps under its
/// hash.
pub proof fn lemma_fetch_records_characterization(s: StoreView, hashes: Seq<u64>)
    ensures
        forall|j: int|
            0 <= j < spec_fetch_records(s, hashes).len() ==> {
                let e = #[trigger] spec_fetch_records(s, hashes)[j];
                spec_record_at(s, e.hash) == Some(e.payload)
            },
    decreases hashes.len(),
{
    if hashes.len() == 0 {
    } else {
        lemma_fetch_records_characterization(s, hashes.drop_last());
    }
}

} // verus!
