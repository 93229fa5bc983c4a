use vstd::bytes::spec_u64_to_le_bytes;
use vstd::prelude::*;
use vstd::string::StringSliceAdditionalSpecFns;
use vstd::utf8::encode_utf8;

use crate::codec::{
    encode_iid,
    encode_iids,
    encode_oid,
    encode_terms,
    iids_bytes,
    terms_bytes,
    terms_framable,
};
use crate::keyer::{
    bucket_token,
    physical_key,
    route_token,
    xxh64_of,
    StoreKeyerBuilder,
    STORE_KEYER_HASH_SEED,
};
use crate::schema::{IndexMutation, MutationView};

verus! {

/// What opening the store of a collection reads, once.
pub struct StoreKVConfig {
    pub path: String,
    pub compress: bool,
    pub parallelism: u16,
    pub max_files: u32,
    pub max_compactions: u16,
    pub max_flushes: u16,
}

pub enum StoreKVCompaction {
    Level,
}

pub enum StoreKVCompression {
    Lz4,
    Uncompressed,
}

/// The engine options that a store is opened with.
pub struct StoreKVOptions {
    pub create_if_missing: bool,
    pub use_fsync: bool,
    pub compaction_style: StoreKVCompaction,
    pub compression: StoreKVCompression,
    pub parallelism: i32,
    pub max_open_files: i32,
    pub max_background_compactions: i32,
    pub max_background_flushes: i32,
}

pub struct StoreKVBuilder;

impl StoreKVBuilder {
    /// Leveled compaction, no fsync (the engine's log keeps durability), fast
    /// block compression when asked for, and the configured limits.
    pub fn configure(conf: &StoreKVConfig) -> (r: StoreKVOptions)
        ensures
            r.create_if_missing,
            !r.use_fsync,
            r.compaction_style == StoreKVCompaction::Level,
            r.compression == (if conf.compress {
                StoreKVCompression::Lz4
            } else {
                StoreKVCompression::Uncompressed
            }),
            r.parallelism == conf.parallelism as i32,
            r.max_open_files == conf.max_files as i32,
            r.max_background_compactions == conf.max_compactions as i32,
            r.max_background_flushes == conf.max_flushes as i32,
    {
        StoreKVOptions {
            create_if_missing: true,
            use_fsync: false,
            compaction_style: StoreKVCompaction::Level,
            compression: if conf.compress {
                StoreKVCompression::Lz4
            } else {
                StoreKVCompression::Uncompressed
            },
            parallelism: conf.parallelism as i32,
            max_open_files: conf.max_files as i32,
            max_background_compactions: conf.max_compactions as i32,
            max_background_flushes: conf.max_flushes as i32,
        }
    }
}

/// What the holder of a pooled store handle does next.
pub enum StoreKVPoolAction {
    Open,
    Reuse,
    Close,
    Keep,
}

/// The shared handle of one collection: opened on first use, counted across
/// users, closed once idle for long enough and opened again on the next use.
pub struct StoreKVPool {
    pub open: bool,
    pub users: u64,
    pub idle_since: u64,
}

impl StoreKVPool {
    pub open spec fn wf(&self) -> bool {
        !self.open ==> self.users == 0
    }

    pub fn new() -> (r: StoreKVPool)
        ensures
            r.wf(),
            !r.open,
            r.users == 0,
    {
        StoreKVPool { open: false, users: 0, idle_since: 0 }
    }

    /// One more user: the handle is opened if it is closed, shared otherwise.
    pub fn acquire(&mut self) -> (r: StoreKVPoolAction)
        requires
            old(self).wf(),
            old(self).users < u64::MAX,
        ensures
            final(self).wf(),
            final(self).open,
            final(self).users == old(self).users + 1,
            final(self).idle_since == old(self).idle_since,
            r == (if old(self).open {
                StoreKVPoolAction::Reuse
            } else {
                StoreKVPoolAction::Open
            }),
    {
        let action = if self.open {
            StoreKVPoolAction::Reuse
        } else {
            StoreKVPoolAction::Open
        };
        self.open = true;
        self.users = self.users + 1;
        action
    }

    /// One user less, at time `now`; the idle clock starts when the last one leaves.
    pub fn release(&mut self, now: u64)
        requires
            old(self).wf(),
            old(self).users > 0,
        ensures
            final(self).wf(),
            final(self).open == old(self).open,
            final(self).users == old(self).users - 1,
            final(self).idle_since == (if final(self).users == 0 {
                now
            } else {
                old(self).idle_since
            }),
    {
        self.users = self.users - 1;
        if self.users == 0 {
            self.idle_since = now;
        }
    }

    /// At time `now`: close an open handle that nobody uses and that has been
    /// idle for at least `idle_timeout`.
    pub fn tick(&mut self, now: u64, idle_timeout: u64) -> (r: StoreKVPoolAction)
        requires
            old(self).wf(),
        ensures
            final(self).wf(),
            final(self).users == old(self).users,
            final(self).idle_since == old(self).idle_since,
            ({
                let closing = old(self).open && old(self).users == 0 && now >= old(
                    self,
                ).idle_since && now - old(self).idle_since >= idle_timeout;
                &&& r == (if closing {
                    StoreKVPoolAction::Close
                } else {
                    StoreKVPoolAction::Keep
                })
                &&& final(self).open == (old(self).open && !closing)
            }),
    {
        if self.open && self.users == 0 && now >= self.idle_since && now - self.idle_since
            >= idle_timeout {
            self.open = false;
            StoreKVPoolAction::Close
        } else {
            StoreKVPoolAction::Keep
        }
    }
}

/// One physical write of a batch, as the model sees it.
pub enum WriteView {
    Put(Seq<char>, Seq<u8>),
    Delete(Seq<char>),
}

/// One physical write of a batch: a key and the bytes to store, or a key to remove.
pub enum StoreKVWrite {
    Put(String, Vec<u8>),
    Delete(String),
}

impl View for StoreKVWrite {
    type V = WriteView;

    open spec fn view(&self) -> WriteView {
        match self {
            StoreKVWrite::Put(k, v) => WriteView::Put(k@, v@),
            StoreKVWrite::Delete(k) => WriteView::Delete(k@),
        }
    }
}

/// The route value of a text route.
pub open spec fn text_route(text: Seq<char>) -> u64 {
    xxh64_of(STORE_KEYER_HASH_SEED as u64, encode_utf8(text))
}

/// The physical key that a mutation writes, in the bucket with bytes `bucket`.
pub open spec fn mutation_key(bucket: Seq<u8>, m: MutationView) -> Seq<char> {
    let (index, value) = match m {
        MutationView::SetTermToIIDs(t, _) => (0u8, text_route(t)),
        MutationView::DeleteTermToIIDs(t) => (0u8, text_route(t)),
        MutationView::SetOIDToIID(o, _) => (1u8, text_route(o)),
        MutationView::DeleteOIDToIID(o) => (1u8, text_route(o)),
        MutationView::SetIIDToOID(i, _) => (2u8, i),
        MutationView::DeleteIIDToOID(i) => (2u8, i),
        MutationView::SetIIDToTerms(i, _) => (3u8, i),
        MutationView::DeleteIIDToTerms(i) => (3u8, i),
    };
    physical_key(index, bucket_token(bucket), route_token(value))
}

/// The physical write of a mutation in the bucket with bytes `bucket`.
pub open spec fn mutation_write(bucket: Seq<u8>, m: MutationView) -> WriteView {
    let key = mutation_key(bucket, m);
    match m {
        MutationView::SetTermToIIDs(_, p) => WriteView::Put(key, iids_bytes(p)),
        MutationView::SetOIDToIID(_, i) => WriteView::Put(key, spec_u64_to_le_bytes(i)),
        MutationView::SetIIDToOID(_, o) => WriteView::Put(key, encode_utf8(o)),
        MutationView::SetIIDToTerms(_, ts) => WriteView::Put(key, terms_bytes(ts)),
        _ => WriteView::Delete(key),
    }
}

/// Every term list that a mutation stores fits its framing.
pub open spec fn mutation_storable(m: IndexMutation) -> bool {
    match m {
        IndexMutation::SetIIDToTerms(_, ts) => terms_framable(ts@),
        _ => true,
    }
}

pub struct StoreKVActionBuilder;

/// The typed operations on the index tables of one bucket.
pub struct StoreKVAction<'a> {
    pub bucket: &'a str,
}

impl StoreKVActionBuilder {
    pub fn new<'a>(bucket: &'a str) -> (r: StoreKVAction<'a>)
        ensures
            r.bucket@ == bucket@,
    {
        StoreKVAction { bucket }
    }
}

impl<'a> StoreKVAction<'a> {
    /// The physical write of one mutation in this bucket.
    pub fn write_of(&self, m: &IndexMutation) -> (r: StoreKVWrite)
        requires
            mutation_storable(*m),
        ensures
            r@ == mutation_write(self.bucket.spec_bytes(), m@),
    {
        match m {
            IndexMutation::SetTermToIIDs(term, iids) => {
                let key = StoreKeyerBuilder::term_to_iids(self.bucket, term.as_str()).to_string();
                StoreKVWrite::Put(key, encode_iids(iids))
            },
            IndexMutation::DeleteTermToIIDs(term) => {
                StoreKVWrite::Delete(
                    StoreKeyerBuilder::term_to_iids(self.bucket, term.as_str()).to_string(),
                )
            },
            IndexMutation::SetOIDToIID(oid, iid) => {
                let key = StoreKeyerBuilder::oid_to_iid(self.bucket, oid.clone()).to_string();
                StoreKVWrite::Put(key, encode_iid(*iid))
            },
            IndexMutation::DeleteOIDToIID(oid) => {
                StoreKVWrite::Delete(
                    StoreKeyerBuilder::oid_to_iid(self.bucket, oid.clone()).to_string(),
                )
            },
            IndexMutation::SetIIDToOID(iid, oid) => {
                let key = StoreKeyerBuilder::iid_to_oid(self.bucket, *iid).to_string();
                StoreKVWrite::Put(key, encode_oid(oid.as_str()))
            },
            IndexMutation::DeleteIIDToOID(iid) => {
                StoreKVWrite::Delete(StoreKeyerBuilder::iid_to_oid(self.bucket, *iid).to_string())
            },
            IndexMutation::SetIIDToTerms(iid, terms) => {
                let key = StoreKeyerBuilder::iid_to_terms(self.bucket, *iid).to_string();
                StoreKVWrite::Put(key, encode_terms(terms))
            },
            IndexMutation::DeleteIIDToTerms(iid) => {
                StoreKVWrite::Delete(
                    StoreKeyerBuilder::iid_to_terms(self.bucket, *iid).to_string(),
                )
            },
        }
    }

    /// The physical writes of a list of mutations, in order: one atomic batch.
    pub fn batch(&self, mutations: &Vec<IndexMutation>) -> (r: Vec<StoreKVWrite>)
        requires
            forall|i: int| 0 <= i < mutations.len() ==> mutation_storable(#[trigger] mutations@[i]),
        ensures
            r.len() == mutations.len(),
            forall|i: int|
                0 <= i < r.len() ==> #[trigger] r@[i]@ == mutation_write(
                    self.bucket.spec_bytes(),
                    mutations@[i]@,
                ),
    {
        let mut writes: Vec<StoreKVWrite> = Vec::new();
        let mut i: usize = 0;
        while i < mutations.len()
            invariant
                i <= mutations.len(),
                forall|j: int|
                    0 <= j < mutations.len() ==> mutation_storable(#[trigger] mutations@[j]),
                writes.len() == i,
                forall|j: int|
                    0 <= j < i ==> #[trigger] writes@[j]@ == mutation_write(
                        self.bucket.spec_bytes(),
                        mutations@[j]@,
                    ),
            decreases mutations.len() - i,
        {
            writes.push(self.write_of(&mutations[i]));
            i += 1;
        }
        writes
    }
}

} // verus!
