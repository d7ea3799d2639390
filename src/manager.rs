use vstd::prelude::*;

use crate::backend::BlobBackend;
use crate::blob::{import_id, needs_meta_fixup, BlobContext};
use crate::chunk::BlobInfo;
use crate::chunk_dict::ChunkDict;
use crate::context::BuildContext;
use crate::error::BuildError;
use crate::types::{ChunkSource, DigestAlgorithm, RafsVersion, RAFS_DEFAULT_CHUNK_SIZE};

verus! {

/// Largest number of blobs in an image (8-bit blob indices).
pub const MAX_BLOBS_PER_IMAGE: usize = 256;

/// The ids of a sequence of blobs.
pub open spec fn blob_ids(blobs: Seq<BlobContext>) -> Seq<Seq<char>> {
    blobs.map_values(|b: BlobContext| b.blob_id@)
}

/// Index of the first occurrence of `id` in `ids`.
pub open spec fn id_index(ids: Seq<Seq<char>>, id: Seq<char>) -> Option<nat>
    decreases ids.len(),
{
    if ids.len() == 0 {
        None
    } else {
        match id_index(ids.drop_last(), id) {
            Some(i) => Some(i),
            None => if ids.last() == id {
                Some((ids.len() - 1) as nat)
            } else {
                None
            },
        }
    }
}

/// Ids appear at most once.
pub open spec fn ids_distinct(ids: Seq<Seq<char>>) -> bool {
    forall|i: int, j: int| 0 <= i < j < ids.len() ==> ids[i] != ids[j]
}

/// The blob ids after importing dictionary blobs `dict`, one by one, into a
/// table with ids `ids`: a blob whose id is present already is reused, any
/// other is appended.
pub open spec fn ids_after_dict(ids: Seq<Seq<char>>, dict: Seq<BlobInfo>) -> Seq<Seq<char>>
    decreases dict.len(),
{
    if dict.len() == 0 {
        ids
    } else {
        let prev = ids_after_dict(ids, dict.drop_last());
        if id_index(prev, dict.last().blob_id@) is Some {
            prev
        } else {
            prev.push(import_id(dict.last(), ChunkSource::Dict))
        }
    }
}

/// The dictionary's index map after importing `dict` into a table with ids
/// `ids`: each dictionary blob's own index maps to the index of the blob
/// reused or appended for it.
pub open spec fn real_idx_after_dict(
    m: Map<u32, u32>,
    ids: Seq<Seq<char>>,
    dict: Seq<BlobInfo>,
) -> Map<u32, u32>
    decreases dict.len(),
{
    if dict.len() == 0 {
        m
    } else {
        let prev_ids = ids_after_dict(ids, dict.drop_last());
        let prev = real_idx_after_dict(m, ids, dict.drop_last());
        let b = dict.last();
        let idx = match id_index(prev_ids, b.blob_id@) {
            Some(i) => i,
            None => prev_ids.len(),
        };
        prev.insert(b.blob_index, idx as u32)
    }
}

/// `c` is the import of one of the dictionary blobs `dict`.
pub open spec fn is_import_from_dict(c: BlobContext, dict: Seq<BlobInfo>) -> bool {
    exists|j: int| 0 <= j < dict.len() && c.is_some_import_of(dict[j], ChunkSource::Dict)
}

/// All blobs of one build: an ordered blob table under construction, the
/// blob the current layer writes to, and the chunk dictionary in use.
pub struct BlobManager {
    blobs: Vec<BlobContext>,
    current_blob_index: Option<u32>,
    /// Chunk dictionary used for deduplication across images.
    global_chunk_dict: ChunkDict,
    /// Digest algorithm of the per-build chunk dictionary.
    layered_chunk_dict_digester: DigestAlgorithm,
}

impl BlobManager {
    /// The blobs in blob-table order.
    pub closed spec fn blobs(&self) -> Seq<BlobContext> {
        self.blobs@
    }

    /// Index of the blob the current layer writes to.
    pub closed spec fn current(&self) -> Option<u32> {
        self.current_blob_index
    }

    /// The chunk dictionary in use.
    pub closed spec fn dict(&self) -> ChunkDict {
        self.global_chunk_dict
    }

    /// Digest algorithm of the per-build chunk dictionary.
    pub closed spec fn digester(&self) -> DigestAlgorithm {
        self.layered_chunk_dict_digester
    }

    pub open spec fn ids(&self) -> Seq<Seq<char>> {
        blob_ids(self.blobs())
    }

    /// At most 256 blobs, and the current index, if any, names one of them.
    pub open spec fn wf(&self) -> bool {
        &&& self.blobs().len() <= MAX_BLOBS_PER_IMAGE
        &&& (self.current() matches Some(i) ==> i < self.blobs().len())
    }

    /// An empty manager with no current blob and an empty dictionary.
    pub fn new(digester: DigestAlgorithm) -> (r: Self)
        ensures
            r.wf(),
            r.blobs() == Seq::<BlobContext>::empty(),
            r.current() is None,
            r.dict().blobs() == Seq::<BlobInfo>::empty(),
            r.dict().real_idx() == Map::<u32, u32>::empty(),
            r.digester() == digester,
    {
        BlobManager {
            blobs: Vec::new(),
            current_blob_index: None,
            global_chunk_dict: ChunkDict::new(Vec::new()),
            layered_chunk_dict_digester: digester,
        }
    }

    /// Allocates the index the next added blob gets; blob indices are 8-bit.
    /// Pair each call with `add`.
    pub fn alloc_index(&self) -> (r: Result<u32, BuildError>)
        ensures
            self.blobs().len() < MAX_BLOBS_PER_IMAGE ==> r == Ok::<u32, BuildError>(
                self.blobs().len() as u32,
            ),
            self.blobs().len() >= MAX_BLOBS_PER_IMAGE ==> r == Err::<u32, BuildError>(
                BuildError::Overflow,
            ),
    {
        if self.blobs.len() < MAX_BLOBS_PER_IMAGE {
            Ok(self.blobs.len() as u32)
        } else {
            Err(BuildError::Overflow)
        }
    }

    /// Appends a blob. Pair each call with `alloc_index`.
    pub fn add(&mut self, blob_ctx: BlobContext)
        requires
            old(self).blobs().len() < MAX_BLOBS_PER_IMAGE,
        ensures
            final(self).blobs() == old(self).blobs().push(blob_ctx),
            final(self).current() == old(self).current(),
            final(self).dict() == old(self).dict(),
            final(self).digester() == old(self).digester(),
            old(self).wf() ==> final(self).wf(),
    {
        self.blobs.push(blob_ctx);
    }

    pub fn len(&self) -> (r: usize)
        ensures
            r == self.blobs().len(),
    {
        self.blobs.len()
    }

    /// All blobs, including those without content.
    pub fn get_blobs(&self) -> (r: Vec<&BlobContext>)
        ensures
            r@.len() == self.blobs().len(),
            forall|i: int| 0 <= i < r@.len() ==> *r@[i] == self.blobs()[i],
    {
        let mut r: Vec<&BlobContext> = Vec::new();
        let mut i: usize = 0;
        while i < self.blobs.len()
            invariant
                i <= self.blobs@.len(),
                r@.len() == i,
                forall|k: int| 0 <= k < i ==> *r@[k] == self.blobs@[k],
            decreases self.blobs.len() - i,
        {
            r.push(&self.blobs[i]);
            i = i + 1;
        }
        r
    }

    pub fn get_blob(&self, idx: usize) -> (r: Option<&BlobContext>)
        ensures
            idx < self.blobs().len() ==> (r matches Some(b) && *b == self.blobs()[idx as int]),
            idx >= self.blobs().len() ==> r is None,
    {
        if idx < self.blobs.len() {
            Some(&self.blobs[idx])
        } else {
            None
        }
    }

    /// Removes blob `idx` from the table and hands it over.
    pub fn take_blob(&mut self, idx: usize) -> (r: BlobContext)
        requires
            idx < old(self).blobs().len(),
        ensures
            r == old(self).blobs()[idx as int],
            final(self).blobs() == old(self).blobs().remove(idx as int),
            final(self).current() == old(self).current(),
    {
        self.blobs.remove(idx)
    }

    pub fn get_last_blob(&self) -> (r: Option<&BlobContext>)
        ensures
            self.blobs().len() > 0 ==> (r matches Some(b) && *b == self.blobs().last()),
            self.blobs().len() == 0 ==> r is None,
    {
        if self.blobs.len() > 0 {
            Some(&self.blobs[self.blobs.len() - 1])
        } else {
            None
        }
    }

    /// Index of the first blob with id `id`.
    pub fn get_blob_idx_by_id(&self, id: &str) -> (r: Option<u32>)
        requires
            self.wf(),
        ensures
            r == (match id_index(self.ids(), id@) {
                Some(i) => Some(i as u32),
                None => None::<u32>,
            }),
            r matches Some(i) ==> i < self.blobs().len() && self.ids()[i as int] == id@,
            r is None ==> !self.ids().contains(id@),
    {
        let target = id.to_owned();
        let mut i: usize = 0;
        while i < self.blobs.len()
            invariant
                i <= self.blobs@.len(),
                self.blobs@.len() <= MAX_BLOBS_PER_IMAGE,
                target@ == id@,
                id_index(blob_ids(self.blobs@).take(i as int), id@) is None,
            decreases self.blobs.len() - i,
        {
            proof {
                lemma_id_index_push(blob_ids(self.blobs@).take(i as int), self.blobs@[i as int].blob_id@, id@);
                assert(blob_ids(self.blobs@).take(i as int).push(self.blobs@[i as int].blob_id@)
                    =~= blob_ids(self.blobs@).take(i + 1));
            }
            if self.blobs[i].blob_id == target {
                proof {
                    lemma_id_index_prefix(blob_ids(self.blobs@), (i + 1) as nat, id@);
                }
                return Some(i as u32);
            }
            i = i + 1;
        }
        proof {
            assert(blob_ids(self.blobs@).take(i as int) =~= blob_ids(self.blobs@));
            lemma_id_index_none(blob_ids(self.blobs@), id@);
        }
        None
    }

    /// The ids of all blobs, in order.
    pub fn get_blob_ids(&self) -> (r: Vec<String>)
        ensures
            r@.len() == self.blobs().len(),
            forall|i: int| 0 <= i < r@.len() ==> r@[i]@ == self.ids()[i],
    {
        let mut r: Vec<String> = Vec::new();
        let mut i: usize = 0;
        while i < self.blobs.len()
            invariant
                i <= self.blobs@.len(),
                r@.len() == i,
                forall|k: int| 0 <= k < i ==> r@[k]@ == self.blobs@[k].blob_id@,
            decreases self.blobs.len() - i,
        {
            r.push(self.blobs[i].blob_id.clone());
            i = i + 1;
        }
        r
    }

    pub fn set_chunk_dict(&mut self, dict: ChunkDict)
        ensures
            final(self).blobs() == old(self).blobs(),
            final(self).current() == old(self).current(),
            final(self).dict() == dict,
            final(self).digester() == old(self).digester(),
    {
        self.global_chunk_dict = dict;
    }

    pub fn get_chunk_dict(&self) -> (r: &ChunkDict)
        ensures
            *r == self.dict(),
    {
        &self.global_chunk_dict
    }

    /// A fresh blob for the current build, set up from the build context:
    /// chunk-info metadata is enabled for v6 images.
    fn new_blob_ctx(ctx: &BuildContext) -> (r: BlobContext)
        ensures
            r.wf(),
            (BlobContext {
                chunk_size: RAFS_DEFAULT_CHUNK_SIZE,
                blob_meta_info_enabled: false,
                ..r
            }).is_fresh(ctx.blob_id@, ctx.blob_offset, ctx.blob_features, ctx.compressor, ctx.digester),
            r.blob_id@ == ctx.blob_id@,
            r.chunk_size == ctx.chunk_size,
            r.blob_meta_info_enabled == (ctx.fs_version == RafsVersion::V6),
            r.chunk_count == 0,
            r.meta_len() == 0,
    {
        let mut blob_ctx = BlobContext::new(
            ctx.blob_id.clone(),
            ctx.blob_offset,
            ctx.blob_features,
            ctx.compressor,
            ctx.digester,
        );
        blob_ctx.set_chunk_size(ctx.chunk_size);
        blob_ctx.set_meta_info_enabled(ctx.fs_version == RafsVersion::V6);
        blob_ctx
    }

    /// The blob the current layer writes to, with its index.
    pub fn get_current_blob(&mut self) -> (r: Option<(u32, &mut BlobContext)>)
        requires
            old(self).wf(),
        ensures
            old(self).current() is None ==> r is None && *final(self) == *old(self),
            old(self).current() matches Some(i) ==> (r matches Some((j, b)) && j == i && *b
                == old(self).blobs()[i as int] && final(self).blobs() == old(self).blobs().update(
                i as int,
                *final(b),
            ) && final(self).current() == old(self).current() && final(self).dict()
                == old(self).dict() && final(self).digester() == old(self).digester()),
    {
        match self.current_blob_index {
            Some(idx) => Some((idx, &mut self.blobs[idx as usize])),
            None => None,
        }
    }

    /// The blob the current layer writes to, created from the build context
    /// and appended when there is none yet; fails when the table is full.
    pub fn get_or_create_current_blob(&mut self, ctx: &BuildContext) -> (r: Result<
        (u32, &mut BlobContext),
        BuildError,
    >)
        requires
            old(self).wf(),
        ensures
            old(self).current() is None && old(self).blobs().len() >= MAX_BLOBS_PER_IMAGE ==> r
                is Err && *final(self) == *old(self),
            old(self).current() matches Some(i) ==> (r matches Ok((j, b)) && j == i && *b
                == old(self).blobs()[i as int] && final(self).blobs() == old(self).blobs().update(
                i as int,
                *final(b),
            ) && final(self).current() == old(self).current()),
            old(self).current() is None && old(self).blobs().len() < MAX_BLOBS_PER_IMAGE ==> (r matches Ok(
                (j, b),
            ) && j == old(self).blobs().len() && (BlobContext {
                chunk_size: RAFS_DEFAULT_CHUNK_SIZE,
                blob_meta_info_enabled: false,
                ..*b
            }).is_fresh(ctx.blob_id@, ctx.blob_offset, ctx.blob_features, ctx.compressor, ctx.digester)
                && b.blob_id@ == ctx.blob_id@ && b.chunk_size
                == ctx.chunk_size && b.blob_meta_info_enabled == (ctx.fs_version == RafsVersion::V6)
                && b.chunk_count == 0 && b.meta_len() == 0 && b.wf() && final(self).blobs()
                == old(self).blobs().push(*final(b)) && final(self).current() == Some(j)),
            final(self).dict() == old(self).dict(),
            final(self).wf(),
    {
        if self.current_blob_index.is_none() {
            let blob_ctx = Self::new_blob_ctx(ctx);
            let idx = match self.alloc_index() {
                Ok(idx) => idx,
                Err(e) => {
                    return Err(e);
                },
            };
            self.current_blob_index = Some(idx);
            self.add(blob_ctx);
        }
        let idx = self.current_blob_index.unwrap();
        Ok((idx, &mut self.blobs[idx as usize]))
    }

    /// Prepends the blobs of a parent bootstrap's blob table, imported from
    /// the parent; the current blob index moves up by their number. Fails,
    /// changing nothing, when blobs exist but none is current, when the table
    /// would exceed 256 blobs, or when the backend fails an import.
    pub fn extend_from_blob_table<B: BlobBackend>(
        &mut self,
        backend: &B,
        blob_table: Vec<BlobInfo>,
    ) -> (r: Result<(), BuildError>)
        requires
            old(self).wf(),
        ensures
            final(self).wf(),
            r is Err ==> *final(self) == *old(self),
            (old(self).current() is None && old(self).blobs().len() > 0) ==> r == Err::<
                (),
                BuildError,
            >(BuildError::Inconsistent),
            !(old(self).current() is None && old(self).blobs().len() > 0) && blob_table@.len()
                + old(self).blobs().len() > MAX_BLOBS_PER_IMAGE ==> r == Err::<(), BuildError>(
                BuildError::Overflow,
            ),
            r is Err ==> r == Err::<(), BuildError>(BuildError::Inconsistent) || r == Err::<
                (),
                BuildError,
            >(BuildError::Overflow) || r == Err::<(), BuildError>(BuildError::BackendFailure),
            (!(old(self).current() is None && old(self).blobs().len() > 0) && blob_table@.len()
                + old(self).blobs().len() <= MAX_BLOBS_PER_IMAGE && forall|i: int|
                0 <= i < blob_table@.len() ==> !needs_meta_fixup(
                    #[trigger] blob_table@[i],
                    ChunkSource::Parent,
                )) ==> r is Ok,
            r is Ok ==> Self::parent_import_post(*old(self), *final(self), blob_table@),
    {
        if self.current_blob_index.is_none() && self.blobs.len() > 0 {
            return Err(BuildError::Inconsistent);
        }
        if blob_table.len() > MAX_BLOBS_PER_IMAGE - self.blobs.len() {
            return Err(BuildError::Overflow);
        }
        let mut blobs: Vec<BlobContext> = Vec::new();
        let mut i: usize = 0;
        while i < blob_table.len()
            invariant
                *self == *old(self),
                self.wf(),
                !(self.current() is None && self.blobs().len() > 0),
                blob_table@.len() + self.blobs().len() <= MAX_BLOBS_PER_IMAGE,
                i <= blob_table@.len(),
                blobs@.len() == i,
                forall|k: int|
                    0 <= k < i ==> #[trigger] blobs@[k].is_some_import_of(
                        blob_table@[k],
                        ChunkSource::Parent,
                    ),
                forall|k: int|
                    0 <= k < i ==> (!needs_meta_fixup(#[trigger] blob_table@[k], ChunkSource::Parent)
                        ==> blobs@[k].is_import_of(blob_table@[k], ChunkSource::Parent, None)),
            decreases blob_table.len() - i,
        {
            let blob_ctx = match BlobContext::from(backend, &blob_table[i], ChunkSource::Parent) {
                Ok(c) => c,
                Err(e) => {
                    return Err(e);
                },
            };
            blobs.push(blob_ctx);
            i = i + 1;
        }
        let n = blobs.len();
        let ghost imported = blobs@;
        if let Some(curr) = self.current_blob_index {
            self.current_blob_index = Some(curr + n as u32);
        }
        blobs.append(&mut self.blobs);
        self.blobs = blobs;
        assert(self.blobs@ =~= imported + old(self).blobs@);
        Ok(())
    }

    /// The parent import of `table` took manager `pre` to `post`: the imported
    /// blobs come first, in table order, then the blobs `pre` had, and the
    /// current index moved up by the number imported.
    pub open spec fn parent_import_post(pre: BlobManager, post: BlobManager, table: Seq<BlobInfo>) -> bool {
        &&& post.blobs().len() == table.len() + pre.blobs().len()
        &&& forall|k: int|
            0 <= k < table.len() ==> #[trigger] post.blobs()[k].is_some_import_of(
                table[k],
                ChunkSource::Parent,
            )
        &&& forall|k: int|
            0 <= k < table.len() ==> (!needs_meta_fixup(#[trigger] table[k], ChunkSource::Parent)
                ==> post.blobs()[k].is_import_of(table[k], ChunkSource::Parent, None))
        &&& forall|k: int|
            0 <= k < pre.blobs().len() ==> #[trigger] post.blobs()[table.len() + k]
                == pre.blobs()[k]
        &&& post.current() == match pre.current() {
            Some(c) => Some((c + table.len()) as u32),
            None => None::<u32>,
        }
        &&& post.dict() == pre.dict()
        &&& post.digester() == pre.digester()
    }

    /// The dictionary import took manager `pre` to `post`.
    pub open spec fn dict_import_post(pre: BlobManager, post: BlobManager) -> bool {
        let d = pre.dict().blobs();
        &&& post.ids() == ids_after_dict(pre.ids(), d)
        &&& post.dict().blobs() == d
        &&& post.dict().real_idx() == real_idx_after_dict(pre.dict().real_idx(), pre.ids(), d)
        &&& post.blobs().len() >= pre.blobs().len()
        &&& forall|k: int| 0 <= k < pre.blobs().len() ==> #[trigger] post.blobs()[k] == pre.blobs()[k]
        &&& forall|k: int|
            pre.blobs().len() <= k < post.blobs().len() ==> is_import_from_dict(
                #[trigger] post.blobs()[k],
                d,
            )
        &&& post.current() == pre.current()
        &&& post.digester() == pre.digester()
    }

    /// Imports the blobs of the chunk dictionary, in order: a blob whose id is
    /// in the table already is reused, any other is imported from the
    /// dictionary and appended. The dictionary records where each of its blobs
    /// landed. Parent blobs must be imported first, else chunks of the parent
    /// would refer to wrong blobs. Fails when the table would exceed 256 blobs
    /// or the backend fails an import.
    pub fn extend_from_chunk_dict<B: BlobBackend>(&mut self, backend: &B) -> (r: Result<
        (),
        BuildError,
    >)
        requires
            old(self).wf(),
        ensures
            final(self).wf(),
            r is Ok ==> Self::dict_import_post(*old(self), *final(self)),
            r is Err ==> r == Err::<(), BuildError>(BuildError::Overflow) || r == Err::<
                (),
                BuildError,
            >(BuildError::BackendFailure),
            ids_after_dict(old(self).ids(), old(self).dict().blobs()).len() > MAX_BLOBS_PER_IMAGE
                ==> r is Err,
            r == Err::<(), BuildError>(BuildError::Overflow) ==> ids_after_dict(
                old(self).ids(),
                old(self).dict().blobs(),
            ).len() > MAX_BLOBS_PER_IMAGE,
            r == Err::<(), BuildError>(BuildError::BackendFailure) ==> exists|j: int|
                0 <= j < old(self).dict().blobs().len() && needs_meta_fixup(
                    #[trigger] old(self).dict().blobs()[j],
                    ChunkSource::Dict,
                ),
            (ids_after_dict(old(self).ids(), old(self).dict().blobs()).len() <= MAX_BLOBS_PER_IMAGE
                && forall|j: int|
                0 <= j < old(self).dict().blobs().len() ==> !needs_meta_fixup(
                    #[trigger] old(self).dict().blobs()[j],
                    ChunkSource::Dict,
                )) ==> r is Ok,
    {
        let n = self.global_chunk_dict.get_blobs().len();
        let ghost d = self.global_chunk_dict.blobs();
        let ghost ids0 = self.ids();
        let ghost m0 = self.global_chunk_dict.real_idx();
        let mut i: usize = 0;
        assert(d.take(0) =~= Seq::<BlobInfo>::empty());
        proof {
            lemma_ids_after_dict_prefix_len(ids0, d, 0);
        }
        while i < n
            invariant
                n == d.len(),
                i <= n,
                self.wf(),
                self.global_chunk_dict.blobs() == d,
                d == old(self).dict().blobs(),
                ids0 == old(self).ids(),
                m0 == old(self).dict().real_idx(),
                self.ids() == ids_after_dict(ids0, d.take(i as int)),
                self.global_chunk_dict.real_idx() == real_idx_after_dict(m0, ids0, d.take(i as int)),
                self.blobs().len() >= old(self).blobs().len(),
                forall|k: int|
                    0 <= k < old(self).blobs().len() ==> #[trigger] self.blobs()[k]
                        == old(self).blobs()[k],
                forall|k: int|
                    old(self).blobs().len() <= k < self.blobs().len() ==> is_import_from_dict(
                        #[trigger] self.blobs()[k],
                        d,
                    ),
                self.current() == old(self).current(),
                self.digester() == old(self).digester(),
                ids_after_dict(ids0, d.take(i as int)).len() <= ids_after_dict(ids0, d).len(),
            decreases n - i,
        {
            proof {
                assert(d.take(i + 1).drop_last() =~= d.take(i as int));
                assert(d.take(i + 1).last() == d[i as int]);
            }
            let blob_index = self.global_chunk_dict.get_blobs()[i].blob_index;
            let found = self.get_blob_idx_by_id(self.global_chunk_dict.get_blobs()[i].blob_id.as_str());
            match found {
                Some(real_idx) => {
                    self.global_chunk_dict.set_real_blob_idx(blob_index, real_idx);
                },
                None => {
                    let idx = match self.alloc_index() {
                        Ok(idx) => idx,
                        Err(e) => {
                            proof { lemma_ids_after_dict_prefix_len(ids0, d, (i + 1) as nat); }
                            return Err(e);
                        },
                    };
                    let ctx = match BlobContext::from(
                        backend,
                        &self.global_chunk_dict.get_blobs()[i],
                        ChunkSource::Dict,
                    ) {
                        Ok(c) => c,
                        Err(e) => {
                            return Err(e);
                        },
                    };
                    let ghost before = self.blobs();
                    self.add(ctx);
                    proof {
                        assert(blob_ids(before.push(ctx)) =~= blob_ids(before).push(ctx.blob_id@));
                        assert(self.blobs()[self.blobs().len() - 1].is_some_import_of(
                            d[i as int],
                            ChunkSource::Dict,
                        ));
                    }
                    self.global_chunk_dict.set_real_blob_idx(blob_index, idx);
                },
            }
            proof {
                lemma_ids_after_dict_prefix_len(ids0, d, (i + 1) as nat);
            }
            i = i + 1;
        }
        assert(d.take(n as int) =~= d);
        Ok(())
    }
}

/// Importing more dictionary blobs never shrinks the id table.
pub proof fn lemma_ids_after_dict_prefix_len(ids: Seq<Seq<char>>, d: Seq<BlobInfo>, n: nat)
    requires
        n <= d.len(),
    ensures
        ids_after_dict(ids, d.take(n as int)).len() <= ids_after_dict(ids, d).len(),
    decreases d.len() - n,
{
    if n < d.len() {
        lemma_ids_after_dict_prefix_len(ids, d, n + 1);
        assert(d.take(n + 1 as int).drop_last() =~= d.take(n as int));
    } else {
        assert(d.take(n as int) =~= d);
    }
}

/// Importing dictionary blobs keeps ids distinct and earlier ids in place,
/// and leaves every dictionary blob's id in the table, provided each
/// dictionary blob is imported under the id it is looked up by.
pub proof fn lemma_ids_after_dict_props(ids: Seq<Seq<char>>, d: Seq<BlobInfo>)
    requires
        ids_distinct(ids),
        forall|j: int| 0 <= j < d.len() ==> import_id(#[trigger] d[j], ChunkSource::Dict) == d[j].blob_id@,
    ensures
        ids_distinct(ids_after_dict(ids, d)),
        ids_after_dict(ids, d).len() >= ids.len(),
        forall|k: int| 0 <= k < ids.len() ==> #[trigger] ids_after_dict(ids, d)[k] == ids[k],
        forall|j: int| 0 <= j < d.len() ==> ids_after_dict(ids, d).contains(#[trigger] d[j].blob_id@),
    decreases d.len(),
{
    if d.len() > 0 {
        let p = d.drop_last();
        assert forall|j: int| 0 <= j < p.len() implies import_id(#[trigger] p[j], ChunkSource::Dict)
            == p[j].blob_id@ by {
            assert(p[j] == d[j]);
        }
        lemma_ids_after_dict_props(ids, p);
        let prev = ids_after_dict(ids, p);
        let last = d.last();
        lemma_id_index_none(prev, last.blob_id@);
        assert(import_id(d[d.len() - 1], ChunkSource::Dict) == d[d.len() - 1].blob_id@);
        let r = ids_after_dict(ids, d);
        assert forall|j: int| 0 <= j < d.len() implies r.contains(#[trigger] d[j].blob_id@) by {
            if j < d.len() - 1 {
                assert(p[j] == d[j]);
                assert(prev.contains(p[j].blob_id@));
                let w = choose|w: int| 0 <= w < prev.len() && prev[w] == p[j].blob_id@;
                assert(r[w] == d[j].blob_id@);
            } else {
                if let Some(i) = id_index(prev, last.blob_id@) {
                    assert(r[i as int] == d[j].blob_id@);
                } else {
                    assert(r[prev.len() as int] == d[j].blob_id@);
                }
            }
        }
    }
}

/// Looking up an id after appending one more: earlier hits stay, else the
/// appended id may hit.
pub proof fn lemma_id_index_push(ids: Seq<Seq<char>>, x: Seq<char>, id: Seq<char>)
    ensures
        id_index(ids.push(x), id) == (match id_index(ids, id) {
            Some(i) => Some(i),
            None => if x == id {
                Some(ids.len())
            } else {
                None::<nat>
            },
        }),
{
    assert(ids.push(x).drop_last() =~= ids);
}

/// A hit in a prefix is a hit in the whole sequence.
pub proof fn lemma_id_index_prefix(ids: Seq<Seq<char>>, n: nat, id: Seq<char>)
    requires
        n <= ids.len(),
        id_index(ids.take(n as int), id) is Some,
    ensures
        id_index(ids, id) == id_index(ids.take(n as int), id),
    decreases ids.len() - n,
{
    if n < ids.len() {
        lemma_id_index_push(ids.take(n as int), ids[n as int], id);
        assert(ids.take(n as int).push(ids[n as int]) =~= ids.take(n + 1 as int));
        lemma_id_index_prefix(ids, n + 1, id);
    } else {
        assert(ids.take(n as int) =~= ids);
    }
}

/// The index found holds the id; no index found means the id is absent.
pub proof fn lemma_id_index_none(ids: Seq<Seq<char>>, id: Seq<char>)
    ensures
        id_index(ids, id) is None <==> !ids.contains(id),
        id_index(ids, id) matches Some(i) ==> i < ids.len() && ids[i as int] == id,
    decreases ids.len(),
{
    if ids.len() > 0 {
        lemma_id_index_none(ids.drop_last(), id);
        if id_index(ids.drop_last(), id) is None && ids.last() != id {
            assert forall|k: int| 0 <= k < ids.len() implies ids[k] != id by {
                if k < ids.len() - 1 {
                    assert(ids.drop_last()[k] == ids[k]);
                }
            }
        }
        if let Some(i) = id_index(ids.drop_last(), id) {
            assert(ids.drop_last()[i as int] == ids[i as int]);
        }
    }
}

/// After a parent blob table and then the chunk dictionary are imported,
/// every blob id of the table or of the dictionary stands exactly once in the
/// blob table, at an index below 256.
///
/// This holds when the ids already in the manager, and the ids of the table,
/// are distinct and apart, and each dictionary blob is imported under the id
/// it is looked up by.
pub proof fn lemma_imports_place_each_id_once(
    m0: BlobManager,
    m1: BlobManager,
    m2: BlobManager,
    table: Seq<BlobInfo>,
)
    requires
        ids_distinct(m0.ids()),
        ids_distinct(table.map_values(|b: BlobInfo| import_id(b, ChunkSource::Parent))),
        forall|i: int, k: int|
            0 <= i < table.len() && 0 <= k < m0.ids().len() ==> import_id(
                #[trigger] table[i],
                ChunkSource::Parent,
            ) != #[trigger] m0.ids()[k],
        forall|j: int|
            0 <= j < m1.dict().blobs().len() ==> import_id(
                #[trigger] m1.dict().blobs()[j],
                ChunkSource::Dict,
            ) == m1.dict().blobs()[j].blob_id@,
        BlobManager::parent_import_post(m0, m1, table),
        BlobManager::dict_import_post(m1, m2),
        m2.wf(),
    ensures
        ids_distinct(m2.ids()),
        m2.ids().len() <= MAX_BLOBS_PER_IMAGE,
        forall|i: int|
            0 <= i < table.len() ==> #[trigger] m2.ids()[i] == import_id(
                table[i],
                ChunkSource::Parent,
            ),
        forall|j: int|
            0 <= j < m1.dict().blobs().len() ==> m2.ids().contains(
                (#[trigger] m1.dict().blobs()[j]).blob_id@,
            ),
{
    let tids = table.map_values(|b: BlobInfo| import_id(b, ChunkSource::Parent));
    let ids1 = m1.ids();
    assert forall|k: int| 0 <= k < table.len() implies ids1[k] == tids[k] by {
        assert(m1.blobs()[k].is_some_import_of(table[k], ChunkSource::Parent));
    }
    assert forall|k: int| 0 <= k < m0.ids().len() implies ids1[table.len() + k] == m0.ids()[k] by {
        assert(m1.blobs()[table.len() + k] == m0.blobs()[k]);
    }
    assert(ids_distinct(ids1)) by {
        assert forall|a: int, b: int| 0 <= a < b < ids1.len() implies ids1[a] != ids1[b] by {
            if b < table.len() {
            } else if a < table.len() {
                assert(ids1[b] == m0.ids()[b - table.len()]);
            } else {
                assert(ids1[a] == m0.ids()[a - table.len()]);
                assert(ids1[b] == m0.ids()[b - table.len()]);
            }
        }
    }
    lemma_ids_after_dict_props(ids1, m1.dict().blobs());
    let ids2 = m2.ids();
    assert(ids1.len() == m1.blobs().len());
    assert forall|i: int| 0 <= i < table.len() implies #[trigger] ids2[i] == import_id(
        table[i],
        ChunkSource::Parent,
    ) by {
        assert(ids2[i] == ids1[i]);
        assert(tids[i] == import_id(table[i], ChunkSource::Parent));
    }
}

} // verus!
