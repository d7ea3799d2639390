use vstd::prelude::*;
use std::collections::{HashMap, VecDeque};

use crate::artifact::{ArtifactMemoryWriter, ArtifactStorage};
use crate::tree::Node;
use crate::types::{EROFS_BLOCK_SIZE, EROFS_INODE_SLOT_SIZE};

verus! {

/// Number of free-tail queues: one per slot count of a block.
pub const AVAILABLE_BLOCK_QUEUES: usize = 128;

/// Largest block base a queue may hold: the block's end still fits in u64.
pub const MAX_QUEUED_BLOCK: u64 = 0xffff_ffff_ffff_e000;

/// The smallest queue index `>= from` whose queue is not empty.
pub open spec fn first_nonempty(q: Seq<Seq<u64>>, from: int) -> Option<int>
    decreases AVAILABLE_BLOCK_QUEUES - from,
{
    if from < 0 || from >= AVAILABLE_BLOCK_QUEUES {
        None
    } else if q[from].len() > 0 {
        Some(from)
    } else {
        first_nonempty(q, from + 1)
    }
}

/// Number of slots needed for `size` bytes.
pub open spec fn slots_for(size: u64) -> int {
    (size as int + EROFS_INODE_SLOT_SIZE - 1) / EROFS_INODE_SLOT_SIZE as int
}

/// The queues after enqueuing the block holding `offset`, if `offset` leaves
/// free space at the tail of its block: the block's base goes to the queue of
/// its free slot count.
pub open spec fn enqueue_block(q: Seq<Seq<u64>>, offset: u64) -> Seq<Seq<u64>> {
    let rem = offset as int % EROFS_BLOCK_SIZE as int;
    if rem != 0 {
        let idx = (EROFS_BLOCK_SIZE - rem) / EROFS_INODE_SLOT_SIZE as int;
        q.update(idx, q[idx].push((offset as int - rem) as u64))
    } else {
        q
    }
}

/// Build state of one layer's bootstrap.
pub struct BootstrapContext {
    /// The build has a parent bootstrap.
    pub layered: bool,
    /// Indices into `nodes` of the hardlinks of one inode, keyed by layer
    /// index, inode number and device.
    pub inode_map: HashMap<(u16, u64, u64), Vec<u64>>,
    /// All nodes in inode order.
    pub nodes: Vec<Node>,
    /// Current write position in the bootstrap.
    pub offset: u64,
    /// The bootstrap bytes.
    pub writer: ArtifactMemoryWriter,
    /// Where the bootstrap is saved, if anywhere.
    pub target: Option<ArtifactStorage>,
    /// The target is the writer side of a FIFO.
    pub fifo: bool,
    /// Free-tail queues of blocks in use.
    pub v6_available_blocks: Vec<VecDeque<u64>>,
}

impl BootstrapContext {
    /// Queue `i` holds the bases of blocks with `i` free slots at their tail,
    /// oldest first.
    pub open spec fn available_blocks(&self) -> Seq<Seq<u64>> {
        self.v6_available_blocks@.map_values(|d: VecDeque<u64>| d@)
    }

    /// There are 128 queues, holding block-aligned bases whose blocks end
    /// within u64.
    pub open spec fn wf(&self) -> bool {
        &&& self.available_blocks().len() == AVAILABLE_BLOCK_QUEUES
        &&& forall|i: int, j: int|
            0 <= i < AVAILABLE_BLOCK_QUEUES && 0 <= j < self.available_blocks()[i].len() ==> {
                let b = #[trigger] self.available_blocks()[i][j];
                b as int % EROFS_BLOCK_SIZE as int == 0 && b <= MAX_QUEUED_BLOCK
            }
    }

    /// A context writing into memory, to be saved to `storage` if given. The
    /// write offset starts one block in, right after the superblock.
    pub fn new(storage: Option<ArtifactStorage>, layered: bool, fifo: bool) -> (r: Self)
        ensures
            r.wf(),
            r.layered == layered,
            r.fifo == fifo,
            r.target == storage,
            r.nodes@.len() == 0,
            r.inode_map@ == Map::<(u16, u64, u64), Vec<u64>>::empty(),
            r.offset == EROFS_BLOCK_SIZE,
            r.writer.bytes().len() == 0,
            r.writer.position() == 0,
            forall|i: int| 0 <= i < AVAILABLE_BLOCK_QUEUES ==> #[trigger] r.available_blocks()[i].len() == 0,
    {
        let mut queues: Vec<VecDeque<u64>> = Vec::new();
        let mut i: usize = 0;
        while i < AVAILABLE_BLOCK_QUEUES
            invariant
                i <= AVAILABLE_BLOCK_QUEUES,
                queues@.len() == i,
                forall|k: int| 0 <= k < i ==> #[trigger] queues@[k]@.len() == 0,
            decreases AVAILABLE_BLOCK_QUEUES - i,
        {
            queues.push(VecDeque::new());
            i = i + 1;
        }
        BootstrapContext {
            layered,
            inode_map: HashMap::new(),
            nodes: Vec::new(),
            offset: EROFS_BLOCK_SIZE,
            writer: ArtifactMemoryWriter::default(),
            target: storage,
            fifo,
            v6_available_blocks: queues,
        }
    }

    /// Rounds the write offset up to a multiple of `align_size`.
    pub fn align_offset(&mut self, align_size: u64)
        requires
            align_size > 0,
            old(self).offset as int % align_size as int == 0 || old(self).offset as int
                - old(self).offset as int % align_size as int + align_size as int <= u64::MAX,
        ensures
            final(self).offset as int % align_size as int == 0,
            old(self).offset <= final(self).offset < old(self).offset + align_size,
            *final(self) == (BootstrapContext { offset: final(self).offset, ..*old(self) }),
    {
        let rem = self.offset % align_size;
        if rem > 0 {
            assert(rem <= self.offset) by (nonlinear_arith)
                requires
                    rem == self.offset as int % align_size as int,
                    align_size > 0,
            ;
            let next = self.offset - rem + align_size;
            assert(next as int % align_size as int == 0) by (nonlinear_arith)
                requires
                    rem == self.offset as int % align_size as int,
                    next == self.offset - rem + align_size,
                    align_size > 0,
            {
                assert(self.offset as int == (self.offset as int / align_size as int) * align_size
                    + rem);
                assert(next == (self.offset as int / align_size as int + 1) * align_size);
            }
            self.offset = next;
        }
    }

    /// Enqueues the block holding `offset` when `offset` leaves free space at
    /// its tail: the block's base goes to the queue of its free slot count.
    pub fn append_available_block(&mut self, offset: u64)
        requires
            old(self).wf(),
            offset <= MAX_QUEUED_BLOCK + EROFS_BLOCK_SIZE,
        ensures
            final(self).wf(),
            final(self).available_blocks() == enqueue_block(old(self).available_blocks(), offset),
            *final(self) == (BootstrapContext {
                v6_available_blocks: final(self).v6_available_blocks,
                ..*old(self)
            }),
    {
        let rem = offset % EROFS_BLOCK_SIZE;
        if rem != 0 {
            let avail = EROFS_BLOCK_SIZE - rem;
            let idx = (avail / EROFS_INODE_SLOT_SIZE) as usize;
            let base = offset - rem;
            assert(base as int % EROFS_BLOCK_SIZE as int == 0);
            assert(base <= MAX_QUEUED_BLOCK) by (nonlinear_arith)
                requires
                    base as int % 4096 == 0,
                    base + rem == offset,
                    0 < rem < 4096,
                    offset <= 0xffff_ffff_ffff_e000u64 + 4096,
            {
                assert(base == (base as int / 4096) * 4096);
            }
            let ghost q0 = self.available_blocks();
            self.v6_available_blocks[idx].push_back(base);
            assert(self.available_blocks() =~= q0.update(idx as int, q0[idx as int].push(base)));
        }
    }

    /// Finds room for `size` bytes in the tail of a block in use. Queues are
    /// scanned from the smallest free tail that fits; the first block found
    /// takes the data at the start of its free tail, and what is left of the
    /// tail is enqueued again. Returns the write position, or 0 when no block
    /// has room (or `size` is a whole block or more).
    pub fn allocate_available_block(&mut self, size: u64) -> (r: u64)
        requires
            old(self).wf(),
        ensures
            final(self).wf(),
            *final(self) == (BootstrapContext {
                v6_available_blocks: final(self).v6_available_blocks,
                ..*old(self)
            }),
            r != 0 ==> r as int % EROFS_BLOCK_SIZE as int + size <= EROFS_BLOCK_SIZE,
            size >= EROFS_BLOCK_SIZE ==> r == 0 && final(self).available_blocks()
                == old(self).available_blocks(),
            size < EROFS_BLOCK_SIZE ==> match first_nonempty(
                old(self).available_blocks(),
                slots_for(size),
            ) {
                None => r == 0 && final(self).available_blocks() == old(self).available_blocks(),
                Some(idx) => {
                    let q = old(self).available_blocks();
                    let base = q[idx][0];
                    let popped = q.update(idx, q[idx].drop_first());
                    &&& r == base + EROFS_BLOCK_SIZE - idx * EROFS_INODE_SLOT_SIZE
                    &&& final(self).available_blocks() == enqueue_block(
                        popped,
                        (r + slots_for(size) * EROFS_INODE_SLOT_SIZE) as u64,
                    )
                },
            },
    {
        if size >= EROFS_BLOCK_SIZE {
            return 0;
        }
        let min_idx: usize = ((size + EROFS_INODE_SLOT_SIZE - 1) / EROFS_INODE_SLOT_SIZE) as usize;
        let mut idx: usize = min_idx;
        while idx < AVAILABLE_BLOCK_QUEUES
            invariant
                self.wf(),
                *self == (BootstrapContext {
                    v6_available_blocks: self.v6_available_blocks,
                    ..*old(self)
                }),
                self.available_blocks() == old(self).available_blocks(),
                min_idx == slots_for(size),
                min_idx <= idx,
                min_idx <= AVAILABLE_BLOCK_QUEUES,
                first_nonempty(self.available_blocks(), min_idx as int) == first_nonempty(
                    self.available_blocks(),
                    idx as int,
                ),
            decreases AVAILABLE_BLOCK_QUEUES - idx,
        {
            let ghost q0 = self.available_blocks();
            assert(q0[idx as int] == self.v6_available_blocks@[idx as int]@);
            match self.v6_available_blocks[idx].pop_front() {
                Some(base) => {
                    proof {
                        assert(self.available_blocks() =~= q0.update(
                            idx as int,
                            q0[idx as int].drop_first(),
                        ));
                        assert(base == q0[idx as int][0]);
                        assert(base <= MAX_QUEUED_BLOCK);
                    }
                    let offset = base + EROFS_BLOCK_SIZE - (idx as u64) * EROFS_INODE_SLOT_SIZE;
                    assert(offset as int % 4096 + size <= 4096) by (nonlinear_arith)
                        requires
                            base as int % 4096 == 0,
                            offset == base + 4096 - idx * 32,
                            idx < 128,
                            min_idx <= idx,
                            min_idx == (size + 31) / 32,
                            size < 4096,
                    {
                        assert(base == (base as int / 4096) * 4096);
                        if idx == 0 {
                            assert(offset == (base as int / 4096 + 1) * 4096);
                        } else {
                            assert(offset == (base as int / 4096) * 4096 + (4096 - idx * 32));
                        }
                    }
                    assert(self.wf()) by {
                        let q1 = self.available_blocks();
                        assert forall|i: int, j: int|
                            0 <= i < AVAILABLE_BLOCK_QUEUES && 0 <= j < q1[i].len() implies {
                            let b = #[trigger] q1[i][j];
                            b as int % EROFS_BLOCK_SIZE as int == 0 && b <= MAX_QUEUED_BLOCK
                        } by {
                            if i == idx {
                                assert(q1[i][j] == q0[i][j + 1]);
                            } else {
                                assert(q1[i][j] == q0[i][j]);
                            }
                        }
                    }
                    self.append_available_block(offset + (min_idx as u64) * EROFS_INODE_SLOT_SIZE);
                    return offset;
                },
                None => {
                    assert(self.available_blocks() =~= q0);
                },
            }
            idx = idx + 1;
        }
        0
    }
}

/// Holds the parent bootstrap path and where new bootstraps go, and makes
/// bootstrap contexts.
pub struct BootstrapManager {
    pub f_parent_path: Option<String>,
    pub bootstrap_storage: Option<ArtifactStorage>,
}

impl BootstrapManager {
    pub fn new(bootstrap_storage: Option<ArtifactStorage>, f_parent_path: Option<String>) -> (r: Self)
        ensures
            r.bootstrap_storage == bootstrap_storage,
            r.f_parent_path == f_parent_path,
    {
        BootstrapManager { f_parent_path, bootstrap_storage }
    }

    /// A bootstrap context for the next layer; it is layered iff there is a
    /// parent bootstrap.
    pub fn create_ctx(&self, fifo: bool) -> (r: BootstrapContext)
        ensures
            r.wf(),
            r.layered == self.f_parent_path is Some,
            r.fifo == fifo,
            r.target matches Some(t) ==> self.bootstrap_storage matches Some(s) && t.path() == s.path()
                && (t is SingleFile <==> s is SingleFile),
            r.target is None <==> self.bootstrap_storage is None,
            r.nodes@.len() == 0,
            r.offset == EROFS_BLOCK_SIZE,
    {
        let storage = match &self.bootstrap_storage {
            Some(s) => Some(s.copy()),
            None => None,
        };
        BootstrapContext::new(storage, self.f_parent_path.is_some(), fifo)
    }
}

} // verus!
