use vstd::prelude::*;

use crate::artifact::ArtifactStorage;
use crate::backend::BlobBackend;
use crate::blob::{import_id, needs_meta_fixup, BlobContext};
use crate::bootstrap::BootstrapContext;
use crate::chunk::{BlobInfo, ChunkInfo};
use crate::codec::{digest_from_hex, digest_to_hex, hex_decode, hex_encode, is_hex_of_len};
use crate::context::{BuildConfiguration, BuildContext};
use crate::error::BuildError;
use crate::manager::{blob_ids, id_index, BlobManager, MAX_BLOBS_PER_IMAGE};
use crate::output::BuildOutput;
use crate::table::{entry_describes, BlobTable};
use crate::tree::{
    apply_oci, base_name, char_at, node_paths, oci_whiteout, removed_by, Node, Overlay, Tree,
};
use crate::types::{
    has_feature, ChunkSource, CompressAlgorithm, DigestAlgorithm, RafsVersion, WhiteoutSpec,
    BLOB_FEATURE_SEPARATE,
};

verus! {

/// The paths after applying a node with path `p` under OCI rules.
pub open spec fn apply_path(paths: Seq<Seq<char>>, p: Seq<char>) -> Seq<Seq<char>> {
    if oci_whiteout(p) is Some {
        paths.filter(|q: Seq<char>| !removed_by(q, p))
    } else if id_index(paths, p) is Some {
        paths
    } else {
        paths.push(p)
    }
}

/// The paths after applying a batch of nodes, in order.
pub open spec fn apply_paths(paths: Seq<Seq<char>>, batch: Seq<Seq<char>>) -> Seq<Seq<char>>
    decreases batch.len(),
{
    if batch.len() == 0 {
        paths
    } else {
        apply_path(apply_paths(paths, batch.drop_last()), batch.last())
    }
}

/// The order in which a layer's nodes are applied: walk order, except that
/// each whiteout is moved to the front as it is met.
pub open spec fn layer_batch(walk: Seq<Seq<char>>) -> Seq<Seq<char>>
    decreases walk.len(),
{
    if walk.len() == 0 {
        walk
    } else {
        let b = layer_batch(walk.drop_last());
        if oci_whiteout(walk.last()) is Some {
            seq![walk.last()] + b
        } else {
            b.push(walk.last())
        }
    }
}

/// The paths of the merged tree of layers given by their walk-order paths,
/// lowest first: the lowest layer as it is, then each upper layer's batch.
pub open spec fn merged_paths(layers: Seq<Seq<Seq<char>>>) -> Seq<Seq<char>>
    decreases layers.len(),
{
    if layers.len() == 0 {
        Seq::empty()
    } else if layers.len() == 1 {
        layers[0]
    } else {
        apply_paths(merged_paths(layers.drop_last()), layer_batch(layers.last()))
    }
}

proof fn lemma_filter_paths(nodes: Seq<Node>, p: Seq<char>)
    ensures
        node_paths(nodes.filter(|n: Node| !removed_by(n.path@, p))) == node_paths(nodes).filter(
            |q: Seq<char>| !removed_by(q, p),
        ),
    decreases nodes.len(),
{
    reveal(Seq::filter);
    let pn = |n: Node| !removed_by(n.path@, p);
    let pq = |q: Seq<char>| !removed_by(q, p);
    if nodes.len() > 0 {
        lemma_filter_paths(nodes.drop_last(), p);
        assert(node_paths(nodes).drop_last() =~= node_paths(nodes.drop_last()));
        let f = nodes.drop_last().filter(pn);
        assert(node_paths(f.push(nodes.last())) =~= node_paths(f).push(nodes.last().path@));
    } else {
        assert(node_paths(nodes) =~= Seq::<Seq<char>>::empty());
    }
}

/// Every node of `s` satisfies `p`.
pub open spec fn all_nodes(s: Seq<Node>, p: spec_fn(Node) -> bool) -> bool {
    forall|k: int| 0 <= k < s.len() ==> p(#[trigger] s[k])
}

proof fn lemma_filter_keeps(nodes: Seq<Node>, w: Seq<char>, p: spec_fn(Node) -> bool)
    requires
        all_nodes(nodes, p),
    ensures
        all_nodes(nodes.filter(|n: Node| !removed_by(n.path@, w)), p),
    decreases nodes.len(),
{
    reveal(Seq::filter);
    if nodes.len() > 0 {
        let d = nodes.drop_last();
        assert forall|k: int| 0 <= k < d.len() implies p(#[trigger] d[k]) by {
            assert(d[k] == nodes[k]);
        }
        lemma_filter_keeps(d, w, p);
        assert(p(nodes[nodes.len() - 1]));
    }
}

/// Applying a node that satisfies `p` to nodes that satisfy `p` leaves only
/// nodes that satisfy `p`.
proof fn lemma_apply_oci_keeps(nodes: Seq<Node>, n: Node, p: spec_fn(Node) -> bool)
    requires
        all_nodes(nodes, p),
        p(n),
    ensures
        all_nodes(apply_oci(nodes, n), p),
{
    if oci_whiteout(n.path@) is Some {
        lemma_filter_keeps(nodes, n.path@, p);
    } else {
        let r = apply_oci(nodes, n);
        crate::manager::lemma_id_index_none(node_paths(nodes), n.path@);
        match id_index(node_paths(nodes), n.path@) {
            Some(i) => {
                assert(r == nodes.update(i as int, n));
                assert forall|k: int| 0 <= k < r.len() implies p(#[trigger] r[k]) by {
                    if k != i {
                        assert(r[k] == nodes[k]);
                    }
                }
            },
            None => {
                assert(r == nodes.push(n));
                assert forall|k: int| 0 <= k < r.len() implies p(#[trigger] r[k]) by {
                    if k < nodes.len() {
                        assert(r[k] == nodes[k]);
                    }
                }
            },
        }
    }
}

/// Applying a node changes the tree's paths as `apply_path` says.
pub proof fn lemma_apply_oci_paths(nodes: Seq<Node>, n: Node)
    ensures
        node_paths(apply_oci(nodes, n)) == apply_path(node_paths(nodes), n.path@),
{
    if oci_whiteout(n.path@) is Some {
        lemma_filter_paths(nodes, n.path@);
    } else {
        crate::manager::lemma_id_index_none(node_paths(nodes), n.path@);
        match id_index(node_paths(nodes), n.path@) {
            Some(i) => {
                assert(node_paths(nodes.update(i as int, n)) =~= node_paths(nodes));
            },
            None => {
                assert(node_paths(nodes.push(n)) =~= node_paths(nodes).push(n.path@));
            },
        }
    }
}

/// Filesystem-wide settings of a bootstrap that merged layers must share.
#[derive(Clone, Copy, Debug, PartialEq, Eq, Structural)]
pub struct RafsSuperConfig {
    pub version: RafsVersion,
    pub compressor: CompressAlgorithm,
    pub digester: DigestAlgorithm,
    pub explicit_uidgid: bool,
}

impl RafsSuperConfig {
    /// Fails when `other` differs in version, compressor, digester or uid/gid
    /// policy.
    pub fn check_compatibility(&self, other: &RafsSuperConfig) -> (r: Result<(), BuildError>)
        ensures
            *self == *other ==> r is Ok,
            *self != *other ==> r == Err::<(), BuildError>(BuildError::CorruptMetadata),
    {
        if *self == *other {
            Ok(())
        } else {
            Err(BuildError::CorruptMetadata)
        }
    }
}

/// A per-layer bootstrap as loaded: where it was read from, its settings,
/// its blob table and its nodes in directory walk order.
pub struct LayerBootstrap {
    pub path: String,
    pub config: RafsSuperConfig,
    pub blobs: Vec<BlobInfo>,
    pub nodes: Vec<Node>,
}

/// What a merge produces: the merged tree, the blob manager and its blob
/// table, a fresh bootstrap context targeting the output, and the summary.
pub struct MergeOutput {
    pub tree: Tree,
    pub blob_mgr: BlobManager,
    pub blob_table: BlobTable,
    pub bootstrap_ctx: BootstrapContext,
    pub output: BuildOutput,
}

/// Index of the first `.` at or after `i` in `name`, or its length.
pub open spec fn first_dot_from(name: Seq<char>, i: int) -> int
    decreases name.len() - i,
{
    if i >= name.len() {
        name.len() as int
    } else if name[i] == '.' {
        i
    } else {
        first_dot_from(name, i + 1)
    }
}

/// The blob id a bootstrap's path names: its file name up to the first dot
/// that does not start it.
pub open spec fn meta_path_blob_id(p: Seq<char>) -> Seq<char> {
    let name = base_name(p);
    name.subrange(0, first_dot_from(name, 1))
}

/// The blob id named by a bootstrap path; fails when the path has no file
/// name.
pub fn blob_id_from_meta_path(path: &str) -> (r: Result<String, BuildError>)
    ensures
        base_name(path@).len() == 0 ==> r == Err::<String, BuildError>(BuildError::InvalidConfig),
        base_name(path@).len() > 0 ==> (r matches Ok(id) && id@ == meta_path_blob_id(path@)),
{
    let n = path.unicode_len();
    let start: usize = match crate::tree::last_slash_of(path) {
        Some(i) => i + 1,
        None => 0,
    };
    assert(base_name(path@) =~= path@.subrange(start as int, n as int));
    if start >= n {
        return Err(BuildError::InvalidConfig);
    }
    let ghost name = base_name(path@);
    let mut end: usize = start + 1;
    assert(first_dot_from(name, 1) == first_dot_from(name, (end - start) as int));
    while end < n
        invariant
            start < end <= n,
            n == path@.len(),
            name == path@.subrange(start as int, n as int),
            first_dot_from(name, 1) == first_dot_from(name, (end - start) as int),
        ensures
            start < end <= n,
            first_dot_from(name, 1) == end - start,
        decreases n - end,
    {
        if char_at(path, end) == '.' {
            assert(name[end - start] == '.');
            break;
        }
        end = end + 1;
    }
    assert(first_dot_from(name, 1) == end - start);
    let id = path.substring_char(start, end).to_owned();
    assert(id@ =~= name.subrange(0, end - start));
    Ok(id)
}

fn contains_id(ids: &Vec<String>, id: &String) -> (r: bool)
    ensures
        r == ids@.map_values(|s: String| s@).contains(id@),
{
    let ghost v = ids@.map_values(|s: String| s@);
    let mut i: usize = 0;
    while i < ids.len()
        invariant
            i <= ids@.len(),
            v == ids@.map_values(|s: String| s@),
            forall|k: int| 0 <= k < i ==> v[k] != id@,
        decreases ids.len() - i,
    {
        if ids[i] == *id {
            assert(v[i as int] == id@);
            return true;
        }
        i = i + 1;
    }
    false
}

impl Merger {
    /// The digest at `idx` of an optional override list: none without a list,
    /// an error when the index is past its end or the entry is not 64 hex
    /// digits.
    pub fn get_digest_from_list(digests: &Option<Vec<String>>, idx: usize) -> (r: Result<
        Option<[u8; 32]>,
        BuildError,
    >)
        ensures
            digests is None ==> r == Ok::<Option<[u8; 32]>, BuildError>(None),
            digests matches Some(v) ==> (if idx < v@.len() && is_hex_of_len(v@[idx as int]@, 32) {
                r matches Ok(Some(d)) && d@ == hex_decode(v@[idx as int]@)
            } else {
                r == Err::<Option<[u8; 32]>, BuildError>(BuildError::InvalidConfig)
            }),
    {
        match digests {
            Some(v) => {
                if idx >= v.len() {
                    return Err(BuildError::InvalidConfig);
                }
                match digest_from_hex(v[idx].as_str()) {
                    Some(d) => Ok(Some(d)),
                    None => Err(BuildError::InvalidConfig),
                }
            },
            None => Ok(None),
        }
    }

    /// The size at `idx` of an optional override list: none without a list,
    /// an error when the index is past its end.
    pub fn get_size_from_list(sizes: &Option<Vec<u64>>, idx: usize) -> (r: Result<
        Option<u64>,
        BuildError,
    >)
        ensures
            sizes is None ==> r == Ok::<Option<u64>, BuildError>(None),
            sizes matches Some(v) ==> (if idx < v@.len() {
                r == Ok::<Option<u64>, BuildError>(Some(v@[idx as int]))
            } else {
                r == Err::<Option<u64>, BuildError>(BuildError::InvalidConfig)
            }),
    {
        match sizes {
            Some(v) => {
                if idx >= v.len() {
                    Err(BuildError::InvalidConfig)
                } else {
                    Ok(Some(v[idx]))
                }
            },
            None => Ok(None),
        }
    }
}

/// Merges per-layer bootstraps into the bootstrap of a whole image.
pub struct Merger {}

/// An override list is given and does not have `n` entries.
pub open spec fn list_mismatch<T>(list: Option<Vec<T>>, n: nat) -> bool {
    list matches Some(v) && v@.len() != n
}

/// The walk-order paths of each layer.
pub open spec fn layer_walks(layers: Seq<LayerBootstrap>) -> Seq<Seq<Seq<char>>> {
    layers.map_values(|l: LayerBootstrap| node_paths(l.nodes@))
}

/// The blob ids of the chunk dictionary, if any.
pub open spec fn dict_blob_ids(chunk_dict: Option<LayerBootstrap>) -> Seq<Seq<char>> {
    match chunk_dict {
        Some(d) => d.blobs@.map_values(|b: BlobInfo| b.blob_id@),
        None => Seq::empty(),
    }
}


/// `id` is not among the chunk dictionary's blob ids.
pub open spec fn not_in_dict(dict_ids: Seq<Seq<char>>, id: Seq<char>) -> bool {
    !dict_ids.contains(id)
}

/// The id a blob of layer `l` gets in the merged table. A blob outside the
/// dictionary is the layer's own: it takes the hex of the layer's digest
/// override (unless it keeps metadata separately), else its own id when
/// blobs are accessible, else the id named by the bootstrap path. A
/// dictionary blob keeps the id it is imported under.
pub open spec fn assigned_id(
    cfg: BuildConfiguration,
    src: LayerBootstrap,
    l: int,
    b: BlobInfo,
    dids: Seq<Seq<char>>,
    digests: Option<Vec<String>>,
) -> Seq<char> {
    if not_in_dict(dids, b.blob_id@) {
        if digests is Some && !has_feature(b.features, BLOB_FEATURE_SEPARATE) {
            hex_encode(hex_decode(digests->0@[l]@))
        } else if cfg.blob_accessible {
            b.blob_id@
        } else {
            meta_path_blob_id(src.path@)
        }
    } else {
        import_id(b, ChunkSource::Parent)
    }
}

/// The ids the blobs of layer `l` get, in the layer's blob-table order.
pub open spec fn layer_ids(
    cfg: BuildConfiguration,
    src: LayerBootstrap,
    l: int,
    dids: Seq<Seq<char>>,
    digests: Option<Vec<String>>,
) -> Seq<Seq<char>> {
    src.blobs@.map_values(|b: BlobInfo| assigned_id(cfg, src, l, b, dids, digests))
}

/// `ids` extended by each of `xs` that it does not hold yet, in order.
pub open spec fn dedup_extend(ids: Seq<Seq<char>>, xs: Seq<Seq<char>>) -> Seq<Seq<char>>
    decreases xs.len(),
{
    if xs.len() == 0 {
        ids
    } else {
        let p = dedup_extend(ids, xs.drop_last());
        if id_index(p, xs.last()) is Some {
            p
        } else {
            p.push(xs.last())
        }
    }
}

/// The merged blob ids after the first `n` layers: each assigned id once, in
/// order of first appearance, lower layers first.
pub open spec fn merged_ids(
    cfg: BuildConfiguration,
    srcs: Seq<LayerBootstrap>,
    n: int,
    dids: Seq<Seq<char>>,
    digests: Option<Vec<String>>,
) -> Seq<Seq<char>>
    decreases n,
{
    if n <= 0 {
        Seq::empty()
    } else {
        dedup_extend(
            merged_ids(cfg, srcs, n - 1, dids, digests),
            layer_ids(cfg, srcs[n - 1], n - 1, dids, digests),
        )
    }
}

/// The per-layer override lists of a merge.
pub struct Overrides {
    pub blob_digests: Option<Vec<String>>,
    pub blob_sizes: Option<Vec<u64>>,
    pub blob_toc_digests: Option<Vec<String>>,
    pub blob_toc_sizes: Option<Vec<u64>>,
}

/// `c` is blob `b` of layer `l` imported as a parent blob, with its merged
/// id and, if it is the layer's own blob, the layer's overrides: the digest
/// and size go to the metadata blob when it keeps metadata separately and to
/// the payload otherwise; the ToC digest and size apply either way.
pub open spec fn layer_import(
    c: BlobContext,
    cfg: BuildConfiguration,
    src: LayerBootstrap,
    l: int,
    b: BlobInfo,
    dids: Seq<Seq<char>>,
    o: Overrides,
) -> bool {
    let own = not_in_dict(dids, b.blob_id@);
    let sep = has_feature(b.features, BLOB_FEATURE_SEPARATE);
    &&& c.blob_id@ == assigned_id(cfg, src, l, b, dids, o.blob_digests)
    &&& exists|base: BlobContext|
        #[trigger] base.is_some_import_of(b, ChunkSource::Parent) && c == (BlobContext {
            blob_id: c.blob_id,
            compressed_blob_size: if own && o.blob_sizes is Some && !sep {
                o.blob_sizes->0@[l]
            } else {
                base.compressed_blob_size
            },
            blob_meta_size: if own && o.blob_sizes is Some && sep {
                o.blob_sizes->0@[l]
            } else {
                base.blob_meta_size
            },
            blob_meta_digest: c.blob_meta_digest,
            rafs_blob_toc_digest: c.rafs_blob_toc_digest,
            rafs_blob_toc_size: if own && o.blob_toc_sizes is Some {
                o.blob_toc_sizes->0@[l] as u32
            } else {
                base.rafs_blob_toc_size
            },
            ..base
        }) && c.blob_meta_digest@ == (if own && o.blob_digests is Some && sep {
            hex_decode(o.blob_digests->0@[l]@)
        } else {
            base.blob_meta_digest@
        }) && c.rafs_blob_toc_digest@ == (if own && o.blob_toc_digests is Some {
            hex_decode(o.blob_toc_digests->0@[l]@)
        } else {
            base.rafs_blob_toc_digest@
        })
}

/// `c` is the import of one of the blobs of layer `l`.
pub open spec fn from_layer(
    c: BlobContext,
    cfg: BuildConfiguration,
    src: LayerBootstrap,
    l: int,
    dids: Seq<Seq<char>>,
    o: Overrides,
) -> bool {
    exists|k: int|
        0 <= k < src.blobs@.len() && #[trigger] layer_import(c, cfg, src, l, src.blobs@[k], dids, o)
}

/// `c` is the import of a blob of one of the first `n` layers.
pub open spec fn from_some_layer(
    c: BlobContext,
    cfg: BuildConfiguration,
    srcs: Seq<LayerBootstrap>,
    n: int,
    dids: Seq<Seq<char>>,
    o: Overrides,
) -> bool {
    exists|l: int| 0 <= l < n && #[trigger] from_layer(c, cfg, srcs[l], l, dids, o)
}

/// `n` is one of `nodes` with each chunk's blob index mapped through `m`.
pub open spec fn node_from_map(n: Node, nodes: Seq<Node>, m: Seq<u32>) -> bool {
    exists|k: int|
        0 <= k < nodes.len() && #[trigger] nodes[k].path@ == n.path@ && nodes[k].chunks@.len()
            == n.chunks@.len() && forall|c: int|
            0 <= c < n.chunks@.len() ==> {
                let oc = #[trigger] nodes[k].chunks@[c];
                &&& (oc.blob_index as int) < m.len()
                &&& n.chunks@[c] == ChunkInfo { blob_index: m[oc.blob_index as int], ..oc }
            }
}

/// `n` is a node of layer `l` whose chunks refer, through the merged ids
/// `ids`, to the blobs their layer-local indices named.
pub open spec fn node_from_layer(
    n: Node,
    src: LayerBootstrap,
    l: int,
    ids: Seq<Seq<char>>,
    cfg: BuildConfiguration,
    dids: Seq<Seq<char>>,
    digests: Option<Vec<String>>,
) -> bool {
    exists|k: int|
        0 <= k < src.nodes@.len() && #[trigger] src.nodes@[k].path@ == n.path@
            && src.nodes@[k].chunks@.len() == n.chunks@.len() && forall|c: int|
            0 <= c < n.chunks@.len() ==> {
                let oc = #[trigger] src.nodes@[k].chunks@[c];
                &&& (oc.blob_index as int) < src.blobs@.len()
                &&& id_index(ids, layer_ids(cfg, src, l, dids, digests)[oc.blob_index as int])
                    == Some(n.chunks@[c].blob_index as nat)
                &&& n.chunks@[c] == ChunkInfo { blob_index: n.chunks@[c].blob_index, ..oc }
            }
}

/// A node of the merged tree: an upper addition stamped with the index of
/// the layer it comes from, and made from a node of that layer.
pub open spec fn merged_node(
    n: Node,
    srcs: Seq<LayerBootstrap>,
    layers: int,
    ids: Seq<Seq<char>>,
    cfg: BuildConfiguration,
    dids: Seq<Seq<char>>,
    digests: Option<Vec<String>>,
) -> bool {
    &&& n.overlay == Overlay::UpperAddition
    &&& (n.layer_idx as int) < layers
    &&& node_from_layer(n, srcs[n.layer_idx as int], n.layer_idx as int, ids, cfg, dids, digests)
}

/// The settings every layer must share: the dictionary's, or the lowest
/// layer's.
pub open spec fn expected_config(srcs: Seq<LayerBootstrap>, chunk_dict: Option<LayerBootstrap>) -> RafsSuperConfig {
    match chunk_dict {
        Some(d) => d.config,
        None => srcs[0].config,
    }
}

/// A blob of a layer fits the layer's overrides: if it is the layer's own,
/// the digest overrides are 64 hex digits and its id can be found.
pub open spec fn own_blob_ok(
    cfg: BuildConfiguration,
    src: LayerBootstrap,
    l: int,
    b: BlobInfo,
    dids: Seq<Seq<char>>,
    o: Overrides,
) -> bool {
    not_in_dict(dids, b.blob_id@) ==> {
        &&& (o.blob_digests matches Some(v) ==> is_hex_of_len(v@[l]@, 32))
        &&& (o.blob_toc_digests matches Some(v) ==> is_hex_of_len(v@[l]@, 32))
        &&& (cfg.blob_accessible || base_name(src.path@).len() > 0)
    }
}

pub open spec fn some_incompatible(srcs: Seq<LayerBootstrap>, chunk_dict: Option<LayerBootstrap>) -> bool {
    exists|l: int| 0 <= l < srcs.len() && #[trigger] srcs[l].config != expected_config(srcs, chunk_dict)
}

pub open spec fn some_fixup(srcs: Seq<LayerBootstrap>) -> bool {
    exists|l: int, k: int|
        0 <= l < srcs.len() && 0 <= k < srcs[l].blobs@.len() && needs_meta_fixup(
            #[trigger] srcs[l].blobs@[k],
            ChunkSource::Parent,
        )
}

/// All blobs of all layers have chunk size `c`.
pub open spec fn all_chunk_sizes(srcs: Seq<LayerBootstrap>, c: u32) -> bool {
    forall|l: int, k: int|
        0 <= l < srcs.len() && 0 <= k < srcs[l].blobs@.len() ==> (#[trigger] srcs[l].blobs@[k]).chunk_size
            == c
}

pub open spec fn two_own_blobs(srcs: Seq<LayerBootstrap>, dids: Seq<Seq<char>>) -> bool {
    exists|l: int, i: int, j: int|
        0 <= l < srcs.len() && 0 <= i < j < srcs[l].blobs@.len() && not_in_dict(
            dids,
            (#[trigger] srcs[l].blobs@[i]).blob_id@,
        ) && not_in_dict(dids, (#[trigger] srcs[l].blobs@[j]).blob_id@)
}

pub open spec fn some_bad_override(
    cfg: BuildConfiguration,
    srcs: Seq<LayerBootstrap>,
    dids: Seq<Seq<char>>,
    o: Overrides,
) -> bool {
    exists|l: int, k: int|
        0 <= l < srcs.len() && 0 <= k < srcs[l].blobs@.len() && !own_blob_ok(
            cfg,
            srcs[l],
            l,
            #[trigger] srcs[l].blobs@[k],
            dids,
            o,
        )
}

pub open spec fn some_dangling_chunk(srcs: Seq<LayerBootstrap>) -> bool {
    exists|l: int, k: int, c: int|
        0 <= l < srcs.len() && 0 <= k < srcs[l].nodes@.len() && 0 <= c
            < srcs[l].nodes@[k].chunks@.len() && (#[trigger] srcs[l].nodes@[k].chunks@[c]).blob_index
            >= srcs[l].blobs@.len()
}

pub open spec fn some_large_prefetch(srcs: Seq<LayerBootstrap>) -> bool {
    exists|l: int, k: int|
        0 <= l < srcs.len() && 0 <= k < srcs[l].blobs@.len() && (#[trigger] srcs[l].blobs@[k]).prefetch_size
            > u32::MAX
}

/// The merge of `srcs` succeeds whenever no backend call is needed: the
/// layers are compatible, share one chunk size, own at most one blob each
/// with well-formed overrides, their chunks name blobs they have, there are
/// at most 65536 layers and 256 merged blobs, and prefetch sizes fit in 32
/// bits.
pub open spec fn merge_succeeds(
    cfg: BuildConfiguration,
    srcs: Seq<LayerBootstrap>,
    chunk_dict: Option<LayerBootstrap>,
    o: Overrides,
) -> bool {
    let dids = dict_blob_ids(chunk_dict);
    &&& srcs.len() <= 0x10000
    &&& !some_incompatible(srcs, chunk_dict)
    &&& !some_fixup(srcs)
    &&& exists|c: u32| all_chunk_sizes(srcs, c)
    &&& !two_own_blobs(srcs, dids)
    &&& !some_bad_override(cfg, srcs, dids, o)
    &&& !some_dangling_chunk(srcs)
    &&& merged_ids(cfg, srcs, srcs.len() as int, dids, o.blob_digests).len() <= MAX_BLOBS_PER_IMAGE
    &&& !some_large_prefetch(srcs)
}

proof fn lemma_dedup_extend_grows(ids: Seq<Seq<char>>, xs: Seq<Seq<char>>)
    ensures
        dedup_extend(ids, xs).len() >= ids.len(),
        dedup_extend(ids, xs).take(ids.len() as int) == ids,
    decreases xs.len(),
{
    if xs.len() > 0 {
        lemma_dedup_extend_grows(ids, xs.drop_last());
        let p = dedup_extend(ids, xs.drop_last());
        assert(p.push(xs.last()).take(ids.len() as int) =~= p.take(ids.len() as int));
    } else {
        assert(ids.take(ids.len() as int) =~= ids);
    }
}

proof fn lemma_dedup_extend_prefix_len(ids: Seq<Seq<char>>, xs: Seq<Seq<char>>, i: int)
    requires
        0 <= i <= xs.len(),
    ensures
        dedup_extend(ids, xs.take(i)).len() <= dedup_extend(ids, xs).len(),
    decreases xs.len() - i,
{
    if i < xs.len() {
        lemma_dedup_extend_prefix_len(ids, xs, i + 1);
        assert(xs.take(i + 1).drop_last() =~= xs.take(i));
    } else {
        assert(xs.take(i) =~= xs);
    }
}

proof fn lemma_merged_ids_monotone(
    cfg: BuildConfiguration,
    srcs: Seq<LayerBootstrap>,
    m: int,
    n: int,
    dids: Seq<Seq<char>>,
    digests: Option<Vec<String>>,
)
    requires
        0 <= m <= n,
    ensures
        merged_ids(cfg, srcs, m, dids, digests).len() <= merged_ids(cfg, srcs, n, dids, digests).len(),
    decreases n - m,
{
    if m < n {
        lemma_merged_ids_monotone(cfg, srcs, m + 1, n, dids, digests);
        lemma_dedup_extend_grows(
            merged_ids(cfg, srcs, m, dids, digests),
            layer_ids(cfg, srcs[m], m, dids, digests),
        );
    }
}

/// A lookup that hits in `ids` hits at the same place in a sequence that
/// starts with `ids`.
proof fn lemma_id_index_extend(ids: Seq<Seq<char>>, more: Seq<Seq<char>>, x: Seq<char>)
    requires
        ids.len() <= more.len(),
        more.take(ids.len() as int) == ids,
        id_index(ids, x) is Some,
    ensures
        id_index(more, x) == id_index(ids, x),
{
    crate::manager::lemma_id_index_prefix(more, ids.len(), x);
}

proof fn lemma_node_from_layer_extend(
    n: Node,
    src: LayerBootstrap,
    l: int,
    ids: Seq<Seq<char>>,
    more: Seq<Seq<char>>,
    cfg: BuildConfiguration,
    dids: Seq<Seq<char>>,
    digests: Option<Vec<String>>,
)
    requires
        node_from_layer(n, src, l, ids, cfg, dids, digests),
        ids.len() <= more.len(),
        more.take(ids.len() as int) == ids,
    ensures
        node_from_layer(n, src, l, more, cfg, dids, digests),
{
    let k = choose|k: int|
        0 <= k < src.nodes@.len() && #[trigger] src.nodes@[k].path@ == n.path@
            && src.nodes@[k].chunks@.len() == n.chunks@.len() && forall|c: int|
            0 <= c < n.chunks@.len() ==> {
                let oc = #[trigger] src.nodes@[k].chunks@[c];
                &&& (oc.blob_index as int) < src.blobs@.len()
                &&& id_index(ids, layer_ids(cfg, src, l, dids, digests)[oc.blob_index as int])
                    == Some(n.chunks@[c].blob_index as nat)
                &&& n.chunks@[c] == ChunkInfo { blob_index: n.chunks@[c].blob_index, ..oc }
            };
    assert forall|c: int| 0 <= c < n.chunks@.len() implies {
        let oc = #[trigger] src.nodes@[k].chunks@[c];
        &&& (oc.blob_index as int) < src.blobs@.len()
        &&& id_index(more, layer_ids(cfg, src, l, dids, digests)[oc.blob_index as int]) == Some(
            n.chunks@[c].blob_index as nat,
        )
        &&& n.chunks@[c] == ChunkInfo { blob_index: n.chunks@[c].blob_index, ..oc }
    } by {
        let oc = src.nodes@[k].chunks@[c];
        lemma_id_index_extend(ids, more, layer_ids(cfg, src, l, dids, digests)[oc.blob_index as int]);
    }
}

proof fn lemma_node_from_map_to_layer(
    n: Node,
    src: LayerBootstrap,
    l: int,
    ids: Seq<Seq<char>>,
    m: Seq<u32>,
    cfg: BuildConfiguration,
    dids: Seq<Seq<char>>,
    digests: Option<Vec<String>>,
)
    requires
        node_from_map(n, src.nodes@, m),
        m.len() == src.blobs@.len(),
        forall|j: int|
            0 <= j < m.len() ==> id_index(ids, layer_ids(cfg, src, l, dids, digests)[j]) == Some(
                #[trigger] m[j] as nat,
            ),
    ensures
        node_from_layer(n, src, l, ids, cfg, dids, digests),
{
    let nodes = src.nodes@;
    let k = choose|k: int|
        0 <= k < nodes.len() && #[trigger] nodes[k].path@ == n.path@ && nodes[k].chunks@.len()
            == n.chunks@.len() && forall|c: int|
            0 <= c < n.chunks@.len() ==> {
                let oc = #[trigger] nodes[k].chunks@[c];
                &&& (oc.blob_index as int) < m.len()
                &&& n.chunks@[c] == ChunkInfo { blob_index: m[oc.blob_index as int], ..oc }
            };
    assert forall|c: int| 0 <= c < n.chunks@.len() implies {
        let oc = #[trigger] src.nodes@[k].chunks@[c];
        &&& (oc.blob_index as int) < src.blobs@.len()
        &&& id_index(ids, layer_ids(cfg, src, l, dids, digests)[oc.blob_index as int]) == Some(
            n.chunks@[c].blob_index as nat,
        )
        &&& n.chunks@[c] == ChunkInfo { blob_index: n.chunks@[c].blob_index, ..oc }
    } by {
        let oc = nodes[k].chunks@[c];
        assert(m[oc.blob_index as int] == n.chunks@[c].blob_index);
    }
}

impl Merger {
    /// Gives blob `blob` of layer `l`, imported as `blob_ctx`, its merged id
    /// and, if it is the layer's own blob, the layer's overrides.
    fn apply_overrides(
        ctx: &BuildContext,
        layer: &LayerBootstrap,
        l: usize,
        n: usize,
        blob: &BlobInfo,
        is_own: bool,
        blob_ctx: BlobContext,
        o: &Overrides,
        dids: Ghost<Seq<Seq<char>>>,
    ) -> (r: Result<BlobContext, BuildError>)
        requires
            blob_ctx.is_some_import_of(*blob, ChunkSource::Parent),
            is_own == not_in_dict(dids@, blob.blob_id@),
            l < n,
            !list_mismatch(o.blob_digests, n as nat),
            !list_mismatch(o.blob_sizes, n as nat),
            !list_mismatch(o.blob_toc_digests, n as nat),
            !list_mismatch(o.blob_toc_sizes, n as nat),
        ensures
            r matches Ok(c) ==> layer_import(c, ctx.configuration, *layer, l as int, *blob, dids@, *o),
            r is Err ==> r == Err::<BlobContext, BuildError>(BuildError::InvalidConfig) && !own_blob_ok(
                ctx.configuration,
                *layer,
                l as int,
                *blob,
                dids@,
                *o,
            ),
    {
        let ghost base = blob_ctx;
        let mut blob_ctx = blob_ctx;
        if is_own {
            if ctx.configuration.blob_accessible {
                blob_ctx.blob_id = blob.blob_id.clone();
            } else {
                blob_ctx.blob_id = match blob_id_from_meta_path(layer.path.as_str()) {
                    Ok(id) => id,
                    Err(e) => {
                        return Err(e);
                    },
                };
            }
            let separate = blob.features & BLOB_FEATURE_SEPARATE != 0;
            match Self::get_digest_from_list(&o.blob_digests, l) {
                Ok(Some(digest)) => {
                    if separate {
                        blob_ctx.blob_meta_digest = digest;
                    } else {
                        blob_ctx.blob_id = digest_to_hex(&digest);
                    }
                },
                Ok(None) => {},
                Err(e) => {
                    return Err(e);
                },
            }
            match Self::get_size_from_list(&o.blob_sizes, l) {
                Ok(Some(size)) => {
                    if separate {
                        blob_ctx.blob_meta_size = size;
                    } else {
                        blob_ctx.compressed_blob_size = size;
                    }
                },
                Ok(None) => {},
                Err(e) => {
                    return Err(e);
                },
            }
            match Self::get_digest_from_list(&o.blob_toc_digests, l) {
                Ok(Some(digest)) => {
                    blob_ctx.rafs_blob_toc_digest = digest;
                },
                Ok(None) => {},
                Err(e) => {
                    return Err(e);
                },
            }
            match Self::get_size_from_list(&o.blob_toc_sizes, l) {
                Ok(Some(size)) => {
                    blob_ctx.rafs_blob_toc_size = size as u32;
                },
                Ok(None) => {},
                Err(e) => {
                    return Err(e);
                },
            }
        }
        proof {
            let sep = has_feature(blob.features, BLOB_FEATURE_SEPARATE);
            let own = is_own;
            assert(blob_ctx == (BlobContext {
                blob_id: blob_ctx.blob_id,
                compressed_blob_size: if own && o.blob_sizes is Some && !sep {
                    o.blob_sizes->0@[l as int]
                } else {
                    base.compressed_blob_size
                },
                blob_meta_size: if own && o.blob_sizes is Some && sep {
                    o.blob_sizes->0@[l as int]
                } else {
                    base.blob_meta_size
                },
                blob_meta_digest: blob_ctx.blob_meta_digest,
                rafs_blob_toc_digest: blob_ctx.rafs_blob_toc_digest,
                rafs_blob_toc_size: if own && o.blob_toc_sizes is Some {
                    o.blob_toc_sizes->0@[l as int] as u32
                } else {
                    base.rafs_blob_toc_size
                },
                ..base
            }));
            assert(base.is_some_import_of(*blob, ChunkSource::Parent));
        }
        Ok(blob_ctx)
    }

    /// Adds `blob_ctx` to the table unless a blob with its id is there, and
    /// returns the index of the blob with that id. Fails when the id is new
    /// and the table is full.
    fn register_blob(blob_mgr: &mut BlobManager, blob_ctx: BlobContext) -> (r: Result<u32, BuildError>)
        requires
            old(blob_mgr).wf(),
        ensures
            final(blob_mgr).wf(),
            final(blob_mgr).current() == old(blob_mgr).current(),
            final(blob_mgr).blobs().len() >= old(blob_mgr).blobs().len(),
            forall|i: int|
                0 <= i < old(blob_mgr).blobs().len() ==> #[trigger] final(blob_mgr).blobs()[i]
                    == old(blob_mgr).blobs()[i],
            forall|i: int|
                old(blob_mgr).blobs().len() <= i < final(blob_mgr).blobs().len() ==> #[trigger] final(blob_mgr).blobs()[i] == blob_ctx,
            r matches Ok(idx) ==> {
                &&& final(blob_mgr).ids() == if id_index(old(blob_mgr).ids(), blob_ctx.blob_id@) is Some {
                    old(blob_mgr).ids()
                } else {
                    old(blob_mgr).ids().push(blob_ctx.blob_id@)
                }
                &&& id_index(final(blob_mgr).ids(), blob_ctx.blob_id@) == Some(idx as nat)
            },
            r is Err ==> r == Err::<u32, BuildError>(BuildError::Overflow) && id_index(
                old(blob_mgr).ids(),
                blob_ctx.blob_id@,
            ) is None && old(blob_mgr).ids().len() == MAX_BLOBS_PER_IMAGE,
    {
        match blob_mgr.get_blob_idx_by_id(blob_ctx.blob_id.as_str()) {
            Some(idx) => {
                proof {
                    crate::manager::lemma_id_index_none(blob_mgr.ids(), blob_ctx.blob_id@);
                }
                Ok(idx)
            },
            None => {
                let idx = match blob_mgr.alloc_index() {
                    Ok(idx) => idx,
                    Err(e) => {
                        return Err(e);
                    },
                };
                let ghost before = blob_mgr.blobs();
                let ghost id = blob_ctx.blob_id@;
                blob_mgr.add(blob_ctx);
                proof {
                    assert(blob_ids(before.push(blob_ctx)) =~= blob_ids(before).push(id));
                    crate::manager::lemma_id_index_push(blob_ids(before), id, id);
                    assert(blob_ids(before) == old(blob_mgr).ids());
                    assert(blob_mgr.ids() == old(blob_mgr).ids().push(id));
                    assert(idx as nat == old(blob_mgr).ids().len());
                    assert(id_index(blob_mgr.ids(), id) == Some(idx as nat));
                }
                Ok(idx)
            },
        }
    }

    /// Imports the blobs of layer `l` into `blob_mgr` and returns the map
    /// from the layer's blob indices to the manager's. A blob not in the
    /// chunk dictionary is the layer's own; it takes the per-layer overrides
    /// and, unless blobs are accessible under their ids, the id named by the
    /// bootstrap path. Blobs with an id the manager has are reused.
    #[verifier::rlimit(100)]
    fn import_layer_blobs<B: BlobBackend>(
        ctx: &BuildContext,
        blob_mgr: &mut BlobManager,
        layer: &LayerBootstrap,
        dict_ids: &Vec<String>,
        l: usize,
        n: usize,
        o: &Overrides,
        chunk_size: &mut Option<u32>,
        backend: &B,
    ) -> (r: Result<Vec<u32>, BuildError>)
        requires
            old(blob_mgr).wf(),
            l < n,
            !list_mismatch(o.blob_digests, n as nat),
            !list_mismatch(o.blob_sizes, n as nat),
            !list_mismatch(o.blob_toc_digests, n as nat),
            !list_mismatch(o.blob_toc_sizes, n as nat),
        ensures
            ({
                let dids = dict_ids@.map_values(|s: String| s@);
                let cfg = ctx.configuration;
                let blobs = layer.blobs@;
                let xs = layer_ids(cfg, *layer, l as int, dids, o.blob_digests);
                &&& final(blob_mgr).wf()
                &&& final(blob_mgr).blobs().len() >= old(blob_mgr).blobs().len()
                &&& forall|i: int|
                    0 <= i < old(blob_mgr).blobs().len() ==> #[trigger] final(blob_mgr).blobs()[i]
                        == old(blob_mgr).blobs()[i]
                &&& forall|i: int|
                    old(blob_mgr).blobs().len() <= i < final(blob_mgr).blobs().len() ==> from_layer(
                        #[trigger] final(blob_mgr).blobs()[i],
                        cfg,
                        *layer,
                        l as int,
                        dids,
                        *o,
                    )
                &&& final(blob_mgr).current() == old(blob_mgr).current()
                &&& (*old(chunk_size) matches Some(c) ==> *final(chunk_size) == Some(c))
                &&& (*final(chunk_size) matches Some(c) ==> *old(chunk_size) == Some(c) || exists|k: int|
                    0 <= k < blobs.len() && (#[trigger] blobs[k]).chunk_size == c)
                &&& (r matches Ok(m) ==> {
                    &&& final(blob_mgr).ids() == dedup_extend(old(blob_mgr).ids(), xs)
                    &&& m@.len() == blobs.len()
                    &&& forall|k: int|
                        0 <= k < m@.len() ==> id_index(final(blob_mgr).ids(), xs[k]) == Some(
                            #[trigger] m@[k] as nat,
                        )
                    &&& (blobs.len() > 0 ==> *final(chunk_size) is Some)
                    &&& (blobs.len() == 0 ==> *final(chunk_size) == *old(chunk_size))
                    &&& forall|k: int|
                        0 <= k < blobs.len() ==> Some((#[trigger] blobs[k]).chunk_size) == *final(chunk_size)
                    &&& forall|i: int, j: int|
                        0 <= i < j < blobs.len() ==> !(not_in_dict(dids, (#[trigger] blobs[i]).blob_id@)
                            && not_in_dict(dids, (#[trigger] blobs[j]).blob_id@))
                })
                &&& (r == Err::<Vec<u32>, BuildError>(BuildError::Inconsistent) ==> (exists|k: int|
                    0 <= k < blobs.len() && *old(chunk_size) is Some && (#[trigger] blobs[k]).chunk_size
                        != old(chunk_size)->0) || (exists|i: int, j: int|
                    0 <= i < blobs.len() && 0 <= j < blobs.len() && (#[trigger] blobs[i]).chunk_size
                        != (#[trigger] blobs[j]).chunk_size) || (exists|i: int, j: int|
                    0 <= i < j < blobs.len() && not_in_dict(dids, (#[trigger] blobs[i]).blob_id@)
                        && not_in_dict(dids, (#[trigger] blobs[j]).blob_id@)))
                &&& (r == Err::<Vec<u32>, BuildError>(BuildError::InvalidConfig) ==> exists|k: int|
                    0 <= k < blobs.len() && !own_blob_ok(cfg, *layer, l as int, #[trigger] blobs[k], dids, *o))
                &&& (r == Err::<Vec<u32>, BuildError>(BuildError::Overflow) ==> dedup_extend(
                    old(blob_mgr).ids(),
                    xs,
                ).len() > MAX_BLOBS_PER_IMAGE)
                &&& (r == Err::<Vec<u32>, BuildError>(BuildError::BackendFailure) ==> exists|k: int|
                    0 <= k < blobs.len() && needs_meta_fixup(#[trigger] blobs[k], ChunkSource::Parent))
                &&& (r is Err ==> r == Err::<Vec<u32>, BuildError>(BuildError::Inconsistent) || r == Err::<
                    Vec<u32>,
                    BuildError,
                >(BuildError::InvalidConfig) || r == Err::<Vec<u32>, BuildError>(BuildError::Overflow)
                    || r == Err::<Vec<u32>, BuildError>(BuildError::BackendFailure))
            }),
    {
        let ghost dids = dict_ids@.map_values(|s: String| s@);
        let ghost cfg = ctx.configuration;
        let ghost xs = layer_ids(cfg, *layer, l as int, dids, o.blob_digests);
        let ghost ids0 = blob_mgr.ids();
        let ghost cs0 = *chunk_size;
        let blobs = &layer.blobs;
        let mut blob_idx_map: Vec<u32> = Vec::new();
        let mut parent_blob_added = false;
        let ghost mut own: int = -1;
        let mut i: usize = 0;
        assert(xs.take(0) =~= Seq::<Seq<char>>::empty());
        while i < blobs.len()
            invariant
                i <= blobs@.len(),
                blobs == &layer.blobs,
                l < n,
                !list_mismatch(o.blob_digests, n as nat),
                !list_mismatch(o.blob_sizes, n as nat),
                !list_mismatch(o.blob_toc_digests, n as nat),
                !list_mismatch(o.blob_toc_sizes, n as nat),
                dids == dict_ids@.map_values(|s: String| s@),
                cfg == ctx.configuration,
                xs == layer_ids(cfg, *layer, l as int, dids, o.blob_digests),
                ids0 == old(blob_mgr).ids(),
                cs0 == *old(chunk_size),
                blob_mgr.wf(),
                blob_mgr.blobs().len() >= old(blob_mgr).blobs().len(),
                forall|k: int|
                    0 <= k < old(blob_mgr).blobs().len() ==> #[trigger] blob_mgr.blobs()[k]
                        == old(blob_mgr).blobs()[k],
                forall|k: int|
                    old(blob_mgr).blobs().len() <= k < blob_mgr.blobs().len() ==> from_layer(
                        #[trigger] blob_mgr.blobs()[k],
                        cfg,
                        *layer,
                        l as int,
                        dids,
                        *o,
                    ),
                blob_mgr.current() == old(blob_mgr).current(),
                blob_mgr.ids() == dedup_extend(ids0, xs.take(i as int)),
                blob_idx_map@.len() == i,
                forall|k: int|
                    0 <= k < i ==> id_index(blob_mgr.ids(), xs[k]) == Some(#[trigger] blob_idx_map@[k] as nat),
                i > 0 ==> *chunk_size is Some,
                cs0 matches Some(c) ==> *chunk_size == Some(c),
                i == 0 ==> *chunk_size == cs0,
                *chunk_size matches Some(c) ==> cs0 == Some(c) || exists|k: int|
                    0 <= k < blobs@.len() && (#[trigger] blobs@[k]).chunk_size == c,
                forall|k: int| 0 <= k < i ==> Some((#[trigger] blobs@[k]).chunk_size) == *chunk_size,
                parent_blob_added <==> (0 <= own < i),
                own < i,
                0 <= own < i ==> not_in_dict(dids, blobs@[own].blob_id@),
                forall|k: int|
                    0 <= k < i && k != own ==> !not_in_dict(dids, (#[trigger] blobs@[k]).blob_id@),
            decreases blobs.len() - i,
        {
            let blob = &blobs[i];
            let mut blob_ctx = match BlobContext::from(backend, blob, ChunkSource::Parent) {
                Ok(c) => c,
                Err(e) => {
                    return Err(e);
                },
            };
            let ghost base = blob_ctx;
            match *chunk_size {
                Some(c) => {
                    if c != blob_ctx.chunk_size {
                        proof {
                            if cs0 is None {
                                let k = choose|k: int| 0 <= k < blobs@.len() && (#[trigger] blobs@[k]).chunk_size == c;
                                assert(blobs@[k].chunk_size != blobs@[i as int].chunk_size);
                            }
                        }
                        return Err(BuildError::Inconsistent);
                    }
                },
                None => {
                    *chunk_size = Some(blob_ctx.chunk_size);
                },
            }
            let is_own = !contains_id(dict_ids, &blob.blob_id);
            if is_own {
                if parent_blob_added {
                    return Err(BuildError::Inconsistent);
                }
                parent_blob_added = true;
                proof {
                    own = i as int;
                }
            }
            let blob_ctx = match Self::apply_overrides(
                ctx,
                layer,
                l,
                n,
                blob,
                is_own,
                blob_ctx,
                o,
                Ghost(dids),
            ) {
                Ok(c) => c,
                Err(e) => {
                    return Err(e);
                },
            };
            proof {
                assert(xs[i as int] == assigned_id(cfg, *layer, l as int, blobs@[i as int], dids, o.blob_digests));
                assert(from_layer(blob_ctx, cfg, *layer, l as int, dids, *o));
                assert(xs.take(i + 1).drop_last() =~= xs.take(i as int));
                assert(xs.take(i + 1).last() == xs[i as int]);
            }
            let ghost ids_before = blob_mgr.ids();
            let idx = match Self::register_blob(blob_mgr, blob_ctx) {
                Ok(idx) => idx,
                Err(e) => {
                    proof {
                        lemma_dedup_extend_prefix_len(ids0, xs, i + 1);
                    }
                    return Err(e);
                },
            };
            proof {
                assert forall|k: int| 0 <= k < i implies id_index(blob_mgr.ids(), xs[k]) == Some(
                    #[trigger] blob_idx_map@[k] as nat,
                ) by {
                    crate::manager::lemma_id_index_push(ids_before, xs[i as int], xs[k]);
                }
            }
            blob_idx_map.push(idx);
            i = i + 1;
        }
        assert(xs.take(i as int) =~= xs);
        Ok(blob_idx_map)
    }

    /// Stamps the nodes of layer `layer_idx` as upper additions of that layer
    /// and maps their chunks' blob indices through `blob_idx_map`. With
    /// `hoist_whiteouts` each whiteout is moved to the front as it is met.
    /// Fails on a chunk of a blob the layer does not have, or on more layers
    /// than 16-bit indices allow.
    fn prepare_nodes(
        nodes: Vec<Node>,
        blob_idx_map: &Vec<u32>,
        layer_idx: usize,
        hoist_whiteouts: bool,
    ) -> (r: Result<Vec<Node>, BuildError>)
        ensures
            r matches Ok(v) ==> {
                &&& node_paths(v@) == if hoist_whiteouts {
                    layer_batch(node_paths(nodes@))
                } else {
                    node_paths(nodes@)
                }
                &&& forall|k: int|
                    0 <= k < v@.len() ==> {
                        let x = #[trigger] v@[k];
                        &&& x.overlay == Overlay::UpperAddition
                        &&& x.layer_idx as int == layer_idx
                        &&& node_from_map(x, nodes@, blob_idx_map@)
                    }
            },
            r == Err::<Vec<Node>, BuildError>(BuildError::Overflow) ==> layer_idx > u16::MAX,
            r == Err::<Vec<Node>, BuildError>(BuildError::CorruptMetadata) ==> exists|k: int, c: int|
                0 <= k < nodes@.len() && 0 <= c < nodes@[k].chunks@.len() && (#[trigger] nodes@[k].chunks@[c]).blob_index
                    >= blob_idx_map@.len(),
            r is Err ==> r == Err::<Vec<Node>, BuildError>(BuildError::Overflow) || r == Err::<
                Vec<Node>,
                BuildError,
            >(BuildError::CorruptMetadata),
    {
        let ghost orig = nodes@;
        let ghost walk = node_paths(nodes@);
        let mut rest = nodes;
        let mut out: Vec<Node> = Vec::new();
        let ghost mut i: int = 0;
        assert(walk.take(0) =~= Seq::<Seq<char>>::empty());
        assert(node_paths(out@) =~= Seq::<Seq<char>>::empty());
        assert(orig.skip(0) =~= orig);
        while rest.len() > 0
            invariant
                0 <= i <= orig.len(),
                orig == nodes@,
                walk == node_paths(orig),
                rest@ == orig.skip(i),
                node_paths(out@) == if hoist_whiteouts {
                    layer_batch(walk.take(i))
                } else {
                    walk.take(i)
                },
                forall|k: int|
                    0 <= k < out@.len() ==> {
                        let x = #[trigger] out@[k];
                        &&& x.overlay == Overlay::UpperAddition
                        &&& x.layer_idx as int == layer_idx
                        &&& node_from_map(x, orig, blob_idx_map@)
                    },
            decreases rest.len(),
        {
            if layer_idx > u16::MAX as usize {
                return Err(BuildError::Overflow);
            }
            let ghost rest0 = rest@;
            let mut node = rest.remove(0);
            let ghost o = orig[i];
            proof {
                assert(rest0[0] == orig[i]);
                assert(rest@ =~= orig.skip(i + 1));
            }
            let mut k: usize = 0;
            while k < node.chunks.len()
                invariant
                    node.path@ == o.path@,
                    node.chunks@.len() == o.chunks@.len(),
                    k <= node.chunks@.len(),
                    forall|c: int|
                        0 <= c < k ==> {
                            let oc = #[trigger] o.chunks@[c];
                            &&& (oc.blob_index as int) < blob_idx_map@.len()
                            &&& node.chunks@[c] == ChunkInfo { blob_index: blob_idx_map@[oc.blob_index as int], ..oc }
                        },
                    forall|c: int| k <= c < node.chunks@.len() ==> node.chunks@[c] == #[trigger] o.chunks@[c],
                    0 <= i < orig.len(),
                    o == orig[i],
                    orig == nodes@,
                decreases node.chunks.len() - k,
            {
                let mut c = node.chunks[k];
                let bi = c.blob_index as usize;
                if bi >= blob_idx_map.len() {
                    proof {
                        assert(orig[i].chunks@[k as int].blob_index >= blob_idx_map@.len());
                    }
                    return Err(BuildError::CorruptMetadata);
                }
                c.blob_index = blob_idx_map[bi];
                node.chunks.set(k, c);
                k = k + 1;
            }
            node.layer_idx = layer_idx as u16;
            node.overlay = Overlay::UpperAddition;
            proof {
                assert(node_from_map(node, orig, blob_idx_map@)) by {
                    assert(orig[i].path@ == node.path@);
                }
            }
            let ghost path = node.path@;
            let ghost out0 = out@;
            proof {
                assert(walk[i] == path);
                assert(walk.take(i + 1).drop_last() =~= walk.take(i));
                assert(walk.take(i + 1).last() == path);
            }
            let hoist = match node.whiteout_type(WhiteoutSpec::Oci) {
                Some(_) => hoist_whiteouts,
                None => false,
            };
            if hoist {
                out.insert(0, node);
                assert(node_paths(out@) =~= seq![path] + node_paths(out0));
            } else {
                out.push(node);
                assert(node_paths(out@) =~= node_paths(out0).push(path));
            }
            proof {
                i = i + 1;
            }
        }
        assert(walk.take(i) =~= walk);
        Ok(out)
    }

    /// Applies a batch of nodes to the tree, in order, under OCI rules.
    fn apply_batch(tree: &mut Tree, batch: Vec<Node>, p: Ghost<spec_fn(Node) -> bool>)
        requires
            all_nodes(old(tree).nodes(), p@),
            all_nodes(batch@, p@),
        ensures
            node_paths(final(tree).nodes()) == apply_paths(node_paths(old(tree).nodes()), node_paths(batch@)),
            all_nodes(final(tree).nodes(), p@),
    {
        let ghost start = node_paths(tree.nodes());
        let ghost bp = node_paths(batch@);
        let mut rest = batch;
        let ghost mut j: int = 0;
        assert(bp.take(0) =~= Seq::<Seq<char>>::empty());
        while rest.len() > 0
            invariant
                0 <= j <= bp.len(),
                node_paths(rest@) == bp.skip(j),
                all_nodes(rest@, p@),
                node_paths(tree.nodes()) == apply_paths(start, bp.take(j)),
                all_nodes(tree.nodes(), p@),
            decreases rest.len(),
        {
            let ghost rest0 = rest@;
            let node = rest.remove(0);
            let ghost before = tree.nodes();
            proof {
                assert(p@(rest0[0]));
                assert(node_paths(rest0)[0] == node.path@);
                assert(node_paths(rest@) =~= node_paths(rest0).skip(1));
                assert(bp.skip(j)[0] == bp[j]);
                assert(node_paths(rest0).skip(1) =~= bp.skip(j + 1));
                assert(bp.take(j + 1).drop_last() =~= bp.take(j));
                assert(bp.take(j + 1).last() == node.path@);
                assert forall|k: int| 0 <= k < rest@.len() implies p@(#[trigger] rest@[k]) by {
                    assert(rest@[k] == rest0[k + 1]);
                }
            }
            tree.apply(node, WhiteoutSpec::Oci);
            proof {
                lemma_apply_oci_paths(before, node);
                lemma_apply_oci_keeps(before, node, p@);
                j = j + 1;
            }
        }
        assert(bp.take(j) =~= bp);
    }

    /// Merges per-layer bootstraps, lowest layer first, into the bootstrap of
    /// the image.
    ///
    /// Each override list, if given, has one entry per layer. Layers must
    /// agree with the chunk dictionary's settings (or, without one, with the
    /// lowest layer's), share one chunk size, and each own at most one blob
    /// outside the dictionary. The lowest layer's nodes form the tree as they
    /// are; each upper layer's nodes are applied under OCI rules with its
    /// whiteouts first. The build context takes the last layer's settings and
    /// the common chunk size.
    #[verifier::rlimit(100)]
    pub fn merge<B: BlobBackend>(
        ctx: &mut BuildContext,
        sources: Vec<LayerBootstrap>,
        blob_digests: Option<Vec<String>>,
        blob_sizes: Option<Vec<u64>>,
        blob_toc_digests: Option<Vec<String>>,
        blob_toc_sizes: Option<Vec<u64>>,
        target: ArtifactStorage,
        chunk_dict: Option<LayerBootstrap>,
        backend: &B,
    ) -> (r: Result<MergeOutput, BuildError>)
        ensures
            ({
                let n = sources@.len();
                let cfg = old(ctx).configuration;
                let dids = dict_blob_ids(chunk_dict);
                let o = Overrides { blob_digests, blob_sizes, blob_toc_digests, blob_toc_sizes };
                let mismatch = list_mismatch(blob_digests, n) || list_mismatch(blob_sizes, n)
                    || list_mismatch(blob_toc_digests, n) || list_mismatch(blob_toc_sizes, n);
                &&& (n == 0 || mismatch) ==> r == Err::<MergeOutput, BuildError>(BuildError::InvalidConfig)
                &&& (n > 0 && !mismatch && merge_succeeds(cfg, sources@, chunk_dict, o)) ==> r is Ok
                &&& r == Err::<MergeOutput, BuildError>(BuildError::CorruptMetadata) ==> some_incompatible(
                    sources@,
                    chunk_dict,
                ) || some_dangling_chunk(sources@)
                &&& r == Err::<MergeOutput, BuildError>(BuildError::Inconsistent) ==> !(exists|c: u32|
                    all_chunk_sizes(sources@, c)) || two_own_blobs(sources@, dids)
                &&& r == Err::<MergeOutput, BuildError>(BuildError::InvalidConfig) ==> n == 0 || mismatch
                    || some_bad_override(cfg, sources@, dids, o)
                &&& r == Err::<MergeOutput, BuildError>(BuildError::Overflow) ==> n > 0x10000 || merged_ids(
                    cfg,
                    sources@,
                    n as int,
                    dids,
                    blob_digests,
                ).len() > MAX_BLOBS_PER_IMAGE || some_large_prefetch(sources@)
                &&& r == Err::<MergeOutput, BuildError>(BuildError::BackendFailure) ==> some_fixup(sources@)
                &&& r is Err ==> r == Err::<MergeOutput, BuildError>(BuildError::CorruptMetadata) || r
                    == Err::<MergeOutput, BuildError>(BuildError::Inconsistent) || r == Err::<
                    MergeOutput,
                    BuildError,
                >(BuildError::InvalidConfig) || r == Err::<MergeOutput, BuildError>(BuildError::Overflow)
                    || r == Err::<MergeOutput, BuildError>(BuildError::BackendFailure)
            }),
            r matches Ok(out) ==> {
                let n = sources@.len();
                let last = sources@[n - 1];
                let cfg = old(ctx).configuration;
                let dids = dict_blob_ids(chunk_dict);
                let o = Overrides { blob_digests, blob_sizes, blob_toc_digests, blob_toc_sizes };
                &&& node_paths(out.tree.nodes()) == merged_paths(layer_walks(sources@))
                &&& forall|k: int|
                    0 <= k < out.tree.nodes().len() ==> merged_node(
                        #[trigger] out.tree.nodes()[k],
                        sources@,
                        n as int,
                        out.blob_mgr.ids(),
                        cfg,
                        dids,
                        blob_digests,
                    )
                &&& out.blob_mgr.ids() == merged_ids(cfg, sources@, n as int, dids, blob_digests)
                &&& forall|i: int|
                    0 <= i < out.blob_mgr.blobs().len() ==> from_some_layer(
                        #[trigger] out.blob_mgr.blobs()[i],
                        cfg,
                        sources@,
                        n as int,
                        dids,
                        o,
                    )
                &&& out.blob_mgr.wf()
                &&& forall|l: int, k: int|
                    0 <= l < n && 0 <= k < sources@[l].blobs@.len() ==> (#[trigger] sources@[l].blobs@[k]).chunk_size
                        == final(ctx).chunk_size
                &&& !two_own_blobs(sources@, dids)
                &&& !some_incompatible(sources@, chunk_dict)
                &&& final(ctx).configuration == cfg
                &&& final(ctx).fs_version == last.config.version
                &&& final(ctx).compressor == last.config.compressor
                &&& final(ctx).digester == last.config.digester
                &&& final(ctx).explicit_uidgid == last.config.explicit_uidgid
                &&& (out.blob_table is V6 <==> final(ctx).fs_version == RafsVersion::V6)
                &&& out.blob_table.entries().len() == out.blob_mgr.blobs().len()
                &&& forall|i: int|
                    0 <= i < out.blob_table.entries().len() ==> entry_describes(
                        #[trigger] out.blob_table.entries()[i],
                        out.blob_mgr.blobs()[i],
                        final(ctx).fs_version,
                    )
                &&& out.output.blobs@.len() == out.blob_mgr.blobs().len()
                &&& forall|i: int|
                    0 <= i < out.output.blobs@.len() ==> (#[trigger] out.output.blobs@[i])@
                        == out.blob_mgr.ids()[i]
                &&& out.output.blob_size == if out.blob_mgr.blobs().len() > 0 {
                    Some(out.blob_mgr.blobs().last().compressed_blob_size)
                } else {
                    None::<u64>
                }
                &&& (target is SingleFile ==> (out.output.bootstrap_path matches Some(p) && p@
                    == target.path()))
                &&& (target is FileDir ==> out.output.bootstrap_path is None)
                &&& out.bootstrap_ctx.wf()
                &&& out.bootstrap_ctx.target matches Some(t) && t.path() == target.path()
            },
    {
        if sources.len() == 0 {
            return Err(BuildError::InvalidConfig);
        }
        if let Some(v) = &blob_digests {
            if v.len() != sources.len() {
                return Err(BuildError::InvalidConfig);
            }
        }
        if let Some(v) = &blob_toc_digests {
            if v.len() != sources.len() {
                return Err(BuildError::InvalidConfig);
            }
        }
        if let Some(v) = &blob_sizes {
            if v.len() != sources.len() {
                return Err(BuildError::InvalidConfig);
            }
        }
        if let Some(v) = &blob_toc_sizes {
            if v.len() != sources.len() {
                return Err(BuildError::InvalidConfig);
            }
        }
        let o = Overrides { blob_digests, blob_sizes, blob_toc_digests, blob_toc_sizes };
        let ghost srcs = sources@;
        let ghost walks = layer_walks(srcs);
        let ghost dids = dict_blob_ids(chunk_dict);
        let ghost cfg = ctx.configuration;
        let mut dict_ids: Vec<String> = Vec::new();
        let mut config: Option<RafsSuperConfig> = None;
        if let Some(d) = &chunk_dict {
            config = Some(d.config);
            let mut k: usize = 0;
            while k < d.blobs.len()
                invariant
                    k <= d.blobs@.len(),
                    dict_ids@.len() == k,
                    forall|i: int| 0 <= i < k ==> (#[trigger] dict_ids@[i])@ == d.blobs@[i].blob_id@,
                decreases d.blobs.len() - k,
            {
                dict_ids.push(d.blobs[k].blob_id.clone());
                k = k + 1;
            }
        }
        assert(dict_ids@.map_values(|s: String| s@) =~= dids);
        let n = sources.len();
        let mut fs_version = RafsVersion::V6;
        let mut chunk_size: Option<u32> = None;
        let mut tree = Tree::from_nodes(Vec::new());
        let mut blob_mgr = BlobManager::new(ctx.digester);
        let mut rest = sources;
        let mut li: usize = 0;
        assert(blob_mgr.ids() =~= merged_ids(cfg, srcs, 0, dids, o.blob_digests));
        while li < n
            invariant
                srcs == sources@,
                n == srcs.len(),
                n > 0,
                o == (Overrides { blob_digests, blob_sizes, blob_toc_digests, blob_toc_sizes }),
                !list_mismatch(o.blob_digests, n as nat),
                !list_mismatch(o.blob_sizes, n as nat),
                !list_mismatch(o.blob_toc_digests, n as nat),
                !list_mismatch(o.blob_toc_sizes, n as nat),
                walks == layer_walks(srcs),
                dids == dict_blob_ids(chunk_dict),
                dict_ids@.map_values(|s: String| s@) == dids,
                cfg == old(ctx).configuration,
                ctx.configuration == cfg,
                li <= n,
                rest@ == srcs.skip(li as int),
                blob_mgr.wf(),
                blob_mgr.ids() == merged_ids(cfg, srcs, li as int, dids, o.blob_digests),
                forall|i: int|
                    0 <= i < blob_mgr.blobs().len() ==> from_some_layer(
                        #[trigger] blob_mgr.blobs()[i],
                        cfg,
                        srcs,
                        li as int,
                        dids,
                        o,
                    ),
                forall|l: int, k: int|
                    0 <= l < li && 0 <= k < srcs[l].blobs@.len() ==> Some(
                        (#[trigger] srcs[l].blobs@[k]).chunk_size,
                    ) == chunk_size,
                chunk_size matches Some(c) ==> exists|l: int, k: int|
                    0 <= l < li && 0 <= k < srcs[l].blobs@.len() && (#[trigger] srcs[l].blobs@[k]).chunk_size
                        == c,
                forall|l: int, i: int, j: int|
                    0 <= l < li && 0 <= i < j < srcs[l].blobs@.len() ==> !(not_in_dict(
                        dids,
                        (#[trigger] srcs[l].blobs@[i]).blob_id@,
                    ) && not_in_dict(dids, (#[trigger] srcs[l].blobs@[j]).blob_id@)),
                chunk_dict matches Some(d) ==> config == Some(d.config),
                li > 0 && chunk_dict is None ==> config == Some(srcs[0].config),
                li == 0 && chunk_dict is None ==> config is None,
                forall|l: int| 0 <= l < li ==> Some((#[trigger] srcs[l]).config) == config,
                li > 0 ==> fs_version == srcs[li - 1].config.version && ctx.compressor
                    == srcs[li - 1].config.compressor && ctx.digester == srcs[li - 1].config.digester
                    && ctx.explicit_uidgid == srcs[li - 1].config.explicit_uidgid,
                li > 0 ==> node_paths(tree.nodes()) == merged_paths(walks.take(li as int)),
                forall|k: int|
                    0 <= k < tree.nodes().len() ==> merged_node(
                        #[trigger] tree.nodes()[k],
                        srcs,
                        li as int,
                        blob_mgr.ids(),
                        cfg,
                        dids,
                        o.blob_digests,
                    ),
            decreases n - li,
        {
            let layer = rest.remove(0);
            proof {
                assert(layer == srcs[li as int]);
                assert(rest@ =~= srcs.skip(li + 1));
            }
            match config {
                Some(c) => {
                    match c.check_compatibility(&layer.config) {
                        Ok(()) => {},
                        Err(e) => {
                            proof {
                                assert(srcs[li as int].config != expected_config(srcs, chunk_dict));
                            }
                            return Err(e);
                        },
                    }
                },
                None => {
                    config = Some(layer.config);
                },
            }
            fs_version = layer.config.version;
            ctx.compressor = layer.config.compressor;
            ctx.digester = layer.config.digester;
            ctx.explicit_uidgid = layer.config.explicit_uidgid;
            let ghost cs0 = chunk_size;
            let ghost ids0 = blob_mgr.ids();
            let ghost blobs0 = blob_mgr.blobs();
            let ghost xs = layer_ids(cfg, srcs[li as int], li as int, dids, o.blob_digests);
            let blob_idx_map = match Self::import_layer_blobs(
                ctx,
                &mut blob_mgr,
                &layer,
                &dict_ids,
                li,
                n,
                &o,
                &mut chunk_size,
                backend,
            ) {
                Ok(m) => m,
                Err(e) => {
                    proof {
                        Self::lemma_import_error(srcs, li as int, cfg, dids, o, chunk_dict, cs0, e, ids0);
                    }
                    return Err(e);
                },
            };
            let ghost ids1 = blob_mgr.ids();
            let LayerBootstrap { path: _, config: _, blobs: _, nodes } = layer;
            let batch = match Self::prepare_nodes(nodes, &blob_idx_map, li, li > 0) {
                Ok(b) => b,
                Err(e) => {
                    proof {
                        if e == BuildError::CorruptMetadata {
                            let (k, c) = choose|k: int, c: int|
                                0 <= k < srcs[li as int].nodes@.len() && 0 <= c
                                    < srcs[li as int].nodes@[k].chunks@.len() && (
                                #[trigger] srcs[li as int].nodes@[k].chunks@[c]).blob_index
                                    >= blob_idx_map@.len();
                            assert(srcs[li as int].nodes@[k].chunks@[c].blob_index >= srcs[li as int].blobs@.len());
                        }
                    }
                    return Err(e);
                },
            };
            let ghost p = |x: Node| merged_node(x, srcs, li + 1, ids1, cfg, dids, o.blob_digests);
            proof {
                lemma_dedup_extend_grows(ids0, xs);
                assert forall|k: int| 0 <= k < tree.nodes().len() implies p(#[trigger] tree.nodes()[k]) by {
                    let x = tree.nodes()[k];
                    lemma_node_from_layer_extend(
                        x,
                        srcs[x.layer_idx as int],
                        x.layer_idx as int,
                        ids0,
                        ids1,
                        cfg,
                        dids,
                        o.blob_digests,
                    );
                }
                assert forall|k: int| 0 <= k < batch@.len() implies p(#[trigger] batch@[k]) by {
                    let x = batch@[k];
                    lemma_node_from_map_to_layer(
                        x,
                        srcs[li as int],
                        li as int,
                        ids1,
                        blob_idx_map@,
                        cfg,
                        dids,
                        o.blob_digests,
                    );
                }
                assert(walks[li as int] == node_paths(srcs[li as int].nodes@));
                assert(walks.take(li + 1).drop_last() =~= walks.take(li as int));
                assert(walks.take(li + 1).last() == walks[li as int]);
                assert forall|i: int| 0 <= i < blob_mgr.blobs().len() implies from_some_layer(
                    #[trigger] blob_mgr.blobs()[i],
                    cfg,
                    srcs,
                    li + 1,
                    dids,
                    o,
                ) by {
                    if i < blobs0.len() {
                        assert(blob_mgr.blobs()[i] == blobs0[i]);
                        assert(from_some_layer(blobs0[i], cfg, srcs, li as int, dids, o));
                        let l = choose|l: int| 0 <= l < li && #[trigger] from_layer(blobs0[i], cfg, srcs[l], l, dids, o);
                        assert(from_layer(blob_mgr.blobs()[i], cfg, srcs[l], l, dids, o));
                    } else {
                        assert(from_layer(blob_mgr.blobs()[i], cfg, srcs[li as int], li as int, dids, o));
                    }
                }
                assert forall|l: int, k: int|
                    0 <= l < li + 1 && 0 <= k < srcs[l].blobs@.len() implies Some(
                        (#[trigger] srcs[l].blobs@[k]).chunk_size,
                    ) == chunk_size by {
                    if l < li {
                        if cs0 is None {
                            assert(Some(srcs[l].blobs@[k].chunk_size) == cs0);
                        }
                    }
                }
                if chunk_size is Some {
                    if cs0 is None {
                        assert(srcs[li as int].blobs@.len() > 0);
                        assert(Some(srcs[li as int].blobs@[0].chunk_size) == chunk_size);
                    }
                }
            }
            if li == 0 {
                tree = Tree::from_nodes(batch);
            } else {
                Self::apply_batch(&mut tree, batch, Ghost(p));
            }
            li = li + 1;
        }
        assert(walks.take(n as int) =~= walks);
        ctx.fs_version = fs_version;
        if let Some(c) = chunk_size {
            ctx.chunk_size = c;
        }
        let bootstrap_ctx = BootstrapContext::new(Some(target.copy()), false, false);
        let blob_table = match blob_mgr.to_blob_table(ctx) {
            Ok(t) => t,
            Err(e) => {
                proof {
                    let i = choose|i: int|
                        0 <= i < blob_mgr.blobs().len() && #[trigger] blob_mgr.blobs()[i].blob_prefetch_size
                            > u32::MAX;
                    Self::lemma_prefetch_from_source(blob_mgr.blobs()[i], cfg, srcs, n as int, dids, o);
                }
                return Err(e);
            },
        };
        let output = BuildOutput::new(&blob_mgr, &Some(target));
        Ok(MergeOutput { tree, blob_mgr, blob_table, bootstrap_ctx, output })
    }

    proof fn lemma_prefetch_from_source(
        c: BlobContext,
        cfg: BuildConfiguration,
        srcs: Seq<LayerBootstrap>,
        n: int,
        dids: Seq<Seq<char>>,
        o: Overrides,
    )
        requires
            from_some_layer(c, cfg, srcs, n, dids, o),
            n <= srcs.len(),
        ensures
            exists|l: int, k: int|
                0 <= l < srcs.len() && 0 <= k < srcs[l].blobs@.len()
                    && (#[trigger] srcs[l].blobs@[k]).prefetch_size == c.blob_prefetch_size,
    {
        let l = choose|l: int| 0 <= l < n && #[trigger] from_layer(c, cfg, srcs[l], l, dids, o);
        let k = choose|k: int|
            0 <= k < srcs[l].blobs@.len() && #[trigger] layer_import(c, cfg, srcs[l], l, srcs[l].blobs@[k], dids, o);
        let b = srcs[l].blobs@[k];
        let base = choose|base: BlobContext|
            #[trigger] base.is_some_import_of(b, ChunkSource::Parent) && c == (BlobContext {
                blob_id: c.blob_id,
                compressed_blob_size: if not_in_dict(dids, b.blob_id@) && o.blob_sizes is Some && !has_feature(b.features, BLOB_FEATURE_SEPARATE) {
                    o.blob_sizes->0@[l]
                } else {
                    base.compressed_blob_size
                },
                blob_meta_size: if not_in_dict(dids, b.blob_id@) && o.blob_sizes is Some && has_feature(b.features, BLOB_FEATURE_SEPARATE) {
                    o.blob_sizes->0@[l]
                } else {
                    base.blob_meta_size
                },
                blob_meta_digest: c.blob_meta_digest,
                rafs_blob_toc_digest: c.rafs_blob_toc_digest,
                rafs_blob_toc_size: if not_in_dict(dids, b.blob_id@) && o.blob_toc_sizes is Some {
                    o.blob_toc_sizes->0@[l] as u32
                } else {
                    base.rafs_blob_toc_size
                },
                ..base
            }) && c.blob_meta_digest@ == (if not_in_dict(dids, b.blob_id@) && o.blob_digests is Some && has_feature(b.features, BLOB_FEATURE_SEPARATE) {
                hex_decode(o.blob_digests->0@[l]@)
            } else {
                base.blob_meta_digest@
            }) && c.rafs_blob_toc_digest@ == (if not_in_dict(dids, b.blob_id@) && o.blob_toc_digests is Some {
                hex_decode(o.blob_toc_digests->0@[l]@)
            } else {
                base.rafs_blob_toc_digest@
            });
        assert(base.blob_prefetch_size == b.prefetch_size);
        assert(c.blob_prefetch_size == b.prefetch_size);
    }

    proof fn lemma_import_error(
        srcs: Seq<LayerBootstrap>,
        li: int,
        cfg: BuildConfiguration,
        dids: Seq<Seq<char>>,
        o: Overrides,
        chunk_dict: Option<LayerBootstrap>,
        cs0: Option<u32>,
        e: BuildError,
        ids0: Seq<Seq<char>>,
    )
        requires
            0 <= li < srcs.len(),
            dids == dict_blob_ids(chunk_dict),
            ids0 == merged_ids(cfg, srcs, li, dids, o.blob_digests),
            cs0 matches Some(c) ==> exists|l: int, k: int|
                0 <= l < li && 0 <= k < srcs[l].blobs@.len() && (#[trigger] srcs[l].blobs@[k]).chunk_size
                    == c,
            ({
                let blobs = srcs[li].blobs@;
                let xs = layer_ids(cfg, srcs[li], li, dids, o.blob_digests);
                &&& (e == BuildError::Inconsistent ==> (exists|k: int|
                    0 <= k < blobs.len() && cs0 is Some && (#[trigger] blobs[k]).chunk_size
                        != cs0->0) || (exists|i: int, j: int|
                    0 <= i < blobs.len() && 0 <= j < blobs.len() && (#[trigger] blobs[i]).chunk_size
                        != (#[trigger] blobs[j]).chunk_size) || (exists|i: int, j: int|
                    0 <= i < j < blobs.len() && not_in_dict(dids, (#[trigger] blobs[i]).blob_id@)
                        && not_in_dict(dids, (#[trigger] blobs[j]).blob_id@)))
                &&& (e == BuildError::InvalidConfig ==> exists|k: int|
                    0 <= k < blobs.len() && !own_blob_ok(cfg, srcs[li], li, #[trigger] blobs[k], dids, o))
                &&& (e == BuildError::Overflow ==> dedup_extend(ids0, xs).len() > MAX_BLOBS_PER_IMAGE)
                &&& (e == BuildError::BackendFailure ==> exists|k: int|
                    0 <= k < blobs.len() && needs_meta_fixup(#[trigger] blobs[k], ChunkSource::Parent))
                &&& (e == BuildError::Inconsistent || e == BuildError::InvalidConfig || e == BuildError::Overflow
                    || e == BuildError::BackendFailure)
            }),
        ensures
            e == BuildError::Inconsistent ==> !(exists|c: u32| all_chunk_sizes(srcs, c)) || two_own_blobs(srcs, dids),
            e == BuildError::InvalidConfig ==> some_bad_override(cfg, srcs, dids, o),
            e == BuildError::Overflow ==> merged_ids(cfg, srcs, srcs.len() as int, dids, o.blob_digests).len()
                > MAX_BLOBS_PER_IMAGE,
            e == BuildError::BackendFailure ==> some_fixup(srcs),
    {
        let blobs = srcs[li].blobs@;
        if e == BuildError::Inconsistent {
            if exists|c: u32| all_chunk_sizes(srcs, c) {
                let c0 = choose|c: u32| all_chunk_sizes(srcs, c);
                if exists|k: int| 0 <= k < blobs.len() && cs0 is Some && (#[trigger] blobs[k]).chunk_size != cs0->0 {
                    let k = choose|k: int| 0 <= k < blobs.len() && cs0 is Some && (#[trigger] blobs[k]).chunk_size != cs0->0;
                    let (l2, k2) = choose|l: int, k: int|
                        0 <= l < li && 0 <= k < srcs[l].blobs@.len() && (#[trigger] srcs[l].blobs@[k]).chunk_size
                            == cs0->0;
                    assert(srcs[l2].blobs@[k2].chunk_size == c0);
                    assert(srcs[li].blobs@[k].chunk_size == c0);
                } else if exists|i: int, j: int|
                    0 <= i < blobs.len() && 0 <= j < blobs.len() && (#[trigger] blobs[i]).chunk_size
                        != (#[trigger] blobs[j]).chunk_size {
                    let (i, j) = choose|i: int, j: int|
                        0 <= i < blobs.len() && 0 <= j < blobs.len() && (#[trigger] blobs[i]).chunk_size
                            != (#[trigger] blobs[j]).chunk_size;
                    assert(srcs[li].blobs@[i].chunk_size == c0);
                    assert(srcs[li].blobs@[j].chunk_size == c0);
                } else {
                    let (i, j) = choose|i: int, j: int|
                        0 <= i < j < blobs.len() && not_in_dict(dids, (#[trigger] blobs[i]).blob_id@)
                            && not_in_dict(dids, (#[trigger] blobs[j]).blob_id@);
                    assert(not_in_dict(dids, srcs[li].blobs@[i].blob_id@));
                }
            }
        }
        if e == BuildError::InvalidConfig {
            let k = choose|k: int| 0 <= k < blobs.len() && !own_blob_ok(cfg, srcs[li], li, #[trigger] blobs[k], dids, o);
            assert(!own_blob_ok(cfg, srcs[li], li, srcs[li].blobs@[k], dids, o));
        }
        if e == BuildError::Overflow {
            assert(merged_ids(cfg, srcs, li + 1, dids, o.blob_digests) == dedup_extend(ids0, layer_ids(cfg, srcs[li], li, dids, o.blob_digests)));
            lemma_merged_ids_monotone(cfg, srcs, li + 1, srcs.len() as int, dids, o.blob_digests);
        }
        if e == BuildError::BackendFailure {
            let k = choose|k: int| 0 <= k < blobs.len() && needs_meta_fixup(#[trigger] blobs[k], ChunkSource::Parent);
            assert(needs_meta_fixup(srcs[li].blobs@[k], ChunkSource::Parent));
        }
    }
}

} // verus!
