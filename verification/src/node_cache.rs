//! The cached default node and the trust kept in `uuid.getnode`: a state
//! machine driven by changes to the `uuid` module's namespace and by the
//! results of calling the current `getnode`.
use vstd::prelude::*;
use crate::generate::{mask_default_node_value, node_bits};
use crate::pylong::{PyLongParts, pylong_to_u128, u128_value_of};

verus! {

/// Whether the current `getnode` is known to give the node the cache holds.
#[derive(Clone, Copy, Debug, PartialEq, Eq, Structural)]
pub enum GetnodeMode {
    Trusted,
    Unknown,
}

/// Which watched name of the `uuid` module's namespace an event touches.
#[derive(Clone, Copy, Debug, PartialEq, Eq, Structural)]
pub enum WatchedKey {
    /// The whole namespace changed (cleared, or replaced wholesale).
    All,
    /// `_node`.
    Node,
    /// `getnode`.
    Getnode,
    /// `_generate_time_safe`.
    GenerateTimeSafe,
    /// Any other name.
    Other,
}

/// The cached default node, the trust in `getnode`, and the objects the
/// generators rely on, each object by its identity.
#[derive(Clone, Copy, Debug)]
pub struct NodeCache {
    pub ready: bool,
    pub node: u64,
    pub mode: GetnodeMode,
    pub trusted_getnode: Option<usize>,
    pub original_getnode: Option<usize>,
    pub generate_time_safe: Option<usize>,
}

/// What looking up the default node after calling `getnode` comes to.
#[derive(Clone, Copy, Debug, PartialEq, Eq, Structural)]
pub enum SlowNode {
    /// `getnode` failed or gave no integer: hand the call to the unpatched function.
    CallUnpatched,
    /// Use this node.
    Node(u128),
}

impl NodeCache {
    /// The cached node is always a 48-bit value.
    pub open spec fn wf(&self) -> bool {
        self.node < 0x1_0000_0000_0000
    }

    /// The node a lookup can answer without calling `getnode`.
    pub open spec fn cached(&self) -> Option<u128> {
        if self.mode == GetnodeMode::Trusted && self.ready {
            Some(self.node as u128)
        } else {
            None
        }
    }

    /// The state after `getnode` (identity `getnode`) gave `r`, with
    /// `current_node` the value of `_node` when it is a 128-bit integer. The
    /// node is the low 48 bits of `r`; it is cached when that `getnode` is the
    /// original or the trusted one, or agrees with `_node` (and then becomes
    /// the trusted one); otherwise the trust is lost.
    pub open spec fn after_settle(self, getnode: usize, r: u64, current_node: Option<u128>) -> NodeCache {
        let node = node_bits(r as u128);
        let known = self.original_getnode == Some(getnode) || self.trusted_getnode == Some(getnode);
        let agrees = match current_node {
            Some(c) => node_bits(c) == node,
            None => false,
        };
        if known {
            NodeCache { node: node as u64, ready: true, mode: GetnodeMode::Trusted, ..self }
        } else if agrees {
            NodeCache {
                node: node as u64,
                ready: true,
                mode: GetnodeMode::Trusted,
                trusted_getnode: Some(getnode),
                ..self
            }
        } else {
            NodeCache { mode: GetnodeMode::Unknown, ..self }
        }
    }

    /// The state after the `getnode` found when the module is loaded is
    /// recorded: the first becomes the original, trusted one, and empties the
    /// cache; later ones change nothing.
    pub open spec fn after_load(self, getnode: usize) -> NodeCache {
        if self.original_getnode is Some {
            self
        } else {
            NodeCache {
                original_getnode: Some(getnode),
                mode: GetnodeMode::Trusted,
                ready: false,
                ..self
            }
        }
    }

    /// The state after the namespace changed at `key`; `new_value` is the
    /// identity of the new value (absent when the name was removed) and
    /// `new_value_is_none` says whether it is `None`.
    pub open spec fn after_event(
        self,
        key: WatchedKey,
        new_value: Option<usize>,
        new_value_is_none: bool,
    ) -> NodeCache {
        match key {
            WatchedKey::All => NodeCache {
                ready: false,
                trusted_getnode: None,
                mode: GetnodeMode::Unknown,
                ..self
            },
            WatchedKey::Node => NodeCache { ready: false, ..self },
            WatchedKey::Getnode => NodeCache {
                ready: false,
                trusted_getnode: None,
                mode: if new_value.is_some() && new_value == self.original_getnode {
                    GetnodeMode::Trusted
                } else {
                    GetnodeMode::Unknown
                },
                ..self
            },
            WatchedKey::GenerateTimeSafe => NodeCache {
                generate_time_safe: if new_value.is_some() && !new_value_is_none {
                    new_value
                } else {
                    None
                },
                ..self
            },
            WatchedKey::Other => self,
        }
    }

    /// An empty cache that trusts `getnode` and knows no objects yet.
    pub fn new() -> (res: Self)
        ensures
            res.wf(),
            (res.cached() is None),
            res == (NodeCache {
                ready: false,
                node: 0,
                mode: GetnodeMode::Trusted,
                trusted_getnode: None,
                original_getnode: None,
                generate_time_safe: None,
            }),
    {
        NodeCache {
            ready: false,
            node: 0,
            mode: GetnodeMode::Trusted,
            trusted_getnode: None,
            original_getnode: None,
            generate_time_safe: None,
        }
    }

    /// Records the `_generate_time_safe` object found in the namespace: kept
    /// unless absent or `None`.
    pub fn set_generate_time_safe(&mut self, value: Option<usize>, value_is_none: bool)
        ensures
            *final(self) == (NodeCache {
                generate_time_safe: if value.is_some() && !value_is_none {
                    value
                } else {
                    None
                },
                ..*old(self)
            }),
    {
        self.generate_time_safe = if value.is_some() && !value_is_none {
            value
        } else {
            None
        };
    }

    /// Records the `getnode` found when the module is first loaded: it
    /// becomes the original, trusted `getnode`, and the cache is emptied.
    /// Later loads keep the first original.
    pub fn load_original_getnode(&mut self, getnode: usize)
        requires
            old(self).wf(),
        ensures
            final(self).wf(),
            *final(self) == old(self).after_load(getnode),
    {
        if self.original_getnode.is_none() {
            self.original_getnode = Some(getnode);
            self.mode = GetnodeMode::Trusted;
            self.ready = false;
        }
    }

    /// Reacts to a change of the namespace at `key`.
    pub fn on_namespace_event(
        &mut self,
        key: WatchedKey,
        new_value: Option<usize>,
        new_value_is_none: bool,
    )
        requires
            old(self).wf(),
        ensures
            final(self).wf(),
            *final(self) == old(self).after_event(key, new_value, new_value_is_none),
    {
        match key {
            WatchedKey::All => {
                self.ready = false;
                self.trusted_getnode = None;
                self.mode = GetnodeMode::Unknown;
            },
            WatchedKey::Node => {
                self.ready = false;
            },
            WatchedKey::Getnode => {
                self.ready = false;
                self.trusted_getnode = None;
                self.mode = if new_value.is_some() && new_value == self.original_getnode {
                    GetnodeMode::Trusted
                } else {
                    GetnodeMode::Unknown
                };
            },
            WatchedKey::GenerateTimeSafe => {
                self.set_generate_time_safe(new_value, new_value_is_none);
            },
            WatchedKey::Other => {},
        }
    }

    /// The default node when the cache can answer without calling
    /// `getnode`.
    pub fn cached_default_node(&self) -> (res: Option<u128>)
        ensures
            res == self.cached(),
    {
        if self.mode == GetnodeMode::Trusted && self.ready {
            Some(self.node as u128)
        } else {
            None
        }
    }

    /// Caches `node` as the trusted default node.
    fn store_trusted(&mut self, node: u128)
        requires
            node < 0x1_0000_0000_0000,
        ensures
            *final(self) == (NodeCache {
                node: node as u64,
                ready: true,
                mode: GetnodeMode::Trusted,
                ..*old(self)
            }),
    {
        self.node = node as u64;
        self.ready = true;
        self.mode = GetnodeMode::Trusted;
    }

    /// Settles the default node after calling the `getnode` with identity
    /// `getnode`, which gave `result` (absent on failure or a non-integer),
    /// with `current_node` the module's `_node` (absent when unset or not an
    /// integer). The node is the low 48 bits of the result. It is cached and
    /// trusted when `getnode` is the original or already trusted one, or when
    /// it agrees with `_node` (then that `getnode` becomes trusted);
    /// otherwise the trust is lost and the node is used uncached.
    pub fn settle_default_node(
        &mut self,
        getnode: usize,
        result: Option<u64>,
        current_node: &Option<PyLongParts>,
    ) -> (res: SlowNode)
        requires
            old(self).wf(),
            current_node matches Some(parts) ==> parts.wf(),
        ensures
            final(self).wf(),
            match result {
                None => res == SlowNode::CallUnpatched && *final(self) == *old(self),
                Some(r) => {
                    &&& res == SlowNode::Node(node_bits(r as u128))
                    &&& *final(self) == old(self).after_settle(
                        getnode,
                        r,
                        match current_node {
                            Some(parts) => u128_value_of(parts.value()),
                            None => None,
                        },
                    )
                },
            },
    {
        let value = match result {
            Some(value) => value,
            None => {
                return SlowNode::CallUnpatched;
            },
        };
        let node = mask_default_node_value(value as u128);
        assert(node < 0x1_0000_0000_0000) by (bit_vector)
            requires
                node == (value as u128) & 0xffff_ffff_ffff,
        ;
        if self.original_getnode == Some(getnode) || self.trusted_getnode == Some(getnode) {
            self.store_trusted(node);
            return SlowNode::Node(node);
        }
        if let Some(parts) = current_node {
            if let Some(current) = pylong_to_u128(parts) {
                if mask_default_node_value(current) == node {
                    self.trusted_getnode = Some(getnode);
                    self.store_trusted(node);
                    return SlowNode::Node(node);
                }
            }
        }
        self.mode = GetnodeMode::Unknown;
        SlowNode::Node(node)
    }
}

/// A change to `_node`, to `getnode` or to the whole namespace empties the
/// cache; a change to `_generate_time_safe` or to any other name leaves it.
pub proof fn lemma_namespace_change_invalidates(
    s: NodeCache,
    key: WatchedKey,
    new_value: Option<usize>,
    new_value_is_none: bool,
)
    ensures
        (key == WatchedKey::All || key == WatchedKey::Node || key == WatchedKey::Getnode) ==> s.after_event(
            key,
            new_value,
            new_value_is_none,
        ).cached() is None,
        (key == WatchedKey::GenerateTimeSafe || key == WatchedKey::Other) ==> s.after_event(
            key,
            new_value,
            new_value_is_none,
        ).cached() == s.cached(),
{
}

/// One operation on the cache: recording the loaded `getnode`, a change of
/// the namespace, or a lookup of the default node. A lookup that the cache
/// cannot answer calls the current `getnode` (identity `getnode`), which gives
/// `result`, and reads `_node` as `current_node`.
#[derive(Clone, Copy, Debug)]
pub enum NodeCacheOp {
    LoadGetnode { getnode: usize },
    Event { key: WatchedKey, new_value: Option<usize>, new_value_is_none: bool },
    Lookup { getnode: usize, result: Option<u64>, current_node: Option<u128> },
}

/// The state after one operation.
pub open spec fn after_op(s: NodeCache, op: NodeCacheOp) -> NodeCache {
    match op {
        NodeCacheOp::LoadGetnode { getnode } => s.after_load(getnode),
        NodeCacheOp::Event { key, new_value, new_value_is_none } => s.after_event(
            key,
            new_value,
            new_value_is_none,
        ),
        NodeCacheOp::Lookup { getnode, result, current_node } => if s.cached() is Some {
            s
        } else {
            match result {
                Some(r) => s.after_settle(getnode, r, current_node),
                None => s,
            }
        },
    }
}

/// What a lookup from state `s` answers: the cached node, else the node
/// that `getnode` gave (`None`: the call goes to the unpatched function).
pub open spec fn lookup_answer(s: NodeCache, result: Option<u64>) -> Option<u128> {
    match s.cached() {
        Some(n) => Some(n),
        None => match result {
            Some(r) => Some(node_bits(r as u128)),
            None => None,
        },
    }
}

/// The state after the first `k` operations, starting from `start`.
pub open spec fn cache_after_ops(start: NodeCache, ops: Seq<NodeCacheOp>, k: int) -> NodeCache
    decreases k,
{
    if k <= 0 {
        start
    } else {
        after_op(cache_after_ops(start, ops, k - 1), ops[k - 1])
    }
}

/// Whether operation `j` changes `getnode`, `_node` or the whole namespace,
/// or records the first loaded `getnode`.
pub open spec fn invalidates_at(start: NodeCache, ops: Seq<NodeCacheOp>, j: int) -> bool {
    match ops[j] {
        NodeCacheOp::LoadGetnode { .. } => cache_after_ops(start, ops, j).original_getnode is None,
        NodeCacheOp::Event { key, .. } => key == WatchedKey::All || key == WatchedKey::Node || key
            == WatchedKey::Getnode,
        NodeCacheOp::Lookup { .. } => false,
    }
}

/// Whether operation `i` is a lookup that called `getnode`, which gave a
/// node `n`.
pub open spec fn fresh_lookup_at(start: NodeCache, ops: Seq<NodeCacheOp>, i: int, n: u128) -> bool {
    &&& cache_after_ops(start, ops, i).cached() is None
    &&& ops[i] matches NodeCacheOp::Lookup { result: Some(r), .. } && node_bits(r as u128) == n
}

/// Once cached, a node stays cached through operations that do not
/// invalidate it.
proof fn lemma_cached_until_invalidated(start: NodeCache, ops: Seq<NodeCacheOp>, k: int)
    requires
        start.cached() is None,
        0 <= k <= ops.len(),
    ensures
        cache_after_ops(start, ops, k).cached() matches Some(n) ==> exists|i: int|
            0 <= i < k && #[trigger] fresh_lookup_at(start, ops, i, n) && forall|j: int|
                i < j < k ==> !#[trigger] invalidates_at(start, ops, j),
    decreases k,
{
    if k > 0 {
        lemma_cached_until_invalidated(start, ops, k - 1);
        let prev = cache_after_ops(start, ops, k - 1);
        let cur = cache_after_ops(start, ops, k);
        if let Some(n) = cur.cached() {
            if prev.cached() is Some {
                lemma_namespace_steps_keep_cached(prev, ops[k - 1]);
                let n0 = prev.cached()->0;
                assert(n0 == n);
                let i = choose|i: int|
                    0 <= i < k - 1 && #[trigger] fresh_lookup_at(start, ops, i, n0) && forall|j: int|
                        i < j < k - 1 ==> !#[trigger] invalidates_at(start, ops, j);
                assert(forall|j: int| i < j < k ==> !#[trigger] invalidates_at(start, ops, j));
            } else {
                lemma_newly_cached(prev, ops[k - 1]);
                assert(fresh_lookup_at(start, ops, k - 1, n));
            }
        }
    }
}

/// An operation from a state that caches a node either keeps that node or
/// invalidates.
proof fn lemma_namespace_steps_keep_cached(s: NodeCache, op: NodeCacheOp)
    requires
        s.cached() is Some,
    ensures
        after_op(s, op).cached() is Some ==> after_op(s, op).cached() == s.cached(),
        after_op(s, op).cached() is Some ==> match op {
            NodeCacheOp::LoadGetnode { .. } => s.original_getnode is Some,
            NodeCacheOp::Event { key, .. } => !(key == WatchedKey::All || key == WatchedKey::Node
                || key == WatchedKey::Getnode),
            NodeCacheOp::Lookup { .. } => true,
        },
{
}

/// An operation that makes the cache answer, from a state that did not,
/// is a lookup that called `getnode`, and the cache then answers its node.
proof fn lemma_newly_cached(s: NodeCache, op: NodeCacheOp)
    requires
        s.cached() is None,
        after_op(s, op).cached() is Some,
    ensures
        op matches NodeCacheOp::Lookup { result: Some(r), .. } && after_op(s, op).cached() == Some(
            node_bits(r as u128),
        ),
{
    if let NodeCacheOp::Lookup { result: Some(r), .. } = op {
        let n = node_bits(r as u128);
        assert(n < 0x1_0000_0000_0000) by (bit_vector)
            requires
                n == (r as u128) & 0xffff_ffff_ffff,
        ;
    }
}

/// The default node is never stale: over any sequence of operations from a
/// cache that answers nothing, every lookup that gives a node gives the node
/// that a call of `getnode` gave, at that lookup or at an earlier one, with no
/// change to `getnode`, to `_node` or to the whole namespace since that call.
pub proof fn lemma_cached_node_never_stale(start: NodeCache, ops: Seq<NodeCacheOp>, k: int)
    requires
        start.cached() is None,
        0 <= k < ops.len(),
        ops[k] matches NodeCacheOp::Lookup { result, .. } && lookup_answer(
            cache_after_ops(start, ops, k),
            result,
        ) is Some,
    ensures
        ops[k] matches NodeCacheOp::Lookup { result, .. } && exists|i: int|
            0 <= i <= k && #[trigger] fresh_lookup_at(
                start,
                ops,
                i,
                lookup_answer(cache_after_ops(start, ops, k), result)->0,
            ) && forall|j: int| i < j < k ==> !#[trigger] invalidates_at(start, ops, j),
{
    lemma_cached_until_invalidated(start, ops, k);
    if cache_after_ops(start, ops, k).cached() is None {
        assert(fresh_lookup_at(start, ops, k, lookup_answer(cache_after_ops(start, ops, k), ops[k]->Lookup_result)->0));
    }
}

/// What the current `getnode` returns stays the same from operation `i` to
/// operation `m` when nothing in between invalidates.
proof fn lemma_current_answer_steady(
    start: NodeCache,
    ops: Seq<NodeCacheOp>,
    current: Seq<Option<u64>>,
    i: int,
    m: int,
)
    requires
        0 <= i <= m < ops.len(),
        current.len() == ops.len(),
        forall|j: int|
            0 <= j < m && !#[trigger] invalidates_at(start, ops, j) ==> current[j + 1] == current[j],
        forall|j: int| i <= j < m ==> !#[trigger] invalidates_at(start, ops, j),
    ensures
        current[m] == current[i],
    decreases m - i,
{
    if i < m {
        assert(!invalidates_at(start, ops, m - 1));
        lemma_current_answer_steady(start, ops, current, i, m - 1);
    }
}

/// The default node is that of the current `getnode`: let `current[j]` be
/// what the `getnode` bound when operation `j` happens returns, which
/// changes only at an operation that invalidates (a change to `getnode`, to
/// `_node` or to the whole namespace), and which every lookup that calls it
/// receives. Then every lookup that gives a node gives the low 48 bits of
/// what the current `getnode` returns, also after `getnode` or `_node` were
/// rebound since an earlier lookup.
pub proof fn lemma_default_node_is_current(
    start: NodeCache,
    ops: Seq<NodeCacheOp>,
    current: Seq<Option<u64>>,
    k: int,
)
    requires
        start.cached() is None,
        0 <= k < ops.len(),
        current.len() == ops.len(),
        forall|j: int|
            0 <= j < k && !#[trigger] invalidates_at(start, ops, j) ==> current[j + 1] == current[j],
        forall|i: int|
            0 <= i <= k && cache_after_ops(start, ops, i).cached() is None && #[trigger] ops[i] is Lookup
                ==> ops[i]->Lookup_result == current[i],
        ops[k] matches NodeCacheOp::Lookup { result, .. } && lookup_answer(
            cache_after_ops(start, ops, k),
            result,
        ) is Some,
    ensures
        ops[k] matches NodeCacheOp::Lookup { result, .. } && current[k] is Some && lookup_answer(
            cache_after_ops(start, ops, k),
            result,
        ) == Some(node_bits(current[k]->0 as u128)),
{
    lemma_cached_node_never_stale(start, ops, k);
    let result = ops[k]->Lookup_result;
    let n = lookup_answer(cache_after_ops(start, ops, k), result)->0;
    let i = choose|i: int|
        0 <= i <= k && #[trigger] fresh_lookup_at(start, ops, i, n) && forall|j: int|
            i < j < k ==> !#[trigger] invalidates_at(start, ops, j);
    assert(ops[i] is Lookup);
    assert(!invalidates_at(start, ops, i));
    lemma_current_answer_steady(start, ops, current, i, k);
}

/// A node settled through a trusted `getnode` is what the cache answers
/// next, until the namespace changes.
pub proof fn lemma_settled_node_is_cached(
    before: NodeCache,
    after: NodeCache,
    getnode: usize,
    r: u64,
)
    requires
        before.original_getnode == Some(getnode) || before.trusted_getnode == Some(getnode),
        after == (NodeCache {
            node: node_bits(r as u128) as u64,
            ready: true,
            mode: GetnodeMode::Trusted,
            ..before
        }),
    ensures
        after.cached() == Some(node_bits(r as u128)),
{
    let n = node_bits(r as u128);
    assert(n < 0x1_0000_0000_0000) by (bit_vector)
        requires
            n == (r as u128) & 0xffff_ffff_ffff,
    ;
}

} // verus!
