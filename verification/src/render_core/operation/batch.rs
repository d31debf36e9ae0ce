//! Batching of render operations by a key of shared GPU state.
//!
//! Operations with equal keys form one batch. Batches are rendered by layer
//! (lower first), then by z-index (lower first), then by resource: two
//! resources are ordered by the high and then the low half of their
//! identifiers, and a batch without a resource comes after one with a
//! resource.
use vstd::prelude::*;
use crate::keyed::{
    has_key, keyed_map, lemma_keyed_map_dom, lemma_keyed_map_finite, lemma_keyed_map_len,
    lemma_keyed_map_push,
    lemma_keyed_map_update, lemma_keyed_map_value, unique_keys,
};
use crate::render_core::types::common::Dimensionality;
use crate::render_core::types::uuid::Uuid;

verus! {

/// Key used for batching similar operations together.
#[derive(Debug, Clone, Copy, PartialEq, Eq, Structural, Hash)]
pub struct BatchKey {
    /// Dimensionality of the operations.
    pub dimensionality: Dimensionality,
    /// Type ID of the primary style.
    pub style_type_id: u64,
    /// Resource ID for textures, shaders, etc.
    pub resource_id: Option<Uuid>,
    /// Z-index for controlling render order.
    pub z_index: i32,
    /// Layer for grouping operations.
    pub layer: i32,
    /// Additional custom data for fine-grained batching control.
    pub custom_data: Option<u64>,
}

/// The batch key of an operation: its dimensionality and layer, and the type
/// identifier and z-index of its primary style, or 0 and 0 when it has no
/// style. No resource and no custom data are set.
pub open spec fn spec_batch_key(
    dimensionality: Dimensionality,
    primary_style: Option<(u64, i32)>,
    layer: i32,
) -> BatchKey {
    BatchKey {
        dimensionality,
        style_type_id: match primary_style {
            Some(s) => s.0,
            None => 0,
        },
        resource_id: None,
        z_index: match primary_style {
            Some(s) => s.1,
            None => 0,
        },
        layer,
        custom_data: None,
    }
}

/// Generate the batch key of an operation from its dimensionality, the type
/// identifier and z-index of its primary style (if it has a style), and its
/// layer.
pub fn generate_batch_key(
    dimensionality: Dimensionality,
    primary_style: Option<(u64, i32)>,
    layer: i32,
) -> (r: BatchKey)
    ensures
        r == spec_batch_key(dimensionality, primary_style, layer),
        r.dimensionality == dimensionality,
        r.layer == layer,
        r.resource_id is None,
        r.custom_data is None,
        primary_style matches Some((type_id, z)) ==> r.style_type_id == type_id && r.z_index == z,
        primary_style is None ==> r.style_type_id == 0 && r.z_index == 0,
{
    let (style_type_id, z_index) = match primary_style {
        Some((type_id, z)) => (type_id, z),
        None => (0, 0),
    };
    BatchKey {
        dimensionality,
        style_type_id,
        resource_id: None,
        z_index,
        layer,
        custom_data: None,
    }
}

impl BatchKey {
    /// The key with style-specific information: the resource and the custom
    /// data are replaced, the rest is kept.
    pub fn with_style_info(self, resource_id: Option<Uuid>, custom_data: Option<u64>) -> (r:
        BatchKey)
        ensures
            r == (BatchKey { resource_id, custom_data, ..self }),
    {
        BatchKey { resource_id, custom_data, ..self }
    }
}

/// Resource `a` is rendered before resource `b`: both are set and `a`'s
/// identifier is smaller (high half first), or only `a` is set: batches
/// without a resource come last.
pub open spec fn resource_before(a: Option<Uuid>, b: Option<Uuid>) -> bool {
    match (a, b) {
        (Some(x), Some(y)) => x.spec_high() < y.spec_high() || (x.spec_high() == y.spec_high()
            && x.spec_low() < y.spec_low()),
        (Some(_), None) => true,
        _ => false,
    }
}

/// A batch with key `a` is rendered before one with key `b`: lower layer,
/// then lower z-index, then the resource order.
pub open spec fn batch_before(a: BatchKey, b: BatchKey) -> bool {
    ||| a.layer < b.layer
    ||| a.layer == b.layer && a.z_index < b.z_index
    ||| a.layer == b.layer && a.z_index == b.z_index && resource_before(
        a.resource_id,
        b.resource_id,
    )
}

/// Whether a batch with key `a` is rendered before one with key `b`.
pub fn batch_precedes(a: &BatchKey, b: &BatchKey) -> (r: bool)
    ensures
        r == batch_before(*a, *b),
{
    if a.layer != b.layer {
        return a.layer < b.layer;
    }
    if a.z_index != b.z_index {
        return a.z_index < b.z_index;
    }
    match (a.resource_id, b.resource_id) {
        (Some(x), Some(y)) => x.high() < y.high() || (x.high() == y.high() && x.low() < y.low()),
        (Some(_), None) => true,
        _ => false,
    }
}

/// The render order of two batch keys, in terms of their fields: a lower
/// layer first; on the same layer a lower z-index first, whatever the
/// resources; on the same layer and z-index a batch with a resource before
/// one without, and of two resources the one with the smaller identifier
/// (high half, then low half) first.
pub proof fn lemma_batch_order_by_fields(a: BatchKey, b: BatchKey)
    ensures
        a.layer < b.layer ==> batch_before(a, b),
        a.layer == b.layer && a.z_index < b.z_index ==> batch_before(a, b),
        a.layer > b.layer ==> !batch_before(a, b),
        a.layer == b.layer && a.z_index > b.z_index ==> !batch_before(a, b),
        a.layer == b.layer && a.z_index == b.z_index ==> (batch_before(a, b) <==> match (
            a.resource_id,
            b.resource_id,
        ) {
            (Some(x), Some(y)) => x.spec_high() < y.spec_high() || (x.spec_high()
                == y.spec_high() && x.spec_low() < y.spec_low()),
            (Some(_), None) => true,
            (None, _) => false,
        }),
{
}

/// A batcher holds finitely many batches.
pub proof fn lemma_batcher_is_finite<T>(batcher: Batcher<T>)
    ensures
        batcher@.dom().finite(),
{
    lemma_keyed_map_finite(batch_entries(batcher.batches@));
}

/// The render order is a strict weak order: irreflexive, transitive, and
/// "not after" is transitive as well.
pub proof fn lemma_batch_order(a: BatchKey, b: BatchKey, c: BatchKey)
    ensures
        !batch_before(a, a),
        batch_before(a, b) && batch_before(b, c) ==> batch_before(a, c),
        !batch_before(b, a) && !batch_before(c, b) ==> !batch_before(c, a),
        batch_before(a, b) ==> !batch_before(b, a),
{
}

/// A system for batching compatible operations together.
///
/// Its value maps each batch key to the operations added with it, in the
/// order they were added.
pub struct Batcher<T> {
    batches: Vec<(BatchKey, Vec<T>)>,
}

/// The batches, each with its operations as a sequence.
pub open spec fn batch_entries<T>(batches: Seq<(BatchKey, Vec<T>)>) -> Seq<(BatchKey, Seq<T>)> {
    batches.map_values(|e: (BatchKey, Vec<T>)| (e.0, e.1@))
}

/// The total number of operations in the batches.
pub open spec fn operations_in<T>(batches: Seq<(BatchKey, Seq<T>)>) -> nat
    decreases batches.len(),
{
    if batches.len() == 0 {
        0
    } else {
        operations_in(batches.drop_last()) + batches.last().1.len()
    }
}

/// Growing one batch by an operation grows the total by one.
pub proof fn lemma_operations_in_update<T>(s: Seq<(BatchKey, Seq<T>)>, i: int, ops: Seq<T>)
    requires
        0 <= i < s.len(),
        ops.len() == s[i].1.len() + 1,
    ensures
        operations_in(s.update(i, (s[i].0, ops))) == operations_in(s) + 1,
    decreases s.len(),
{
    let u = s.update(i, (s[i].0, ops));
    if i == s.len() - 1 {
        assert(u.drop_last() =~= s.drop_last());
    } else {
        assert(u.drop_last() =~= s.drop_last().update(i, (s[i].0, ops)));
        lemma_operations_in_update(s.drop_last(), i, ops);
    }
}

/// A prefix of the batches holds no more operations than all of them.
pub proof fn lemma_operations_in_prefix<T>(s: Seq<(BatchKey, Seq<T>)>, k: int)
    requires
        0 <= k <= s.len(),
    ensures
        operations_in(s.subrange(0, k)) <= operations_in(s),
    decreases s.len() - k,
{
    if k < s.len() {
        lemma_operations_in_prefix(s, k + 1);
        assert(s.subrange(0, k + 1).drop_last() =~= s.subrange(0, k));
    } else {
        assert(s.subrange(0, k) =~= s);
    }
}

impl<T> View for Batcher<T> {
    type V = Map<BatchKey, Seq<T>>;

    closed spec fn view(&self) -> Map<BatchKey, Seq<T>> {
        keyed_map(batch_entries(self.batches@))
    }
}

impl<T> Batcher<T> {
    /// No key has two batches, and the number of operations fits a `usize`.
    pub closed spec fn wf(&self) -> bool {
        &&& unique_keys(batch_entries(self.batches@))
        &&& operations_in(batch_entries(self.batches@)) <= usize::MAX
    }

    /// The number of operations in all batches, in specifications.
    pub closed spec fn spec_operation_count(&self) -> nat {
        operations_in(batch_entries(self.batches@))
    }

    /// Create a new empty batcher.
    pub fn new() -> (r: Self)
        ensures
            r.wf(),
            r@ == Map::<BatchKey, Seq<T>>::empty(),
            r.spec_operation_count() == 0,
    {
        let r = Batcher { batches: Vec::new() };
        assert(batch_entries(r.batches@) =~= Seq::empty());
        r
    }

    /// The position of the batch with the given key, if there is one.
    fn find(&self, key: &BatchKey) -> (r: Option<usize>)
        ensures
            match r {
                Some(i) => i < self.batches@.len() && self.batches@[i as int].0 == *key,
                None => !has_key(batch_entries(self.batches@), *key),
            },
    {
        let n = self.batches.len();
        let mut i: usize = 0;
        while i < n
            invariant
                n == self.batches.len(),
                i <= n,
                forall|j: int| 0 <= j < i ==> batch_entries(self.batches@)[j].0 != *key,
            decreases n - i,
        {
            if self.batches[i].0 == *key {
                return Some(i);
            }
            i = i + 1;
        }
        None
    }

    /// Add an operation to the batch of its key.
    pub fn add(&mut self, key: BatchKey, operation: T)
        requires
            old(self).wf(),
            old(self).spec_operation_count() < usize::MAX,
        ensures
            final(self).wf(),
            final(self).spec_operation_count() == old(self).spec_operation_count() + 1,
            final(self)@ == old(self)@.insert(
                key,
                if old(self)@.contains_key(key) {
                    old(self)@[key].push(operation)
                } else {
                    seq![operation]
                },
            ),
    {
        let ghost entries = batch_entries(self.batches@);
        proof {
            lemma_keyed_map_dom(entries, key);
        }
        match self.find(&key) {
            Some(i) => {
                proof {
                    lemma_keyed_map_value(entries, i as int);
                    lemma_keyed_map_update(entries, i as int, entries[i as int].1.push(operation));
                    lemma_operations_in_update(entries, i as int, entries[i as int].1.push(operation));
                }
                self.batches[i].1.push(operation);
                assert(batch_entries(self.batches@) =~= entries.update(
                    i as int,
                    (key, entries[i as int].1.push(operation)),
                ));
            },
            None => {
                let mut ops = Vec::new();
                ops.push(operation);
                proof {
                    lemma_keyed_map_push(entries, key, ops@);
                }
                self.batches.push((key, ops));
                assert(batch_entries(self.batches@) =~= entries.push((key, ops@)));
                assert(ops@ =~= seq![operation]);
                assert(entries.push((key, ops@)).drop_last() =~= entries);
            },
        }
    }

    /// Get all batches in rendering order.
    ///
    /// Each batch appears once, with its key and operations, and no batch
    /// comes after one that is rendered after it (see [`batch_before`]).
    pub fn get_sorted_batches(&self) -> (r: Vec<(&BatchKey, &Vec<T>)>)
        requires
            self.wf(),
        ensures
            self@.dom().finite(),
            r@.len() == self@.len(),
            forall|i: int|
                0 <= i < r@.len() ==> self@.contains_key(*(#[trigger] r@[i]).0) && self@[*r@[i].0]
                    == r@[i].1@,
            forall|i: int, j: int|
                0 <= i < r@.len() && 0 <= j < r@.len() && i != j ==> *r@[i].0 != *r@[j].0,
            forall|i: int, j: int|
                0 <= i < j < r@.len() ==> !batch_before(*r@[j].0, *r@[i].0),
            forall|i: int, j: int|
                0 <= i < j < r@.len() ==> r@[i].0.layer <= r@[j].0.layer && (r@[i].0.layer
                    == r@[j].0.layer ==> r@[i].0.z_index <= r@[j].0.z_index),
    {
        let ghost entries = batch_entries(self.batches@);
        proof {
            lemma_keyed_map_finite(entries);
        }
        let n = self.batches.len();
        let mut order: Vec<usize> = Vec::new();
        let mut k: usize = 0;
        while k < n
            invariant
                n == self.batches.len(),
                entries == batch_entries(self.batches@),
                k <= n,
                order@.len() == k,
                forall|a: int| 0 <= a < order@.len() ==> #[trigger] order@[a] < k,
                forall|a: int, b: int|
                    0 <= a < order@.len() && 0 <= b < order@.len() && a != b ==> order@[a]
                        != order@[b],
                forall|a: int, b: int|
                    0 <= a < b < order@.len() ==> !batch_before(
                        self.batches@[order@[b] as int].0,
                        self.batches@[order@[a] as int].0,
                    ),
            decreases n - k,
        {
            let mut p: usize = 0;
            while p < order.len() && !batch_precedes(&self.batches[k].0, &self.batches[order[p]].0)
                invariant
                    n == self.batches.len(),
                    k < n,
                    p <= order@.len(),
                    forall|a: int| 0 <= a < order@.len() ==> #[trigger] order@[a] < k,
                    forall|a: int|
                        0 <= a < p ==> !batch_before(
                            self.batches@[k as int].0,
                            self.batches@[#[trigger] order@[a] as int].0,
                        ),
                decreases order@.len() - p,
            {
                p = p + 1;
            }
            let ghost before_insert = order@;
            proof {
                assert forall|a: int| p <= a < before_insert.len() implies batch_before(
                    self.batches@[k as int].0,
                    self.batches@[#[trigger] before_insert[a] as int].0,
                ) by {
                    lemma_batch_order(
                        self.batches@[k as int].0,
                        self.batches@[before_insert[p as int] as int].0,
                        self.batches@[before_insert[a] as int].0,
                    );
                }
            }
            order.insert(p, k);
            assert(order@ =~= before_insert.insert(p as int, k));
            proof {
                assert forall|a: int, b: int|
                    0 <= a < b < order@.len() implies !batch_before(
                        self.batches@[order@[b] as int].0,
                        self.batches@[order@[a] as int].0,
                    ) by {
                    if a < p && b < p {
                    } else if a < p && b == p {
                    } else if a < p && b > p {
                        assert(order@[b] == before_insert[b - 1]);
                    } else if a == p {
                        assert(order@[b] == before_insert[b - 1]);
                        lemma_batch_order(
                            self.batches@[k as int].0,
                            self.batches@[order@[b] as int].0,
                            self.batches@[k as int].0,
                        );
                    } else {
                        assert(order@[a] == before_insert[a - 1]);
                        assert(order@[b] == before_insert[b - 1]);
                    }
                }
                assert forall|a: int, b: int|
                    0 <= a < order@.len() && 0 <= b < order@.len() && a != b implies order@[a]
                        != order@[b] by {
                    if a < p && b > p {
                        assert(order@[b] == before_insert[b - 1]);
                    } else if a > p && b < p {
                        assert(order@[a] == before_insert[a - 1]);
                    } else if a > p && b > p {
                        assert(order@[a] == before_insert[a - 1]);
                        assert(order@[b] == before_insert[b - 1]);
                    }
                }
                assert forall|a: int| 0 <= a < order@.len() implies #[trigger] order@[a] < k + 1 by {
                    if a > p {
                        assert(order@[a] == before_insert[a - 1]);
                    }
                }
            }
            k = k + 1;
        }
        let mut result: Vec<(&BatchKey, &Vec<T>)> = Vec::new();
        let mut i: usize = 0;
        while i < n
            invariant
                n == self.batches.len(),
                order@.len() == n,
                i <= n,
                result@.len() == i,
                forall|a: int| 0 <= a < order@.len() ==> #[trigger] order@[a] < n,
                forall|a: int|
                    0 <= a < i ==> *(#[trigger] result@[a]).0 == self.batches@[order@[a] as int].0
                        && result@[a].1@ == self.batches@[order@[a] as int].1@,
            decreases n - i,
        {
            let idx = order[i];
            result.push((&self.batches[idx].0, &self.batches[idx].1));
            i = i + 1;
        }
        proof {
            lemma_keyed_map_len(entries);
            assert forall|a: int| 0 <= a < result@.len() implies self@.contains_key(
                *(#[trigger] result@[a]).0,
            ) && self@[*result@[a].0] == result@[a].1@ by {
                lemma_keyed_map_value(entries, order@[a] as int);
            }
            assert forall|a: int, b: int|
                0 <= a < result@.len() && 0 <= b < result@.len() && a != b implies *result@[a].0
                    != *result@[b].0 by {
                assert(entries[order@[a] as int].0 == self.batches@[order@[a] as int].0);
                assert(entries[order@[b] as int].0 == self.batches@[order@[b] as int].0);
            }
            assert forall|a: int, b: int| 0 <= a < b < result@.len() implies result@[a].0.layer
                <= result@[b].0.layer && (result@[a].0.layer == result@[b].0.layer
                ==> result@[a].0.z_index <= result@[b].0.z_index) by {
                lemma_batch_order_by_fields(*result@[b].0, *result@[a].0);
            }
        }
        result
    }

    /// Clear all batches.
    pub fn clear(&mut self)
        ensures
            final(self).wf(),
            final(self)@ == Map::<BatchKey, Seq<T>>::empty(),
            final(self).spec_operation_count() == 0,
    {
        self.batches.clear();
        assert(batch_entries(self.batches@) =~= Seq::empty());
    }

    /// Get the number of operations in all batches.
    pub fn operation_count(&self) -> (r: usize)
        requires
            self.wf(),
        ensures
            r == self.spec_operation_count(),
    {
        let ghost entries = batch_entries(self.batches@);
        let n = self.batches.len();
        let mut total: usize = 0;
        let mut i: usize = 0;
        while i < n
            invariant
                n == self.batches.len(),
                entries == batch_entries(self.batches@),
                i <= n,
                total == operations_in(entries.subrange(0, i as int)),
                operations_in(entries) <= usize::MAX,
            decreases n - i,
        {
            proof {
                assert(entries.subrange(0, i + 1).drop_last() =~= entries.subrange(0, i as int));
                lemma_operations_in_prefix(entries, i + 1);
            }
            total = total + self.batches[i].1.len();
            i = i + 1;
        }
        assert(entries.subrange(0, n as int) =~= entries);
        total
    }

    /// Get the number of batches.
    pub fn batch_count(&self) -> (r: usize)
        requires
            self.wf(),
        ensures
            r == self@.len(),
    {
        proof {
            lemma_keyed_map_len(batch_entries(self.batches@));
        }
        self.batches.len()
    }
}

} // verus!
