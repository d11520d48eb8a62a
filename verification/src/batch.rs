//! Batch assembly and result mapping: run preprocessing over every fetched
//! document, isolate per-item failures, stack the surviving tensors in input
//! order, and later re-attach each id to its row of the inference output.
//! The laws at the end state the partition and order-independence
//! guarantees of the assembly.
use vstd::prelude::*;

use crate::preprocess::{preprocess, preprocess_model};
use crate::structures::{BatchOutcome, BatchTensor, EmbeddingFailure, EmbeddingResult, FetchedDocument};
use vstd::arithmetic::mul::lemma_mul_inequality;
use vstd::multiset::Multiset;
use vstd::seq_lib::lemma_fold_right_permutation;

verus! {

/// The tensor one fetched document yields, when fetch and preprocessing both
/// succeed for it.
pub open spec fn item_tensor(doc: FetchedDocument, side: nat) -> Option<Seq<u8>> {
    match doc.data {
        Ok(b) => preprocess_model(b@, side),
        Err(_) => None,
    }
}

/// Whether a fetched document survives to the batch tensor.
pub open spec fn item_ok(doc: FetchedDocument, side: nat) -> bool {
    item_tensor(doc, side) is Some
}

/// The ids of the surviving documents, in input order.
pub open spec fn success_ids_of(s: Seq<FetchedDocument>, side: nat) -> Seq<i64>
    decreases s.len(),
{
    if s.len() == 0 {
        Seq::empty()
    } else {
        let rest = success_ids_of(s.drop_last(), side);
        if item_ok(s.last(), side) {
            rest.push(s.last().id)
        } else {
            rest
        }
    }
}

/// The ids of the dropped documents, in input order.
pub open spec fn failure_ids_of(s: Seq<FetchedDocument>, side: nat) -> Seq<i64>
    decreases s.len(),
{
    if s.len() == 0 {
        Seq::empty()
    } else {
        let rest = failure_ids_of(s.drop_last(), side);
        if item_ok(s.last(), side) {
            rest
        } else {
            rest.push(s.last().id)
        }
    }
}

/// The surviving tensors, stacked in input order into one flat buffer.
pub open spec fn batch_data_of(s: Seq<FetchedDocument>, side: nat) -> Seq<u8>
    decreases s.len(),
{
    if s.len() == 0 {
        Seq::empty()
    } else {
        batch_data_of(s.drop_last(), side) + if item_ok(s.last(), side) {
            item_tensor(s.last(), side).unwrap()
        } else {
            Seq::empty()
        }
    }
}

/// The stacked buffer holds one full tensor per surviving document.
pub proof fn lemma_batch_data_len(s: Seq<FetchedDocument>, side: nat)
    ensures
        batch_data_of(s, side).len() == success_ids_of(s, side).len() * crate::tensor_len(side),
    decreases s.len(),
{
    if s.len() > 0 {
        lemma_batch_data_len(s.drop_last(), side);
        if item_ok(s.last(), side) {
            match s.last().data {
                Ok(b) => {
                    crate::preprocess::lemma_model_tensor_len(b@, side);
                },
                Err(_) => {},
            }
            let n = success_ids_of(s.drop_last(), side).len();
            assert((n + 1) * crate::tensor_len(side) == n * crate::tensor_len(side)
                + crate::tensor_len(side)) by (nonlinear_arith);
        }
    }
}

/// Run preprocessing over every fetched document. A document whose fetch or
/// preprocessing failed becomes one failure record and never reaches the
/// batch; the survivors' tensors are stacked in input order, and the batch
/// tensor exists exactly when at least one document survived.
pub fn assemble(docs: &Vec<FetchedDocument>, side: u32) -> (r: BatchOutcome)
    requires
        1 <= side <= 65535,
        crate::tensor_len(side as nat) <= usize::MAX,
    ensures
        r.success_ids@ == success_ids_of(docs@, side as nat),
        r.failures@.map_values(|f: EmbeddingFailure| f.id) == failure_ids_of(docs@, side as nat),
        r.batch is Some <==> success_ids_of(docs@, side as nat).len() > 0,
        (r.batch matches Some(b) ==> b.wf() && b.side == side && b.count == success_ids_of(
            docs@,
            side as nat,
        ).len() && b.data@ == batch_data_of(docs@, side as nat)),
{
    let ghost sn: nat = side as nat;
    let mut success_ids: Vec<i64> = Vec::new();
    let mut failures: Vec<EmbeddingFailure> = Vec::new();
    let mut data: Vec<u8> = Vec::new();
    let mut count: usize = 0;
    let mut i: usize = 0;
    while i < docs.len()
        invariant
            i <= docs@.len(),
            1 <= side <= 65535,
            crate::tensor_len(sn) <= usize::MAX,
            sn == side as nat,
            success_ids@ == success_ids_of(docs@.take(i as int), sn),
            failures@.map_values(|f: EmbeddingFailure| f.id) == failure_ids_of(
                docs@.take(i as int),
                sn,
            ),
            data@ == batch_data_of(docs@.take(i as int), sn),
            count == success_ids@.len(),
            count <= i,
        decreases docs@.len() - i,
    {
        let ghost prefix = docs@.take(i as int);
        let ghost prefix1 = docs@.take(i as int + 1);
        proof {
            assert(prefix1.drop_last() =~= prefix);
            assert(prefix1.last() == docs@[i as int]);
        }
        let d = &docs[i];
        let ghost old_failures = failures@;
        match &d.data {
            Err(e) => {
                failures.push(EmbeddingFailure { id: d.id, err: e.clone() });
                proof {
                    assert(failures@.map_values(|f: EmbeddingFailure| f.id) =~= old_failures
                        .map_values(|f: EmbeddingFailure| f.id).push(d.id));
                    assert(data@ =~= batch_data_of(prefix1, sn));
                }
            },
            Ok(bytes) => {
                match preprocess(bytes, side) {
                    Ok(tensor) => {
                        success_ids.push(d.id);
                        count = count + 1;
                        let mut t = tensor;
                        data.append(&mut t);
                    },
                    Err(_) => {
                        failures.push(
                            EmbeddingFailure {
                                id: d.id,
                                err: "preprocessing failed for this image".to_string(),
                            },
                        );
                        proof {
                            assert(failures@.map_values(|f: EmbeddingFailure| f.id)
                                =~= old_failures.map_values(|f: EmbeddingFailure| f.id).push(
                                d.id,
                            ));
                            assert(data@ =~= batch_data_of(prefix1, sn));
                        }
                    },
                }
            },
        }
        i = i + 1;
    }
    proof {
        assert(docs@.take(docs@.len() as int) =~= docs@);
    }
    if count > 0 {
        let batch = BatchTensor { data, count, side };
        proof {
            lemma_batch_data_len(docs@, sn);
        }
        BatchOutcome { batch: Some(batch), success_ids, failures }
    } else {
        BatchOutcome { batch: None, success_ids, failures }
    }
}

/// Re-attach ids to the inference output: row `i` of the flat `[n, dim]`
/// output belongs to `success_ids[i]`, by the positional correspondence the
/// assembly established. Every produced embedding has exactly `dim`
/// elements.
pub fn map_results(success_ids: &Vec<i64>, output: &Vec<u32>, dim: usize) -> (r: Vec<
    EmbeddingResult,
>)
    requires
        output@.len() == success_ids@.len() * dim,
    ensures
        r@.len() == success_ids@.len(),
        forall|i: int|
            0 <= i < r@.len() ==> #[trigger] r@[i].id == success_ids@[i] && r@[i].embedding@
                == output@.subrange(i * dim, (i + 1) * dim) && r@[i].embedding@.len() == dim,
{
    let n = success_ids.len();
    let olen = output.len();
    let mut r: Vec<EmbeddingResult> = Vec::new();
    let mut i: usize = 0;
    while i < n
        invariant
            i <= n,
            n == success_ids@.len(),
            olen == output@.len(),
            output@.len() == n * dim,
            r@.len() == i,
            forall|j: int|
                0 <= j < i ==> #[trigger] r@[j].id == success_ids@[j] && r@[j].embedding@
                    == output@.subrange(j * dim, (j + 1) * dim) && r@[j].embedding@.len() == dim,
        decreases n - i,
    {
        proof {
            lemma_mul_inequality(i as int + 1, n as int, dim as int);
            lemma_mul_inequality(i as int, n as int, dim as int);
            assert((i as int + 1) * dim == i as int * dim + dim) by (nonlinear_arith);
        }
        let base = i * dim;
        let mut embedding: Vec<u32> = Vec::new();
        let mut j: usize = 0;
        while j < dim
            invariant
                j <= dim,
                base == i as int * dim,
                olen == output@.len(),
                base + dim <= output@.len(),
                embedding@.len() == j,
                forall|t: int| 0 <= t < j ==> embedding@[t] == output@[base + t],
            decreases dim - j,
        {
            let v = output[base + j];
            embedding.push(v);
            j = j + 1;
        }
        proof {
            assert(embedding@ =~= output@.subrange(
                i as int * dim,
                (i as int + 1) * dim,
            ));
        }
        let id = success_ids[i];
        r.push(EmbeddingResult { id, embedding });
        i = i + 1;
    }
    r
}

/// The position of the output tensor that carries the embeddings: by the
/// model convention, the last of the returned set; none when the set is
/// empty.
pub fn embedding_output_index(n_outputs: usize) -> (r: Option<usize>)
    ensures
        (r matches Some(i) ==> n_outputs > 0 && i == n_outputs - 1),
        r is None <==> n_outputs == 0,
{
    if n_outputs == 0 {
        None
    } else {
        Some(n_outputs - 1)
    }
}

/// Partition completeness: over any input, the ids of the survivors and the
/// ids of the dropped documents together are exactly the input ids — none is
/// lost, none is duplicated, none is counted on both sides.
pub proof fn lemma_partition_complete(s: Seq<FetchedDocument>, side: nat)
    ensures
        success_ids_of(s, side).to_multiset().add(failure_ids_of(s, side).to_multiset())
            == s.map_values(|d: FetchedDocument| d.id).to_multiset(),
        success_ids_of(s, side).len() + failure_ids_of(s, side).len() == s.len(),
    decreases s.len(),
{
    broadcast use vstd::seq_lib::group_to_multiset_ensures;

    let ids = |d: FetchedDocument| d.id;
    if s.len() == 0 {
        assert(s.map_values(ids) =~= Seq::<i64>::empty());
        assert(success_ids_of(s, side).to_multiset().add(failure_ids_of(s, side).to_multiset())
            =~= s.map_values(ids).to_multiset());
    } else {
        lemma_partition_complete(s.drop_last(), side);
        assert(s.drop_last().map_values(ids) =~= s.map_values(ids).drop_last());
        assert(s.map_values(ids).drop_last().push(s.last().id) =~= s.map_values(ids));
        let sm = success_ids_of(s.drop_last(), side).to_multiset();
        let fm = failure_ids_of(s.drop_last(), side).to_multiset();
        if item_ok(s.last(), side) {
            assert(sm.insert(s.last().id).add(fm) =~= sm.add(fm).insert(s.last().id));
        } else {
            assert(sm.add(fm.insert(s.last().id)) =~= sm.add(fm).insert(s.last().id));
        }
    }
}

/// When every document is dropped, the success list is empty and the failure
/// ids are exactly the input ids in input order — and the batch tensor is
/// never built, so inference has nothing to run on.
pub proof fn lemma_all_failed(s: Seq<FetchedDocument>, side: nat)
    requires
        forall|i: int| 0 <= i < s.len() ==> !item_ok(#[trigger] s[i], side),
    ensures
        success_ids_of(s, side) == Seq::<i64>::empty(),
        failure_ids_of(s, side) == s.map_values(|d: FetchedDocument| d.id),
    decreases s.len(),
{
    let ids = |d: FetchedDocument| d.id;
    if s.len() == 0 {
        assert(failure_ids_of(s, side) =~= s.map_values(ids));
    } else {
        assert(!item_ok(s.last(), side)) by {
            assert(s.last() == s[s.len() - 1]);
        }
        lemma_all_failed(s.drop_last(), side);
        assert(s.drop_last().map_values(ids) =~= s.map_values(ids).drop_last());
        assert(failure_ids_of(s, side) =~= s.map_values(ids));
    }
}

/// An empty input yields empty outputs on every side: nothing succeeds,
/// nothing fails, nothing is stacked, and inference is never reached.
pub proof fn lemma_empty_batch(side: nat)
    ensures
        success_ids_of(Seq::<FetchedDocument>::empty(), side) == Seq::<i64>::empty(),
        failure_ids_of(Seq::<FetchedDocument>::empty(), side) == Seq::<i64>::empty(),
        batch_data_of(Seq::<FetchedDocument>::empty(), side) == Seq::<u8>::empty(),
{
}

/// The multiset fold that collects the ids of the documents a predicate
/// selects.
spec fn id_collector(side: nat, ok: bool) -> spec_fn(FetchedDocument, Multiset<i64>) -> Multiset<
    i64,
> {
    |d: FetchedDocument, m: Multiset<i64>|
        if item_ok(d, side) == ok {
            m.insert(d.id)
        } else {
            m
        }
}

proof fn lemma_collector_commutes(side: nat, ok: bool)
    ensures
        vstd::seq_lib::commutative_foldr(id_collector(side, ok)),
{
    let f = id_collector(side, ok);
    assert forall|x: FetchedDocument, y: FetchedDocument, v: Multiset<i64>|
        #[trigger] f(x, f(y, v)) == f(y, f(x, v)) by {
        if item_ok(x, side) == ok && item_ok(y, side) == ok {
            assert(v.insert(y.id).insert(x.id) =~= v.insert(x.id).insert(y.id));
        }
    }
}

/// Folding the collector over a prefix starting from a larger accumulator
/// just adds that accumulator's contents.
proof fn lemma_fold_insert_acc(
    s: Seq<FetchedDocument>,
    side: nat,
    ok: bool,
    m: Multiset<i64>,
    x: i64,
)
    ensures
        s.fold_right(id_collector(side, ok), m.insert(x)) == s.fold_right(
            id_collector(side, ok),
            m,
        ).insert(x),
    decreases s.len(),
{
    let f = id_collector(side, ok);
    if s.len() > 0 {
        if item_ok(s.last(), side) == ok {
            assert(m.insert(x).insert(s.last().id) =~= m.insert(s.last().id).insert(x));
            lemma_fold_insert_acc(s.drop_last(), side, ok, m.insert(s.last().id), x);
        } else {
            lemma_fold_insert_acc(s.drop_last(), side, ok, m, x);
        }
    }
}

/// The id multisets of the selected documents, computed by the fold, agree
/// with the ones computed from the ordered lists.
proof fn lemma_ids_as_fold(s: Seq<FetchedDocument>, side: nat)
    ensures
        success_ids_of(s, side).to_multiset() == s.fold_right(
            id_collector(side, true),
            Multiset::<i64>::empty(),
        ),
        failure_ids_of(s, side).to_multiset() == s.fold_right(
            id_collector(side, false),
            Multiset::<i64>::empty(),
        ),
    decreases s.len(),
{
    broadcast use vstd::seq_lib::group_to_multiset_ensures;

    if s.len() == 0 {
        assert(success_ids_of(s, side).to_multiset() =~= Multiset::<i64>::empty());
        assert(failure_ids_of(s, side).to_multiset() =~= Multiset::<i64>::empty());
    } else {
        lemma_ids_as_fold(s.drop_last(), side);
        if item_ok(s.last(), side) {
            lemma_fold_insert_acc(
                s.drop_last(),
                side,
                true,
                Multiset::<i64>::empty(),
                s.last().id,
            );
        } else {
            lemma_fold_insert_acc(
                s.drop_last(),
                side,
                false,
                Multiset::<i64>::empty(),
                s.last().id,
            );
        }
    }
}

/// Order-independence of outcome: two inputs that are permutations of each
/// other make the same documents succeed and the same documents fail — the
/// ids on each side are the same multisets, so reordering the input only
/// reorders the output lists.
pub proof fn lemma_outcome_permutation_invariant(
    s1: Seq<FetchedDocument>,
    s2: Seq<FetchedDocument>,
    side: nat,
)
    requires
        s1.to_multiset() == s2.to_multiset(),
    ensures
        success_ids_of(s1, side).to_multiset() == success_ids_of(s2, side).to_multiset(),
        failure_ids_of(s1, side).to_multiset() == failure_ids_of(s2, side).to_multiset(),
{
    lemma_ids_as_fold(s1, side);
    lemma_ids_as_fold(s2, side);
    lemma_collector_commutes(side, true);
    lemma_collector_commutes(side, false);
    lemma_fold_right_permutation(s1, s2, id_collector(side, true), Multiset::<i64>::empty());
    lemma_fold_right_permutation(s1, s2, id_collector(side, false), Multiset::<i64>::empty());
}

} // verus!
