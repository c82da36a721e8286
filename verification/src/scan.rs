//! Scanning the transactions of a block, or one transaction, for the
//! inscriptions that pass a set of filters.

use std::sync::Arc;
use vstd::prelude::*;

use crate::filter::{keep_matching, kept, passes, Filter};
use crate::content::ImageProbe;
use crate::inscription::{
    inscriptions_view, lemma_unread_needs_no_probe, lemma_unread_of_parts, unread, Inscription,
    InscriptionView, Transaction,
};

verus! {

/// The inscriptions of the first `n` transactions, one transaction after
/// the other, given the payloads that are known to decode as images.
pub open spec fn block_records(
    txs: Seq<Transaction>,
    n: int,
    images: Set<Seq<u8>>,
) -> Seq<InscriptionView>
    decreases n,
{
    if n <= 0 {
        Seq::empty()
    } else {
        block_records(txs, n - 1, images) + txs[n - 1].records_of_first(
            txs[n - 1].input@.len() as int,
            images,
        )
    }
}

/// Which payloads of a block are no text does not depend on what is known
/// of images.
pub proof fn lemma_block_unread_needs_no_probe(
    txs: Seq<Transaction>,
    n: int,
    images: Set<Seq<u8>>,
    others: Set<Seq<u8>>,
)
    requires
        n <= txs.len(),
    ensures
        unread(block_records(txs, n, images)) == unread(block_records(txs, n, others)),
    decreases n,
{
    if n > 0 {
        lemma_block_unread_needs_no_probe(txs, n - 1, images, others);
        let tx = txs[n - 1];
        let inputs = tx.input@.len() as int;
        lemma_unread_needs_no_probe(tx, inputs, images, others);
        lemma_unread_of_parts(block_records(txs, n - 1, images), tx.records_of_first(inputs, images));
        lemma_unread_of_parts(block_records(txs, n - 1, others), tx.records_of_first(inputs, others));
    }
}

/// Filtering a list is filtering its parts: the kept inscriptions of two
/// lists, one after the other, are those of the first and then those of the
/// second.
pub proof fn lemma_kept_of_parts(
    first: Seq<InscriptionView>,
    second: Seq<InscriptionView>,
    filters: Seq<Filter>,
)
    ensures
        kept(first + second, filters) == kept(first, filters) + kept(second, filters),
    decreases second.len(),
{
    if second.len() == 0 {
        assert(first + second =~= first);
        assert(kept(first, filters) + kept(second, filters) =~= kept(first, filters));
    } else {
        let whole = first + second;
        assert(whole.drop_last() =~= first + second.drop_last());
        assert(whole.last() == second.last());
        lemma_kept_of_parts(first, second.drop_last(), filters);
        assert(kept(whole, filters) =~= kept(first, filters) + kept(second, filters));
    }
}

/// With no filter, everything is kept.
pub proof fn lemma_no_filter_keeps_all(list: Seq<InscriptionView>, filters: Seq<Filter>)
    requires
        filters.len() == 0,
    ensures
        kept(list, filters) == list,
    decreases list.len(),
{
    if list.len() > 0 {
        lemma_no_filter_keeps_all(list.drop_last(), filters);
        assert(list.drop_last().push(list.last()) =~= list);
    }
}

/// Every inscription that is kept passes the filters, and the kept ones
/// stand in the order of the list.
pub proof fn lemma_kept_pass(list: Seq<InscriptionView>, filters: Seq<Filter>)
    ensures
        kept(list, filters).len() <= list.len(),
        forall|k: int|
            0 <= k < kept(list, filters).len() ==> passes(
                filters,
                (#[trigger] kept(list, filters)[k]).parsed,
            ),
    decreases list.len(),
{
    if list.len() > 0 {
        lemma_kept_pass(list.drop_last(), filters);
    }
}

/// The inscriptions of one transaction that pass the filters, in the order
/// of its inputs.
pub fn scan_transaction(tx: &Transaction, filters: &[Filter], probe: &ImageProbe) -> (r: Vec<
    Arc<Inscription>,
>)
    ensures
        inscriptions_view(r@) == kept(
            tx.records_of_first(tx.input@.len() as int, probe@),
            filters@,
        ),
{
    let all = Inscription::extract_all(tx, probe);
    keep_matching(&all, filters)
}

/// The inscriptions of the transactions of a block that pass the filters,
/// in the order of the transactions.
pub fn scan_block(txs: &Vec<Transaction>, filters: &[Filter], probe: &ImageProbe) -> (r: Vec<
    Arc<Inscription>,
>)
    ensures
        inscriptions_view(r@) == kept(block_records(txs@, txs@.len() as int, probe@), filters@),
{
    let mut found: Vec<Arc<Inscription>> = Vec::new();
    let n = txs.len();
    let mut k: usize = 0;
    assert(inscriptions_view(found@) =~= kept(block_records(txs@, 0, probe@), filters@));
    while k < n
        invariant
            k <= n,
            n == txs@.len(),
            inscriptions_view(found@) == kept(block_records(txs@, k as int, probe@), filters@),
        decreases n - k,
    {
        let ghost before = found@;
        let mut part = scan_transaction(&txs[k], filters, probe);
        let ghost added = part@;
        found.append(&mut part);
        proof {
            assert(inscriptions_view(found@) =~= inscriptions_view(before) + inscriptions_view(
                added,
            ));
            lemma_kept_of_parts(
                block_records(txs@, k as int, probe@),
                txs@[k as int].records_of_first(txs@[k as int].input@.len() as int, probe@),
                filters@,
            );
        }
        k = k + 1;
    }
    found
}

/// The inscriptions of a block for the explorer to list: those that pass
/// the filters which the user has selected, in the order of the
/// transactions. With no filter selected, every inscription is listed.
pub fn block_inscriptions(txs: &Vec<Transaction>, filters: &[Filter], probe: &ImageProbe) -> (r:
    Vec<Arc<Inscription>>)
    ensures
        inscriptions_view(r@) == kept(block_records(txs@, txs@.len() as int, probe@), filters@),
{
    scan_block(txs, filters, probe)
}

} // verus!
