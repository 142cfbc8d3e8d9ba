//! The comparison service: one deduplication filter and one product index
//! shared by every comparison, the per-request orchestration, and the bulk
//! dispatcher with per-item failure isolation.
//!
//! The search collaborator is outside this library; the caller performs the
//! search and hands its outcome in, so every decision made here is checked
//! for every possible outcome.

use vstd::prelude::*;
use crate::compare::{
    CompareError,
    PriceComparisonRequest,
    PriceComparisonResponse,
    SearchFailure,
    SearchListing,
};
use crate::compare::{
    compute_comparison,
    index_insert_spec,
    listing_views,
    response_spec,
    responses_views,
    valid_request_spec,
};
use crate::filter::DedupFilter;
use crate::index::{matching_names, take_at_most, ProductIndex};
use crate::text::{dedup_key, dedup_key_spec, normalize_spec, views_of};

verus! {

/// How many distinct (product, platform) pairs the filter is sized for.
pub const FILTER_EXPECTED_ITEMS: usize = 10000;

/// The filter's target false-positive rate, in parts per million (1%).
pub const FILTER_FP_RATE_PPM: u32 = 10000;

/// One request of a bulk batch: the request and the outcome of the search
/// the caller ran for it.
pub struct BulkItem {
    pub request: PriceComparisonRequest,
    pub outcome: Result<Vec<SearchListing>, SearchFailure>,
}

/// The responses a batch produces: each item that is valid and whose search
/// succeeded yields its response, in order; every other item is dropped.
pub open spec fn bulk_results_spec(items: Seq<BulkItem>) -> Seq<crate::compare::ResponseSpec>
    decreases items.len(),
{
    if items.len() == 0 {
        Seq::empty()
    } else {
        bulk_results_spec(items.drop_last()) + (
        if valid_request_spec(items.last().request@) && items.last().outcome is Ok {
            seq![response_spec(items.last().request@, listing_views(items.last().outcome->Ok_0@))]
        } else {
            Seq::empty()
        })
    }
}

/// How many items of the batch carry an invalid request.
pub open spec fn invalid_count(items: Seq<BulkItem>) -> int
    decreases items.len(),
{
    if items.len() == 0 {
        0int
    } else {
        invalid_count(items.drop_last()) + if valid_request_spec(items.last().request@) {
            0int
        } else {
            1int
        }
    }
}

/// When every search succeeds, a batch of `N` items of which `M` are
/// invalid yields exactly `N - M` responses.
pub proof fn lemma_bulk_count(items: Seq<BulkItem>)
    requires
        forall|i: int| 0 <= i < items.len() ==> (#[trigger] items[i].outcome) is Ok,
    ensures
        bulk_results_spec(items).len() == items.len() - invalid_count(items),
    decreases items.len(),
{
    if items.len() > 0 {
        assert(forall|i: int|
            0 <= i < items.drop_last().len() ==> (#[trigger] items.drop_last()[i].outcome) is Ok);
        lemma_bulk_count(items.drop_last());
        assert(items[items.len() - 1].outcome is Ok);
    }
}

/// The deduplication keys a batch records: one key for every valid item.
pub open spec fn bulk_keys_spec(items: Seq<BulkItem>, init: Set<Seq<u8>>) -> Set<Seq<u8>>
    decreases items.len(),
{
    if items.len() == 0 {
        init
    } else {
        let prior = bulk_keys_spec(items.drop_last(), init);
        if valid_request_spec(items.last().request@) {
            prior.insert(
                dedup_key_spec(
                    items.last().request.product_name@,
                    items.last().request.current_platform@,
                ),
            )
        } else {
            prior
        }
    }
}

/// The product names a batch records: one name for every item that is
/// valid and whose search succeeded.
pub open spec fn bulk_names_spec(items: Seq<BulkItem>, init: Seq<Seq<u8>>) -> Seq<Seq<u8>>
    decreases items.len(),
{
    if items.len() == 0 {
        init
    } else {
        let prior = bulk_names_spec(items.drop_last(), init);
        if valid_request_spec(items.last().request@) && items.last().outcome is Ok {
            index_insert_spec(prior, normalize_spec(items.last().request.product_name@))
        } else {
            prior
        }
    }
}

/// Recording the same key and name a second time changes nothing: the
/// filter's key set and the index contents are exactly what one recording
/// leaves.
pub proof fn lemma_record_idempotent(
    keys: Set<Seq<u8>>,
    names: Seq<Seq<u8>>,
    key: Seq<u8>,
    n: Seq<u8>,
)
    ensures
        keys.insert(key).insert(key) == keys.insert(key),
        index_insert_spec(index_insert_spec(names, n), n) == index_insert_spec(names, n),
{
    assert(keys.insert(key).insert(key) =~= keys.insert(key));
    assert(index_insert_spec(names, n).contains(n)) by {
        if !names.contains(n) {
            assert(names.push(n)[names.len() as int] == n);
        }
    }
}

/// A batch whose last item repeats the one before it records exactly the
/// keys and names of the batch without the repetition: recording is
/// idempotent.
pub proof fn lemma_bulk_duplicate_idempotent(
    items: Seq<BulkItem>,
    init_keys: Set<Seq<u8>>,
    init_names: Seq<Seq<u8>>,
)
    requires
        items.len() >= 2,
        items.last() == items[items.len() - 2],
    ensures
        bulk_keys_spec(items, init_keys) == bulk_keys_spec(items.drop_last(), init_keys),
        bulk_names_spec(items, init_names) == bulk_names_spec(items.drop_last(), init_names),
{
    let pre = items.drop_last();
    assert(pre.last() == items[items.len() - 2]);
    let rq = items.last().request;
    if valid_request_spec(rq@) {
        let key = dedup_key_spec(rq.product_name@, rq.current_platform@);
        lemma_record_idempotent(
            bulk_keys_spec(pre.drop_last(), init_keys),
            bulk_names_spec(pre.drop_last(), init_names),
            key,
            normalize_spec(rq.product_name@),
        );
        assert(bulk_keys_spec(pre.drop_last(), init_keys).insert(key).insert(key)
            =~= bulk_keys_spec(pre.drop_last(), init_keys).insert(key));
    }
}

/// The price comparison service.
///
/// Holds the process-lifetime deduplication filter and product index that
/// all comparisons share.
pub struct PriceComparisonService {
    filter: DedupFilter,
    index: ProductIndex,
}

impl PriceComparisonService {
    /// The deduplication keys recorded so far.
    pub closed spec fn dedup_keys(self) -> Set<Seq<u8>> {
        self.filter.keys()
    }

    /// The normalized product names seen so far, in insertion order.
    pub closed spec fn known_names(self) -> Seq<Seq<u8>> {
        self.index.names()
    }

    /// Structural invariant.
    pub closed spec fn wf(self) -> bool {
        self.filter.wf() && self.index.wf()
    }

    /// Whether the filter currently answers "possibly seen" for this
    /// (product, platform) pair.
    pub closed spec fn possibly_seen(self, product_name: Seq<u8>, platform: Seq<u8>) -> bool {
        self.filter.all_probes_set(dedup_key_spec(product_name, platform))
    }

    /// The filter's bit array.
    pub closed spec fn filter_bits(self) -> Seq<bool> {
        self.filter.bits_view()
    }

    /// The length of the filter's bit array.
    pub closed spec fn filter_nbits(self) -> int {
        self.filter.nbits()
    }

    /// A fresh service with an empty filter and index: no pair reported
    /// seen, no bit set, no name known.
    pub fn new() -> (s: Self)
        ensures
            s.wf(),
            s.dedup_keys() == Set::<Seq<u8>>::empty(),
            s.known_names() == Seq::<Seq<u8>>::empty(),
            forall|name: Seq<u8>, platform: Seq<u8>| !(#[trigger] s.possibly_seen(name, platform)),
            DedupFilter::count_set(s.filter_bits()) == 0,
    {
        let filter = DedupFilter::build(FILTER_EXPECTED_ITEMS, FILTER_FP_RATE_PPM);
        proof {
            filter.lemma_all_clear_consequences();
        }
        PriceComparisonService { filter, index: ProductIndex::new() }
    }

    /// Check a request: accepted exactly when the product name is non-empty
    /// and the price is positive.
    pub fn validate(req: &PriceComparisonRequest) -> (r: Result<(), CompareError>)
        ensures
            r is Ok <==> valid_request_spec(req@),
            r is Err ==> r->Err_0 == CompareError::InvalidRequest,
    {
        if req.product_name.len() == 0 || req.current_price_cents == 0 {
            Err(CompareError::InvalidRequest)
        } else {
            Ok(())
        }
    }

    /// Run one comparison against the outcome of the search the caller
    /// performed for this request.
    ///
    /// An invalid request is refused untouched; for a valid one the
    /// deduplication key is always recorded, a failed search is reported as
    /// unavailable, and a successful one yields the exact comparison
    /// outcome and records the product name.
    pub fn compare_prices(
        &mut self,
        req: &PriceComparisonRequest,
        search_outcome: &Result<Vec<SearchListing>, SearchFailure>,
    ) -> (r: Result<PriceComparisonResponse, CompareError>)
        requires
            old(self).wf(),
        ensures
            final(self).wf(),
            !valid_request_spec(req@) ==> r is Err && r->Err_0 == CompareError::InvalidRequest
                && final(self).dedup_keys() == old(self).dedup_keys() && final(self).known_names()
                == old(self).known_names(),
            valid_request_spec(req@) ==> final(self).dedup_keys() == old(self).dedup_keys().insert(
                dedup_key_spec(req.product_name@, req.current_platform@),
            ),
            valid_request_spec(req@) && search_outcome is Err ==> r is Err && r->Err_0
                == CompareError::SearchUnavailable && final(self).known_names() == old(
                self).known_names(),
            valid_request_spec(req@) && search_outcome is Ok ==> r is Ok && (r->Ok_0)@
                == response_spec(req@, listing_views(search_outcome->Ok_0@)) && final(
                self).known_names() == index_insert_spec(
                old(self).known_names(),
                normalize_spec(req.product_name@),
            ),
    {
        if req.product_name.len() == 0 || req.current_price_cents == 0 {
            return Err(CompareError::InvalidRequest);
        }
        let _already_known = self.index.contains(&req.product_name);
        let key = dedup_key(&req.product_name, &req.current_platform);
        let _repeat = self.filter.might_contain(&key);
        self.filter.insert(&key);
        match search_outcome {
            Err(_) => Err(CompareError::SearchUnavailable),
            Ok(listings) => {
                let resp = compute_comparison(req, listings);
                self.index.insert(&req.product_name);
                Ok(resp)
            },
        }
    }

    /// Run a batch of comparisons, keeping the responses of the items that
    /// succeed and dropping every failing item; the batch itself never
    /// fails.
    pub fn compare_bulk(&mut self, items: &Vec<BulkItem>) -> (r: Vec<PriceComparisonResponse>)
        requires
            old(self).wf(),
        ensures
            final(self).wf(),
            responses_views(r@) == bulk_results_spec(items@),
            final(self).dedup_keys() == bulk_keys_spec(items@, old(self).dedup_keys()),
            final(self).known_names() == bulk_names_spec(items@, old(self).known_names()),
            old(self).dedup_keys().subset_of(final(self).dedup_keys()),
            forall|n: Seq<u8>|
                old(self).known_names().contains(n) ==> final(self).known_names().contains(n),
    {
        let mut out: Vec<PriceComparisonResponse> = Vec::new();
        proof {
            assert(responses_views(out@) =~= bulk_results_spec(items@.take(0)));
        }
        let mut i: usize = 0;
        while i < items.len()
            invariant
                self.wf(),
                i <= items@.len(),
                responses_views(out@) == bulk_results_spec(items@.take(i as int)),
                self.dedup_keys() == bulk_keys_spec(items@.take(i as int), old(self).dedup_keys()),
                self.known_names() == bulk_names_spec(
                    items@.take(i as int),
                    old(self).known_names(),
                ),
                old(self).dedup_keys().subset_of(self.dedup_keys()),
                forall|n: Seq<u8>|
                    old(self).known_names().contains(n) ==> self.known_names().contains(n),
            decreases items@.len() - i,
        {
            let ghost pre = bulk_results_spec(items@.take(i as int));
            let ghost keys_pre = self.dedup_keys();
            let ghost names_pre = self.known_names();
            proof {
                assert(items@.take(i + 1 as int).drop_last() =~= items@.take(i as int));
                assert(items@.take(i + 1 as int).last() == items@[i as int]);
            }
            let item = &items[i];
            let ghost out_pre = out@;
            match self.compare_prices(&item.request, &item.outcome) {
                Ok(resp) => {
                    out.push(resp);
                    proof {
                        assert(responses_views(out@) =~= responses_views(out_pre).push(
                            response_spec(
                                items@[i as int].request@,
                                listing_views(items@[i as int].outcome->Ok_0@),
                            ),
                        ));
                        assert(responses_views(out@) =~= bulk_results_spec(
                            items@.take(i + 1 as int),
                        ));
                        assert(valid_request_spec(items@[i as int].request@));
                        assert(items@[i as int].outcome is Ok);
                        assert(self.dedup_keys() =~= bulk_keys_spec(
                            items@.take(i + 1 as int),
                            old(self).dedup_keys(),
                        ));
                        assert(self.known_names() == bulk_names_spec(
                            items@.take(i + 1 as int),
                            old(self).known_names(),
                        ));
                    }
                },
                Err(_) => {
                    proof {
                        assert(responses_views(out@) =~= bulk_results_spec(
                            items@.take(i + 1 as int),
                        ));
                        if valid_request_spec(items@[i as int].request@) {
                            assert(items@[i as int].outcome is Err);
                            assert(self.dedup_keys() =~= bulk_keys_spec(
                                items@.take(i + 1 as int),
                                old(self).dedup_keys(),
                            ));
                        } else {
                            assert(self.dedup_keys() =~= bulk_keys_spec(
                                items@.take(i + 1 as int),
                                old(self).dedup_keys(),
                            ));
                        }
                        assert(self.known_names() == bulk_names_spec(
                            items@.take(i + 1 as int),
                            old(self).known_names(),
                        ));
                    }
                },
            }
            proof {
                assert forall|n: Seq<u8>| old(self).known_names().contains(n) implies self
                    .known_names().contains(n) by {
                    assert(names_pre.contains(n));
                    if self.known_names() != names_pre {
                        crate::index::lemma_index_never_loses(
                            names_pre,
                            self.known_names().last(),
                            n,
                        );
                        assert(self.known_names() =~= names_pre.push(self.known_names().last()));
                    }
                }
            }
            i = i + 1;
        }
        proof {
            assert(items@.take(items@.len() as int) =~= items@);
        }
        out
    }

    /// Whether this (product, platform) pair was possibly compared before:
    /// a recorded pair is always reported, a positive answer may be
    /// spurious.
    pub fn seen_before(&self, product_name: &Vec<u8>, platform: &Vec<u8>) -> (r: bool)
        requires
            self.wf(),
        ensures
            r == self.possibly_seen(product_name@, platform@),
            self.dedup_keys().contains(dedup_key_spec(product_name@, platform@)) ==> r,
    {
        let key = dedup_key(product_name, platform);
        self.filter.might_contain(&key)
    }

    /// Whether this product name was compared successfully before.
    pub fn known_product(&self, product_name: &Vec<u8>) -> (r: bool)
        requires
            self.wf(),
        ensures
            r == self.known_names().contains(normalize_spec(product_name@)),
    {
        self.index.contains(product_name)
    }

    /// Up to `limit` known product names starting with the given prefix.
    pub fn suggestions(&self, prefix: &Vec<u8>, limit: usize) -> (r: Vec<Vec<u8>>)
        requires
            self.wf(),
        ensures
            views_of(r@) == take_at_most(
                matching_names(self.known_names(), normalize_spec(prefix@)),
                limit as int,
            ),
    {
        self.index.prefix_matches(prefix, limit)
    }

    /// The filter's load, in parts per thousand of bits set.
    pub fn filter_load_permille(&self) -> (r: u64)
        requires
            self.wf(),
        ensures
            r == 1000 * DedupFilter::count_set(self.filter_bits()) / self.filter_nbits(),
    {
        self.filter.load_permille()
    }

    /// Forget every recorded deduplication key, keeping the filter's size:
    /// every bit is cleared, so no pair is reported seen and the load is
    /// back to zero.
    pub fn reset_filter(&mut self)
        requires
            old(self).wf(),
        ensures
            final(self).wf(),
            final(self).dedup_keys() == Set::<Seq<u8>>::empty(),
            final(self).known_names() == old(self).known_names(),
            forall|name: Seq<u8>, platform: Seq<u8>|
                !(#[trigger] final(self).possibly_seen(name, platform)),
            DedupFilter::count_set(final(self).filter_bits()) == 0,
    {
        self.filter.reset();
        proof {
            self.filter.lemma_all_clear_consequences();
        }
    }
}

} // verus!
