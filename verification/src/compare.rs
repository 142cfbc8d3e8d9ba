//! Comparison orchestration: turn one request and the listings found across
//! platforms into a ranked decision, and dispatch batches of requests.
//!
//! Money is integer cents and ratings are tenths of a star, so every formula
//! is exact. The discount of a candidate against the request's own price is
//! kept in basis points (hundredths of a percent), rounded down and clamped
//! below at zero.

use vstd::prelude::*;
use vstd::arithmetic::div_mod::{lemma_div_is_ordered, lemma_div_multiples_vanish, lemma_div_of0};
use crate::text::clone_bytes;

verus! {

/// Why a comparison was refused.
#[derive(Clone, Copy, Debug, PartialEq, Eq, Structural)]
pub enum CompareError {
    /// The request was malformed: empty product name or zero price.
    InvalidRequest,
    /// The search collaborator failed or timed out.
    SearchUnavailable,
    /// An unclassified internal fault.
    InternalError,
}

/// The opaque failure of the search collaborator, as handed in by the caller
/// that performed the search.
#[derive(Clone, Copy, Debug, PartialEq, Eq, Structural)]
pub struct SearchFailure;

/// One comparison request. Prices are in cents.
#[derive(Debug)]
pub struct PriceComparisonRequest {
    pub product_name: Vec<u8>,
    pub current_price_cents: u64,
    pub current_platform: Vec<u8>,
    pub product_category: Option<Vec<u8>>,
    pub user_id: Option<Vec<u8>>,
}

/// One listing found on some platform by the search collaborator.
#[derive(Debug)]
pub struct SearchListing {
    pub platform: Vec<u8>,
    pub price_cents: u64,
    pub url: Vec<u8>,
    pub in_stock: bool,
    pub rating_tenths: Option<u8>,
    pub estimated_delivery: Option<Vec<u8>>,
}

/// A candidate offer: a platform, its price, and derived figures.
#[derive(Debug)]
pub struct PlatformPrice {
    pub platform: Vec<u8>,
    pub price_cents: u64,
    pub url: Vec<u8>,
    pub discount_bp: u32,
    pub availability: bool,
    pub rating_tenths: Option<u8>,
    pub delivery_time: Option<Vec<u8>>,
}

/// One generated recommendation; rendering to prose is the caller's affair.
#[derive(Debug)]
pub enum Recommendation {
    /// Buying from `platform` saves `amount_cents`.
    Savings { platform: Vec<u8>, amount_cents: u64 },
    /// `platform` is rated above four stars.
    HighRating { platform: Vec<u8>, rating_tenths: u8 },
}

/// The outcome of one comparison.
#[derive(Debug)]
pub struct PriceComparisonResponse {
    pub current_platform: PlatformPrice,
    pub alternatives: Vec<PlatformPrice>,
    pub best_deal: PlatformPrice,
    pub potential_savings_cents: u64,
    pub recommendations: Vec<Recommendation>,
}

/// Mathematical image of a request.
#[verifier::ext_equal]
pub ghost struct RequestSpec {
    pub product_name: Seq<u8>,
    pub price: int,
    pub platform: Seq<u8>,
    pub category: Option<Seq<u8>>,
    pub user: Option<Seq<u8>>,
}

/// Mathematical image of a listing.
#[verifier::ext_equal]
pub ghost struct ListingSpec {
    pub platform: Seq<u8>,
    pub price: int,
    pub url: Seq<u8>,
    pub in_stock: bool,
    pub rating: Option<u8>,
    pub delivery: Option<Seq<u8>>,
}

/// Mathematical image of a candidate offer.
#[verifier::ext_equal]
pub ghost struct PriceSpec {
    pub platform: Seq<u8>,
    pub price: int,
    pub url: Seq<u8>,
    pub discount_bp: int,
    pub availability: bool,
    pub rating: Option<u8>,
    pub delivery: Option<Seq<u8>>,
}

/// Mathematical image of a recommendation.
#[verifier::ext_equal]
pub ghost enum RecSpec {
    Savings { platform: Seq<u8>, amount: int },
    HighRating { platform: Seq<u8>, rating: u8 },
}

/// Mathematical image of a response.
#[verifier::ext_equal]
pub ghost struct ResponseSpec {
    pub current_platform: PriceSpec,
    pub alternatives: Seq<PriceSpec>,
    pub best_deal: PriceSpec,
    pub potential_savings: int,
    pub recommendations: Seq<RecSpec>,
}

/// The mathematical image of an optional byte string.
pub open spec fn opt_bytes_view(o: Option<Vec<u8>>) -> Option<Seq<u8>> {
    match o {
        Option::Some(v) => Option::Some(v@),
        Option::None => Option::None,
    }
}

impl View for PriceComparisonRequest {
    type V = RequestSpec;

    open spec fn view(&self) -> RequestSpec {
        RequestSpec {
            product_name: self.product_name@,
            price: self.current_price_cents as int,
            platform: self.current_platform@,
            category: opt_bytes_view(self.product_category),
            user: opt_bytes_view(self.user_id),
        }
    }
}

impl View for SearchListing {
    type V = ListingSpec;

    open spec fn view(&self) -> ListingSpec {
        ListingSpec {
            platform: self.platform@,
            price: self.price_cents as int,
            url: self.url@,
            in_stock: self.in_stock,
            rating: self.rating_tenths,
            delivery: opt_bytes_view(self.estimated_delivery),
        }
    }
}

impl View for PlatformPrice {
    type V = PriceSpec;

    open spec fn view(&self) -> PriceSpec {
        PriceSpec {
            platform: self.platform@,
            price: self.price_cents as int,
            url: self.url@,
            discount_bp: self.discount_bp as int,
            availability: self.availability,
            rating: self.rating_tenths,
            delivery: opt_bytes_view(self.delivery_time),
        }
    }
}

impl View for Recommendation {
    type V = RecSpec;

    open spec fn view(&self) -> RecSpec {
        match self {
            Recommendation::Savings { platform, amount_cents } => RecSpec::Savings {
                platform: platform@,
                amount: *amount_cents as int,
            },
            Recommendation::HighRating { platform, rating_tenths } => RecSpec::HighRating {
                platform: platform@,
                rating: *rating_tenths,
            },
        }
    }
}

impl View for PriceComparisonResponse {
    type V = ResponseSpec;

    open spec fn view(&self) -> ResponseSpec {
        ResponseSpec {
            current_platform: self.current_platform@,
            alternatives: prices_views(self.alternatives@),
            best_deal: self.best_deal@,
            potential_savings: self.potential_savings_cents as int,
            recommendations: recs_views(self.recommendations@),
        }
    }
}

/// The mathematical contents of a vector of listings.
pub open spec fn listing_views(s: Seq<SearchListing>) -> Seq<ListingSpec> {
    s.map_values(|l: SearchListing| l@)
}

/// The mathematical contents of a vector of candidate offers.
pub open spec fn prices_views(s: Seq<PlatformPrice>) -> Seq<PriceSpec> {
    s.map_values(|p: PlatformPrice| p@)
}

/// The mathematical contents of a vector of recommendations.
pub open spec fn recs_views(s: Seq<Recommendation>) -> Seq<RecSpec> {
    s.map_values(|r: Recommendation| r@)
}

/// The mathematical contents of a vector of responses.
pub open spec fn responses_views(s: Seq<PriceComparisonResponse>) -> Seq<ResponseSpec> {
    s.map_values(|r: PriceComparisonResponse| r@)
}

/// A request is acceptable: non-empty product name and positive price.
pub open spec fn valid_request_spec(r: RequestSpec) -> bool {
    r.product_name.len() > 0 && r.price > 0
}

/// The discount of `price` against `current`, in basis points, rounded
/// down and clamped below at zero.
pub open spec fn discount_bp_spec(current: int, price: int) -> int
    recommends
        current > 0,
{
    if price >= current {
        0
    } else {
        (current - price) * 10000 / current
    }
}

/// The candidate offer derived from one listing.
pub open spec fn listing_price_spec(current: int, l: ListingSpec) -> PriceSpec {
    PriceSpec {
        platform: l.platform,
        price: l.price,
        url: l.url,
        discount_bp: discount_bp_spec(current, l.price),
        availability: l.in_stock,
        rating: l.rating,
        delivery: l.delivery,
    }
}

/// The request's own platform as a candidate offer.
pub open spec fn current_snapshot_spec(r: RequestSpec) -> PriceSpec {
    PriceSpec {
        platform: r.platform,
        price: r.price,
        url: Seq::empty(),
        discount_bp: 0,
        availability: true,
        rating: Option::None,
        delivery: Option::None,
    }
}

/// All candidate offers derived from the listings.
pub open spec fn alternatives_spec(current: int, ls: Seq<ListingSpec>) -> Seq<PriceSpec> {
    ls.map_values(|l: ListingSpec| listing_price_spec(current, l))
}

/// The candidate set: every alternative, then the request's own platform.
pub open spec fn candidates_spec(r: RequestSpec, ls: Seq<ListingSpec>) -> Seq<PriceSpec> {
    alternatives_spec(r.price, ls).push(current_snapshot_spec(r))
}

/// The rank of a rating for tie-breaking; a missing rating ranks lowest.
pub open spec fn rating_rank(p: PriceSpec) -> int {
    match p.rating {
        Option::Some(r) => r as int,
        Option::None => -1,
    }
}

/// `a` is strictly preferred over `b`: lower price, or the same price with
/// a higher rating. Equal price and rating keep the earlier candidate.
pub open spec fn better_deal(a: PriceSpec, b: PriceSpec) -> bool {
    a.price < b.price || (a.price == b.price && rating_rank(a) > rating_rank(b))
}

/// The position of the best deal: the first candidate that no later
/// candidate strictly improves on.
pub open spec fn best_index_spec(c: Seq<PriceSpec>) -> int
    decreases c.len(),
{
    if c.len() <= 1 {
        0
    } else {
        let rest = best_index_spec(c.drop_last());
        if better_deal(c.last(), c[rest]) {
            c.len() - 1
        } else {
            rest
        }
    }
}

/// The generated recommendations, in their fixed order: savings first, then
/// rating quality.
pub open spec fn recommendations_spec(r: RequestSpec, best: PriceSpec) -> Seq<RecSpec> {
    let savings = r.price - best.price;
    (if savings > 0 {
        seq![RecSpec::Savings { platform: best.platform, amount: savings }]
    } else {
        Seq::empty()
    }) + (match best.rating {
        Option::Some(rt) => if rt > 40 {
            seq![RecSpec::HighRating { platform: best.platform, rating: rt }]
        } else {
            Seq::empty()
        },
        Option::None => Seq::empty(),
    })
}

/// The full outcome of comparing one valid request against the listings.
pub open spec fn response_spec(r: RequestSpec, ls: Seq<ListingSpec>) -> ResponseSpec {
    let cands = candidates_spec(r, ls);
    let best = cands[best_index_spec(cands)];
    ResponseSpec {
        current_platform: current_snapshot_spec(r),
        alternatives: alternatives_spec(r.price, ls),
        best_deal: best,
        potential_savings: r.price - best.price,
        recommendations: recommendations_spec(r, best),
    }
}

/// The index contents after recording one normalized name.
pub open spec fn index_insert_spec(names: Seq<Seq<u8>>, n: Seq<u8>) -> Seq<Seq<u8>> {
    if names.contains(n) {
        names
    } else {
        names.push(n)
    }
}

/// The best deal is priced at or below every candidate.
pub proof fn lemma_best_index_min(c: Seq<PriceSpec>)
    requires
        c.len() > 0,
    ensures
        0 <= best_index_spec(c) < c.len(),
        forall|i: int| 0 <= i < c.len() ==> c[best_index_spec(c)].price <= #[trigger] c[i].price,
    decreases c.len(),
{
    if c.len() > 1 {
        lemma_best_index_min(c.drop_last());
        let rest = best_index_spec(c.drop_last());
        assert forall|i: int| 0 <= i < c.len() implies c[best_index_spec(c)].price
            <= #[trigger] c[i].price by {
            if i < c.len() - 1 {
                assert(c.drop_last()[rest].price <= c.drop_last()[i].price);
            }
        }
    }
}

/// What every well-formed response satisfies: the best deal undercuts every
/// alternative and the current platform, savings are exactly the gap to the
/// best deal and never negative, and every alternative carries the exact
/// clamped discount, never negative.
pub proof fn lemma_response_sound(r: RequestSpec, ls: Seq<ListingSpec>)
    requires
        valid_request_spec(r),
    ensures
        response_spec(r, ls).best_deal.price <= response_spec(r, ls).current_platform.price,
        forall|i: int|
            0 <= i < response_spec(r, ls).alternatives.len() ==> response_spec(
                r,
                ls,
            ).best_deal.price <= #[trigger] response_spec(r, ls).alternatives[i].price,
        response_spec(r, ls).potential_savings == r.price - response_spec(r, ls).best_deal.price,
        response_spec(r, ls).potential_savings >= 0,
        forall|i: int|
            0 <= i < response_spec(r, ls).alternatives.len() ==> #[trigger] response_spec(
                r,
                ls,
            ).alternatives[i].discount_bp == discount_bp_spec(r.price, ls[i].price),
        forall|i: int|
            0 <= i < response_spec(r, ls).alternatives.len() ==> #[trigger] response_spec(
                r,
                ls,
            ).alternatives[i].discount_bp >= 0,
{
    let cands = candidates_spec(r, ls);
    lemma_best_index_min(cands);
    let b = best_index_spec(cands);
    assert(cands[cands.len() - 1] == current_snapshot_spec(r));
    assert(cands[b].price <= cands[cands.len() - 1].price);
    assert forall|i: int| 0 <= i < response_spec(r, ls).alternatives.len() implies response_spec(
        r,
        ls,
    ).best_deal.price <= #[trigger] response_spec(r, ls).alternatives[i].price by {
        assert(cands[i] == alternatives_spec(r.price, ls)[i]);
        assert(cands[b].price <= cands[i].price);
    }
    assert forall|i: int| 0 <= i < response_spec(r, ls).alternatives.len() implies #[trigger]
    response_spec(r, ls).alternatives[i].discount_bp >= 0 by {
        lemma_discount_nonneg(r.price, ls[i].price);
    }
}

/// The clamped discount is never negative.
pub proof fn lemma_discount_nonneg(current: int, price: int)
    requires
        current > 0,
    ensures
        discount_bp_spec(current, price) >= 0,
{
    if price < current {
        assert((current - price) * 10000 >= 0) by (nonlinear_arith)
            requires
                current - price >= 0,
        ;
        lemma_div_of0(current);
        lemma_div_is_ordered(0, (current - price) * 10000, current);
    }
}

/// The discount in basis points never exceeds the whole (10000).
pub proof fn lemma_discount_bound(current: int, price: int)
    requires
        current > 0,
        price >= 0,
    ensures
        0 <= discount_bp_spec(current, price) <= 10000,
{
    lemma_discount_nonneg(current, price);
    if price < current {
        assert((current - price) * 10000 <= current * 10000) by (nonlinear_arith)
            requires
                current - price <= current && current > 0,
        ;
        lemma_div_is_ordered((current - price) * 10000, current * 10000, current);
        lemma_div_multiples_vanish(10000, current);
        assert(current * 10000 == 10000 * current) by (nonlinear_arith);
    }
}

/// Compute the clamped discount of `price` against `current`, in basis
/// points.
pub fn discount_bp(current: u64, price: u64) -> (r: u32)
    requires
        current >= 1,
    ensures
        r == discount_bp_spec(current as int, price as int),
{
    if price >= current {
        0
    } else {
        let c: u128 = current as u128;
        let p: u128 = price as u128;
        let num: u128 = (c - p) * 10000;
        let q: u128 = num / c;
        proof {
            lemma_discount_bound(current as int, price as int);
        }
        q as u32
    }
}

fn clone_opt_bytes(o: &Option<Vec<u8>>) -> (r: Option<Vec<u8>>)
    ensures
        opt_bytes_view(r) == opt_bytes_view(*o),
{
    match o {
        Option::Some(v) => Option::Some(clone_bytes(v)),
        Option::None => Option::None,
    }
}

/// Derive the candidate offer for one listing.
fn listing_to_price(current: u64, l: &SearchListing) -> (r: PlatformPrice)
    requires
        current >= 1,
    ensures
        r@ == listing_price_spec(current as int, l@),
{
    PlatformPrice {
        platform: clone_bytes(&l.platform),
        price_cents: l.price_cents,
        url: clone_bytes(&l.url),
        discount_bp: discount_bp(current, l.price_cents),
        availability: l.in_stock,
        rating_tenths: l.rating_tenths,
        delivery_time: clone_opt_bytes(&l.estimated_delivery),
    }
}

/// The request's own platform as a candidate offer.
fn current_snapshot(req: &PriceComparisonRequest) -> (r: PlatformPrice)
    ensures
        r@ == current_snapshot_spec(req@),
{
    let r = PlatformPrice {
        platform: clone_bytes(&req.current_platform),
        price_cents: req.current_price_cents,
        url: Vec::new(),
        discount_bp: 0,
        availability: true,
        rating_tenths: Option::None,
        delivery_time: Option::None,
    };
    proof {
        assert(r@.url =~= current_snapshot_spec(req@).url);
    }
    r
}

/// An exact copy of a candidate offer.
fn clone_price(p: &PlatformPrice) -> (r: PlatformPrice)
    ensures
        r@ == p@,
{
    PlatformPrice {
        platform: clone_bytes(&p.platform),
        price_cents: p.price_cents,
        url: clone_bytes(&p.url),
        discount_bp: p.discount_bp,
        availability: p.availability,
        rating_tenths: p.rating_tenths,
        delivery_time: clone_opt_bytes(&p.delivery_time),
    }
}

/// Decide whether `a` is strictly preferred over `b`.
fn is_better_deal(a: &PlatformPrice, b: &PlatformPrice) -> (r: bool)
    ensures
        r == better_deal(a@, b@),
{
    if a.price_cents < b.price_cents {
        true
    } else if a.price_cents == b.price_cents {
        let ra: i32 = match a.rating_tenths {
            Option::Some(v) => v as i32,
            Option::None => -1,
        };
        let rb: i32 = match b.rating_tenths {
            Option::Some(v) => v as i32,
            Option::None => -1,
        };
        ra > rb
    } else {
        false
    }
}

/// Compare one valid request against the listings the search produced:
/// derive the candidate offers, pick the best deal, compute the savings,
/// and generate the recommendations.
pub fn compute_comparison(req: &PriceComparisonRequest, listings: &Vec<SearchListing>) -> (resp:
    PriceComparisonResponse)
    requires
        valid_request_spec(req@),
    ensures
        resp@ == response_spec(req@, listing_views(listings@)),
{
    let current = req.current_price_cents;
    let mut alternatives: Vec<PlatformPrice> = Vec::new();
    let mut cands: Vec<PlatformPrice> = Vec::new();
    proof {
        assert(prices_views(cands@) =~= alternatives_spec(
            current as int,
            listing_views(listings@.take(0)),
        ));
        assert(prices_views(alternatives@) =~= prices_views(cands@));
    }
    let mut i: usize = 0;
    while i < listings.len()
        invariant
            current == req.current_price_cents,
            current >= 1,
            i <= listings@.len(),
            prices_views(cands@) == alternatives_spec(
                current as int,
                listing_views(listings@.take(i as int)),
            ),
            prices_views(alternatives@) == prices_views(cands@),
        decreases listings@.len() - i,
    {
        let p = listing_to_price(current, &listings[i]);
        let p2 = clone_price(&p);
        let ghost cands_pre = cands@;
        let ghost alts_pre = alternatives@;
        cands.push(p);
        alternatives.push(p2);
        proof {
            assert(listing_views(listings@.take(i + 1 as int)) =~= listing_views(
                listings@.take(i as int),
            ).push(listings@[i as int]@));
            assert(alternatives_spec(
                current as int,
                listing_views(listings@.take(i as int)).push(listings@[i as int]@),
            ) =~= alternatives_spec(current as int, listing_views(listings@.take(i as int))).push(
                listing_price_spec(current as int, listings@[i as int]@),
            ));
            assert(prices_views(cands@) =~= prices_views(cands_pre).push(
                listing_price_spec(current as int, listings@[i as int]@),
            ));
            assert(prices_views(alternatives@) =~= prices_views(alts_pre).push(
                listing_price_spec(current as int, listings@[i as int]@),
            ));
        }
        i = i + 1;
    }
    proof {
        assert(listings@.take(listings@.len() as int) =~= listings@);
    }
    let snapshot = current_snapshot(req);
    let snapshot2 = clone_price(&snapshot);
    let ghost cands_pre = cands@;
    cands.push(snapshot2);
    proof {
        assert(prices_views(cands@) =~= prices_views(cands_pre).push(current_snapshot_spec(req@)));
        assert(prices_views(cands@) =~= candidates_spec(req@, listing_views(listings@)));
    }
    let ghost cv = prices_views(cands@);
    let mut best_i: usize = 0;
    let mut j: usize = 1;
    proof {
        assert(cv.take(1) =~= seq![cv[0]]);
    }
    while j < cands.len()
        invariant
            cv == prices_views(cands@),
            cands@.len() >= 1,
            j >= 1,
            j <= cands@.len(),
            0 <= best_i < j,
            best_i as int == best_index_spec(cv.take(j as int)),
        decreases cands@.len() - j,
    {
        proof {
            assert(cv.take(j + 1 as int).drop_last() =~= cv.take(j as int));
            assert(cv.take(j + 1 as int).last() == cv[j as int]);
            assert(cv.take(j + 1 as int)[best_i as int] == cv[best_i as int]);
        }
        if is_better_deal(&cands[j], &cands[best_i]) {
            best_i = j;
        }
        j = j + 1;
    }
    proof {
        assert(cv.take(cv.len() as int) =~= cv);
    }
    let best_deal = clone_price(&cands[best_i]);
    proof {
        lemma_best_index_min(cv);
        assert(cv[cv.len() - 1].price <= req.current_price_cents as int);
        assert(best_deal@.price <= req.current_price_cents as int);
    }
    let savings: u64 = req.current_price_cents - best_deal.price_cents;
    let mut recommendations: Vec<Recommendation> = Vec::new();
    if savings > 0 {
        recommendations.push(
            Recommendation::Savings { platform: clone_bytes(&best_deal.platform), amount_cents: savings },
        );
    }
    if let Option::Some(rt) = best_deal.rating_tenths {
        if rt > 40 {
            recommendations.push(
                Recommendation::HighRating {
                    platform: clone_bytes(&best_deal.platform),
                    rating_tenths: rt,
                },
            );
        }
    }
    let resp = PriceComparisonResponse {
        current_platform: snapshot,
        alternatives,
        best_deal,
        potential_savings_cents: savings,
        recommendations,
    };
    proof {
        assert(recs_views(resp.recommendations@) =~= recommendations_spec(req@, resp.best_deal@));
        assert(resp@ =~= response_spec(req@, listing_views(listings@)));
    }
    resp
}

} // verus!
