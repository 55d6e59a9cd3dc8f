use vstd::prelude::*;

use crate::record::{
    apply_review, review_accepted, score_in_range, spec_apply_review, spec_percentage,
    reputation_percentage, validate_review, Identity, Reputation, ReviewError,
    MAX_REVIEWS_PER_IDENTITY,
};
use crate::store::ReputationStore;

verus! {

/// How far below its liveness horizon the state may fall before a
/// submission refreshes it.
pub const LIVENESS_THRESHOLD: u64 = 5000;

/// The horizon a submission refreshes the state's liveness to.
pub const LIVENESS_TARGET: u64 = 5000;

/// The record a submission builds on: the stored one, or the zero-valued
/// default for an identity with no history.
pub open spec fn spec_reputation_of(store: ReputationStore, user: Identity) -> Reputation {
    match store.spec_get(user) {
        Some(r) => r,
        None => Reputation::spec_default(),
    }
}

/// Whether `post` and `outcome` are what one `submit_review` call on `pre`
/// with these arguments produces. An accepted submission updates exactly the
/// reviewee's record, increments the global counter, and refreshes the
/// liveness horizon; a rejected one reports why and leaves every part of the
/// state as it was.
pub open spec fn submit_transition(
    pre: ReputationStore,
    post: ReputationStore,
    reviewer: Identity,
    reviewee: Identity,
    score: i64,
    outcome: Result<u64, ReviewError>,
) -> bool {
    if review_accepted(reviewer, reviewee, score) {
        &&& outcome == Ok::<u64, ReviewError>((pre.counter() + 1) as u64)
        &&& post.counter() == pre.counter() + 1
        &&& post.spec_get(reviewee) == Some(
            spec_apply_review(spec_reputation_of(pre, reviewee), score),
        )
        &&& forall|x: Identity| x != reviewee ==> post.spec_get(x) == pre.spec_get(x)
        &&& post.liveness() == if pre.liveness() < LIVENESS_THRESHOLD {
            LIVENESS_TARGET
        } else {
            pre.liveness()
        }
    } else {
        &&& outcome == Err::<u64, ReviewError>(
            if !score_in_range(score) {
                ReviewError::InvalidScore
            } else {
                ReviewError::SelfReview
            },
        )
        &&& post.counter() == pre.counter()
        &&& post.liveness() == pre.liveness()
        &&& forall|x: Identity| post.spec_get(x) == pre.spec_get(x)
    }
}

/// The stateless reputation ledger: validation, aggregation and
/// normalization over records held in a [`ReputationStore`]. The caller's
/// identity is taken as already authenticated by the surrounding execution
/// environment.
pub struct ReputationContract;

impl ReputationContract {
    /// Submits one review: the first identity scores the second.
    ///
    /// The score must lie in `[-10, 10]` (else the call is rejected with
    /// `InvalidScore`) and the two identities must differ (else, for an
    /// admissible score, it is rejected with `SelfReview`); the checks are
    /// applied in that order. An accepted submission applies the score to
    /// the reviewee's record, increments the global review counter,
    /// refreshes the store's liveness, and returns the post-increment
    /// counter value as the review's sequence number. A rejected one leaves
    /// the store exactly as it was. The comment is accepted but not
    /// persisted as queryable state.
    pub fn submit_review(
        store: &mut ReputationStore,
        reviewer: Identity,
        reviewee: Identity,
        score: i64,
        _comment: String,
    ) -> (outcome: Result<u64, ReviewError>)
        requires
            old(store).wf(),
            old(store).counter() < u64::MAX,
            spec_reputation_of(*old(store), reviewee).total_count < MAX_REVIEWS_PER_IDENTITY,
        ensures
            submit_transition(*old(store), *final(store), reviewer, reviewee, score, outcome),
            final(store).wf(),
            outcome is Ok <==> review_accepted(reviewer, reviewee, score),
    {
        match validate_review(reviewer, reviewee, score) {
            Err(e) => {
                return Err(e);
            },
            Ok(()) => {},
        }
        let base = match store.get(reviewee) {
            Some(r) => r,
            None => Reputation::default(),
        };
        let updated = apply_review(&base, score);
        store.put(reviewee, updated);
        let sequence = store.get_counter() + 1;
        store.put_counter(sequence);
        store.extend_liveness(LIVENESS_THRESHOLD, LIVENESS_TARGET);
        Ok(sequence)
    }

    /// Returns the stored record for `user`, or the zero-valued default if
    /// `user` has no history. A pure read: the store is untouched.
    pub fn get_reputation(store: &ReputationStore, user: Identity) -> (rep: Reputation)
        ensures
            rep == spec_reputation_of(*store, user),
            store.spec_get(user) is None ==> rep == Reputation::spec_default(),
            store.wf() ==> rep.wf(),
    {
        match store.get(user) {
            Some(r) => r,
            None => Reputation::default(),
        }
    }

    /// Returns `user`'s reputation normalized onto `[0, 100]`; an identity
    /// with no history sits at the neutral `50`. A pure read.
    pub fn get_reputation_percentage(store: &ReputationStore, user: Identity) -> (p: i64)
        ensures
            0 <= p <= 100,
            store.wf() ==> p as int == spec_percentage(spec_reputation_of(*store, user)),
            store.spec_get(user) is None ==> p == 50,
    {
        let rep = Self::get_reputation(store, user);
        reputation_percentage(&rep)
    }

    /// Returns how many reviews were ever accepted, across all identities.
    /// A pure read.
    pub fn get_total_reviews(store: &ReputationStore) -> (n: u64)
        ensures
            n == store.counter(),
    {
        store.get_counter()
    }
}

/// How many submissions of a run pass both domain preconditions and are
/// therefore applied.
pub open spec fn accepted_count(reviews: Seq<(Identity, Identity, i64)>) -> nat
    decreases reviews.len(),
{
    if reviews.len() == 0 {
        0
    } else {
        accepted_count(reviews.drop_first()) + if review_accepted(
            reviews[0].0,
            reviews[0].1,
            reviews[0].2,
        ) {
            1nat
        } else {
            0nat
        }
    }
}

/// Law: reads are idempotent. What `get_reputation` returns is a function of
/// the store alone — its contract pins the result to
/// `spec_reputation_of(store, user)` — so two reads of the same store, with
/// no write between them, return identical records.
pub proof fn lemma_reads_idempotent(
    store: ReputationStore,
    user: Identity,
    first: Reputation,
    second: Reputation,
)
    requires
        first == spec_reputation_of(store, user),
        second == spec_reputation_of(store, user),
    ensures
        first == second,
{
}

/// Law: an accepted submission grows the reviewee's aggregate by exactly one
/// review carrying exactly the submitted score.
pub proof fn lemma_accepted_review_updates_reviewee(
    pre: ReputationStore,
    post: ReputationStore,
    reviewer: Identity,
    reviewee: Identity,
    score: i64,
    outcome: Result<u64, ReviewError>,
)
    requires
        pre.wf(),
        spec_reputation_of(pre, reviewee).total_count < MAX_REVIEWS_PER_IDENTITY,
        review_accepted(reviewer, reviewee, score),
        submit_transition(pre, post, reviewer, reviewee, score, outcome),
    ensures
        spec_reputation_of(post, reviewee).total_count == spec_reputation_of(
            pre,
            reviewee,
        ).total_count + 1,
        spec_reputation_of(post, reviewee).total_score == spec_reputation_of(
            pre,
            reviewee,
        ).total_score + score,
{
    assert(pre.spec_get(reviewee) is Some ==> pre.spec_get(reviewee)->Some_0.wf());
}

/// Law: a submission whose score lies outside the admissible range is
/// rejected as `InvalidScore` and leaves every record and the global counter
/// exactly as they were, whoever the parties are.
pub proof fn lemma_invalid_score_changes_nothing(
    pre: ReputationStore,
    post: ReputationStore,
    reviewer: Identity,
    reviewee: Identity,
    score: i64,
    outcome: Result<u64, ReviewError>,
)
    requires
        !score_in_range(score),
        submit_transition(pre, post, reviewer, reviewee, score, outcome),
    ensures
        outcome == Err::<u64, ReviewError>(ReviewError::InvalidScore),
        post.counter() == pre.counter(),
        forall|x: Identity|
            #[trigger] spec_reputation_of(post, x) == spec_reputation_of(pre, x),
{
    assert forall|x: Identity|
        #[trigger] spec_reputation_of(post, x) == spec_reputation_of(pre, x) by {
        assert(post.spec_get(x) == pre.spec_get(x));
    }
}

/// Law: an identity can never review itself. The submission is rejected —
/// as `SelfReview` whenever the score was admissible, and in any case
/// without touching any record or the global counter.
pub proof fn lemma_self_review_rejected(
    pre: ReputationStore,
    post: ReputationStore,
    who: Identity,
    score: i64,
    outcome: Result<u64, ReviewError>,
)
    requires
        submit_transition(pre, post, who, who, score, outcome),
    ensures
        outcome is Err,
        score_in_range(score) ==> outcome == Err::<u64, ReviewError>(ReviewError::SelfReview),
        post.counter() == pre.counter(),
        forall|x: Identity|
            #[trigger] spec_reputation_of(post, x) == spec_reputation_of(pre, x),
{
    assert forall|x: Identity|
        #[trigger] spec_reputation_of(post, x) == spec_reputation_of(pre, x) by {
        assert(post.spec_get(x) == pre.spec_get(x));
    }
}

/// Law: across any run of submissions — whatever the identities, the
/// scores, and their order — the global review counter ends at its starting
/// value plus the number of accepted submissions; in particular it never
/// decreases.
pub proof fn lemma_counter_counts_accepted_reviews(
    stores: Seq<ReputationStore>,
    reviews: Seq<(Identity, Identity, i64)>,
    outcomes: Seq<Result<u64, ReviewError>>,
)
    requires
        stores.len() == reviews.len() + 1,
        outcomes.len() == reviews.len(),
        forall|k: int|
            0 <= k < reviews.len() ==> submit_transition(
                stores[k],
                stores[k + 1],
                (#[trigger] reviews[k]).0,
                reviews[k].1,
                reviews[k].2,
                outcomes[k],
            ),
    ensures
        stores.last().counter() == stores[0].counter() + accepted_count(reviews),
        stores[0].counter() <= stores.last().counter(),
    decreases reviews.len(),
{
    if reviews.len() > 0 {
        let stores2 = stores.drop_first();
        let reviews2 = reviews.drop_first();
        let outcomes2 = outcomes.drop_first();
        assert(submit_transition(
            stores[0],
            stores[1],
            reviews[0].0,
            reviews[0].1,
            reviews[0].2,
            outcomes[0],
        ));
        assert forall|k: int| 0 <= k < reviews2.len() implies submit_transition(
            stores2[k],
            stores2[k + 1],
            (#[trigger] reviews2[k]).0,
            reviews2[k].1,
            reviews2[k].2,
            outcomes2[k],
        ) by {
            assert(reviews[k + 1] == reviews2[k]);
            assert(submit_transition(
                stores[k + 1],
                stores[k + 2],
                reviews[k + 1].0,
                reviews[k + 1].1,
                reviews[k + 1].2,
                outcomes[k + 1],
            ));
        }
        lemma_counter_counts_accepted_reviews(stores2, reviews2, outcomes2);
        assert(stores2.last() == stores.last());
    }
}

} // verus!
