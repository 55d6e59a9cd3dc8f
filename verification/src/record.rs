use vstd::prelude::*;

verus! {

/// Smallest score a single review may carry.
pub const MIN_SCORE: i64 = -10;

/// Largest score a single review may carry.
pub const MAX_SCORE: i64 = 10;

/// Largest per-identity review count for which the score accumulator cannot
/// overflow an `i64`: `MAX_REVIEWS_PER_IDENTITY * MAX_SCORE <= i64::MAX`.
pub const MAX_REVIEWS_PER_IDENTITY: u64 = 922_337_203_685_477_580;

/// An opaque, comparable identifier for a principal, on either side of a
/// review. The ledger only ever compares identities for equality and uses
/// them as keys; it never inspects the value itself.
#[derive(Clone, Copy, PartialEq, Eq, Structural, Hash, Debug)]
pub struct Identity {
    pub id: u64,
}

/// Why a review submission was rejected. Authentication failures and backend
/// faults are detected by the surrounding execution environment before or
/// while it drives the ledger; the ledger itself raises only these two.
#[derive(Clone, Copy, PartialEq, Eq, Structural, Debug)]
pub enum ReviewError {
    /// The score lies outside `[MIN_SCORE, MAX_SCORE]`.
    InvalidScore,
    /// Both sides of the submission are the same identity.
    SelfReview,
}

/// Aggregate reputation state for one identity.
///
/// Policy, fixed for this library: a zero-valued score counts as a positive
/// review, so that `positive_count + negative_count == total_count` holds
/// after every mutation.
#[derive(Clone, Copy, PartialEq, Eq, Structural, Debug)]
pub struct Reputation {
    /// Sum of all review scores ever applied to this identity.
    pub total_score: i64,
    /// Number of reviews with a score of zero or more.
    pub positive_count: u64,
    /// Number of reviews with a negative score.
    pub negative_count: u64,
    /// Number of reviews ever applied to this identity.
    pub total_count: u64,
}

impl Reputation {
    /// The record every identity starts from: no history at all.
    pub open spec fn spec_default() -> Reputation {
        Reputation { total_score: 0, positive_count: 0, negative_count: 0, total_count: 0 }
    }

    /// Well-formedness: the two partial counters partition the total, and the
    /// accumulated score stays within the range that bounded per-review
    /// scores imply.
    pub open spec fn wf(self) -> bool {
        &&& self.positive_count + self.negative_count == self.total_count
        &&& MIN_SCORE * (self.total_count as int) <= self.total_score as int
        &&& self.total_score as int <= MAX_SCORE * (self.total_count as int)
    }
}

impl Default for Reputation {
    /// The zero-valued record synthesized for identities with no history.
    fn default() -> (r: Reputation)
        ensures
            r == Reputation::spec_default(),
            r.wf(),
    {
        Reputation { total_score: 0, positive_count: 0, negative_count: 0, total_count: 0 }
    }
}

/// Whether a single review score is admissible.
pub open spec fn score_in_range(score: i64) -> bool {
    MIN_SCORE <= score <= MAX_SCORE
}

/// Whether a submission passes every domain precondition and will be applied.
pub open spec fn review_accepted(reviewer: Identity, reviewee: Identity, score: i64) -> bool {
    score_in_range(score) && reviewer != reviewee
}

/// The record after one accepted review of `score` lands on `r`.
pub open spec fn spec_apply_review(r: Reputation, score: i64) -> Reputation {
    Reputation {
        total_score: (r.total_score + score) as i64,
        positive_count: if score >= 0 {
            (r.positive_count + 1) as u64
        } else {
            r.positive_count
        },
        negative_count: if score < 0 {
            (r.negative_count + 1) as u64
        } else {
            r.negative_count
        },
        total_count: (r.total_count + 1) as u64,
    }
}

/// The normalized percentage of a record, fixed to this formula: an identity
/// with no history sits at the neutral `50`; otherwise the cumulative score
/// is mapped linearly from `[-10 * total_count, 10 * total_count]` onto
/// `[0, 100]` with truncating integer division.
pub open spec fn spec_percentage(r: Reputation) -> int {
    if r.total_count == 0 {
        50
    } else {
        let max_possible = MAX_SCORE * (r.total_count as int);
        ((r.total_score + max_possible) * 100) / (max_possible * 2)
    }
}

/// Normalizes a record into a percentage in `[0, 100]`.
///
/// For a well-formed record the result is exactly [`spec_percentage`]; the
/// two clamping branches only guard against a malformed record ever reaching
/// this point, and are provably dead otherwise.
pub fn reputation_percentage(r: &Reputation) -> (p: i64)
    ensures
        0 <= p <= 100,
        r.total_count == 0 ==> p == 50,
        r.wf() ==> p as int == spec_percentage(*r),
{
    if r.total_count == 0 {
        return 50;
    }
    let max_possible: u128 = (r.total_count as u128) * 10;
    let sum: i128 = (r.total_score as i128) + (max_possible as i128);
    if sum < 0 {
        // Unreachable for a well-formed record: defensive clamp to the floor.
        return 0;
    }
    let numerator: u128 = (sum as u128) * 100;
    let denominator: u128 = max_possible * 2;
    let quotient: u128 = numerator / denominator;
    proof {
        let m = MAX_SCORE * (r.total_count as int);
        if r.wf() {
            assert(sum <= 2 * m);
            assert(numerator <= 100 * (2 * m));
            vstd::arithmetic::div_mod::lemma_div_is_ordered(
                numerator as int,
                100 * (2 * m),
                2 * m,
            );
            vstd::arithmetic::div_mod::lemma_div_by_multiple(100, 2 * m);
            assert((100 * (2 * m)) / (2 * m) == 100);
        }
    }
    if quotient > 100 {
        // Unreachable for a well-formed record: defensive clamp to the cap.
        return 100;
    }
    quotient as i64
}

/// Checks the domain preconditions of a submission, in the fixed order the
/// ledger applies them: the score bound first, the self-review ban second.
pub fn validate_review(reviewer: Identity, reviewee: Identity, score: i64) -> (r: Result<
    (),
    ReviewError,
>)
    ensures
        r is Ok <==> review_accepted(reviewer, reviewee, score),
        !score_in_range(score) ==> r == Err::<(), ReviewError>(ReviewError::InvalidScore),
        score_in_range(score) && reviewer == reviewee ==> r == Err::<(), ReviewError>(
            ReviewError::SelfReview,
        ),
{
    if score < MIN_SCORE || score > MAX_SCORE {
        Err(ReviewError::InvalidScore)
    } else if reviewer.id == reviewee.id {
        Err(ReviewError::SelfReview)
    } else {
        Ok(())
    }
}

/// Applies one accepted review to a record, preserving well-formedness.
pub fn apply_review(r: &Reputation, score: i64) -> (updated: Reputation)
    requires
        r.wf(),
        score_in_range(score),
        r.total_count < MAX_REVIEWS_PER_IDENTITY,
    ensures
        updated == spec_apply_review(*r, score),
        updated.wf(),
{
    Reputation {
        total_score: r.total_score + score,
        positive_count: if score >= 0 {
            r.positive_count + 1
        } else {
            r.positive_count
        },
        negative_count: if score < 0 {
            r.negative_count + 1
        } else {
            r.negative_count
        },
        total_count: r.total_count + 1,
    }
}

} // verus!
