use reputation::ledger::ReputationContract;
use reputation::record::{Identity, Reputation, ReviewError};
use reputation::store::ReputationStore;

#[test]
fn test_submit_review() {
    let mut store = ReputationStore::new();
    let reviewer = Identity { id: 1 };
    let reviewee = Identity { id: 2 };

    let review_count = ReputationContract::submit_review(
        &mut store,
        reviewer,
        reviewee,
        8,
        String::from("Great user!"),
    )
    .unwrap();

    assert_eq!(review_count, 1);

    let reputation = ReputationContract::get_reputation(&store, reviewee);
    assert_eq!(reputation.total_score, 8);
    assert_eq!(reputation.positive_count, 1);
}

#[test]
fn test_reputation_flow() {
    let mut store = ReputationStore::new();
    let user1 = Identity { id: 1 };
    let user2 = Identity { id: 2 };

    ReputationContract::submit_review(&mut store, user1, user2, 8, String::from("Good"))
        .unwrap();

    let reputation = ReputationContract::get_reputation(&store, user2);
    let normalized = ReputationContract::get_reputation_percentage(&store, user2);

    assert_eq!(reputation.total_count, 1);
    assert!(normalized > 50);
}

#[test]
fn test_score_and_count_accumulate() {
    let mut store = ReputationStore::new();
    let a = Identity { id: 10 };
    let b = Identity { id: 11 };
    let c = Identity { id: 12 };

    ReputationContract::submit_review(&mut store, a, c, 3, String::from("fine")).unwrap();
    ReputationContract::submit_review(&mut store, b, c, -2, String::from("meh")).unwrap();

    let rep = ReputationContract::get_reputation(&store, c);
    assert_eq!(rep.total_score, 1);
    assert_eq!(rep.total_count, 2);
    assert_eq!(rep.positive_count, 1);
    assert_eq!(rep.negative_count, 1);
}

#[test]
fn test_invalid_score_rejected_and_state_kept() {
    let mut store = ReputationStore::new();
    let a = Identity { id: 1 };
    let b = Identity { id: 2 };

    ReputationContract::submit_review(&mut store, a, b, 4, String::from("ok")).unwrap();
    let before = ReputationContract::get_reputation(&store, b);
    let count_before = ReputationContract::get_total_reviews(&store);

    let high = ReputationContract::submit_review(&mut store, a, b, 11, String::from("too high"));
    assert_eq!(high, Err(ReviewError::InvalidScore));
    let low = ReputationContract::submit_review(&mut store, a, b, -11, String::from("too low"));
    assert_eq!(low, Err(ReviewError::InvalidScore));

    assert_eq!(ReputationContract::get_reputation(&store, b), before);
    assert_eq!(ReputationContract::get_total_reviews(&store), count_before);
}

#[test]
fn test_self_review_rejected() {
    let mut store = ReputationStore::new();
    let x = Identity { id: 7 };

    for score in [-10, -1, 0, 5, 10] {
        let outcome =
            ReputationContract::submit_review(&mut store, x, x, score, String::from("me"));
        assert_eq!(outcome, Err(ReviewError::SelfReview));
    }
    assert_eq!(ReputationContract::get_total_reviews(&store), 0);
    assert_eq!(
        ReputationContract::get_reputation(&store, x),
        Reputation { total_score: 0, positive_count: 0, negative_count: 0, total_count: 0 }
    );
}

#[test]
fn test_self_review_with_invalid_score_reports_score_first() {
    let mut store = ReputationStore::new();
    let x = Identity { id: 7 };

    let outcome = ReputationContract::submit_review(&mut store, x, x, 11, String::from("me"));
    assert_eq!(outcome, Err(ReviewError::InvalidScore));
}

#[test]
fn test_fresh_identity_defaults() {
    let store = ReputationStore::new();
    let nobody = Identity { id: 404 };

    let rep = ReputationContract::get_reputation(&store, nobody);
    assert_eq!(
        rep,
        Reputation { total_score: 0, positive_count: 0, negative_count: 0, total_count: 0 }
    );
    assert_eq!(ReputationContract::get_reputation_percentage(&store, nobody), 50);
    assert_eq!(ReputationContract::get_total_reviews(&store), 0);
}

#[test]
fn test_reads_are_idempotent() {
    let mut store = ReputationStore::new();
    let a = Identity { id: 1 };
    let b = Identity { id: 2 };
    ReputationContract::submit_review(&mut store, a, b, -4, String::from("hm")).unwrap();

    let first = ReputationContract::get_reputation(&store, b);
    let second = ReputationContract::get_reputation(&store, b);
    assert_eq!(first, second);

    let p1 = ReputationContract::get_reputation_percentage(&store, b);
    let p2 = ReputationContract::get_reputation_percentage(&store, b);
    assert_eq!(p1, p2);

    let n1 = ReputationContract::get_total_reviews(&store);
    let n2 = ReputationContract::get_total_reviews(&store);
    assert_eq!(n1, n2);
}

#[test]
fn test_counter_counts_accepted_reviews_only() {
    let mut store = ReputationStore::new();
    let a = Identity { id: 1 };
    let b = Identity { id: 2 };
    let c = Identity { id: 3 };

    let mut last = ReputationContract::get_total_reviews(&store);
    assert_eq!(last, 0);

    let submissions: [(Identity, Identity, i64); 6] = [
        (a, b, 5),
        (b, a, -3),
        (a, a, 2),
        (a, c, 12),
        (c, b, 10),
        (b, c, 0),
    ];
    let mut accepted: u64 = 0;
    for (reviewer, reviewee, score) in submissions {
        let outcome = ReputationContract::submit_review(
            &mut store,
            reviewer,
            reviewee,
            score,
            String::from("x"),
        );
        if outcome.is_ok() {
            accepted += 1;
        }
        let now = ReputationContract::get_total_reviews(&store);
        assert!(now >= last);
        last = now;
    }

    assert_eq!(accepted, 4);
    assert_eq!(ReputationContract::get_total_reviews(&store), 4);
}

#[test]
fn test_single_positive_review_scenario() {
    let mut store = ReputationStore::new();
    let a = Identity { id: 100 };
    let b = Identity { id: 200 };

    ReputationContract::submit_review(&mut store, a, b, 8, String::from("nice")).unwrap();

    assert_eq!(ReputationContract::get_total_reviews(&store), 1);
    let rep = ReputationContract::get_reputation(&store, b);
    assert_eq!(rep.total_score, 8);
    assert_eq!(rep.positive_count, 1);
    assert!(ReputationContract::get_reputation_percentage(&store, b) > 50);
}

#[test]
fn test_balanced_reviews_land_exactly_neutral() {
    let mut store = ReputationStore::new();
    let a = Identity { id: 1 };
    let b = Identity { id: 2 };

    for score in [10, 10, -10, -10] {
        ReputationContract::submit_review(&mut store, a, b, score, String::from("swing"))
            .unwrap();
    }

    let rep = ReputationContract::get_reputation(&store, b);
    assert_eq!(rep.total_count, 4);
    assert_eq!(rep.total_score, 0);
    assert_eq!(ReputationContract::get_reputation_percentage(&store, b), 50);
}

#[test]
fn test_percentage_exact_values() {
    let mut store = ReputationStore::new();
    let a = Identity { id: 1 };
    let best = Identity { id: 2 };
    let worst = Identity { id: 3 };
    let good = Identity { id: 4 };

    ReputationContract::submit_review(&mut store, a, best, 10, String::from("top")).unwrap();
    ReputationContract::submit_review(&mut store, a, worst, -10, String::from("bottom"))
        .unwrap();
    // One review of 8: ((8 + 10) * 100) / 20 truncates to 90.
    ReputationContract::submit_review(&mut store, a, good, 8, String::from("great")).unwrap();

    assert_eq!(ReputationContract::get_reputation_percentage(&store, best), 100);
    assert_eq!(ReputationContract::get_reputation_percentage(&store, worst), 0);
    assert_eq!(ReputationContract::get_reputation_percentage(&store, good), 90);
}

#[test]
fn test_zero_score_counts_as_positive() {
    let mut store = ReputationStore::new();
    let a = Identity { id: 1 };
    let b = Identity { id: 2 };

    let outcome = ReputationContract::submit_review(&mut store, a, b, 0, String::from("eh"));
    assert!(outcome.is_ok());

    let rep = ReputationContract::get_reputation(&store, b);
    assert_eq!(rep.positive_count, 1);
    assert_eq!(rep.negative_count, 0);
    assert_eq!(rep.total_count, 1);
    assert_eq!(rep.total_score, 0);
}

#[test]
fn test_boundary_scores_accepted() {
    let mut store = ReputationStore::new();
    let a = Identity { id: 1 };
    let b = Identity { id: 2 };

    assert!(ReputationContract::submit_review(&mut store, a, b, 10, String::from("max"))
        .is_ok());
    assert!(ReputationContract::submit_review(&mut store, a, b, -10, String::from("min"))
        .is_ok());
    let rep = ReputationContract::get_reputation(&store, b);
    assert_eq!(rep.total_score, 0);
    assert_eq!(rep.total_count, 2);
}

#[test]
fn test_sequence_numbers_increase_by_one() {
    let mut store = ReputationStore::new();
    let a = Identity { id: 1 };
    let b = Identity { id: 2 };
    let c = Identity { id: 3 };

    let s1 = ReputationContract::submit_review(&mut store, a, b, 1, String::from("one"))
        .unwrap();
    let s2 = ReputationContract::submit_review(&mut store, b, c, 2, String::from("two"))
        .unwrap();
    let s3 = ReputationContract::submit_review(&mut store, c, a, 3, String::from("three"))
        .unwrap();

    assert_eq!((s1, s2, s3), (1, 2, 3));
}

#[test]
fn test_submit_refreshes_liveness_and_reads_do_not() {
    let mut store = ReputationStore::new();
    let a = Identity { id: 1 };
    let b = Identity { id: 2 };

    assert_eq!(store.get_liveness(), 0);
    ReputationContract::submit_review(&mut store, a, b, 5, String::from("hi")).unwrap();
    assert_eq!(store.get_liveness(), 5000);

    ReputationContract::get_reputation(&store, b);
    ReputationContract::get_reputation_percentage(&store, b);
    ReputationContract::get_total_reviews(&store);
    assert_eq!(store.get_liveness(), 5000);
}

#[test]
fn test_rejected_submission_leaves_liveness_alone() {
    let mut store = ReputationStore::new();
    let x = Identity { id: 9 };

    let outcome = ReputationContract::submit_review(&mut store, x, x, 1, String::from("me"));
    assert!(outcome.is_err());
    assert_eq!(store.get_liveness(), 0);
}
