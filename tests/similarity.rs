use flowversion::intention::Intention;
use flowversion::similarity::SimilarityFactors;

fn score(f: &SimilarityFactors) -> f32 {
    let mut score = 0.0f32;
    let mut factors = 0u32;
    let word_union = f.self_words + f.other_words - f.shared_words;
    if word_union > 0 {
        score += f.shared_words as f32 / word_union as f32;
        factors += 1;
    }
    let tag_union = f.self_tags + f.other_tags - f.shared_tags;
    if tag_union > 0 {
        score += f.shared_tags as f32 / tag_union as f32;
        factors += 1;
    }
    if f.same_author {
        score += 1.0;
    }
    factors += 1;
    if f.within_a_day {
        score += 0.5;
    }
    factors += 1;
    score / factors as f32
}

#[test]
fn test_similarity_score() {
    let intention1 = Intention::new("Add user authentication".to_string(), None, None, 800, "tester".to_string());
    let intention2 = Intention::new("Add user login system".to_string(), None, None, 900, "tester".to_string());

    let score = score(&intention1.similarity_factors(&intention2));
    assert!(score > 0.0);
    assert!(score <= 1.0);
}

#[test]
fn similarity_factors_count_distinct_words_and_tags() {
    let a = Intention::new("Add user authentication".to_string(), None, None, 800, "tester".to_string());
    let b = Intention::new("add USER login system user".to_string(), None, None, 900, "tester".to_string());
    let f = a.similarity_factors(&b);
    assert_eq!((f.self_words, f.other_words, f.shared_words), (3, 4, 2));
    assert_eq!((f.self_tags, f.other_tags, f.shared_tags), (2, 2, 2));
    assert!(f.same_author);
    assert!(f.within_a_day);
}

#[test]
fn similarity_factors_time_and_author() {
    let mut a = Intention::new("x".to_string(), None, None, 800, "ann".to_string());
    let mut b = Intention::new("y".to_string(), None, None, 800, "bob".to_string());
    a.timestamp = 1_000_000;
    b.timestamp = 1_000_000 + 86_399;
    assert!(a.similarity_factors(&b).within_a_day);
    b.timestamp = 1_000_000 + 86_400;
    let f = a.similarity_factors(&b);
    assert!(!f.within_a_day);
    assert!(!f.same_author);
    assert_eq!(f.shared_words, 0);
    assert_eq!(f.shared_tags, 1);
}
