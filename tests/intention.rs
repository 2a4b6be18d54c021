use flowversion::error::FlowError;
use flowversion::intention::{tags_for_text, Intention};

fn tags_of(goal: &str) -> Vec<String> {
    Intention::new(goal.to_string(), None, None, 800, "tester".to_string()).tags
}

#[test]
fn test_intention_creation() {
    let intention = Intention::new(
        "Add authentication".to_string(),
        Some("Security requirement".to_string()),
        Some("Login system".to_string()),
        900,
        "tester".to_string(),
    );

    assert_eq!(intention.goal, "Add authentication");
    assert_eq!(intention.confidence, 900);
    assert!(intention.tags.contains(&"security".to_string()));
    assert!(intention.id != 0);
}

#[test]
fn test_intention_validation() {
    let valid_intention = Intention::new("Valid goal".to_string(), None, None, 500, "tester".to_string());
    assert!(valid_intention.validate().is_ok());

    let mut invalid_intention = valid_intention.clone();
    invalid_intention.goal = "".to_string();
    assert!(invalid_intention.validate().is_err());

    let mut invalid_confidence = valid_intention.clone();
    invalid_confidence.confidence = 1500;
    assert!(invalid_confidence.validate().is_err());
}

#[test]
fn test_tag_generation() {
    let intention = Intention::new(
        "Fix bug in authentication".to_string(),
        Some("Security issue".to_string()),
        None,
        800,
        "tester".to_string(),
    );

    assert!(intention.tags.contains(&"bugfix".to_string()));
    assert!(intention.tags.contains(&"security".to_string()));
}

#[test]
fn goal_length_boundaries() {
    let mut i = Intention::new("a".repeat(200), None, None, 500, "tester".to_string());
    assert!(i.validate().is_ok());
    i.goal = "a".repeat(201);
    assert!(matches!(i.validate(), Err(FlowError::InvalidIntention(_))));
    i.goal = "é".repeat(200);
    assert!(i.validate().is_ok());
    i.goal = "é".repeat(201);
    assert!(matches!(i.validate(), Err(FlowError::InvalidIntention(_))));
    i.goal = "   \t\n".to_string();
    assert!(matches!(i.validate(), Err(FlowError::InvalidIntention(_))));
}

#[test]
fn confidence_boundaries() {
    let mut i = Intention::new("goal".to_string(), None, None, 500, "tester".to_string());
    i.confidence = -10;
    assert!(matches!(i.validate(), Err(FlowError::InvalidConfidenceScore(-10))));
    i.confidence = 1010;
    assert!(matches!(i.validate(), Err(FlowError::InvalidConfidenceScore(1010))));
    i.confidence = 0;
    assert!(i.validate().is_ok());
    i.confidence = 1000;
    assert!(i.validate().is_ok());
}

#[test]
fn confidence_is_clamped_on_creation() {
    let low = Intention::new("g".to_string(), None, None, -250, "t".to_string());
    assert_eq!(low.confidence, 0);
    let high = Intention::new("g".to_string(), None, None, 1700, "t".to_string());
    assert_eq!(high.confidence, 1000);
    assert_eq!(high.author, "t");
    assert!(high.related_intentions.is_empty());
}

#[test]
fn tags_fix_login_bug() {
    let tags = tags_of("Fix login bug");
    assert!(tags.contains(&"bugfix".to_string()));
    assert!(tags.contains(&"security".to_string()));
}

#[test]
fn tags_refactor() {
    assert!(tags_of("refactor internal cache").contains(&"refactor".to_string()));
}

#[test]
fn tags_without_keyword_are_general() {
    assert_eq!(tags_of("Rename variables"), vec!["general".to_string()]);
}

#[test]
fn tags_follow_table_order_and_ignore_case() {
    assert_eq!(
        tags_of("SQL SPEED TEST for the API"),
        vec!["test".to_string(), "performance".to_string(), "api".to_string(), "database".to_string()]
    );
    assert_eq!(tags_for_text("improve docs"), vec!["documentation".to_string()]);
    assert_eq!(tags_for_text("FIX"), vec!["general".to_string()]);
}

#[test]
fn tags_use_context_and_impact() {
    let i = Intention::new(
        "Rename".to_string(),
        Some("user interface".to_string()),
        Some("faster".to_string()),
        800,
        "t".to_string(),
    );
    assert_eq!(i.tags, vec!["performance".to_string(), "ui".to_string()]);
}
