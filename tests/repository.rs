use flowversion::config::Config;
use flowversion::error::FlowError;
use flowversion::index::IndexEntry;
use flowversion::intention::Intention;
use flowversion::objects::CommitId;
use flowversion::repository::Repository;

fn intention(goal: &str) -> Intention {
    Intention::new(goal.to_string(), None, None, 800, "tester".to_string())
}

fn fresh(name: &str, ai_mode: &str) -> Repository {
    let mut dir: Option<Repository> = None;
    Repository::init(&mut dir, "/work", name, ai_mode, "tester").unwrap();
    Repository::open(dir).unwrap()
}

#[test]
fn init_twice_fails_and_open_needs_init() {
    let mut dir: Option<Repository> = None;
    assert!(!Repository::is_initialized(&dir));
    assert!(matches!(Repository::open(None), Err(FlowError::RepoNotInitialized)));
    Repository::init(&mut dir, "/work", "test-repo", "local", "tester").unwrap();
    assert!(Repository::is_initialized(&dir));
    assert!(matches!(
        Repository::init(&mut dir, "/work", "test-repo", "local", "tester"),
        Err(FlowError::RepoAlreadyExists)
    ));
    let repo = Repository::open(dir).unwrap();
    assert_eq!(repo.get_config().name, "test-repo");
    assert_eq!(repo.get_config().ai_mode, "local");
    assert_eq!(repo.head_text(), Some("ref: refs/streams/main\n"));
    assert_eq!(repo.object_store().objects_path(), "/work/.flowversion/objects");
}

#[test]
fn test_repository_open() {
    let mut dir: Option<Repository> = None;

    assert!(Repository::open(None).is_err());

    Repository::init(&mut dir, "/work", "test-repo", "local", "tester").unwrap();
    let repo = Repository::open(dir).unwrap();

    assert_eq!(repo.get_config().name, "test-repo");
    assert_eq!(repo.get_config().ai_mode, "local");
}

#[test]
fn end_to_end_demo() {
    let mut repo = fresh("demo", "local");
    repo.add_file("a.txt", Some(b"hi".to_vec())).unwrap();
    repo.commit_with_intention(intention("add a")).unwrap();
    let log = repo.get_log().unwrap();
    assert_eq!(log.len(), 1);
    assert_eq!(log[0].changes.len(), 1);
    assert_eq!(log[0].changes[0].path, "a.txt");
    assert!(log[0].parent_commits.is_empty());
    assert_eq!(log[0].intention.goal, "add a");
    assert!(!repo.get_config().ai.enabled);
}

#[test]
fn commit_drains_the_index() {
    let mut repo = fresh("r", "local");
    repo.add_file("p1", Some(b"one".to_vec())).unwrap();
    repo.add_file("p2", Some(b"two".to_vec())).unwrap();
    repo.add_file("p3", Some(b"three".to_vec())).unwrap();
    repo.add_file("p2", Some(b"two again".to_vec())).unwrap();
    let id = repo.commit_with_intention(intention("three files")).unwrap();
    assert_eq!(repo.index().get_status().unwrap().staged_count, 0);
    let log = repo.get_log().unwrap();
    assert_eq!(log[0].id, id);
    let paths = log[0].get_changed_files();
    assert_eq!(paths, vec!["p1".to_string(), "p2".to_string(), "p3".to_string()]);
    assert_eq!(log[0].changes[1].content_hash, flowversion::objects::Hash::new(b"two again"));
    assert_eq!(repo.refs().len(), 1);
    assert_eq!(repo.refs()[0].0, "refs/streams/main");
    assert_eq!(repo.refs()[0].1, id.to_string());
}

#[test]
fn empty_stage_is_rejected_without_moving_head() {
    let mut repo = fresh("r", "local");
    assert!(matches!(
        repo.commit_with_intention(intention("nothing")),
        Err(FlowError::InvalidRepoState(_))
    ));
    assert_eq!(repo.head_text(), Some("ref: refs/streams/main\n"));
    assert!(repo.refs().is_empty());
    assert!(repo.get_log().unwrap().is_empty());
}

#[test]
fn invalid_intention_is_rejected_first() {
    let mut repo = fresh("r", "local");
    repo.add_file("f", Some(b"x".to_vec())).unwrap();
    assert!(matches!(repo.commit_with_intention(intention("  ")), Err(FlowError::InvalidIntention(_))));
    let mut bad = intention("ok");
    bad.confidence = 1001;
    assert!(matches!(repo.commit_with_intention(bad), Err(FlowError::InvalidConfidenceScore(1001))));
    assert_eq!(repo.index().get_status().unwrap().staged_count, 1);
}

#[test]
fn commits_chain_through_head() {
    let mut repo = fresh("r", "local");
    repo.add_file("a", Some(b"1".to_vec())).unwrap();
    let c1 = repo.commit_with_intention(intention("first")).unwrap();
    repo.add_file("b", Some(b"2".to_vec())).unwrap();
    let c2 = repo.commit_with_intention(intention("second")).unwrap();
    let log = repo.get_log().unwrap();
    assert_eq!(log.len(), 2);
    assert_eq!(log[0].id, c2);
    assert_eq!(log[1].id, c1);
    assert_eq!(log[0].parent_commits, vec![c1]);
    assert!(log[1].parent_commits.is_empty());
}

#[test]
fn missing_file_is_reported() {
    let mut repo = fresh("r", "local");
    assert!(matches!(repo.add_file("nope.txt", None), Err(FlowError::FileNotFound(p)) if p == "nope.txt"));
    assert_eq!(repo.index().get_status().unwrap().staged_count, 0);
}

#[test]
fn staged_content_is_stored_once() {
    let mut repo = fresh("r", "local");
    repo.add_file("a", Some(b"same".to_vec())).unwrap();
    repo.add_file("b", Some(b"same".to_vec())).unwrap();
    let hash = flowversion::objects::Hash::new(b"same");
    assert_eq!(repo.object_store().list_blobs(), vec![hash.clone()]);
    assert_eq!(repo.object_store().load_blob(&hash).unwrap().content, b"same".to_vec());
    assert_eq!(repo.index().get_file("b").unwrap().unwrap().size, 4);
}

fn loaded(head: &str, refs: Vec<(String, String)>) -> Repository {
    let config = Config::new("r".to_string(), "local".to_string(), "tester".to_string());
    Repository::from_parts("/w".to_string(), config, vec![], vec![], vec![], Some(head.to_string()), refs).unwrap()
}

#[test]
fn head_text_that_is_no_id_is_invalid() {
    let repo = loaded("not-an-id\n", vec![]);
    assert!(matches!(repo.get_log(), Err(FlowError::InvalidCommitId(_))));
    let repo = loaded("ref: refs/streams/main\n", vec![("refs/streams/main".to_string(), "garbage".to_string())]);
    assert!(matches!(repo.get_head_commit_id(), Err(FlowError::InvalidCommitId(_))));
}

#[test]
fn direct_head_names_a_missing_commit() {
    let repo = loaded(" 00000000-0000-4000-8000-000000000009 \n", vec![]);
    let head = repo.get_head_commit_id().unwrap().unwrap();
    assert_eq!(head.as_uuid(), 0x0000_0000_0000_4000_8000_0000_0000_0009);
    assert!(matches!(repo.get_log(), Err(FlowError::ObjectNotFound(t)) if t == "00000000-0000-4000-8000-000000000009"));
}

#[test]
fn direct_head_moves_itself() {
    let mut repo = loaded("00000000000040008000000000000009", vec![]);
    repo.add_file("f", Some(b"x".to_vec())).unwrap();
    let id = repo.commit_with_intention(intention("x")).unwrap();
    assert_eq!(repo.head_text(), Some(id.to_string().as_str()));
    assert!(repo.refs().is_empty());
    assert!(matches!(repo.get_log(), Err(FlowError::ObjectNotFound(t)) if t == "00000000-0000-4000-8000-000000000009"));
}

#[test]
fn from_parts_rejects_duplicate_commits_and_rehashes_blobs() {
    let config = || Config::new("r".to_string(), "local".to_string(), "tester".to_string());
    let c = flowversion::commit::FlowCommit::new(intention("c"), vec![], flowversion::objects::Hash::new(b"t"), vec![]);
    let r = Repository::from_parts("/w".to_string(), config(), vec![], vec![], vec![c.clone(), c.clone()], Some("ref: x".to_string()), vec![]);
    assert!(matches!(r, Err(FlowError::ObjectAlreadyExists(_))));
    let repo = Repository::from_parts("/w".to_string(), config(), vec![], vec![b"blob".to_vec()], vec![c], Some("ref: x".to_string()), vec![]).unwrap();
    assert_eq!(repo.object_store().list_blobs(), vec![flowversion::objects::Hash::new(b"blob")]);
    assert_eq!(repo.object_store().list_commits().unwrap().len(), 1);
}

#[test]
fn missing_head_means_no_commits_yet() {
    let config = Config::new("r".to_string(), "local".to_string(), "tester".to_string());
    let mut repo = Repository::from_parts("/w".to_string(), config, vec![], vec![], vec![], None, vec![]).unwrap();
    assert!(repo.get_head_commit_id().unwrap().is_none());
    assert!(repo.get_log().unwrap().is_empty());
    repo.add_file("f", Some(b"x".to_vec())).unwrap();
    assert!(matches!(repo.commit_with_intention(intention("x")), Err(FlowError::IoError(_))));
    assert_eq!(repo.index().get_status().unwrap().staged_count, 1);
    assert!(repo.object_store().list_commits().unwrap().is_empty());
}

#[test]
fn loaded_parts_keep_index_refs_and_blobs() {
    let config = Config::new("r".to_string(), "local".to_string(), "tester".to_string());
    let e = IndexEntry { hash: flowversion::objects::Hash::new(b"a"), size: 1, modified_time: 2 };
    let repo = Repository::from_parts(
        "/w".to_string(),
        config,
        vec![("a".to_string(), e)],
        vec![b"a".to_vec(), b"a".to_vec()],
        vec![],
        Some("ref: refs/streams/main\n".to_string()),
        vec![("refs/streams/main".to_string(), "x".to_string()), ("refs/streams/main".to_string(), "00000000-0000-4000-8000-000000000001".to_string())],
    )
    .unwrap();
    assert_eq!(repo.refs().len(), 1);
    assert_eq!(repo.get_head_commit_id().unwrap().unwrap().as_uuid(), 0x0000_0000_0000_4000_8000_0000_0000_0001);
    assert_eq!(repo.object_store().list_blobs().len(), 1);
    assert!(repo.index().is_file_staged("a").unwrap());
}

#[test]
fn commit_with_given_id_succeeds_unless_the_id_is_stored() {
    let mut repo = fresh("r", "local");
    repo.add_file("a", Some(b"1".to_vec())).unwrap();
    let c1 = CommitId::from_uuid(0x0000_0000_0000_4000_8000_0000_0000_0001);
    assert_eq!(repo.commit_with_id(intention("first"), c1, 1_000).unwrap(), c1);
    repo.add_file("b", Some(b"2".to_vec())).unwrap();
    assert!(matches!(
        repo.commit_with_id(intention("again"), c1, 2_000),
        Err(FlowError::ObjectAlreadyExists(t)) if t == c1.to_string()
    ));
    assert_eq!(repo.index().get_status().unwrap().staged_count, 1);
    let c2 = CommitId::from_uuid(0x0000_0000_0000_4000_8000_0000_0000_0002);
    assert_eq!(repo.commit_with_id(intention("second"), c2, 2_000).unwrap(), c2);
    let log = repo.get_log().unwrap();
    assert_eq!(log.len(), 2);
    assert_eq!(log[0].id, c2);
    assert_eq!(log[0].timestamp, 2_000);
    assert_eq!(log[0].parent_commits, vec![c1]);
    assert_eq!(repo.index().get_status().unwrap().staged_count, 0);
}
