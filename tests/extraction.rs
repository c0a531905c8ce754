use commit_ingest::git::commit::Commit;
use commit_ingest::git::CommitData;
use git2::{Oid, Repository, Signature, Time};

fn fresh_repo() -> Repository {
    let path = format!("/tmp/commit_ingest_{}", uuid::Uuid::new_v4().simple());
    Repository::init(path).unwrap()
}

fn commit_on(repo: &Repository, update_head: bool, parents: &[Oid], msg: &str, secs: i64) -> Oid {
    let sig = Signature::new("Ann Author", "ann@example.com", &Time::new(secs, 0)).unwrap();
    let tree_id = repo.treebuilder(None).unwrap().write().unwrap();
    let tree = repo.find_tree(tree_id).unwrap();
    let parent_commits: Vec<git2::Commit> =
        parents.iter().map(|p| repo.find_commit(*p).unwrap()).collect();
    let parent_refs: Vec<&git2::Commit> = parent_commits.iter().collect();
    let head = if update_head { Some("HEAD") } else { None };
    repo.commit(head, &sig, &sig, msg, &tree, &parent_refs).unwrap()
}

fn linear() -> (Repository, Vec<Oid>) {
    let repo = fresh_repo();
    let c1 = commit_on(&repo, true, &[], "first\n", 1_000);
    let c2 = commit_on(&repo, true, &[c1], "second\n", 2_000);
    let c3 = commit_on(&repo, true, &[c2], "third\n", 3_000);
    (repo, vec![c1, c2, c3])
}

// C1 -> C2, C1 -> C3, M2 = (C2, C3); HEAD at M2.
fn merged() -> (Repository, Oid, Oid, Oid, Oid) {
    let repo = fresh_repo();
    let c1 = commit_on(&repo, true, &[], "root\n", 1_000);
    let c2 = commit_on(&repo, true, &[c1], "left\n", 2_000);
    let c3 = commit_on(&repo, false, &[c1], "right\n", 3_000);
    let m2 = commit_on(&repo, true, &[c2, c3], "merge\n", 4_000);
    (repo, c1, c2, c3, m2)
}

fn hashes(records: &[Commit]) -> Vec<String> {
    records.iter().map(|c| c.commit_id.clone()).collect()
}

fn pos(h: &[String], oid: Oid) -> usize {
    h.iter().position(|x| *x == oid.to_string()).unwrap()
}

fn is_record_id(s: &str) -> bool {
    let b = s.as_bytes();
    b.len() == 36
        && b.iter().enumerate().all(|(i, c)| {
            if [8, 13, 18, 23].contains(&i) {
                *c == b'-'
            } else {
                c.is_ascii_digit() || (b'a'..=b'f').contains(c)
            }
        })
        && b[14] == b'4'
        && [b'8', b'9', b'a', b'b'].contains(&b[19])
}

#[test]
fn new_keeps_every_field() {
    let c = Commit::new(
        "id-1".to_string(),
        "abc".to_string(),
        Some("Ann".to_string()),
        None,
        Some(String::new()),
        -5,
    );
    assert_eq!(c.id, "id-1");
    assert_eq!(c.commit_id, "abc");
    assert_eq!(c.name, Some("Ann".to_string()));
    assert_eq!(c.email, None);
    assert_eq!(c.message, Some(String::new()));
    assert_eq!(c.timestamp, -5);
}

#[test]
fn from_data_assigns_a_fresh_id_and_keeps_the_rest() {
    let data = || CommitData {
        hash: "0123456789abcdef0123456789abcdef01234567".to_string(),
        name: None,
        email: Some("e@x".to_string()),
        message: Some("msg".to_string()),
        timestamp: 42,
    };
    let a = Commit::from_data(data());
    let b = Commit::from_data(data());
    assert!(is_record_id(&a.id));
    assert!(is_record_id(&b.id));
    assert_ne!(a.id, b.id);
    assert_eq!(a.commit_id, "0123456789abcdef0123456789abcdef01234567");
    assert_eq!(a.commit_id, b.commit_id);
    assert_eq!(a.name, None);
    assert_eq!(a.email, Some("e@x".to_string()));
    assert_eq!(a.message, Some("msg".to_string()));
    assert_eq!(a.timestamp, 42);
}

fn data(hash: &str, secs: i64) -> CommitData {
    CommitData {
        hash: hash.to_string(),
        name: Some("N".to_string()),
        email: None,
        message: Some(format!("m{secs}")),
        timestamp: secs,
    }
}

#[test]
fn records_of_drops_unreadable_steps_in_order() {
    let reads = vec![None, Some(data("a", 1)), None, Some(data("b", 2)), Some(data("c", 3)), None];
    let got = Commit::records_of(reads);
    assert_eq!(hashes(&got), vec!["a", "b", "c"]);
    assert_eq!(got.iter().map(|r| r.timestamp).collect::<Vec<_>>(), vec![1, 2, 3]);
    assert_eq!(got[1].message, Some("m2".to_string()));
    assert_eq!(got[1].name, Some("N".to_string()));
    assert_eq!(got[1].email, None);
    assert!(got.iter().all(|r| is_record_id(&r.id)));
    assert!(Commit::records_of(vec![None, None]).is_empty());
    assert!(Commit::records_of(Vec::new()).is_empty());
}

#[test]
fn walk_set_up_then_read() {
    let (repo, c) = linear();
    let walk = Commit::start_walk(&repo, Some(&c[0].to_string())).unwrap();
    let got = Commit::read_walk(&repo, walk);
    assert_eq!(hashes(&got), vec![c[1].to_string(), c[2].to_string()]);
    let walk = Commit::start_walk(&repo, None).unwrap();
    assert_eq!(Commit::read_walk(&repo, walk).len(), 3);
}

#[test]
fn walk_set_up_fails_on_bad_marker() {
    let (repo, _c) = linear();
    assert!(Commit::start_walk(&repo, Some("xyz")).is_err());
    assert!(Commit::start_walk(&repo, Some("0123456789abcdef0123456789abcdef01234567")).is_err());
}

#[test]
fn linear_history_without_marker_is_oldest_first() {
    let (repo, c) = linear();
    let got = Commit::from_unadded(&repo, None).unwrap();
    let want: Vec<String> = c.iter().map(|o| o.to_string()).collect();
    assert_eq!(hashes(&got), want);
    assert_eq!(got[0].message, Some("first\n".to_string()));
    assert_eq!(got[0].name, Some("Ann Author".to_string()));
    assert_eq!(got[0].email, Some("ann@example.com".to_string()));
    assert_eq!(got[2].timestamp, 3_000);
    assert!(got.iter().all(|r| is_record_id(&r.id)));
}

#[test]
fn linear_history_marker_at_oldest() {
    let (repo, c) = linear();
    let got = Commit::from_unadded(&repo, Some(&c[0].to_string())).unwrap();
    assert_eq!(hashes(&got), vec![c[1].to_string(), c[2].to_string()]);
}

#[test]
fn linear_history_marker_at_tip_is_empty() {
    let (repo, c) = linear();
    let got = Commit::from_unadded(&repo, Some(&c[2].to_string())).unwrap();
    assert!(got.is_empty());
}

#[test]
fn merge_history_without_marker() {
    let (repo, c1, c2, c3, m2) = merged();
    let got = Commit::from_unadded(&repo, None).unwrap();
    let h = hashes(&got);
    assert_eq!(h.len(), 4);
    let (p1, p2, p3, pm) = (pos(&h, c1), pos(&h, c2), pos(&h, c3), pos(&h, m2));
    assert!(p1 < p2 && p1 < p3 && p1 < pm);
    assert!(p2 < pm && p3 < pm);
}

#[test]
fn merge_history_marker_on_one_side() {
    let (repo, _c1, c2, c3, m2) = merged();
    let got = Commit::from_unadded(&repo, Some(&c2.to_string())).unwrap();
    assert_eq!(hashes(&got), vec![c3.to_string(), m2.to_string()]);
}

#[test]
fn rerun_with_newest_record_as_marker() {
    let (repo, c) = linear();
    let first = Commit::from_unadded(&repo, None).unwrap();
    let newest = first.last().unwrap().commit_id.clone();
    assert!(Commit::from_unadded(&repo, Some(&newest)).unwrap().is_empty());
    let c4 = commit_on(&repo, true, &[c[2]], "fourth\n", 4_000);
    let c5 = commit_on(&repo, true, &[c4], "fifth\n", 5_000);
    let again = Commit::from_unadded(&repo, Some(&newest)).unwrap();
    assert_eq!(hashes(&again), vec![c4.to_string(), c5.to_string()]);
}

#[test]
fn repeated_extraction_keeps_hashes_and_renews_ids() {
    let (repo, _c) = linear();
    let a = Commit::from_unadded(&repo, None).unwrap();
    let b = Commit::from_unadded(&repo, None).unwrap();
    assert_eq!(hashes(&a), hashes(&b));
    for (x, y) in a.iter().zip(b.iter()) {
        assert_ne!(x.id, y.id);
    }
}

#[test]
fn upper_case_marker_is_accepted() {
    let (repo, c) = linear();
    let got = Commit::from_unadded(&repo, Some(&c[0].to_string().to_uppercase())).unwrap();
    assert_eq!(hashes(&got), vec![c[1].to_string(), c[2].to_string()]);
}

#[test]
fn malformed_marker_fails() {
    let (repo, _c) = linear();
    assert!(Commit::from_unadded(&repo, Some("not-a-hash")).is_err());
    assert!(Commit::from_unadded(&repo, Some("")).is_err());
    let too_long = "a".repeat(41);
    assert!(Commit::from_unadded(&repo, Some(&too_long)).is_err());
}

#[test]
fn marker_naming_no_commit_fails() {
    let (repo, _c) = linear();
    let unknown = "0123456789abcdef0123456789abcdef01234567";
    assert!(Commit::from_unadded(&repo, Some(unknown)).is_err());
}

#[test]
fn repository_without_tip_fails() {
    let repo = fresh_repo();
    assert!(Commit::from_unadded(&repo, None).is_err());
}

