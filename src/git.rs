//! The repository side: the outside handles that extraction reads, and the
//! calls made on them.

/// Commit records and their extraction.
pub mod commit;

use crate::text::{is_hash_text, is_marker_text};
use vstd::prelude::*;

verus! {

/// An opened repository.
pub type RawRepository = git2::Repository;

/// What extraction reads of one commit of the repository, as plain values.
#[derive(Debug)]
pub struct CommitData {
    /// The commit's hash, as text.
    pub hash: String,
    /// The author's name, where it is readable.
    pub name: Option<String>,
    /// The author's email, where it is readable.
    pub email: Option<String>,
    /// The full message, where it is readable.
    pub message: Option<String>,
    /// Author time, in seconds since the epoch.
    pub timestamp: i64,
}

/// `git2::Repository`, an opened repository, held as an opaque handle.
#[verifier::external_type_specification]
#[verifier::external_body]
pub struct ExRepository(git2::Repository);

/// `git2::Revwalk`, a history walk, carried from its set-up to its steps.
#[verifier::external_type_specification]
#[verifier::external_body]
pub struct ExRevwalk<'repo>(git2::Revwalk<'repo>);

/// `git2::Oid`, a commit identifier, carried from parsing to the walk.
#[verifier::external_type_specification]
#[verifier::external_body]
pub struct ExOid(git2::Oid);

/// `git2::Error`, the error of a failed repository call, handed back as it is.
#[verifier::external_type_specification]
#[verifier::external_body]
pub struct ExError(git2::Error);

/// Relies on `git2::Repository::revwalk`: a new history walk over `repo`.
#[verifier::external_body]
fn new_walk(repo: &git2::Repository) -> (r: Result<git2::Revwalk<'_>, git2::Error>) {
    repo.revwalk()
}

/// Relies on `git2::Revwalk::set_sorting` with `git2::Sort::REVERSE`: the
/// walk hands out the oldest commits first.
#[verifier::external_body]
fn sort_oldest_first(walk: &mut git2::Revwalk<'_>) -> (r: Result<(), git2::Error>) {
    walk.set_sorting(git2::Sort::REVERSE)
}

/// Relies on `git2::Revwalk::push_head`: the walk starts from the tip.
#[verifier::external_body]
fn push_head(walk: &mut git2::Revwalk<'_>) -> (r: Result<(), git2::Error>) {
    walk.push_head()
}

/// Relies on `git2::Revwalk::push`: the walk also starts from `oid`.
#[verifier::external_body]
fn push(walk: &mut git2::Revwalk<'_>, oid: &git2::Oid) -> (r: Result<(), git2::Error>) {
    walk.push(*oid)
}

/// Relies on `git2::Revwalk::push_range` on the range `<oid>..<oid>`,
/// with `oid` written in full: libgit2's `git_revwalk_push_range` marks the
/// left end, with all its ancestors, as left out of the walk, and the push
/// of the right end, already left out, changes nothing.
#[verifier::external_body]
fn leave_out(walk: &mut git2::Revwalk<'_>, oid: &git2::Oid) -> (r: Result<(), git2::Error>) {
    walk.push_range(&format!("{oid}..{oid}"))
}

/// Relies on the `Iterator` of `git2::Revwalk`: each step of the walk, in
/// the order the walk hands them out.
#[verifier::external_body]
fn walk_steps(walk: git2::Revwalk<'_>) -> (r: Vec<Result<git2::Oid, git2::Error>>) {
    walk.collect()
}

/// Relies on `git2::Oid::from_str`, which parses with libgit2's
/// `git_oid_fromstrn`: it fails on an empty text, on one longer than forty
/// characters and on one with a character that is not a hexadecimal digit,
/// and succeeds otherwise.
#[verifier::external_body]
fn parse_oid(s: &str) -> (r: Result<git2::Oid, git2::Error>)
    ensures
        r is Ok <==> is_marker_text(s@),
{
    git2::Oid::from_str(s)
}

/// Relies on `git2::Repository::find_commit` and, on the commit found,
/// `id` (written by the `Display` of `git2::Oid`, which libgit2's
/// `git_oid_tostr` makes forty lower-case hex digits), `message`, and
/// `author` with its `name`, `email` and `when().seconds()`. A text that is
/// not valid UTF-8 reads as absent.
#[verifier::external_body]
pub(crate) fn read_commit(repo: &git2::Repository, oid: &git2::Oid) -> (r: Result<CommitData, git2::Error>)
    ensures
        r is Ok ==> is_hash_text(r->Ok_0.hash@),
{
    let c = repo.find_commit(*oid)?;
    let a = c.author();
    Ok(CommitData {
        hash: c.id().to_string(),
        name: a.name().ok().map(String::from),
        email: a.email().ok().map(String::from),
        message: c.message().ok().map(String::from),
        timestamp: a.when().seconds(),
    })
}

/// One step in setting up a history walk.
pub enum SetupStep {
    /// The walk hands out the oldest commits first.
    OldestFirst,
    /// The walk starts from the repository's tip.
    FromTip,
    /// The walk also starts from the commit that the marker names.
    FromMarker(Seq<char>),
    /// The commit that the marker names, and its ancestors, are left out.
    LeaveOut(Seq<char>),
}

/// The set-up that extraction gives a walk: oldest first, from the tip,
/// and, with a marker, from the marker with the marker's ancestry left out.
pub open spec fn extraction_plan(marker: Option<Seq<char>>) -> Seq<SetupStep> {
    match marker {
        None => seq![SetupStep::OldestFirst, SetupStep::FromTip],
        Some(m) => seq![
            SetupStep::OldestFirst,
            SetupStep::FromTip,
            SetupStep::FromMarker(m),
            SetupStep::LeaveOut(m),
        ],
    }
}

/// The set-ups that extraction gives walks, for any marker.
pub open spec fn is_extraction_plan(plan: Seq<SetupStep>) -> bool {
    exists|m: Option<Seq<char>>| plan == extraction_plan(m)
}

/// A history walk over a repository, with the steps of its set-up so far.
pub struct Walk<'repo> {
    walk: git2::Revwalk<'repo>,
    steps: Ghost<Seq<SetupStep>>,
}

impl<'repo> Walk<'repo> {
    /// The steps of the walk's set-up so far, in the order they were taken.
    pub closed spec fn plan(&self) -> Seq<SetupStep> {
        self.steps@
    }

    /// A new walk over `repo`, not set up yet.
    pub fn open(repo: &'repo RawRepository) -> (r: Result<Walk<'repo>, git2::Error>)
        ensures
            r is Ok ==> r->Ok_0.plan() == Seq::<SetupStep>::empty(),
    {
        match new_walk(repo) {
            Ok(walk) => Ok(Walk { walk, steps: Ghost(Seq::empty()) }),
            Err(e) => Err(e),
        }
    }

    /// Has the walk hand out the oldest commits first.
    pub fn oldest_first(&mut self) -> (r: Result<(), git2::Error>)
        ensures
            final(self).plan() == old(self).plan().push(SetupStep::OldestFirst),
    {
        let r = sort_oldest_first(&mut self.walk);
        self.steps = Ghost(self.steps@.push(SetupStep::OldestFirst));
        r
    }

    /// Starts the walk from the repository's tip.
    pub fn from_tip(&mut self) -> (r: Result<(), git2::Error>)
        ensures
            final(self).plan() == old(self).plan().push(SetupStep::FromTip),
    {
        let r = push_head(&mut self.walk);
        self.steps = Ghost(self.steps@.push(SetupStep::FromTip));
        r
    }

    /// Starts the walk from the commit that `marker` names as well. Fails,
    /// with the walk unchanged, where `marker` is not a commit identifier.
    pub fn from_marker(&mut self, marker: &str) -> (r: Result<(), git2::Error>)
        ensures
            !is_marker_text(marker@) ==> r is Err && final(self).plan() == old(self).plan(),
            is_marker_text(marker@) ==> final(self).plan() == old(self).plan().push(
                SetupStep::FromMarker(marker@),
            ),
    {
        let oid = match parse_oid(marker) {
            Ok(o) => o,
            Err(e) => return Err(e),
        };
        let r = push(&mut self.walk, &oid);
        self.steps = Ghost(self.steps@.push(SetupStep::FromMarker(marker@)));
        r
    }

    /// Leaves the commit that `marker` names, and its ancestors, out of the
    /// walk. Fails, with the walk unchanged, where `marker` is not a commit
    /// identifier.
    pub fn leave_out_marker(&mut self, marker: &str) -> (r: Result<(), git2::Error>)
        ensures
            !is_marker_text(marker@) ==> r is Err && final(self).plan() == old(self).plan(),
            is_marker_text(marker@) ==> final(self).plan() == old(self).plan().push(
                SetupStep::LeaveOut(marker@),
            ),
    {
        let oid = match parse_oid(marker) {
            Ok(o) => o,
            Err(e) => return Err(e),
        };
        let r = leave_out(&mut self.walk, &oid);
        self.steps = Ghost(self.steps@.push(SetupStep::LeaveOut(marker@)));
        r
    }

    /// Runs a walk set up for extraction: the identifiers it hands out, or
    /// the error of a step that failed, in the walk's order.
    pub fn into_steps(self) -> (r: Vec<Result<git2::Oid, git2::Error>>)
        requires
            is_extraction_plan(self.plan()),
    {
        walk_steps(self.walk)
    }
}

} // verus!
