//! Commit records, and the extraction of the records that a store does not
//! hold yet.

use crate::git::{
    extraction_plan, is_extraction_plan, read_commit, CommitData, RawRepository, Walk,
};
use crate::record_id::new_record_id;
use crate::text::{is_hash_text, is_marker_text, is_record_id_text};
use vstd::prelude::*;

verus! {

/// A commit as it is stored: one record per commit of the repository.
#[derive(Debug)]
pub struct Commit {
    /// Storage identifier, assigned when the record is made.
    pub id: String,
    /// The repository's own hash of the commit.
    pub commit_id: String,
    /// The author's name, where the commit has a readable one.
    pub name: Option<String>,
    /// The author's email, where the commit has a readable one.
    pub email: Option<String>,
    /// The full message, where the commit has a readable one.
    pub message: Option<String>,
    /// Author time, in seconds since the epoch.
    pub timestamp: i64,
}

/// What is left of a walk's steps once those that could not be read are
/// dropped: the values of the present ones, in the order of the steps.
pub open spec fn kept<T>(steps: Seq<Option<T>>) -> Seq<T>
    decreases steps.len(),
{
    if steps.len() == 0 {
        Seq::empty()
    } else {
        let rest = kept(steps.drop_first());
        match steps[0] {
            Some(x) => seq![x] + rest,
            None => rest,
        }
    }
}

/// What holds of every present step holds of every kept value.
pub proof fn lemma_kept_all<T>(steps: Seq<Option<T>>, p: spec_fn(T) -> bool)
    requires
        forall|i: int| 0 <= i < steps.len() && (#[trigger] steps[i]) is Some ==> p(steps[i]->Some_0),
    ensures
        forall|j: int| 0 <= j < kept(steps).len() ==> p(#[trigger] kept(steps)[j]),
    decreases steps.len(),
{
    if steps.len() > 0 {
        let rest = steps.drop_first();
        assert forall|i: int| 0 <= i < rest.len() && (#[trigger] rest[i]) is Some implies p(
            rest[i]->Some_0,
        ) by {
            assert(rest[i] == steps[i + 1]);
        }
        lemma_kept_all(rest, p);
        if steps[0] is Some {
            let k = kept(steps);
            assert(k == seq![steps[0]->Some_0] + kept(rest));
            assert forall|j: int| 0 <= j < k.len() implies p(#[trigger] k[j]) by {
                if j > 0 {
                    assert(k[j] == kept(rest)[j - 1]);
                }
            }
        } else {
            assert(kept(steps) == kept(rest));
        }
    }
}

/// Dropping unreadable steps keeps the walk's order and loses nothing
/// else: each kept value stands at a step of its own, the steps of two kept
/// values come in the order of the values, and every present step is kept.
pub proof fn lemma_kept_in_walk_order<T>(steps: Seq<Option<T>>) -> (at: Seq<int>)
    ensures
        at.len() == kept(steps).len(),
        forall|j: int|
            0 <= j < at.len() ==> 0 <= #[trigger] at[j] < steps.len() && steps[at[j]] == Some(
                kept(steps)[j],
            ),
        forall|i: int, j: int| 0 <= i < j < at.len() ==> at[i] < at[j],
        forall|a: int|
            0 <= a < steps.len() && (#[trigger] steps[a]) is Some ==> exists|j: int|
                0 <= j < at.len() && at[j] == a,
    decreases steps.len(),
{
    if steps.len() == 0 {
        Seq::empty()
    } else {
        let rest = steps.drop_first();
        let at_rest = lemma_kept_in_walk_order(rest);
        let shifted = at_rest.map_values(|k: int| k + 1);
        let k = kept(steps);
        assert forall|a: int| 1 <= a < steps.len() && (#[trigger] steps[a]) is Some implies exists|
            j: int,
        | 0 <= j < shifted.len() && shifted[j] == a by {
            assert(rest[a - 1] == steps[a]);
            let j = choose|j: int| 0 <= j < at_rest.len() && at_rest[j] == a - 1;
            assert(shifted[j] == a);
        }
        if steps[0] is Some {
            let at = seq![0int] + shifted;
            assert(k == seq![steps[0]->Some_0] + kept(rest));
            assert forall|j: int| 0 <= j < at.len() implies 0 <= #[trigger] at[j] < steps.len()
                && steps[at[j]] == Some(k[j]) by {
                if j > 0 {
                    assert(at[j] == at_rest[j - 1] + 1);
                    assert(k[j] == kept(rest)[j - 1]);
                    assert(steps[at[j]] == rest[at_rest[j - 1]]);
                }
            }
            assert forall|a: int| 0 <= a < steps.len() && (#[trigger] steps[a]) is Some implies exists|
                j: int,
            | 0 <= j < at.len() && at[j] == a by {
                if a == 0 {
                    assert(at[0] == 0);
                } else {
                    let j = choose|j: int| 0 <= j < shifted.len() && shifted[j] == a;
                    assert(at[j + 1] == a);
                }
            }
            at
        } else {
            assert forall|j: int| 0 <= j < shifted.len() implies 0 <= #[trigger] shifted[j]
                < steps.len() && steps[shifted[j]] == Some(k[j]) by {
                assert(steps[shifted[j]] == rest[at_rest[j]]);
            }
            shifted
        }
    }
}

/// Two records made of the same commit carry the same hash, whatever
/// storage identifiers they were given.
pub proof fn lemma_hash_stable(data: CommitData, a: Commit, b: Commit)
    requires
        call_ensures(Commit::from_data, (data,), a),
        call_ensures(Commit::from_data, (data,), b),
    ensures
        a.commit_id == b.commit_id,
        a.commit_id == data.hash,
{
}

impl Commit {
    /// Makes a record of the given fields.
    pub fn new(
        id: String,
        commit_id: String,
        name: Option<String>,
        email: Option<String>,
        message: Option<String>,
        timestamp: i64,
    ) -> (r: Self)
        ensures
            r.id == id,
            r.commit_id == commit_id,
            r.name == name,
            r.email == email,
            r.message == message,
            r.timestamp == timestamp,
    {
        Self { id, commit_id, name, email, message, timestamp }
    }

    /// A record as extraction makes it: a storage identifier in the shape
    /// of a random hyphenated identifier, and the hash of a commit.
    pub open spec fn is_extracted(&self) -> bool {
        is_record_id_text(self.id@) && is_hash_text(self.commit_id@)
    }

    /// Makes the record of a commit read from the repository, with a fresh
    /// storage identifier.
    pub fn from_data(data: CommitData) -> (r: Self)
        ensures
            is_record_id_text(r.id@),
            r.commit_id == data.hash,
            r.name == data.name,
            r.email == data.email,
            r.message == data.message,
            r.timestamp == data.timestamp,
    {
        let id = new_record_id();
        Commit::new(id, data.hash, data.name, data.email, data.message, data.timestamp)
    }

    /// The records of what a walk read, in the walk's order: one record,
    /// with a fresh storage identifier, for each commit that was read, and
    /// nothing for a step whose commit could not be read.
    pub fn records_of(reads: Vec<Option<CommitData>>) -> (r: Vec<Commit>)
        ensures
            r.len() == kept(reads@).len(),
            forall|j: int|
                0 <= j < r.len() ==> {
                    let d = #[trigger] kept(reads@)[j];
                    &&& is_record_id_text(r[j].id@)
                    &&& r[j].commit_id == d.hash
                    &&& r[j].name == d.name
                    &&& r[j].email == d.email
                    &&& r[j].message == d.message
                    &&& r[j].timestamp == d.timestamp
                },
    {
        let ghost all = reads@;
        let mut reads = reads;
        let mut out: Vec<Commit> = Vec::new();
        while reads.len() > 0
            invariant
                out.len() + kept(reads@).len() == kept(all).len(),
                forall|j: int|
                    0 <= j < out.len() ==> {
                        let d = #[trigger] kept(all)[j];
                        &&& is_record_id_text(out[j].id@)
                        &&& out[j].commit_id == d.hash
                        &&& out[j].name == d.name
                        &&& out[j].email == d.email
                        &&& out[j].message == d.message
                        &&& out[j].timestamp == d.timestamp
                    },
                forall|j: int|
                    0 <= j < kept(reads@).len() ==> kept(all)[out.len() + j] == #[trigger] kept(
                        reads@,
                    )[j],
            decreases reads.len(),
        {
            let ghost before = reads@;
            let read = reads.remove(0);
            assert(reads@ == before.drop_first());
            match read {
                Some(d) => {
                    assert(kept(before) == seq![d] + kept(reads@));
                    assert(kept(before)[0] == d);
                    assert forall|j: int| 0 <= j < kept(reads@).len() implies kept(all)[out.len()
                        + 1 + j] == #[trigger] kept(reads@)[j] by {
                        assert(kept(before)[j + 1] == kept(reads@)[j]);
                    }
                    out.push(Commit::from_data(d));
                },
                None => {},
            }
        }
        out
    }

    /// Sets up the walk of the commits reachable from the repository's tip
    /// and, with a marker, not reachable from the commit it names, oldest
    /// first. Fails where git2 cannot do so: among others where the tip does
    /// not resolve, where the marker is not a commit identifier (one to forty
    /// hex digits), and where it names no commit of the repository.
    pub fn start_walk<'repo>(repo: &'repo RawRepository, marker: Option<&str>) -> (r: Result<
        Walk<'repo>,
        git2::Error,
    >)
        ensures
            marker is Some && !is_marker_text(marker->Some_0@) ==> r is Err,
            r is Ok ==> r->Ok_0.plan() == extraction_plan(
                match marker {
                    Some(m) => Some(m@),
                    None => None,
                },
            ),
    {
        let mut walk = match Walk::open(repo) {
            Ok(w) => w,
            Err(e) => return Err(e),
        };
        if let Err(e) = walk.oldest_first() {
            return Err(e);
        }
        if let Err(e) = walk.from_tip() {
            return Err(e);
        }
        if let Some(m) = marker {
            if let Err(e) = walk.from_marker(m) {
                return Err(e);
            }
            if let Err(e) = walk.leave_out_marker(m) {
                return Err(e);
            }
        }
        Ok(walk)
    }

    /// The records of the commits that a walk set up for extraction hands
    /// out, in the walk's order. A step that fails, or whose commit cannot
    /// be read, is left out, and the walk goes on: reading never fails.
    pub fn read_walk(repo: &RawRepository, walk: Walk<'_>) -> (r: Vec<Commit>)
        requires
            is_extraction_plan(walk.plan()),
        ensures
            forall|i: int| 0 <= i < r.len() ==> (#[trigger] r[i]).is_extracted(),
    {
        let oids = walk.into_steps();
        let mut reads: Vec<Option<CommitData>> = Vec::new();
        let mut i: usize = 0;
        while i < oids.len()
            invariant
                i <= oids.len(),
                forall|j: int|
                    0 <= j < reads.len() && (#[trigger] reads@[j]) is Some ==> is_hash_text(
                        reads@[j]->Some_0.hash@,
                    ),
            decreases oids.len() - i,
        {
            let read = match &oids[i] {
                Ok(oid) => match read_commit(repo, oid) {
                    Ok(data) => Some(data),
                    Err(_) => None,
                },
                Err(_) => None,
            };
            reads.push(read);
            i = i + 1;
        }
        proof {
            lemma_kept_all(reads@, |d: CommitData| is_hash_text(d.hash@));
        }
        let r = Commit::records_of(reads);
        assert forall|i: int| 0 <= i < r.len() implies (#[trigger] r[i]).is_extracted() by {
            assert(is_hash_text(kept(reads@)[i].hash@));
        }
        r
    }

    /// The records of the commits reachable from the repository's tip and,
    /// with a marker, not reachable from the commit it names, oldest first.
    /// Only setting up the walk can fail ([`Commit::start_walk`]); a commit
    /// that cannot be read is left out ([`Commit::read_walk`]).
    pub fn from_unadded(repo: &RawRepository, marker: Option<&str>) -> (r: Result<
        Vec<Self>,
        git2::Error,
    >)
        ensures
            marker is Some && !is_marker_text(marker->Some_0@) ==> r is Err,
            r is Ok ==> forall|i: int|
                0 <= i < r->Ok_0.len() ==> (#[trigger] r->Ok_0[i]).is_extracted(),
    {
        match Commit::start_walk(repo, marker) {
            Ok(walk) => {
                assert(is_extraction_plan(walk.plan()));
                Ok(Commit::read_walk(repo, walk))
            },
            Err(e) => Err(e),
        }
    }
}

} // verus!
