//! The repository: all epics and stories keyed by id, a strictly increasing
//! allocation counter, and the mutation operations with their consistency
//! rules (cascading deletes, derived status rollups). Loading and saving the
//! backing file happen outside the library; every operation here mutates the
//! in-memory state and reports `NotFound` when an addressed item is absent.

use std::collections::HashMap;

use vstd::prelude::*;

use crate::models::{Epic, EpicView, Status, Story, StoryView};

verus! {

broadcast use vstd::std_specs::hash::group_hash_axioms;

/// Failure of a repository operation: the addressed epic or story is absent.
#[derive(Clone, Copy, Debug, PartialEq, Eq, Structural)]
pub enum DbError {
    NotFound,
}

/// The whole repository. Epics and stories share one id space; ids are
/// allocated by incrementing `last_item_id` and are never reused.
#[derive(Debug)]
pub struct DBState {
    pub last_item_id: usize,
    pub epics: HashMap<usize, Epic>,
    pub stories: HashMap<usize, Story>,
}

/// The mathematical value of a `DBState`.
#[verifier::ext_equal]
pub ghost struct DbView {
    pub last_item_id: usize,
    pub epics: Map<usize, EpicView>,
    pub stories: Map<usize, StoryView>,
}

impl View for DBState {
    type V = DbView;

    open spec fn view(&self) -> DbView {
        DbView {
            last_item_id: self.last_item_id,
            epics: self.epics@.map_values(|e: Epic| e@),
            stories: self.stories@.map_values(|s: Story| s@),
        }
    }
}

/// How many of the statuses in `sts` equal `q`.
pub open spec fn count_status(sts: Seq<Status>, q: Status) -> nat
    decreases sts.len(),
{
    if sts.len() == 0 {
        0
    } else {
        count_status(sts.drop_last(), q) + (if sts.last() == q {
            1nat
        } else {
            0nat
        })
    }
}

/// Whether some status in `sts` equals `q`.
pub open spec fn has_status(sts: Seq<Status>, q: Status) -> bool {
    exists|i: int| 0 <= i < sts.len() && sts[i] == q
}

/// The derived status of an epic whose stories carry the statuses `sts`,
/// given the epic's current status: no stories means `InProgress`; any
/// `InProgress` story wins; stories that are all `Closed` or `Resolved`
/// make the epic `Resolved`; otherwise the current status is kept.
pub open spec fn rollup(current: Status, sts: Seq<Status>) -> Status {
    if sts.len() == 0 {
        Status::InProgress
    } else if has_status(sts, Status::InProgress) {
        Status::InProgress
    } else if count_status(sts, Status::Closed) + count_status(sts, Status::Resolved) == sts.len() {
        Status::Resolved
    } else if count_status(sts, Status::Closed) == sts.len() {
        Status::Closed
    } else {
        current
    }
}

impl DbView {
    /// Whether epic `eid` exists and lists `sid` among its stories.
    pub open spec fn story_owned_by(self, eid: usize, sid: usize) -> bool {
        self.epics.contains_key(eid) && self.epics[eid].stories.contains(sid)
    }

    /// Whether some epic lists `sid` among its stories.
    pub open spec fn has_owner(self, sid: usize) -> bool {
        exists|eid: usize| self.story_owned_by(eid, sid)
    }

    /// The epic that lists `sid`; meaningful only under `has_owner`, and
    /// unique under `inv`.
    pub open spec fn owner_of(self, sid: usize) -> usize {
        choose|eid: usize| self.story_owned_by(eid, sid)
    }

    /// Consistency rules of the repository: ids never exceed the allocation
    /// counter, epics and stories share one id space, every referenced story
    /// exists, and each story is referenced by exactly one position of
    /// exactly one epic.
    pub open spec fn inv(self) -> bool {
        &&& forall|id: usize| #[trigger]
            self.epics.contains_key(id) ==> 1 <= id <= self.last_item_id
        &&& forall|id: usize| #[trigger]
            self.stories.contains_key(id) ==> 1 <= id <= self.last_item_id
        &&& forall|id: usize| #[trigger] self.epics.contains_key(id)
            ==> !self.stories.contains_key(id)
        &&& forall|eid: usize, i: int|
            self.epics.contains_key(eid) && 0 <= i < self.epics[eid].stories.len()
                ==> self.stories.contains_key(#[trigger] self.epics[eid].stories[i])
        &&& forall|e1: usize, e2: usize, i: int, j: int|
            #![trigger self.epics[e1].stories[i], self.epics[e2].stories[j]]
            self.epics.contains_key(e1) && self.epics.contains_key(e2) && 0 <= i
                < self.epics[e1].stories.len() && 0 <= j < self.epics[e2].stories.len()
                && self.epics[e1].stories[i] == self.epics[e2].stories[j] ==> e1 == e2 && i == j
    }

    /// The statuses of epic `eid`'s stories, in stored order.
    pub open spec fn story_statuses(self, eid: usize) -> Seq<Status> {
        self.epics[eid].stories.map(|i: int, sid: usize| self.stories[sid].status)
    }

    /// The repository with epic `eid`'s status replaced.
    pub open spec fn with_epic_status(self, eid: usize, status: Status) -> DbView {
        DbView { epics: self.epics.insert(eid, self.epics[eid].with_status(status)), ..self }
    }

    /// The repository after re-deriving epic `eid`'s status from its stories.
    pub open spec fn rolled_up(self, eid: usize) -> DbView {
        self.with_epic_status(eid, rollup(self.epics[eid].status, self.story_statuses(eid)))
    }

    /// The repository after creating a story under epic `eid`: the next id
    /// is allocated, the story is inserted with status `Open`, its id is
    /// appended to the epic's stories, and the epic's status is re-derived.
    pub open spec fn with_story_created(self, s: StoryView, eid: usize) -> DbView {
        let sid = (self.last_item_id + 1) as usize;
        let mid = DbView {
            last_item_id: sid,
            epics: self.epics.insert(
                eid,
                EpicView { stories: self.epics[eid].stories.push(sid), ..self.epics[eid] },
            ),
            stories: self.stories.insert(
                sid,
                StoryView { name: s.name, description: s.description, status: Status::Open },
            ),
        };
        mid.rolled_up(eid)
    }

    /// The repository after deleting epic `eid`: the epic is removed and so
    /// is every story it referenced (the cascade); nothing else changes.
    pub open spec fn with_epic_deleted(self, eid: usize) -> DbView {
        DbView {
            last_item_id: self.last_item_id,
            epics: self.epics.remove(eid),
            stories: self.stories.remove_keys(self.epics[eid].stories.to_set()),
        }
    }

    /// The repository after deleting story `sid` from epic `eid`: the id
    /// leaves the epic's list and the story map, and the epic's status is
    /// re-derived.
    pub open spec fn with_story_deleted(self, eid: usize, sid: usize) -> DbView {
        let idx = self.epics[eid].stories.index_of(sid);
        let mid = DbView {
            last_item_id: self.last_item_id,
            epics: self.epics.insert(
                eid,
                EpicView { stories: self.epics[eid].stories.remove(idx), ..self.epics[eid] },
            ),
            stories: self.stories.remove(sid),
        };
        mid.rolled_up(eid)
    }

    /// The repository after setting story `sid`'s status and re-deriving
    /// the status of the epic that owns it, if one does.
    pub open spec fn with_story_status(self, sid: usize, status: Status) -> DbView {
        let mid = DbView {
            stories: self.stories.insert(sid, self.stories[sid].with_status(status)),
            ..self
        };
        if self.has_owner(sid) {
            mid.rolled_up(self.owner_of(sid))
        } else {
            mid
        }
    }

    /// The repository after creating an epic: the next id is allocated and
    /// the epic is inserted with status `Open` and no stories.
    pub open spec fn with_epic_created(self, e: EpicView) -> DbView {
        let id = (self.last_item_id + 1) as usize;
        DbView {
            last_item_id: id,
            epics: self.epics.insert(
                id,
                EpicView {
                    name: e.name,
                    description: e.description,
                    stories: Seq::<usize>::empty(),
                    status: Status::Open,
                },
            ),
            stories: self.stories,
        }
    }
}

/// Relies on `HashMap::keys`: it yields each key of the map exactly once,
/// in unspecified order.
#[verifier::external_body]
fn epic_ids(m: &HashMap<usize, Epic>) -> (r: Vec<usize>)
    ensures
        r@.to_set() == m@.dom(),
        r@.no_duplicates(),
{
    m.keys().copied().collect()
}

/// Whether `x` occurs in `v`.
fn vec_contains(v: &Vec<usize>, x: usize) -> (r: bool)
    ensures
        r == v@.contains(x),
{
    let n = v.len();
    let mut i: usize = 0;
    while i < n
        invariant
            0 <= i <= n,
            n == v@.len(),
            forall|k: int| 0 <= k < i ==> v@[k] != x,
        decreases n - i,
    {
        if v[i] == x {
            return true;
        }
        i = i + 1;
    }
    false
}

/// The position of the first occurrence of `x` in `v`.
fn vec_index_of(v: &Vec<usize>, x: usize) -> (r: usize)
    requires
        v@.contains(x),
    ensures
        0 <= r < v@.len(),
        v@[r as int] == x,
        forall|k: int| 0 <= k < r ==> v@[k] != x,
{
    let n = v.len();
    let mut i: usize = 0;
    while i < n
        invariant
            0 <= i <= n,
            n == v@.len(),
            v@.contains(x),
            forall|k: int| 0 <= k < i ==> v@[k] != x,
        decreases n - i,
    {
        if v[i] == x {
            return i;
        }
        i = i + 1;
    }
    proof {
        let k = choose|k: int| 0 <= k < v@.len() && v@[k] == x;
        assert(v@[k] != x);
        assert(false);
    }
    0
}

/// Every id present in a consistent repository is strictly below the id the
/// next create operation allocates. Together with the `create_epic` and
/// `create_story` contracts (the new id is `last_item_id + 1` and the
/// counter never moves otherwise), ids handed out across any sequence of
/// creates are strictly increasing and globally unique over both maps.
pub proof fn lemma_allocated_id_fresh(s: DbView)
    requires
        s.inv(),
    ensures
        forall|id: usize| #[trigger] s.epics.contains_key(id) ==> id < s.last_item_id + 1,
        forall|id: usize| #[trigger] s.stories.contains_key(id) ==> id < s.last_item_id + 1,
{
}

/// An epic with no stories always rolls up to `InProgress`.
pub proof fn lemma_rollup_no_stories(current: Status)
    ensures
        rollup(current, Seq::<Status>::empty()) == Status::InProgress,
{
}

/// An epic with at least one `InProgress` story rolls up to `InProgress`.
pub proof fn lemma_rollup_in_progress_wins(current: Status, sts: Seq<Status>)
    requires
        has_status(sts, Status::InProgress),
    ensures
        rollup(current, sts) == Status::InProgress,
{
    let i = choose|i: int| 0 <= i < sts.len() && sts[i] == Status::InProgress;
    assert(sts.len() > 0);
}

/// When every status in the sequence is `Closed` or `Resolved`, the two
/// counts together cover the whole sequence.
proof fn lemma_counts_cover(sts: Seq<Status>)
    requires
        forall|i: int| 0 <= i < sts.len() ==> sts[i] == Status::Closed || sts[i] == Status::Resolved,
    ensures
        count_status(sts, Status::Closed) + count_status(sts, Status::Resolved) == sts.len(),
    decreases sts.len(),
{
    if sts.len() > 0 {
        assert forall|i: int| 0 <= i < sts.drop_last().len() implies sts.drop_last()[i]
            == Status::Closed || sts.drop_last()[i] == Status::Resolved by {
            assert(sts.drop_last()[i] == sts[i]);
        }
        lemma_counts_cover(sts.drop_last());
    }
}

/// An epic with stories that are all `Closed` or `Resolved` rolls up to
/// `Resolved`: the two counts together cover the full story count, and that
/// branch comes before the all-`Closed` one.
pub proof fn lemma_rollup_all_finished(current: Status, sts: Seq<Status>)
    requires
        sts.len() > 0,
        forall|i: int| 0 <= i < sts.len() ==> sts[i] == Status::Closed || sts[i] == Status::Resolved,
    ensures
        rollup(current, sts) == Status::Resolved,
{
    assert(!has_status(sts, Status::InProgress)) by {
        if has_status(sts, Status::InProgress) {
            let i = choose|i: int| 0 <= i < sts.len() && sts[i] == Status::InProgress;
            assert(sts[i] == Status::Closed || sts[i] == Status::Resolved);
        }
    }
    lemma_counts_cover(sts);
}

/// Deleting an epic removes exactly its own stories from the story map:
/// every story id the epic listed is gone, and every story it did not list
/// is still there, unchanged.
pub proof fn lemma_delete_epic_cascade(s: DbView, eid: usize)
    requires
        s.inv(),
        s.epics.contains_key(eid),
    ensures
        forall|i: int|
            0 <= i < s.epics[eid].stories.len() ==> !s.with_epic_deleted(
                eid,
            ).stories.contains_key(#[trigger] s.epics[eid].stories[i]),
        forall|sid: usize|
            s.stories.contains_key(sid) && !s.epics[eid].stories.contains(sid)
                ==> s.with_epic_deleted(eid).stories.contains_key(sid) && s.with_epic_deleted(
                eid,
            ).stories[sid] == s.stories[sid],
{
    let t = s.with_epic_deleted(eid);
    assert forall|i: int| 0 <= i < s.epics[eid].stories.len() implies !t.stories.contains_key(
        #[trigger] s.epics[eid].stories[i],
    ) by {
        assert(s.epics[eid].stories.to_set().contains(s.epics[eid].stories[i]));
    }
}

/// Replacing only an epic's status disturbs none of the consistency rules.
proof fn lemma_status_change_preserves_inv(s: DbView, eid: usize, status: Status)
    requires
        s.inv(),
        s.epics.contains_key(eid),
    ensures
        s.with_epic_status(eid, status).inv(),
{
    let t = s.with_epic_status(eid, status);
    assert forall|e1: usize, e2: usize, i: int, j: int|
        #![trigger t.epics[e1].stories[i], t.epics[e2].stories[j]]
        t.epics.contains_key(e1) && t.epics.contains_key(e2) && 0 <= i
            < t.epics[e1].stories.len() && 0 <= j < t.epics[e2].stories.len()
            && t.epics[e1].stories[i] == t.epics[e2].stories[j] implies e1 == e2 && i == j by {
        assert(t.epics[e1].stories == s.epics[e1].stories);
        assert(t.epics[e2].stories == s.epics[e2].stories);
        assert(s.epics[e1].stories[i] == s.epics[e2].stories[j]);
    }
    assert forall|e: usize, i: int|
        t.epics.contains_key(e) && 0 <= i < t.epics[e].stories.len() implies t.stories.contains_key(
        #[trigger] t.epics[e].stories[i],
    ) by {
        assert(t.epics[e].stories == s.epics[e].stories);
        assert(s.stories.contains_key(s.epics[e].stories[i]));
    }
}

impl DBState {
    /// An empty repository: no items, counter at zero.
    pub fn new() -> (r: Self)
        ensures
            r@.last_item_id == 0,
            r@.epics == Map::<usize, EpicView>::empty(),
            r@.stories == Map::<usize, StoryView>::empty(),
            r@.inv(),
    {
        let r = DBState { last_item_id: 0, epics: HashMap::new(), stories: HashMap::new() };
        proof {
            assert(r@.epics =~= Map::<usize, EpicView>::empty());
            assert(r@.stories =~= Map::<usize, StoryView>::empty());
        }
        r
    }

    /// Creates an epic under a freshly allocated id and returns that id.
    /// The caller's status is ignored (the epic starts `Open`), as are any
    /// story ids it carries (a new epic has no stories yet).
    pub fn create_epic(&mut self, epic: Epic) -> (id: usize)
        requires
            old(self)@.inv(),
            old(self).last_item_id < usize::MAX,
        ensures
            final(self)@ == old(self)@.with_epic_created(epic@),
            final(self)@.inv(),
            id == old(self)@.last_item_id + 1,
            !old(self)@.epics.contains_key(id),
            !old(self)@.stories.contains_key(id),
    {
        self.last_item_id = self.last_item_id + 1;
        let id = self.last_item_id;
        let e = Epic {
            name: epic.name,
            description: epic.description,
            stories: Vec::new(),
            status: Status::Open,
        };
        proof {
            assert(e@.stories =~= Seq::<usize>::empty());
        }
        self.epics.insert(id, e);
        proof {
            assert(self@ =~= old(self)@.with_epic_created(epic@));
            assert(self@.inv());
        }
        id
    }

    /// Re-derives the status of epic `epic_id` from its stories, following
    /// the rollup rule literally; every other item is left as it was.
    pub fn update_epic_status(&mut self, epic_id: usize) -> (r: Result<(), DbError>)
        requires
            old(self)@.inv(),
        ensures
            final(self)@.inv(),
            match r {
                Ok(()) => old(self)@.epics.contains_key(epic_id) && final(self)@ == old(
                    self,
                )@.rolled_up(epic_id),
                Err(DbError::NotFound) => !old(self)@.epics.contains_key(epic_id) && *final(self)
                    == *old(self),
            },
    {
        if !self.epics.contains_key(&epic_id) {
            return Err(DbError::NotFound);
        }
        let ghost s0 = self@;
        let epic = self.epics.remove(&epic_id).unwrap();
        let ghost sts = s0.story_statuses(epic_id);
        proof {
            assert(epic@ == s0.epics[epic_id]);
            assert(sts.len() == epic@.stories.len());
        }
        let n = epic.stories.len();
        let new_status: Status;
        if n == 0 {
            new_status = Status::InProgress;
        } else {
            let mut closed: usize = 0;
            let mut resolved: usize = 0;
            let mut in_progress = false;
            let mut i: usize = 0;
            while i < n
                invariant
                    s0.inv(),
                    s0.epics.contains_key(epic_id),
                    epic@ == s0.epics[epic_id],
                    sts == s0.story_statuses(epic_id),
                    sts.len() == n,
                    n == epic@.stories.len(),
                    self@.stories == s0.stories,
                    0 <= i <= n,
                    closed == count_status(sts.subrange(0, i as int), Status::Closed),
                    resolved == count_status(sts.subrange(0, i as int), Status::Resolved),
                    in_progress == has_status(sts.subrange(0, i as int), Status::InProgress),
                    closed + resolved <= i,
                decreases n - i,
            {
                let sid = epic.stories[i];
                proof {
                    assert(s0.stories.contains_key(s0.epics[epic_id].stories[i as int]));
                    assert(self@.stories.contains_key(sid));
                    assert(self.stories@.contains_key(sid));
                }
                let story_status = self.stories.get(&sid).unwrap().status;
                proof {
                    assert(story_status == s0.stories[sid].status);
                    assert(sts[i as int] == story_status);
                }
                match story_status {
                    Status::InProgress => {
                        in_progress = true;
                    },
                    Status::Closed => {
                        closed = closed + 1;
                    },
                    Status::Resolved => {
                        resolved = resolved + 1;
                    },
                    Status::Open => {},
                }
                proof {
                    let pre = sts.subrange(0, i as int);
                    let post = sts.subrange(0, i + 1);
                    assert(post.drop_last() =~= pre);
                    assert(post.last() == sts[i as int]);
                    assert(count_status(post, Status::Closed) == count_status(pre, Status::Closed)
                        + (if sts[i as int] == Status::Closed {
                        1nat
                    } else {
                        0nat
                    }));
                    assert(count_status(post, Status::Resolved) == count_status(
                        pre,
                        Status::Resolved,
                    ) + (if sts[i as int] == Status::Resolved {
                        1nat
                    } else {
                        0nat
                    }));
                    if has_status(pre, Status::InProgress) || sts[i as int] == Status::InProgress {
                        assert(has_status(post, Status::InProgress)) by {
                            if sts[i as int] == Status::InProgress {
                                assert(post[i as int] == Status::InProgress);
                            } else {
                                let k = choose|k: int|
                                    0 <= k < pre.len() && pre[k] == Status::InProgress;
                                assert(post[k] == Status::InProgress);
                            }
                        }
                    } else {
                        assert(!has_status(post, Status::InProgress)) by {
                            assert forall|k: int|
                                0 <= k < post.len() implies post[k] != Status::InProgress by {
                                if k < i {
                                    assert(pre[k] == post[k]);
                                    assert(!(pre[k] == Status::InProgress));
                                }
                            }
                        }
                    }
                }
                i = i + 1;
            }
            proof {
                assert(sts.subrange(0, n as int) =~= sts);
            }
            if in_progress {
                new_status = Status::InProgress;
            } else if closed + resolved == n {
                new_status = Status::Resolved;
            } else if closed == n {
                new_status = Status::Closed;
            } else {
                new_status = epic.status;
            }
        }
        proof {
            assert(new_status == rollup(s0.epics[epic_id].status, sts));
        }
        let new_epic = Epic {
            name: epic.name,
            description: epic.description,
            stories: epic.stories,
            status: new_status,
        };
        self.epics.insert(epic_id, new_epic);
        proof {
            assert(new_epic@ =~= s0.epics[epic_id].with_status(new_status));
            assert(self@ =~= s0.rolled_up(epic_id));
            lemma_status_change_preserves_inv(s0, epic_id, new_status);
            assert(self@.inv());
        }
        Ok(())
    }

    /// Forces epic `epic_id` to `Closed`, regardless of its stories.
    pub fn close_epic(&mut self, epic_id: usize) -> (r: Result<(), DbError>)
        requires
            old(self)@.inv(),
        ensures
            final(self)@.inv(),
            match r {
                Ok(()) => old(self)@.epics.contains_key(epic_id) && final(self)@ == old(
                    self,
                )@.with_epic_status(epic_id, Status::Closed),
                Err(DbError::NotFound) => !old(self)@.epics.contains_key(epic_id) && *final(self)
                    == *old(self),
            },
    {
        if !self.epics.contains_key(&epic_id) {
            return Err(DbError::NotFound);
        }
        let ghost s0 = self@;
        let mut epic = self.epics.remove(&epic_id).unwrap();
        proof {
            assert(epic@ == s0.epics[epic_id]);
        }
        epic.status = Status::Closed;
        self.epics.insert(epic_id, epic);
        proof {
            assert(self@ =~= s0.with_epic_status(epic_id, Status::Closed));
            lemma_status_change_preserves_inv(s0, epic_id, Status::Closed);
            assert(self@.inv());
        }
        Ok(())
    }

    /// Creates a story under epic `epic_id` with a freshly allocated id,
    /// appends it to that epic and re-derives the epic's status. The
    /// caller's status is ignored: a new story starts `Open`.
    pub fn create_story(&mut self, story: Story, epic_id: usize) -> (r: Result<usize, DbError>)
        requires
            old(self)@.inv(),
            old(self).last_item_id < usize::MAX,
        ensures
            final(self)@.inv(),
            match r {
                Ok(id) => {
                    &&& old(self)@.epics.contains_key(epic_id)
                    &&& final(self)@ == old(self)@.with_story_created(story@, epic_id)
                    &&& id == old(self)@.last_item_id + 1
                    &&& !old(self)@.epics.contains_key(id)
                    &&& !old(self)@.stories.contains_key(id)
                },
                Err(DbError::NotFound) => !old(self)@.epics.contains_key(epic_id) && *final(self)
                    == *old(self),
            },
    {
        if !self.epics.contains_key(&epic_id) {
            return Err(DbError::NotFound);
        }
        let ghost s0 = self@;
        self.last_item_id = self.last_item_id + 1;
        let sid = self.last_item_id;
        self.stories.insert(
            sid,
            Story { name: story.name, description: story.description, status: Status::Open },
        );
        let mut epic = self.epics.remove(&epic_id).unwrap();
        proof {
            assert(epic@ == s0.epics[epic_id]);
        }
        epic.stories.push(sid);
        self.epics.insert(epic_id, epic);
        let ghost mid = self@;
        proof {
            let target = DbView {
                last_item_id: sid,
                epics: s0.epics.insert(
                    epic_id,
                    EpicView {
                        stories: s0.epics[epic_id].stories.push(sid),
                        ..s0.epics[epic_id]
                    },
                ),
                stories: s0.stories.insert(
                    sid,
                    StoryView {
                        name: story@.name,
                        description: story@.description,
                        status: Status::Open,
                    },
                ),
            };
            assert(mid =~= target);
            assert(mid.inv()) by {
                assert forall|e: usize, i: int|
                    mid.epics.contains_key(e) && 0 <= i
                        < mid.epics[e].stories.len() implies mid.stories.contains_key(
                    #[trigger] mid.epics[e].stories[i],
                ) by {
                    if e == epic_id && i == mid.epics[e].stories.len() - 1 {
                        assert(mid.epics[e].stories[i] == sid);
                    } else {
                        assert(s0.epics.contains_key(e));
                        assert(mid.epics[e].stories[i] == s0.epics[e].stories[i]);
                        assert(s0.stories.contains_key(s0.epics[e].stories[i]));
                    }
                }
                assert forall|e1: usize, e2: usize, i: int, j: int|
                    #![trigger mid.epics[e1].stories[i], mid.epics[e2].stories[j]]
                    mid.epics.contains_key(e1) && mid.epics.contains_key(e2) && 0 <= i
                        < mid.epics[e1].stories.len() && 0 <= j < mid.epics[e2].stories.len()
                        && mid.epics[e1].stories[i] == mid.epics[e2].stories[j] implies e1 == e2
                    && i == j by {
                    let last1 = e1 == epic_id && i == mid.epics[e1].stories.len() - 1;
                    let last2 = e2 == epic_id && j == mid.epics[e2].stories.len() - 1;
                    if last1 && last2 {
                    } else if !last1 && !last2 {
                        assert(mid.epics[e1].stories[i] == s0.epics[e1].stories[i]);
                        assert(mid.epics[e2].stories[j] == s0.epics[e2].stories[j]);
                        assert(s0.stories.contains_key(s0.epics[e1].stories[i]));
                    } else if last1 {
                        assert(mid.epics[e2].stories[j] == s0.epics[e2].stories[j]);
                        assert(s0.stories.contains_key(s0.epics[e2].stories[j]));
                        assert(s0.epics[e2].stories[j] <= s0.last_item_id);
                        assert(false);
                    } else {
                        assert(mid.epics[e1].stories[i] == s0.epics[e1].stories[i]);
                        assert(s0.stories.contains_key(s0.epics[e1].stories[i]));
                        assert(s0.epics[e1].stories[i] <= s0.last_item_id);
                        assert(false);
                    }
                }
            }
        }
        let rolled = self.update_epic_status(epic_id);
        proof {
            assert(rolled is Ok);
            assert(self@ == mid.rolled_up(epic_id));
            assert(self@ == s0.with_story_created(story@, epic_id));
        }
        Ok(sid)
    }

    /// Deletes epic `epic_id` and, cascading, every story it references;
    /// stories the epic does not reference are untouched.
    pub fn delete_epic(&mut self, epic_id: usize) -> (r: Result<(), DbError>)
        requires
            old(self)@.inv(),
        ensures
            final(self)@.inv(),
            match r {
                Ok(()) => old(self)@.epics.contains_key(epic_id) && final(self)@ == old(
                    self,
                )@.with_epic_deleted(epic_id),
                Err(DbError::NotFound) => !old(self)@.epics.contains_key(epic_id) && *final(self)
                    == *old(self),
            },
    {
        if !self.epics.contains_key(&epic_id) {
            return Err(DbError::NotFound);
        }
        let ghost s0 = self@;
        let ghost hm0 = self.stories@;
        let epic = self.epics.remove(&epic_id).unwrap();
        let ghost removed = s0.epics[epic_id].stories;
        proof {
            assert(epic@ == s0.epics[epic_id]);
            assert(self@.epics =~= s0.epics.remove(epic_id));
            assert(self.stories@ =~= hm0.remove_keys(removed.subrange(0, 0).to_set()));
        }
        let n = epic.stories.len();
        let mut i: usize = 0;
        while i < n
            invariant
                0 <= i <= n,
                n == removed.len(),
                epic@.stories == removed,
                self@.epics == s0.epics.remove(epic_id),
                self@.last_item_id == s0.last_item_id,
                self.stories@ == hm0.remove_keys(removed.subrange(0, i as int).to_set()),
            decreases n - i,
        {
            let sid = epic.stories[i];
            self.stories.remove(&sid);
            proof {
                let pre = removed.subrange(0, i as int);
                let post = removed.subrange(0, i + 1);
                assert(post =~= pre.push(removed[i as int]));
                assert(post.to_set() =~= pre.to_set().insert(removed[i as int])) by {
                    assert forall|x: usize| post.to_set().contains(x) implies pre.to_set().insert(
                        removed[i as int],
                    ).contains(x) by {
                        let k = choose|k: int| 0 <= k < post.len() && post[k] == x;
                        if k < i {
                            assert(pre[k] == x);
                            assert(pre.contains(x));
                        }
                    }
                    assert forall|x: usize|
                        pre.to_set().insert(removed[i as int]).contains(x) implies post.to_set()
                        .contains(x) by {
                        if pre.contains(x) {
                            let k = choose|k: int| 0 <= k < pre.len() && pre[k] == x;
                            assert(post[k] == x);
                        } else {
                            assert(post[i as int] == x);
                        }
                    }
                }
                assert(self.stories@ =~= hm0.remove_keys(post.to_set()));
            }
            i = i + 1;
        }
        proof {
            assert(removed.subrange(0, n as int) =~= removed);
            assert(self@.stories =~= s0.stories.remove_keys(removed.to_set()));
            assert(self@ =~= s0.with_epic_deleted(epic_id));
            let t = self@;
            assert(t.inv()) by {
                assert forall|e: usize, k: int|
                    t.epics.contains_key(e) && 0 <= k
                        < t.epics[e].stories.len() implies t.stories.contains_key(
                    #[trigger] t.epics[e].stories[k],
                ) by {
                    assert(s0.epics.contains_key(e) && e != epic_id);
                    let sid2 = s0.epics[e].stories[k];
                    assert(s0.stories.contains_key(sid2));
                    if removed.to_set().contains(sid2) {
                        let m = choose|m: int| 0 <= m < removed.len() && removed[m] == sid2;
                        assert(s0.epics[epic_id].stories[m] == s0.epics[e].stories[k]);
                        assert(epic_id == e);
                        assert(false);
                    }
                }
                assert forall|e1: usize, e2: usize, k1: int, k2: int|
                    #![trigger t.epics[e1].stories[k1], t.epics[e2].stories[k2]]
                    t.epics.contains_key(e1) && t.epics.contains_key(e2) && 0 <= k1
                        < t.epics[e1].stories.len() && 0 <= k2 < t.epics[e2].stories.len()
                        && t.epics[e1].stories[k1] == t.epics[e2].stories[k2] implies e1 == e2 && k1
                    == k2 by {
                    assert(s0.epics[e1].stories[k1] == s0.epics[e2].stories[k2]);
                }
            }
        }
        Ok(())
    }

    /// The epic whose story list holds `story_id`, if any; under the
    /// invariant there is at most one.
    fn find_owner(&self, story_id: usize) -> (r: Option<usize>)
        requires
            self@.inv(),
        ensures
            match r {
                Some(eid) => self@.story_owned_by(eid, story_id),
                None => !self@.has_owner(story_id),
            },
    {
        let ids = epic_ids(&self.epics);
        let n = ids.len();
        let mut i: usize = 0;
        while i < n
            invariant
                self@.inv(),
                0 <= i <= n,
                n == ids@.len(),
                ids@.to_set() == self.epics@.dom(),
                forall|k: int|
                    0 <= k < i ==> !self@.epics[#[trigger] ids@[k]].stories.contains(story_id),
            decreases n - i,
        {
            let eid = ids[i];
            proof {
                assert(ids@.to_set().contains(ids@[i as int]));
                assert(self.epics@.contains_key(eid));
            }
            let epic = self.epics.get(&eid).unwrap();
            if vec_contains(&epic.stories, story_id) {
                proof {
                    assert(epic@ == self@.epics[eid]);
                }
                return Some(eid);
            }
            proof {
                assert(epic@ == self@.epics[eid]);
            }
            i = i + 1;
        }
        proof {
            if self@.has_owner(story_id) {
                let eid = choose|eid: usize| self@.story_owned_by(eid, story_id);
                assert(self.epics@.contains_key(eid));
                assert(ids@.to_set().contains(eid));
                let k = choose|k: int| 0 <= k < ids@.len() && ids@[k] == eid;
                assert(!self@.epics[ids@[k]].stories.contains(story_id));
                assert(false);
            }
        }
        None
    }

    /// Sets story `story_id`'s status and re-derives the status of the epic
    /// that owns it. The write happens whether or not the owning epic is
    /// `Closed`: the guard against that lives in the navigator, not here.
    pub fn update_story_status(&mut self, story_id: usize, status: Status) -> (r: Result<
        (),
        DbError,
    >)
        requires
            old(self)@.inv(),
        ensures
            final(self)@.inv(),
            match r {
                Ok(()) => old(self)@.stories.contains_key(story_id) && final(self)@ == old(
                    self,
                )@.with_story_status(story_id, status),
                Err(DbError::NotFound) => !old(self)@.stories.contains_key(story_id) && *final(self)
                    == *old(self),
            },
    {
        if !self.stories.contains_key(&story_id) {
            return Err(DbError::NotFound);
        }
        let ghost s0 = self@;
        let mut story = self.stories.remove(&story_id).unwrap();
        proof {
            assert(story@ == s0.stories[story_id]);
        }
        story.status = status;
        self.stories.insert(story_id, story);
        let ghost mid = self@;
        proof {
            assert(mid =~= (DbView {
                stories: s0.stories.insert(story_id, s0.stories[story_id].with_status(status)),
                ..s0
            }));
            assert(mid.inv());
        }
        let owner = self.find_owner(story_id);
        match owner {
            Some(eid) => {
                proof {
                    assert(s0.story_owned_by(eid, story_id));
                    assert(s0.has_owner(story_id));
                    let c = s0.owner_of(story_id);
                    assert(s0.story_owned_by(c, story_id));
                    let ki = choose|k: int|
                        0 <= k < s0.epics[eid].stories.len() && s0.epics[eid].stories[k]
                            == story_id;
                    let kj = choose|k: int|
                        0 <= k < s0.epics[c].stories.len() && s0.epics[c].stories[k] == story_id;
                    assert(s0.epics[eid].stories[ki] == s0.epics[c].stories[kj]);
                    assert(eid == c);
                }
                let rolled = self.update_epic_status(eid);
                proof {
                    assert(rolled is Ok);
                    assert(self@ == mid.rolled_up(eid));
                    assert(self@ == s0.with_story_status(story_id, status));
                }
            },
            None => {
                proof {
                    assert(!s0.has_owner(story_id)) by {
                        if s0.has_owner(story_id) {
                            let eid = choose|eid: usize| s0.story_owned_by(eid, story_id);
                            assert(mid.story_owned_by(eid, story_id));
                        }
                    }
                    assert(self@ == s0.with_story_status(story_id, status));
                }
            },
        }
        Ok(())
    }

    /// Deletes story `story_id` from epic `epic_id`: the id leaves the
    /// epic's story list and the story map, and the epic's status is
    /// re-derived.
    pub fn delete_story(&mut self, epic_id: usize, story_id: usize) -> (r: Result<(), DbError>)
        requires
            old(self)@.inv(),
        ensures
            final(self)@.inv(),
            match r {
                Ok(()) => old(self)@.story_owned_by(epic_id, story_id) && final(self)@ == old(
                    self,
                )@.with_story_deleted(epic_id, story_id),
                Err(DbError::NotFound) => !old(self)@.story_owned_by(epic_id, story_id)
                    && *final(self) == *old(self),
            },
    {
        if !self.epics.contains_key(&epic_id) {
            return Err(DbError::NotFound);
        }
        let ghost s0 = self@;
        let found = {
            let epic = self.epics.get(&epic_id).unwrap();
            proof {
                assert(epic@ == s0.epics[epic_id]);
            }
            vec_contains(&epic.stories, story_id)
        };
        if !found {
            return Err(DbError::NotFound);
        }
        let mut epic = self.epics.remove(&epic_id).unwrap();
        proof {
            assert(epic@ == s0.epics[epic_id]);
        }
        let idx = vec_index_of(&epic.stories, story_id);
        proof {
            let spec_idx = s0.epics[epic_id].stories.index_of(story_id);
            assert(s0.epics[epic_id].stories[spec_idx] == story_id);
            assert(s0.epics[epic_id].stories[idx as int] == s0.epics[epic_id].stories[spec_idx]);
            assert(idx as int == spec_idx);
        }
        epic.stories.remove(idx);
        self.stories.remove(&story_id);
        self.epics.insert(epic_id, epic);
        let ghost mid = self@;
        proof {
            let ghost old_list = s0.epics[epic_id].stories;
            assert(mid =~= (DbView {
                last_item_id: s0.last_item_id,
                epics: s0.epics.insert(
                    epic_id,
                    EpicView {
                        stories: old_list.remove(idx as int),
                        ..s0.epics[epic_id]
                    },
                ),
                stories: s0.stories.remove(story_id),
            }));
            assert(mid.inv()) by {
                assert forall|e: usize, k: int|
                    mid.epics.contains_key(e) && 0 <= k
                        < mid.epics[e].stories.len() implies mid.stories.contains_key(
                    #[trigger] mid.epics[e].stories[k],
                ) by {
                    let orig_k: int = if e == epic_id && k >= idx {
                        k + 1
                    } else {
                        k
                    };
                    assert(mid.epics[e].stories[k] == s0.epics[e].stories[orig_k]);
                    assert(s0.stories.contains_key(s0.epics[e].stories[orig_k]));
                    if s0.epics[e].stories[orig_k] == story_id {
                        let ki = choose|q: int|
                            0 <= q < old_list.len() && old_list[q] == story_id;
                        assert(s0.epics[epic_id].stories[ki] == s0.epics[e].stories[orig_k]);
                        assert(e == epic_id && orig_k == ki);
                        assert(old_list[idx as int] == old_list[ki]);
                        assert(idx as int == ki);
                        assert(false);
                    }
                }
                assert forall|e1: usize, e2: usize, k1: int, k2: int|
                    #![trigger mid.epics[e1].stories[k1], mid.epics[e2].stories[k2]]
                    mid.epics.contains_key(e1) && mid.epics.contains_key(e2) && 0 <= k1
                        < mid.epics[e1].stories.len() && 0 <= k2 < mid.epics[e2].stories.len()
                        && mid.epics[e1].stories[k1] == mid.epics[e2].stories[k2] implies e1 == e2
                    && k1 == k2 by {
                    let o1: int = if e1 == epic_id && k1 >= idx {
                        k1 + 1
                    } else {
                        k1
                    };
                    let o2: int = if e2 == epic_id && k2 >= idx {
                        k2 + 1
                    } else {
                        k2
                    };
                    assert(mid.epics[e1].stories[k1] == s0.epics[e1].stories[o1]);
                    assert(mid.epics[e2].stories[k2] == s0.epics[e2].stories[o2]);
                    assert(e1 == e2 && o1 == o2);
                }
            }
        }
        let rolled = self.update_epic_status(epic_id);
        proof {
            assert(rolled is Ok);
            assert(self@ == mid.rolled_up(epic_id));
            assert(self@ == s0.with_story_deleted(epic_id, story_id));
        }
        Ok(())
    }
}

} // verus!
