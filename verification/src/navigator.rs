//! The navigation state machine: an ordered stack of pages, the top one
//! being the active screen, driven by consuming one `Action` at a time.
//! Prompt answers are injected as plain values: the driving loop asks the
//! user and fills them in before dispatching, so the decisions taken here
//! are pure and fully specified.

use vstd::prelude::*;

use crate::models::{Action, Epic, EpicView, Status, Story, StoryView};
use crate::pages::{EpicDetail, HomePage, Page, StoryDetail};
use crate::store::{DBState, DbError, DbView};

verus! {

/// The answers the interactive prompts would give: the items to create,
/// whether each confirmation was affirmed, and the status the user picked.
/// The seam for deterministic testing: tests inject canned answers here.
pub struct Prompts {
    pub create_epic: Epic,
    pub create_story: Story,
    pub close_epic: bool,
    pub reopen_epic: bool,
    pub delete_epic: bool,
    pub delete_story: bool,
    pub update_status: Status,
}

impl Prompts {
    /// Neutral answers: empty items, every confirmation declined, and the
    /// status pick left at `Open`.
    pub fn new() -> (r: Self)
        ensures
            r.create_epic@ == (EpicView {
                name: Seq::<char>::empty(),
                description: Seq::<char>::empty(),
                stories: Seq::<usize>::empty(),
                status: Status::Open,
            }),
            r.create_story@ == (StoryView {
                name: Seq::<char>::empty(),
                description: Seq::<char>::empty(),
                status: Status::Open,
            }),
            !r.close_epic,
            !r.reopen_epic,
            !r.delete_epic,
            !r.delete_story,
            r.update_status == Status::Open,
    {
        Prompts {
            create_epic: Epic::new(String::new(), String::new()),
            create_story: Story::new(String::new(), String::new()),
            close_epic: false,
            reopen_epic: false,
            delete_epic: false,
            delete_story: false,
            update_status: Status::Open,
        }
    }
}

/// The page stack after popping once: one page shorter, and an empty stack
/// stays empty (a stray pop is a no-op, never a failure).
pub open spec fn popped(pages: Seq<Page>) -> Seq<Page> {
    if pages.len() > 0 {
        pages.drop_last()
    } else {
        pages
    }
}

/// Popping a one-page stack leaves it empty, and popping an empty stack
/// keeps it empty: a stray pop is idempotent. With the `handle_action`
/// contract this pins what navigating back does on the smallest stacks;
/// the same contract's `Exit` case empties the stack from any depth.
pub proof fn lemma_pop_on_small_stacks(pages: Seq<Page>)
    ensures
        pages.len() == 1 ==> popped(pages).len() == 0,
        pages.len() == 0 ==> popped(pages) == pages,
{
}

/// What one `handle_action` dispatch does: how the post-state `post` and
/// the result `r` relate to the pre-state `pre` for each action.
pub open spec fn action_applied(
    pre: Navigator,
    post: Navigator,
    action: Action,
    r: Result<(), DbError>,
) -> bool {
    match action {
        Action::NavigateToEpicDetail { epic_id } => r is Ok && post.db@ == pre.db@ && post.pages@
            == pre.pages@.push(Page::EpicDetail(EpicDetail { epic_id })),
        Action::NavigateToStoryDetail { epic_id, story_id } => r is Ok && post.db@ == pre.db@
            && post.pages@ == pre.pages@.push(Page::StoryDetail(StoryDetail { epic_id, story_id })),
        Action::NavigateToPreviousPage => r is Ok && post.db@ == pre.db@ && post.pages@ == popped(
            pre.pages@,
        ),
        Action::GetEpicName { epic_id } => post.db@ == pre.db@ && post.pages@ == pre.pages@ && (
        r is Ok <==> pre.db@.epics.contains_key(epic_id)),
        Action::GetEpicDescription { epic_id } => post.db@ == pre.db@ && post.pages@ == pre.pages@
            && (r is Ok <==> pre.db@.epics.contains_key(epic_id)),
        Action::GetStoryName { story_id } => post.db@ == pre.db@ && post.pages@ == pre.pages@ && (
        r is Ok <==> pre.db@.stories.contains_key(story_id)),
        Action::GetStoryDescription { story_id } => post.db@ == pre.db@ && post.pages@ == pre.pages@
            && (r is Ok <==> pre.db@.stories.contains_key(story_id)),
        Action::CreateEpic => r is Ok && post.pages@ == pre.pages@ && post.db@
            == pre.db@.with_epic_created(pre.prompts.create_epic@),
        Action::CloseEpic { epic_id } => post.pages@ == pre.pages@ && (if pre.prompts.close_epic {
            if pre.db@.epics.contains_key(epic_id) {
                r is Ok && post.db@ == pre.db@.with_epic_status(epic_id, Status::Closed)
            } else {
                r is Err && post.db@ == pre.db@
            }
        } else {
            r is Ok && post.db@ == pre.db@
        }),
        Action::ReopenEpic { epic_id } => post.pages@ == pre.pages@ && (if pre.prompts.reopen_epic {
            if pre.db@.epics.contains_key(epic_id) {
                r is Ok && post.db@ == pre.db@.rolled_up(epic_id)
            } else {
                r is Err && post.db@ == pre.db@
            }
        } else {
            r is Ok && post.db@ == pre.db@
        }),
        Action::DeleteEpic { epic_id } => if pre.prompts.delete_epic {
            if pre.db@.epics.contains_key(epic_id) {
                r is Ok && post.db@ == pre.db@.with_epic_deleted(epic_id) && post.pages@ == popped(
                    pre.pages@,
                )
            } else {
                r is Err && post.db@ == pre.db@ && post.pages@ == pre.pages@
            }
        } else {
            r is Ok && post.db@ == pre.db@ && post.pages@ == pre.pages@
        },
        Action::CreateStory { epic_id } => post.pages@ == pre.pages@ && (
        if pre.db@.epics.contains_key(epic_id) {
            r is Ok && post.db@ == pre.db@.with_story_created(pre.prompts.create_story@, epic_id)
        } else {
            r is Err && post.db@ == pre.db@
        }),
        Action::UpdateStoryStatus { epic_id, story_id } => post.pages@ == pre.pages@ && (
        if !pre.db@.epics.contains_key(epic_id) {
            r is Err && post.db@ == pre.db@
        } else if pre.db@.epics[epic_id].status == Status::Closed {
            r is Ok && post.db@ == pre.db@
        } else if pre.db@.stories.contains_key(story_id) {
            r is Ok && post.db@ == pre.db@.with_story_status(story_id, pre.prompts.update_status)
        } else {
            r is Err && post.db@ == pre.db@
        }),
        Action::DeleteStory { epic_id, story_id } => if pre.prompts.delete_story {
            if pre.db@.story_owned_by(epic_id, story_id) {
                r is Ok && post.db@ == pre.db@.with_story_deleted(epic_id, story_id) && post.pages@
                    == popped(pre.pages@)
            } else {
                r is Err && post.db@ == pre.db@ && post.pages@ == pre.pages@
            }
        } else {
            r is Ok && post.db@ == pre.db@ && post.pages@ == pre.pages@
        },
        Action::Exit => r is Ok && post.db@ == pre.db@ && post.pages@.len() == 0,
    }
}

/// Owns the page stack and the repository and executes actions against
/// them. The driving loop renders the current page, parses one line into
/// an action, and hands the action here.
pub struct Navigator {
    pub pages: Vec<Page>,
    pub prompts: Prompts,
    pub db: DBState,
}

impl Navigator {
    /// The navigator is well-formed when its repository is.
    pub open spec fn wf(self) -> bool {
        self.db@.inv()
    }

    /// A navigator over `db`, starting on the home page with neutral
    /// prompt answers.
    pub fn new(db: DBState) -> (r: Self)
        ensures
            r.pages@.len() == 1,
            r.pages@[0] == Page::Home(HomePage {  }),
            r.db == db,
            !r.prompts.close_epic,
            !r.prompts.reopen_epic,
            !r.prompts.delete_epic,
            !r.prompts.delete_story,
    {
        Navigator { pages: vec![Page::Home(HomePage {  })], prompts: Prompts::new(), db }
    }

    /// The currently active page: the top of the stack, if any.
    pub fn get_current_page(&self) -> (r: Option<&Page>)
        ensures
            match r {
                Some(p) => self.pages@.len() > 0 && *p == self.pages@.last(),
                None => self.pages@.len() == 0,
            },
    {
        let n = self.pages.len();
        if n == 0 {
            None
        } else {
            Some(&self.pages[n - 1])
        }
    }

    /// How many pages the stack holds.
    pub fn get_page_count(&self) -> (r: usize)
        ensures
            r == self.pages@.len(),
    {
        self.pages.len()
    }

    /// Replaces the injected prompt answers.
    pub fn set_prompts(&mut self, prompts: Prompts)
        ensures
            final(self).prompts == prompts,
            final(self).pages == old(self).pages,
            final(self).db == old(self).db,
    {
        self.prompts = prompts;
    }

    /// Executes one action: navigation moves the page stack, the other
    /// actions consult the prompt answers and call the repository. A
    /// `NotFound` from the repository is reported, never a crash; updating
    /// a story of a `Closed` epic is refused here without touching the
    /// repository.
    pub fn handle_action(&mut self, action: Action) -> (r: Result<(), DbError>)
        requires
            old(self).wf(),
            action is CreateEpic ==> old(self).db.last_item_id < usize::MAX,
            action is CreateStory ==> old(self).db.last_item_id < usize::MAX,
        ensures
            final(self).wf(),
            final(self).prompts == old(self).prompts,
            action_applied(*old(self), *final(self), action, r),
    {
        match action {
            Action::NavigateToEpicDetail { epic_id } => {
                self.pages.push(Page::EpicDetail(EpicDetail { epic_id }));
                Ok(())
            },
            Action::NavigateToStoryDetail { epic_id, story_id } => {
                self.pages.push(Page::StoryDetail(StoryDetail { epic_id, story_id }));
                Ok(())
            },
            Action::NavigateToPreviousPage => {
                self.pages.pop();
                Ok(())
            },
            Action::GetEpicName { epic_id } => {
                if self.db.epics.contains_key(&epic_id) {
                    Ok(())
                } else {
                    Err(DbError::NotFound)
                }
            },
            Action::GetEpicDescription { epic_id } => {
                if self.db.epics.contains_key(&epic_id) {
                    Ok(())
                } else {
                    Err(DbError::NotFound)
                }
            },
            Action::GetStoryName { story_id } => {
                if self.db.stories.contains_key(&story_id) {
                    Ok(())
                } else {
                    Err(DbError::NotFound)
                }
            },
            Action::GetStoryDescription { story_id } => {
                if self.db.stories.contains_key(&story_id) {
                    Ok(())
                } else {
                    Err(DbError::NotFound)
                }
            },
            Action::CreateEpic => {
                let new_epic = self.prompts.create_epic.clone();
                let _id = self.db.create_epic(new_epic);
                Ok(())
            },
            Action::CloseEpic { epic_id } => {
                if self.prompts.close_epic {
                    self.db.close_epic(epic_id)
                } else {
                    Ok(())
                }
            },
            Action::ReopenEpic { epic_id } => {
                if self.prompts.reopen_epic {
                    self.db.update_epic_status(epic_id)
                } else {
                    Ok(())
                }
            },
            Action::DeleteEpic { epic_id } => {
                if self.prompts.delete_epic {
                    match self.db.delete_epic(epic_id) {
                        Ok(()) => {
                            self.pages.pop();
                            Ok(())
                        },
                        Err(e) => Err(e),
                    }
                } else {
                    Ok(())
                }
            },
            Action::CreateStory { epic_id } => {
                let new_story = self.prompts.create_story.clone();
                match self.db.create_story(new_story, epic_id) {
                    Ok(_) => Ok(()),
                    Err(e) => Err(e),
                }
            },
            Action::UpdateStoryStatus { epic_id, story_id } => {
                let owner_closed: bool;
                match self.db.epics.get(&epic_id) {
                    None => {
                        return Err(DbError::NotFound);
                    },
                    Some(epic) => {
                        owner_closed = matches!(epic.status, Status::Closed);
                    },
                }
                if owner_closed {
                    Ok(())
                } else {
                    self.db.update_story_status(story_id, self.prompts.update_status)
                }
            },
            Action::DeleteStory { epic_id, story_id } => {
                if self.prompts.delete_story {
                    match self.db.delete_story(epic_id, story_id) {
                        Ok(()) => {
                            self.pages.pop();
                            Ok(())
                        },
                        Err(e) => Err(e),
                    }
                } else {
                    Ok(())
                }
            },
            Action::Exit => {
                self.pages.clear();
                Ok(())
            },
        }
    }
}

} // verus!
