//! The authoritative task registry, its derived filtered view, and the
//! cursor state of the table that shows it.
//!
//! The registry is insertion-ordered and unique by task id.  An upsert
//! patches the volatile fields of the entry with the update's id, or
//! appends the update as a new entry.  The same patch is applied to the
//! filtered view when a task with that id is visible there; an update for
//! a task outside the current filter never injects a new row into the
//! view.

use vstd::prelude::*;

use crate::filter::{task_matches, task_matches_selector};
use crate::status::FULL_PROGRESS;
use crate::task::{patch_model, task_model_wf, DownloadTask, TaskModel};

verus! {

/// Models of the tasks a vector holds.
pub open spec fn models_of(v: Seq<DownloadTask>) -> Seq<TaskModel> {
    v.map_values(|t: DownloadTask| t@)
}

/// No two tasks carry the same id.
pub open spec fn unique_ids(ts: Seq<TaskModel>) -> bool {
    forall|i: int, j: int| 0 <= i < j < ts.len() ==> ts[i].id != ts[j].id
}

/// Every task is well formed.
pub open spec fn all_tasks_wf(ts: Seq<TaskModel>) -> bool {
    forall|i: int| 0 <= i < ts.len() ==> task_model_wf(#[trigger] ts[i])
}

/// Every task of `f` appears in `d` with identical field values.
pub open spec fn view_subset(f: Seq<TaskModel>, d: Seq<TaskModel>) -> bool {
    forall|i: int| 0 <= i < f.len() ==> d.contains(#[trigger] f[i])
}

/// Some task of `ts` carries `id`.
pub open spec fn has_id(ts: Seq<TaskModel>, id: u64) -> bool {
    exists|i: int| 0 <= i < ts.len() && ts[i].id == id
}

/// Patch the volatile fields of every task that carries the update's id
/// (of the one task, when ids are unique); leave the rest untouched.
pub open spec fn patch_by_id(ts: Seq<TaskModel>, u: TaskModel) -> Seq<TaskModel> {
    ts.map_values(
        |t: TaskModel|
            if t.id == u.id {
                patch_model(t, u)
            } else {
                t
            },
    )
}

/// One upsert: patch the entry with the update's id, or append the update
/// at the end, keeping insertion order.
pub open spec fn upsert_models(ts: Seq<TaskModel>, u: TaskModel) -> Seq<TaskModel> {
    if has_id(ts, u.id) {
        patch_by_id(ts, u)
    } else {
        ts.push(u)
    }
}

/// The tasks of `d` that pass the selector, in registry order.
pub open spec fn spec_filtered(d: Seq<TaskModel>, sel: Seq<Seq<u8>>) -> Seq<TaskModel> {
    d.filter(|t: TaskModel| task_matches_selector(t, sel))
}

/// Scroll position of a row: three lines per row, saturating at the top
/// of the address space.
pub open spec fn spec_scroll_pos(i: int) -> int {
    if i <= (usize::MAX as int) / 3 {
        3 * i
    } else {
        usize::MAX as int
    }
}

/// Index selected after a step forward: wraps to the first row past the
/// end; an empty table or no selection selects the first row.
pub open spec fn spec_next_index(sel: Option<usize>, len: int) -> int {
    match sel {
        Option::None => 0,
        Option::Some(i) => if len == 0 {
            0
        } else if i >= len - 1 {
            0
        } else {
            i + 1
        },
    }
}

/// Index selected after a step backward: wraps to the last row before the
/// start; an empty table or no selection selects the first row.
pub open spec fn spec_previous_index(sel: Option<usize>, len: int) -> int {
    match sel {
        Option::None => 0,
        Option::Some(i) => if len == 0 {
            0
        } else if i == 0 {
            len - 1
        } else {
            i - 1
        },
    }
}

/// Cursor and scroll state of the table that shows the filtered view.
pub struct DownloadManagerUIState {
    /// The materialized filtered view of the registry.
    pub filtered_downloads: Vec<DownloadTask>,
    /// The selected row, if any.
    pub selected: Option<usize>,
    /// Scroll position, three lines per row.
    pub scroll_offset: usize,
    /// Scrollable content length the view was last sized for.
    pub scroll_content_length: usize,
}

/// The authoritative registry of one download queue plus its view state.
/// Mutate the registry through [`DownloadManager::update_download`] and
/// [`DownloadManager::filter_downloads_by_category`]: they keep
/// [`DownloadManager::wf`].
pub struct DownloadManager {
    pub downloads: Vec<DownloadTask>,
    pub state: DownloadManagerUIState,
}

impl DownloadManager {
    /// Models of the authoritative registry entries, in insertion order.
    pub open spec fn downloads_view(&self) -> Seq<TaskModel> {
        models_of(self.downloads@)
    }

    /// Models of the filtered view entries, in registry order.
    pub open spec fn filtered_view(&self) -> Seq<TaskModel> {
        models_of(self.state.filtered_downloads@)
    }

    /// Registry invariant: ids unique, every task well formed, and the
    /// filtered view a value-identical subset of the registry.
    pub open spec fn wf(&self) -> bool {
        &&& unique_ids(self.downloads_view())
        &&& all_tasks_wf(self.downloads_view())
        &&& unique_ids(self.filtered_view())
        &&& view_subset(self.filtered_view(), self.downloads_view())
    }

    /// An empty registry with an empty view and the cursor at the origin.
    pub fn new() -> (m: DownloadManager)
        ensures
            m.wf(),
            m.downloads_view() == Seq::<TaskModel>::empty(),
            m.filtered_view() == Seq::<TaskModel>::empty(),
            m.state.selected is None,
            m.state.scroll_offset == 0,
            m.state.scroll_content_length == 0,
    {
        let m = DownloadManager {
            downloads: Vec::new(),
            state: DownloadManagerUIState {
                filtered_downloads: Vec::new(),
                selected: None,
                scroll_offset: 0,
                scroll_content_length: 0,
            },
        };
        proof {
            assert(m.downloads_view() =~= Seq::<TaskModel>::empty());
            assert(m.filtered_view() =~= Seq::<TaskModel>::empty());
        }
        m
    }

    /// The filtered view the presentation layer reads.
    pub fn filtered_downloads(&self) -> (r: &Vec<DownloadTask>)
        ensures
            models_of(r@) == self.filtered_view(),
    {
        &self.state.filtered_downloads
    }

    /// The registry entries themselves, in insertion order.
    pub fn downloads(&self) -> (r: &Vec<DownloadTask>)
        ensures
            models_of(r@) == self.downloads_view(),
    {
        &self.downloads
    }


    /// Restore a registry from loaded tasks: the filtered view starts as
    /// the whole registry and the cursor at the origin, sized for the
    /// loaded row count.
    pub fn from_loaded_tasks(tasks: Vec<DownloadTask>) -> (m: DownloadManager)
        requires
            unique_ids(models_of(tasks@)),
            all_tasks_wf(models_of(tasks@)),
        ensures
            m.wf(),
            m.downloads_view() == models_of(tasks@),
            m.filtered_view() == models_of(tasks@),
            m.state.selected is None,
            m.state.scroll_offset == 0,
            m.state.scroll_content_length == (if tasks@.len() == 0 {
                0int
            } else {
                spec_scroll_pos(tasks@.len() - 1)
            }),
    {
        let n = tasks.len();
        let mut copy: Vec<DownloadTask> = Vec::new();
        let mut i: usize = 0;
        proof {
            assert(models_of(copy@) =~= models_of(tasks@).take(0));
        }
        while i < n
            invariant
                n == tasks@.len(),
                i <= n,
                models_of(copy@) == models_of(tasks@).take(i as int),
                copy@.len() == i,
            decreases n - i,
        {
            copy.push(tasks[i].clone());
            proof {
                assert(models_of(copy@) =~= models_of(tasks@).take(i + 1));
            }
            i += 1;
        }
        proof {
            assert(models_of(tasks@).take(n as int) =~= models_of(tasks@));
        }
        let content: usize = if n == 0 {
            0
        } else {
            scroll_pos(n - 1)
        };
        let m = DownloadManager {
            downloads: tasks,
            state: DownloadManagerUIState {
                filtered_downloads: copy,
                selected: None,
                scroll_offset: 0,
                scroll_content_length: content,
            },
        };
        proof {
            assert forall|k: int|
                0 <= k < m.filtered_view().len() implies m.downloads_view().contains(
                #[trigger] m.filtered_view()[k],
            ) by {
                assert(m.downloads_view()[k] == m.filtered_view()[k]);
            }
        }
        m
    }

    /// Apply one progress update: patch the registry entry with this id in
    /// place, or append the task; patch the filtered view only where a row
    /// with this id is already visible.  The cursor does not move.
    pub fn update_download(&mut self, task: DownloadTask)
        requires
            old(self).wf(),
            task_model_wf(task@),
        ensures
            final(self).wf(),
            final(self).downloads_view() == upsert_models(old(self).downloads_view(), task@),
            final(self).filtered_view() == patch_by_id(old(self).filtered_view(), task@),
            final(self).state.selected == old(self).state.selected,
            final(self).state.scroll_offset == old(self).state.scroll_offset,
            final(self).state.scroll_content_length == old(self).state.scroll_content_length,
    {
        let tid = task.id();
        let ghost d0 = self.downloads_view();
        let ghost f0 = self.filtered_view();
        // Registry: find the entry with this id.
        let n = self.downloads.len();
        let mut idx: Option<usize> = None;
        let mut i: usize = 0;
        while i < n && idx.is_none()
            invariant
                n == self.downloads@.len(),
                i <= n,
                d0 == self.downloads_view(),
                match idx {
                    Some(j) => j == i && i < n && d0[j as int].id == tid,
                    None => forall|j: int| 0 <= j < i ==> d0[j].id != tid,
                },
            decreases (if idx is None {
                1int
            } else {
                0int
            }), n - i,
        {
            if self.downloads[i].id() == tid {
                idx = Some(i);
            } else {
                i += 1;
            }
        }
        match idx {
            Some(j) => {
                self.downloads[j].update(&task);
                proof {
                    assert forall|k: int| 0 <= k < d0.len() && k != j implies d0[k].id != tid by {
                        assert(unique_ids(d0));
                    }
                    assert(self.downloads@.len() == d0.len());
                    assert(self.downloads_view() =~= patch_by_id(d0, task@));
                    assert(has_id(d0, task@.id)) by {
                        assert(d0[j as int].id == tid);
                    }
                }
            },
            None => {
                self.downloads.push(task.clone());
                proof {
                    assert(!has_id(d0, task@.id));
                    assert(self.downloads_view() =~= d0.push(task@));
                }
            },
        }
        let ghost d1 = self.downloads_view();
        // Filtered view: patch in place only when the id is visible.
        let m = self.state.filtered_downloads.len();
        let mut fidx: Option<usize> = None;
        let mut i: usize = 0;
        while i < m && fidx.is_none()
            invariant
                m == self.state.filtered_downloads@.len(),
                i <= m,
                f0 == self.filtered_view(),
                d1 == self.downloads_view(),
                match fidx {
                    Some(j) => j == i && i < m && f0[j as int].id == tid,
                    None => forall|j: int| 0 <= j < i ==> f0[j].id != tid,
                },
            decreases (if fidx is None {
                1int
            } else {
                0int
            }), m - i,
        {
            if self.state.filtered_downloads[i].id() == tid {
                fidx = Some(i);
            } else {
                i += 1;
            }
        }
        match fidx {
            Some(j) => {
                self.state.filtered_downloads[j].update(&task);
                proof {
                    assert forall|k: int| 0 <= k < f0.len() && k != j implies f0[k].id != tid by {
                        assert(unique_ids(f0));
                    }
                    assert(self.filtered_view() =~= patch_by_id(f0, task@));
                }
            },
            None => {
                proof {
                    assert(!has_id(f0, tid));
                    assert(forall|k: int| 0 <= k < f0.len() ==> f0[k].id != tid);
                    assert(self.filtered_view() =~= patch_by_id(f0, task@));
                }
            },
        }
        proof {
            lemma_upsert_wf(d0, f0, task@);
        }
    }

    /// Move the selection one row down, wrapping at the end, and scroll to
    /// it.  The registry and the view are untouched.
    pub fn next_row(&mut self)
        ensures
            final(self).downloads_view() == old(self).downloads_view(),
            final(self).filtered_view() == old(self).filtered_view(),
            final(self).state.selected == Some(
                spec_next_index(
                    old(self).state.selected,
                    old(self).filtered_view().len() as int,
                ) as usize,
            ),
            final(self).state.scroll_offset == spec_scroll_pos(
                spec_next_index(old(self).state.selected, old(self).filtered_view().len() as int),
            ),
            final(self).state.scroll_content_length == old(self).state.scroll_content_length,
            old(self).wf() ==> final(self).wf(),
    {
        let len = self.state.filtered_downloads.len();
        let i: usize = match self.state.selected {
            Some(i) => if len == 0 {
                0
            } else if i >= len - 1 {
                0
            } else {
                i + 1
            },
            None => 0,
        };
        self.state.selected = Some(i);
        self.state.scroll_offset = scroll_pos(i);
    }

    /// Move the selection one row up, wrapping at the start, and scroll to
    /// it.  The registry and the view are untouched.
    pub fn previous_row(&mut self)
        ensures
            final(self).downloads_view() == old(self).downloads_view(),
            final(self).filtered_view() == old(self).filtered_view(),
            final(self).state.selected == Some(
                spec_previous_index(
                    old(self).state.selected,
                    old(self).filtered_view().len() as int,
                ) as usize,
            ),
            final(self).state.scroll_offset == spec_scroll_pos(
                spec_previous_index(
                    old(self).state.selected,
                    old(self).filtered_view().len() as int,
                ),
            ),
            final(self).state.scroll_content_length == old(self).state.scroll_content_length,
            old(self).wf() ==> final(self).wf(),
    {
        let len = self.state.filtered_downloads.len();
        let i: usize = match self.state.selected {
            Some(i) => if len == 0 {
                0
            } else if i == 0 {
                len - 1
            } else {
                i - 1
            },
            None => 0,
        };
        self.state.selected = Some(i);
        self.state.scroll_offset = scroll_pos(i);
    }

    /// Recompute the filtered view for a selector: a full pass over the
    /// authoritative registry.  A selector of one label filters by status
    /// group; one of two labels also filters by extension group; any other
    /// shape is a no-op.  After a recomputation the cursor is clamped to
    /// the new row count, and an empty result resets it to the origin.
    pub fn filter_downloads_by_category(&mut self, selector: &Vec<Vec<u8>>)
        requires
            old(self).wf(),
        ensures
            final(self).wf(),
            final(self).downloads_view() == old(self).downloads_view(),
            selector@.len() == 1 || selector@.len() == 2 ==> {
                let f = spec_filtered(old(self).downloads_view(), selector.deep_view());
                &&& final(self).filtered_view() == f
                &&& (f.len() == 0 ==> final(self).state.selected is None
                    && final(self).state.scroll_offset == 0
                    && final(self).state.scroll_content_length == 0)
                &&& (f.len() > 0 ==> {
                    &&& final(self).state.selected == match old(self).state.selected {
                        Option::Some(i) => Some(
                            (if i < f.len() {
                                i as int
                            } else {
                                f.len() - 1
                            }) as usize,
                        ),
                        Option::None => None,
                    }
                    &&& final(self).state.scroll_offset == 0
                    &&& final(self).state.scroll_content_length == spec_scroll_pos(f.len() - 1)
                })
            },
            !(selector@.len() == 1 || selector@.len() == 2) ==> {
                &&& final(self).filtered_view() == old(self).filtered_view()
                &&& final(self).state.selected == old(self).state.selected
                &&& final(self).state.scroll_offset == old(self).state.scroll_offset
                &&& final(self).state.scroll_content_length == old(
                    self,
                ).state.scroll_content_length
            },
    {
        if !(selector.len() == 1 || selector.len() == 2) {
            return ;
        }
        let ghost d = self.downloads_view();
        let ghost sel = selector.deep_view();
        let ghost pred = |t: TaskModel| task_matches_selector(t, sel);
        let n = self.downloads.len();
        let mut out: Vec<DownloadTask> = Vec::new();
        let mut i: usize = 0;
        proof {
            reveal(Seq::filter);
            assert(d.take(0) =~= Seq::<TaskModel>::empty());
            assert(models_of(out@) =~= d.take(0).filter(pred));
        }
        while i < n
            invariant
                n == self.downloads@.len(),
                i <= n,
                d == self.downloads_view(),
                sel == selector.deep_view(),
                sel.len() == 1 || sel.len() == 2,
                selector@.len() == sel.len(),
                pred == (|t: TaskModel| task_matches_selector(t, sel)),
                unique_ids(d),
                all_tasks_wf(d),
                models_of(out@) == d.take(i as int).filter(pred),
                forall|k: int|
                    0 <= k < out@.len() ==> exists|j: int|
                        0 <= j < i && d[j] == #[trigger] models_of(out@)[k],
                unique_ids(models_of(out@)),
            decreases n - i,
        {
            let ghost out0 = models_of(out@);
            let keep = task_matches(&self.downloads[i], selector);
            proof {
                assert(d[i as int] == self.downloads@[i as int]@);
                reveal(Seq::filter);
                assert(d.take(i + 1).drop_last() =~= d.take(i as int));
                assert(d.take(i + 1).last() == d[i as int]);
            }
            if keep {
                let t = self.downloads[i].clone();
                out.push(t);
                proof {
                    assert(models_of(out@) =~= out0.push(d[i as int]));
                    assert forall|k: int| 0 <= k < out@.len() implies exists|j: int|
                        0 <= j < i + 1 && d[j] == #[trigger] models_of(out@)[k] by {
                        if k < out@.len() - 1 {
                            assert(models_of(out@)[k] == out0[k]);
                        } else {
                            assert(models_of(out@)[k] == d[i as int]);
                        }
                    }
                    assert(unique_ids(models_of(out@))) by {
                        assert forall|a: int, b: int|
                            0 <= a < b < models_of(out@).len() implies models_of(out@)[a].id
                            != models_of(out@)[b].id by {
                            if b == models_of(out@).len() - 1 {
                                let j = choose|j: int| 0 <= j < i && d[j] == out0[a];
                                assert(d[j].id != d[i as int].id);
                            }
                        }
                    }
                }
            }
            i += 1;
        }
        proof {
            assert(d.take(n as int) =~= d);
            assert forall|k: int| 0 <= k < models_of(out@).len() implies d.contains(
                models_of(out@)[k],
            ) by {
                let j = choose|j: int| 0 <= j < n && d[j] == models_of(out@)[k];
                assert(0 <= j < d.len() && d[j] == models_of(out@)[k]);
            }
        }
        let m = out.len();
        let new_selected: Option<usize> = if m == 0 {
            None
        } else {
            match self.state.selected {
                Some(i) => Some(
                    if i < m {
                        i
                    } else {
                        m - 1
                    },
                ),
                None => None,
            }
        };
        let content: usize = if m == 0 {
            0
        } else {
            scroll_pos(m - 1)
        };
        self.state = DownloadManagerUIState {
            filtered_downloads: out,
            selected: new_selected,
            scroll_offset: 0,
            scroll_content_length: content,
        };
    }

    /// Mean progress over the registry, in hundredths of a percent; zero
    /// for an empty registry.
    pub fn average_progress(&self) -> (r: u32)
        requires
            self.wf(),
        ensures
            self.downloads_view().len() == 0 ==> r == 0,
            self.downloads_view().len() > 0 ==> r == sum_progress(self.downloads_view()) / (
            self.downloads_view().len() as int),
            r <= FULL_PROGRESS,
    {
        let ghost d = self.downloads_view();
        let n = self.downloads.len();
        if n == 0 {
            return 0;
        }
        let mut acc: u128 = 0;
        let mut i: usize = 0;
        proof {
            assert(d.take(0) =~= Seq::<TaskModel>::empty());
        }
        while i < n
            invariant
                n == self.downloads@.len(),
                i <= n,
                d == self.downloads_view(),
                all_tasks_wf(d),
                acc == sum_progress(d.take(i as int)),
                acc <= (FULL_PROGRESS as int) * (i as int),
            decreases n - i,
        {
            proof {
                assert(d.take(i + 1).drop_last() =~= d.take(i as int));
                assert(d.take(i + 1).last() == d[i as int]);
                assert(d[i as int] == self.downloads@[i as int]@);
                assert(task_model_wf(d[i as int]));
                assert((FULL_PROGRESS as int) * (i as int) + FULL_PROGRESS == (FULL_PROGRESS as int)
                    * (i as int + 1)) by (nonlinear_arith);
                assert((FULL_PROGRESS as int) * (i as int + 1) <= (FULL_PROGRESS as int) * (
                usize::MAX as int)) by (nonlinear_arith)
                    requires
                        0 <= i as int + 1 <= usize::MAX as int,
                ;
            }
            acc = acc + (self.downloads[i].progress_percent as u128);
            i += 1;
        }
        proof {
            assert(d.take(n as int) =~= d);
            lemma_sum_progress_nonneg(d);
            assert((acc as int) / (n as int) <= FULL_PROGRESS) by (nonlinear_arith)
                requires
                    0 <= acc as int <= (FULL_PROGRESS as int) * (n as int),
                    n > 0,
            ;
        }
        let avg = acc / (n as u128);
        avg as u32
    }
}

/// Scroll position of a row in lines, three per row.
fn scroll_pos(i: usize) -> (r: usize)
    ensures
        r == spec_scroll_pos(i as int),
{
    if i <= usize::MAX / 3 {
        proof {
            assert(3 * (i as int) <= usize::MAX) by (nonlinear_arith)
                requires
                    0 <= i as int <= (usize::MAX as int) / 3,
            ;
        }
        i * 3
    } else {
        usize::MAX
    }
}

/// Total progress over a sequence of tasks.
pub open spec fn sum_progress(ts: Seq<TaskModel>) -> int
    decreases ts.len(),
{
    if ts.len() == 0 {
        0
    } else {
        sum_progress(ts.drop_last()) + ts.last().progress_percent
    }
}

proof fn lemma_sum_progress_nonneg(ts: Seq<TaskModel>)
    ensures
        sum_progress(ts) >= 0,
    decreases ts.len(),
{
    if ts.len() > 0 {
        lemma_sum_progress_nonneg(ts.drop_last());
    }
}

/// An upsert keeps the registry invariant: ids stay unique, tasks stay
/// well formed, and the patched view stays a value-identical subset.
pub proof fn lemma_upsert_wf(d: Seq<TaskModel>, f: Seq<TaskModel>, u: TaskModel)
    requires
        unique_ids(d),
        all_tasks_wf(d),
        unique_ids(f),
        view_subset(f, d),
        task_model_wf(u),
    ensures
        unique_ids(upsert_models(d, u)),
        all_tasks_wf(upsert_models(d, u)),
        unique_ids(patch_by_id(f, u)),
        view_subset(patch_by_id(f, u), upsert_models(d, u)),
{
    let d1 = upsert_models(d, u);
    let f1 = patch_by_id(f, u);
    if has_id(d, u.id) {
        assert(d1 == patch_by_id(d, u));
        assert(d1.len() == d.len());
        assert(forall|k: int| 0 <= k < d.len() ==> #[trigger] d1[k].id == d[k].id);
        assert(forall|k: int| 0 <= k < f.len() ==> #[trigger] f1[k].id == f[k].id);
        assert forall|k: int| 0 <= k < f1.len() implies d1.contains(f1[k]) by {
            assert(0 <= k < f.len());
            assert(d.contains(f[k]));
            let j = choose|j: int| 0 <= j < d.len() && d[j] == f[k];
            assert(0 <= j < d1.len() && d1[j] == f1[k]);
        }
        assert(view_subset(f1, d1));
    } else {
        assert(d1 == d.push(u));
        assert(forall|k: int| 0 <= k < d.len() ==> #[trigger] d1[k] == d[k]);
        assert(d1[d.len() as int] == u);
        // A task visible in the view carries an id of the registry, so it
        // cannot carry the update's id here.
        assert forall|k: int| 0 <= k < f1.len() implies d1.contains(f1[k]) by {
            assert(0 <= k < f.len());
            assert(d.contains(f[k]));
            let j = choose|j: int| 0 <= j < d.len() && d[j] == f[k];
            assert(d[j].id != u.id);
            assert(f1[k] == f[k]);
            assert(0 <= j < d1.len() && d1[j] == f1[k]);
        }
        assert(forall|k: int| 0 <= k < f.len() ==> #[trigger] f1[k] == f[k]);
        assert(f1 =~= f);
        assert(view_subset(f1, d1));
    }
}


/// The filter engine never invents rows: for every registry state and
/// every selector, each task of the recomputed view appears in the
/// registry with identical field values.
pub proof fn lemma_filtered_is_subset(d: Seq<TaskModel>, sel: Seq<Seq<u8>>)
    ensures
        forall|i: int|
            0 <= i < spec_filtered(d, sel).len() ==> d.contains(#[trigger] spec_filtered(d, sel)[i]),
    decreases d.len(),
{
    reveal(Seq::filter);
    let pred = |t: TaskModel| task_matches_selector(t, sel);
    let out = spec_filtered(d, sel);
    if d.len() == 0 {
        assert(out.len() == 0);
    } else {
        lemma_filtered_is_subset(d.drop_last(), sel);
        let sub = spec_filtered(d.drop_last(), sel);
        assert forall|i: int| 0 <= i < out.len() implies d.contains(#[trigger] out[i]) by {
            if i < sub.len() {
                assert(out[i] == sub[i]);
                assert(d.drop_last().contains(sub[i]));
                let j = choose|j: int|
                    0 <= j < d.drop_last().len() && d.drop_last()[j] == sub[i];
                assert(d[j] == out[i]);
            } else {
                assert(out[i] == d.last());
                assert(d[d.len() - 1] == out[i]);
            }
        }
    }
}

/// The triple of download queues the application manages.
pub struct Downloader {
    pub single: DownloadManager,
    pub batch: DownloadManager,
    pub playlist: DownloadManager,
}

impl Downloader {
    /// All three queues hold their registry invariant.
    pub open spec fn wf(&self) -> bool {
        self.single.wf() && self.batch.wf() && self.playlist.wf()
    }

    /// Three empty queues.
    pub fn new() -> (r: Downloader)
        ensures
            r.wf(),
            r.single.downloads_view().len() == 0,
            r.batch.downloads_view().len() == 0,
            r.playlist.downloads_view().len() == 0,
            r.single.filtered_view().len() == 0,
            r.batch.filtered_view().len() == 0,
            r.playlist.filtered_view().len() == 0,
    {
        Downloader {
            single: DownloadManager::new(),
            batch: DownloadManager::new(),
            playlist: DownloadManager::new(),
        }
    }
}


// --- Laws of the registry ----------------------------------------------

/// Applying the same update twice leaves the registry exactly as applying
/// it once: the upsert is idempotent, for every task id and field value.
pub proof fn lemma_upsert_idempotent(ts: Seq<TaskModel>, u: TaskModel)
    requires
        unique_ids(ts),
    ensures
        upsert_models(upsert_models(ts, u), u) == upsert_models(ts, u),
{
    let once = upsert_models(ts, u);
    if has_id(ts, u.id) {
        assert(once == patch_by_id(ts, u));
        let i = choose|i: int| 0 <= i < ts.len() && ts[i].id == u.id;
        assert(once[i].id == u.id);
        assert(has_id(once, u.id));
        assert(upsert_models(once, u) == patch_by_id(once, u));
        assert(patch_by_id(once, u) =~= once) by {
            assert(forall|k: int|
                0 <= k < ts.len() ==> #[trigger] patch_by_id(once, u)[k] == once[k]);
        }
    } else {
        assert(once == ts.push(u));
        assert(once[ts.len() as int] == u);
        assert(has_id(once, u.id));
        assert(upsert_models(once, u) == patch_by_id(once, u));
        assert(patch_by_id(once, u) =~= once) by {
            assert forall|k: int| 0 <= k < once.len() implies #[trigger] patch_by_id(once, u)[k]
                == once[k] by {
                if k < ts.len() {
                    assert(once[k] == ts[k]);
                    assert(ts[k].id != u.id) by {
                        assert(!has_id(ts, u.id));
                    }
                } else {
                    assert(once[k] == u);
                }
            }
        }
    }
}

/// One upsert keeps ids unique.
pub proof fn lemma_upsert_preserves_unique(ts: Seq<TaskModel>, u: TaskModel)
    requires
        unique_ids(ts),
    ensures
        unique_ids(upsert_models(ts, u)),
{
    if has_id(ts, u.id) {
        assert(forall|k: int|
            0 <= k < ts.len() ==> #[trigger] upsert_models(ts, u)[k].id == ts[k].id);
    } else {
        assert(forall|k: int| 0 <= k < ts.len() ==> #[trigger] upsert_models(ts, u)[k] == ts[k]);
        assert(upsert_models(ts, u)[ts.len() as int] == u);
    }
}

/// The registry after a whole sequence of upserts, applied in order.
pub open spec fn apply_upserts(ts: Seq<TaskModel>, us: Seq<TaskModel>) -> Seq<TaskModel>
    decreases us.len(),
{
    if us.len() == 0 {
        ts
    } else {
        apply_upserts(upsert_models(ts, us[0]), us.drop_first())
    }
}

/// For every sequence of upserts, the registry never holds two entries
/// with the same id.
pub proof fn lemma_upserts_keep_ids_unique(ts: Seq<TaskModel>, us: Seq<TaskModel>)
    requires
        unique_ids(ts),
    ensures
        unique_ids(apply_upserts(ts, us)),
    decreases us.len(),
{
    if us.len() > 0 {
        lemma_upsert_preserves_unique(ts, us[0]);
        lemma_upserts_keep_ids_unique(upsert_models(ts, us[0]), us.drop_first());
    }
}

/// The view subset invariant: in every well-formed manager state, each
/// task of the filtered view appears in the authoritative registry with
/// identical field values.
pub proof fn lemma_view_subset_invariant(m: &DownloadManager)
    requires
        m.wf(),
    ensures
        forall|i: int|
            0 <= i < m.filtered_view().len() ==> m.downloads_view().contains(
                #[trigger] m.filtered_view()[i],
            ),
{
}
} // verus!
