use vstd::prelude::*;

use crate::feed::{Config, Subscription, SubscriptionView};
use crate::reconcile::{merge_outcomes, reconciled};
use crate::text::same_text;

verus! {

/// Seconds in a day.
pub const DAY_SECONDS: i128 = 86400;

/// The state of the tool across one run: the version running, when it last
/// ran (seconds since the epoch), its settings and its subscriptions.
pub struct State {
    pub version: String,
    pub last_run_time: i64,
    pub config: Config,
    pub subscriptions: Vec<Subscription>,
}

/// Whether some subscription has the title `t`.
pub open spec fn has_title(subs: Seq<SubscriptionView>, t: Seq<char>) -> bool {
    exists|i: int| 0 <= i < subs.len() && (#[trigger] subs[i]).title == t
}

impl State {
    pub open spec fn subs(&self) -> Seq<SubscriptionView> {
        self.subscriptions@.map_values(|s: Subscription| s@)
    }

    /// A fresh state, as on the first run.
    pub fn new(version: &str, config: Config, now: i64) -> (r: State)
        ensures
            r.version@ == version@,
            r.last_run_time == now,
            r.config == config,
            r.subscriptions@.len() == 0,
    {
        State {
            version: String::from_str(version),
            last_run_time: now,
            config,
            subscriptions: Vec::new(),
        }
    }

    /// Whether a whole day has passed between the last run and `now`, so
    /// that subscriptions are due for a refresh.
    pub fn needs_refresh(&self, now: i64) -> (r: bool)
        ensures
            r == (now - self.last_run_time >= DAY_SECONDS),
    {
        (now as i128) - (self.last_run_time as i128) >= DAY_SECONDS
    }

    /// Adds a subscription to the feed titled `title` at `url`, which has
    /// `num_episodes` episodes, unless one with that title exists already.
    pub fn subscribe(&mut self, title: &str, url: &str, num_episodes: usize)
        ensures
            has_title(old(self).subs(), title@) ==> final(self).subs() == old(self).subs(),
            !has_title(old(self).subs(), title@) ==> final(self).subs() == old(self).subs().push(
                SubscriptionView { title: title@, url: url@, num_episodes },
            ),
            final(self).version == old(self).version,
            final(self).last_run_time == old(self).last_run_time,
            final(self).config == old(self).config,
    {
        let mut k: usize = 0;
        while k < self.subscriptions.len()
            invariant
                k <= self.subscriptions@.len(),
                forall|j: int| 0 <= j < k ==> (#[trigger] self.subs()[j]).title != title@,
            decreases self.subscriptions@.len() - k,
        {
            if same_text(self.subscriptions[k].title.as_str(), title) {
                assert(self.subs()[k as int].title == title@);
                return;
            }
            k = k + 1;
        }
        let ghost before = self.subs();
        self.subscriptions.push(
            Subscription {
                title: String::from_str(title),
                url: String::from_str(url),
                num_episodes,
            },
        );
        assert(self.subs() =~= before.push(
            SubscriptionView { title: title@, url: url@, num_episodes },
        ));
    }

    /// Merges the outcomes of the refresh tasks: for each `Ok((index, total))`
    /// the subscription at `index` takes `total` as its episode count, and
    /// those whose refresh failed keep theirs.
    pub fn update_rss(&mut self, outcomes: &Vec<Result<(usize, usize), String>>)
        ensures
            final(self).subs() == reconciled(old(self).subs(), outcomes@),
            final(self).version == old(self).version,
            final(self).last_run_time == old(self).last_run_time,
            final(self).config == old(self).config,
    {
        merge_outcomes(&mut self.subscriptions, outcomes);
    }
}

/// One step of writing the state file.
pub enum FileStep {
    /// Write `bytes` to a new file at `path`.
    Write { path: String, bytes: Vec<u8> },
    /// Rename the file at `from` to `to`, replacing what was there.
    Rename { from: String, to: String },
}

/// What a `FileStep` does, in mathematical terms.
pub enum StepView {
    Write { path: Seq<char>, bytes: Seq<u8> },
    Rename { from: Seq<char>, to: Seq<char> },
}

impl View for FileStep {
    type V = StepView;

    open spec fn view(&self) -> StepView {
        match self {
            FileStep::Write { path, bytes } => StepView::Write { path: path@, bytes: bytes@ },
            FileStep::Rename { from, to } => StepView::Rename { from: from@, to: to@ },
        }
    }
}

/// The file that a state file is written to before it replaces `path`.
pub open spec fn temp_path(path: Seq<char>) -> Seq<char> {
    path + ".tmp"@
}

/// The steps that replace the state file at `path` by `bytes`.
pub open spec fn save_plan(path: Seq<char>, bytes: Seq<u8>) -> Seq<StepView> {
    seq![
        StepView::Write { path: temp_path(path), bytes },
        StepView::Rename { from: temp_path(path), to: path },
    ]
}

/// The files once a step is done.
pub open spec fn apply_step(disk: Map<Seq<char>, Seq<u8>>, step: StepView) -> Map<
    Seq<char>,
    Seq<u8>,
> {
    match step {
        StepView::Write { path, bytes } => disk.insert(path, bytes),
        StepView::Rename { from, to } => if disk.contains_key(from) {
            disk.remove(from).insert(to, disk[from])
        } else {
            disk
        },
    }
}

/// The files once the steps are done in order.
pub open spec fn apply_steps(disk: Map<Seq<char>, Seq<u8>>, steps: Seq<StepView>) -> Map<
    Seq<char>,
    Seq<u8>,
>
    decreases steps.len(),
{
    if steps.len() == 0 {
        disk
    } else {
        apply_step(apply_steps(disk, steps.drop_last()), steps.last())
    }
}

/// The steps that write `bytes` as the new state file at `path`: first to a
/// temporary file beside it, then renamed over it.
pub fn save_steps(path: &str, bytes: Vec<u8>) -> (r: Vec<FileStep>)
    ensures
        r@.map_values(|s: FileStep| s@) == save_plan(path@, bytes@),
{
    let mut temp = String::from_str(path);
    temp.append(".tmp");
    let temp2 = temp.clone();
    let mut steps: Vec<FileStep> = Vec::new();
    steps.push(FileStep::Write { path: temp, bytes });
    steps.push(FileStep::Rename { from: temp2, to: String::from_str(path) });
    assert(steps@.map_values(|s: FileStep| s@) =~= save_plan(path@, bytes@));
    steps
}

/// Saving is atomic: a crash after the temporary file is written but before
/// the rename leaves the state file as it was, byte for byte; once the rename
/// is done the state file holds the new bytes and the temporary file is gone.
pub proof fn lemma_save_atomic(disk: Map<Seq<char>, Seq<u8>>, path: Seq<char>, bytes: Seq<u8>)
    ensures
        apply_steps(disk, save_plan(path, bytes).take(1)).contains_key(path) == disk.contains_key(
            path,
        ),
        disk.contains_key(path) ==> apply_steps(disk, save_plan(path, bytes).take(1))[path]
            == disk[path],
        apply_steps(disk, save_plan(path, bytes)).contains_key(path),
        apply_steps(disk, save_plan(path, bytes))[path] == bytes,
        !apply_steps(disk, save_plan(path, bytes)).contains_key(temp_path(path)),
{
    let plan = save_plan(path, bytes);
    let temp = temp_path(path);
    reveal_strlit(".tmp");
    assert(temp.len() == path.len() + 4);
    assert(temp != path);
    assert(plan.take(1).drop_last() =~= Seq::<StepView>::empty());
    assert(plan.drop_last() =~= plan.take(1));
    let first = apply_steps(disk, plan.take(1));
    assert(apply_steps(disk, plan.take(1).drop_last()) == disk);
    assert(plan.take(1).last() == plan[0]);
    assert(first == disk.insert(temp, bytes));
    assert(plan.last() == plan[1]);
    let done = apply_steps(disk, plan);
    assert(done == first.remove(temp).insert(path, bytes));
}

} // verus!
