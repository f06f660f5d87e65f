//! One run, planned: from the configuration and the outcome of every fetch
//! to the commands to start and the lines to print, in order.

use vstd::prelude::*;
use crate::config::{Config, ConfigView};
use crate::feed::{items_view, results_view, FeedItem, FetchResult, FetchView, ItemView};
use crate::filter::{
    date_verdict,
    keyword_verdict,
    passes_date_filter,
    passes_keyword_filter,
    FilterError,
};
use crate::pubdate::{pub_date_of, PubDate};
use crate::template::{build_args, rendered_args};

verus! {

/// One thing for the caller to do.
#[derive(Clone, Debug, PartialEq, Eq)]
pub enum Action {
    /// Start `cmd` with `args`, wait for it, and pass on what it printed.
    Run { cmd: String, args: Vec<String> },
    /// Print `line`.
    Report { line: String },
}

/// The mathematical content of an [`Action`].
pub enum ActionView {
    Run { cmd: Seq<char>, args: Seq<Seq<char>> },
    Report { line: Seq<char> },
}

impl View for Action {
    type V = ActionView;

    open spec fn view(&self) -> ActionView {
        match self {
            Action::Run { cmd, args } => ActionView::Run { cmd: cmd@, args: args.deep_view() },
            Action::Report { line } => ActionView::Report { line: line@ },
        }
    }
}

/// The views of the actions `actions`, in order.
pub open spec fn actions_view(actions: Seq<Action>) -> Seq<ActionView> {
    Seq::new(actions.len(), |i: int| actions[i]@)
}

/// What to do in one run: the actions, in order, and the error that ends the
/// run once they are done, if there is one.
#[derive(Clone, Debug, PartialEq, Eq)]
pub struct Plan {
    pub actions: Vec<Action>,
    pub failure: Option<FilterError>,
}

/// The mathematical content of a [`Plan`].
pub struct PlanView {
    pub actions: Seq<ActionView>,
    pub failure: Option<FilterError>,
}

impl View for Plan {
    type V = PlanView;

    open spec fn view(&self) -> PlanView {
        PlanView { actions: actions_view(self.actions@), failure: self.failure }
    }
}

/// The plan of `actions` that ends well.
pub open spec fn completed(actions: Seq<ActionView>) -> PlanView {
    PlanView { actions, failure: None }
}

/// `first`, and `second` after it unless `first` failed.
pub open spec fn then(first: PlanView, second: PlanView) -> PlanView {
    if first.failure is Some {
        first
    } else {
        PlanView { actions: first.actions + second.actions, failure: second.failure }
    }
}

/// Whether `item` is selected: the date predicate first, and the keyword
/// predicate only for an item that passed it.
pub open spec fn selects(cfg: ConfigView, item: ItemView) -> Result<bool, FilterError> {
    match date_verdict(pub_date_of(item.pub_date), cfg.timestamp) {
        Err(e) => Err(e),
        Ok(false) => Ok(false),
        Ok(true) => keyword_verdict(item.title, cfg.keywords),
    }
}

/// What a selected item asks for: one start of the configured command, or
/// nothing where no command is configured.
pub open spec fn dispatch(cfg: ConfigView, item: ItemView) -> Seq<ActionView> {
    match cfg.cmd {
        None => Seq::empty(),
        Some(cmd) => seq![ActionView::Run { cmd, args: rendered_args(cfg.args, item) }],
    }
}

/// The plan for one item.
pub open spec fn item_plan(cfg: ConfigView, item: ItemView) -> PlanView {
    match selects(cfg, item) {
        Err(e) => PlanView { actions: Seq::empty(), failure: Some(e) },
        Ok(false) => completed(Seq::empty()),
        Ok(true) => completed(dispatch(cfg, item)),
    }
}

/// The plan for the items of one channel, taken in order.
pub open spec fn items_plan(cfg: ConfigView, items: Seq<ItemView>) -> PlanView
    decreases items.len(),
{
    if items.len() == 0 {
        completed(Seq::empty())
    } else {
        then(items_plan(cfg, items.drop_last()), item_plan(cfg, items.last()))
    }
}

/// The line that reports a feed's failure: `Error: ` and the message.
pub open spec fn error_line(message: Seq<char>) -> Seq<char> {
    seq!['E', 'r', 'r', 'o', 'r', ':', ' '] + message
}

/// The plan for one feed: a failed fetch is reported in one line and gives
/// no item; a channel gives the plan of its items.
pub open spec fn feed_plan(cfg: ConfigView, feed: FetchView) -> PlanView {
    match feed {
        FetchView::Error(message) => completed(
            seq![ActionView::Report { line: error_line(message) }],
        ),
        FetchView::Channel(items) => items_plan(cfg, items),
    }
}

/// The plan for a run: the feeds' plans one after the other, up to the first
/// that fails.
pub open spec fn run_plan(cfg: ConfigView, feeds: Seq<FetchView>) -> PlanView
    decreases feeds.len(),
{
    if feeds.len() == 0 {
        completed(Seq::empty())
    } else {
        then(run_plan(cfg, feeds.drop_last()), feed_plan(cfg, feeds.last()))
    }
}

/// Whether `item` is selected under `config`.
pub fn select(config: &Config, item: &FeedItem) -> (r: Result<bool, FilterError>)
    ensures
        r == selects(config@, item@),
{
    match passes_date_filter(item, config.timestamp) {
        Err(e) => Err(e),
        Ok(false) => Ok(false),
        Ok(true) => passes_keyword_filter(item, &config.keywords),
    }
}

/// The line that reports a feed's failure.
pub fn report_line(message: &str) -> (line: String)
    ensures
        line@ == error_line(message@),
{
    proof {
        reveal_strlit("Error: ");
        assert("Error: "@ =~= seq!['E', 'r', 'r', 'o', 'r', ':', ' ']);
    }
    let mut line = "Error: ".to_owned();
    line.append(message);
    line
}

/// Adds the plan of one item to `actions`, and says whether the run fails
/// at this item.
pub fn plan_item(config: &Config, item: &FeedItem, actions: &mut Vec<Action>) -> (failure: Option<
    FilterError,
>)
    ensures
        (PlanView { actions: actions_view(final(actions)@), failure }) == then(
            completed(actions_view(old(actions)@)),
            item_plan(config@, item@),
        ),
{
    let ghost before = actions_view(actions@);
    match select(config, item) {
        Err(e) => {
            assert(before + Seq::<ActionView>::empty() =~= before);
            Some(e)
        },
        Ok(false) => {
            assert(before + Seq::<ActionView>::empty() =~= before);
            None
        },
        Ok(true) => {
            match &config.cmd {
                None => {
                    assert(before + Seq::<ActionView>::empty() =~= before);
                },
                Some(cmd) => {
                    let args = build_args(&config.args, item);
                    actions.push(Action::Run { cmd: cmd.clone(), args });
                    assert(actions_view(actions@) =~= before + dispatch(config@, item@));
                },
            }
            None
        },
    }
}

/// Adds the plan of a channel's items to `actions`, stopping at the first
/// item at which the run fails.
pub fn plan_items(config: &Config, items: &Vec<FeedItem>, actions: &mut Vec<Action>) -> (failure:
    Option<FilterError>)
    ensures
        (PlanView { actions: actions_view(final(actions)@), failure }) == then(
            completed(actions_view(old(actions)@)),
            items_plan(config@, items_view(items@)),
        ),
{
    let ghost before = actions_view(actions@);
    let ghost all = items_view(items@);
    let mut k: usize = 0;
    assert(all.take(0) =~= Seq::<ItemView>::empty());
    assert(before + Seq::<ActionView>::empty() =~= before);
    while k < items.len()
        invariant
            k <= items.len(),
            all == items_view(items@),
            before == actions_view(old(actions)@),
            completed(actions_view(actions@)) == then(
                completed(before),
                items_plan(config@, all.take(k as int)),
            ),
        decreases items.len() - k,
    {
        let ghost so_far = items_plan(config@, all.take(k as int));
        let failure = plan_item(config, &items[k], actions);
        proof {
            let next = all.take(k + 1);
            assert(next.drop_last() =~= all.take(k as int));
            assert(next.last() == items@[k as int]@);
            assert(items_plan(config@, next) == then(so_far, item_plan(config@, next.last())));
            lemma_then_assoc(completed(before), so_far, item_plan(config@, items@[k as int]@));
        }
        if failure.is_some() {
            proof {
                lemma_items_plan_stops(config@, all, k + 1);
            }
            return failure;
        }
        k += 1;
    }
    assert(all.take(k as int) =~= all);
    None
}

/// Adds the plan of one feed to `actions`, and says whether the run fails
/// within it.
pub fn plan_feed(config: &Config, feed: &FetchResult, actions: &mut Vec<Action>) -> (failure:
    Option<FilterError>)
    ensures
        (PlanView { actions: actions_view(final(actions)@), failure }) == then(
            completed(actions_view(old(actions)@)),
            feed_plan(config@, feed@),
        ),
{
    match feed {
        FetchResult::Error(message) => {
            let ghost before = actions_view(actions@);
            actions.push(Action::Report { line: report_line(message.as_str()) });
            assert(actions_view(actions@) =~= before + seq![
                ActionView::Report { line: error_line(message@) },
            ]);
            None
        },
        FetchResult::Channel(items) => plan_items(config, items, actions),
    }
}

/// Plans a run: what to do, in order, given the configuration and the
/// outcome of fetching each configured feed, in the order of the feeds.
///
/// A feed that failed is reported in one line and the feeds after it are
/// still worked on. An item that cannot be judged ends the plan: the actions
/// planned before it stand, and `failure` says what was wrong with it.
pub fn plan_run(config: &Config, feeds: &Vec<FetchResult>) -> (plan: Plan)
    ensures
        plan@ == run_plan(config@, results_view(feeds@)),
{
    let ghost all = results_view(feeds@);
    let mut actions: Vec<Action> = Vec::new();
    let mut k: usize = 0;
    assert(all.take(0) =~= Seq::<FetchView>::empty());
    assert(actions_view(actions@) =~= Seq::<ActionView>::empty());
    while k < feeds.len()
        invariant
            k <= feeds.len(),
            all == results_view(feeds@),
            completed(actions_view(actions@)) == run_plan(config@, all.take(k as int)),
        decreases feeds.len() - k,
    {
        let failure = plan_feed(config, &feeds[k], &mut actions);
        proof {
            let next = all.take(k + 1);
            assert(next.drop_last() =~= all.take(k as int));
            assert(next.last() == feeds@[k as int]@);
            assert(run_plan(config@, next) == then(
                run_plan(config@, all.take(k as int)),
                feed_plan(config@, next.last()),
            ));
        }
        if failure.is_some() {
            proof {
                lemma_run_plan_stops(config@, all, k + 1);
            }
            return Plan { actions, failure };
        }
        k += 1;
    }
    assert(all.take(k as int) =~= all);
    Plan { actions, failure: None }
}

/// `then` groups either way.
pub proof fn lemma_then_assoc(a: PlanView, b: PlanView, c: PlanView)
    ensures
        then(then(a, b), c) == then(a, then(b, c)),
{
    if a.failure is None && b.failure is None {
        assert((a.actions + b.actions) + c.actions =~= a.actions + (b.actions + c.actions));
    }
}

/// Once the plan of the first `k` items has failed, the items after them
/// change nothing.
pub proof fn lemma_items_plan_stops(cfg: ConfigView, items: Seq<ItemView>, k: int)
    requires
        0 <= k <= items.len(),
        items_plan(cfg, items.take(k)).failure is Some,
    ensures
        items_plan(cfg, items) == items_plan(cfg, items.take(k)),
    decreases items.len(),
{
    if k == items.len() {
        assert(items.take(k) =~= items);
    } else {
        assert(items.drop_last().take(k) =~= items.take(k));
        lemma_items_plan_stops(cfg, items.drop_last(), k);
    }
}

/// Once the plan of the first `k` feeds has failed, the feeds after them
/// change nothing.
pub proof fn lemma_run_plan_stops(cfg: ConfigView, feeds: Seq<FetchView>, k: int)
    requires
        0 <= k <= feeds.len(),
        run_plan(cfg, feeds.take(k)).failure is Some,
    ensures
        run_plan(cfg, feeds) == run_plan(cfg, feeds.take(k)),
    decreases feeds.len(),
{
    if k == feeds.len() {
        assert(feeds.take(k) =~= feeds);
    } else {
        assert(feeds.drop_last().take(k) =~= feeds.take(k));
        lemma_run_plan_stops(cfg, feeds.drop_last(), k);
    }
}

/// The plan of a run is put together feed by feed: the plan for some feeds
/// followed by others is the plan for the first, then the plan for the
/// others. No feed's outcome bears on what another feed's items give.
pub proof fn lemma_run_plan_concat(cfg: ConfigView, first: Seq<FetchView>, rest: Seq<FetchView>)
    ensures
        run_plan(cfg, first + rest) == then(run_plan(cfg, first), run_plan(cfg, rest)),
    decreases rest.len(),
{
    let whole = first + rest;
    if rest.len() == 0 {
        assert(whole =~= first);
        let p = run_plan(cfg, first);
        assert(p.actions + Seq::<ActionView>::empty() =~= p.actions);
    } else {
        assert(whole.drop_last() =~= first + rest.drop_last());
        assert(whole.last() == rest.last());
        lemma_run_plan_concat(cfg, first, rest.drop_last());
        lemma_then_assoc(
            run_plan(cfg, first),
            run_plan(cfg, rest.drop_last()),
            feed_plan(cfg, rest.last()),
        );
    }
}

/// The plan of a channel is put together item by item, in document order:
/// the plan for some items followed by others is the plan for the first,
/// then the plan for the others.
pub proof fn lemma_items_plan_concat(cfg: ConfigView, first: Seq<ItemView>, rest: Seq<ItemView>)
    ensures
        items_plan(cfg, first + rest) == then(items_plan(cfg, first), items_plan(cfg, rest)),
    decreases rest.len(),
{
    let whole = first + rest;
    if rest.len() == 0 {
        assert(whole =~= first);
        let p = items_plan(cfg, first);
        assert(p.actions + Seq::<ActionView>::empty() =~= p.actions);
    } else {
        assert(whole.drop_last() =~= first + rest.drop_last());
        assert(whole.last() == rest.last());
        lemma_items_plan_concat(cfg, first, rest.drop_last());
        lemma_then_assoc(
            items_plan(cfg, first),
            items_plan(cfg, rest.drop_last()),
            item_plan(cfg, rest.last()),
        );
    }
}

/// A feed that could not be fetched or parsed does not end the run: the
/// plan is that of the feeds before it, then the one line that reports the
/// failure, then that of the feeds after it. Where the feeds before it were
/// worked through, the feeds after it give what they would give had the
/// failed feed not been configured.
pub proof fn lemma_failed_feed_is_reported_and_skipped(
    cfg: ConfigView,
    before: Seq<FetchView>,
    message: Seq<char>,
    after: Seq<FetchView>,
)
    ensures
        run_plan(cfg, before + seq![FetchView::Error(message)] + after) == then(
            run_plan(cfg, before),
            then(
                completed(seq![ActionView::Report { line: error_line(message) }]),
                run_plan(cfg, after),
            ),
        ),
        run_plan(cfg, before).failure is None ==> {
            let with_failed = run_plan(cfg, before + seq![FetchView::Error(message)] + after);
            &&& with_failed.actions == run_plan(cfg, before).actions + seq![
                ActionView::Report { line: error_line(message) },
            ] + run_plan(cfg, after).actions
            &&& with_failed.failure == run_plan(cfg, after).failure
            &&& with_failed.failure == run_plan(cfg, before + after).failure
        },
{
    let failed = seq![FetchView::Error(message)];
    let line = seq![ActionView::Report { line: error_line(message) }];
    assert(failed.drop_last() =~= Seq::<FetchView>::empty());
    assert(run_plan(cfg, failed.drop_last()) == completed(Seq::empty()));
    assert(run_plan(cfg, failed) == then(
        completed(Seq::empty()),
        feed_plan(cfg, FetchView::Error(message)),
    ));
    assert(Seq::<ActionView>::empty() + line =~= line);
    assert(run_plan(cfg, failed) == completed(line));
    lemma_run_plan_concat(cfg, before, failed);
    lemma_run_plan_concat(cfg, before + failed, after);
    lemma_run_plan_concat(cfg, before, after);
    lemma_then_assoc(run_plan(cfg, before), completed(line), run_plan(cfg, after));
    if run_plan(cfg, before).failure is None {
        assert(run_plan(cfg, before).actions + (line + run_plan(cfg, after).actions)
            =~= run_plan(cfg, before).actions + line + run_plan(cfg, after).actions);
    }
}

/// The instant at which `item` was published is known and is not after
/// `cutoff`.
pub open spec fn not_after(item: ItemView, cutoff: i64) -> bool {
    pub_date_of(item.pub_date) matches PubDate::At(epoch) && epoch <= cutoff
}

/// The instant at which `item` was published is known and is after
/// `cutoff`.
pub open spec fn after(item: ItemView, cutoff: i64) -> bool {
    pub_date_of(item.pub_date) matches PubDate::At(epoch) && epoch > cutoff
}

/// Where no item of a channel was published after the cutoff, as with a
/// cutoff that lies in the future, the channel gives no action at all.
pub proof fn lemma_nothing_new_gives_no_action(cfg: ConfigView, items: Seq<ItemView>)
    requires
        forall|i: int| 0 <= i < items.len() ==> not_after(#[trigger] items[i], cfg.timestamp),
    ensures
        items_plan(cfg, items) == completed(Seq::empty()),
    decreases items.len(),
{
    if items.len() > 0 {
        let front = items.drop_last();
        assert forall|i: int| 0 <= i < front.len() implies not_after(
            #[trigger] front[i],
            cfg.timestamp,
        ) by {
            assert(front[i] == items[i]);
        }
        lemma_nothing_new_gives_no_action(cfg, front);
        assert(not_after(items[items.len() - 1], cfg.timestamp));
        assert(Seq::<ActionView>::empty() + Seq::<ActionView>::empty() =~= Seq::<
            ActionView,
        >::empty());
    }
}

/// Without keywords and with a command, a channel whose items were all
/// published after the cutoff gives one start of the command for each item,
/// in the order of the items.
pub proof fn lemma_every_new_item_is_dispatched_in_order(
    cfg: ConfigView,
    cmd: Seq<char>,
    items: Seq<ItemView>,
)
    requires
        cfg.keywords is None,
        cfg.cmd == Some(cmd),
        forall|i: int| 0 <= i < items.len() ==> after(#[trigger] items[i], cfg.timestamp),
    ensures
        items_plan(cfg, items) == completed(
            Seq::new(
                items.len(),
                |i: int| ActionView::Run { cmd, args: rendered_args(cfg.args, items[i]) },
            ),
        ),
    decreases items.len(),
{
    let runs = Seq::new(
        items.len(),
        |i: int| ActionView::Run { cmd, args: rendered_args(cfg.args, items[i]) },
    );
    if items.len() == 0 {
        assert(runs =~= Seq::<ActionView>::empty());
    } else {
        let front = items.drop_last();
        assert forall|i: int| 0 <= i < front.len() implies after(
            #[trigger] front[i],
            cfg.timestamp,
        ) by {
            assert(front[i] == items[i]);
        }
        lemma_every_new_item_is_dispatched_in_order(cfg, cmd, front);
        assert(after(items[items.len() - 1], cfg.timestamp));
        let front_runs = Seq::new(
            front.len(),
            |i: int| ActionView::Run { cmd, args: rendered_args(cfg.args, front[i]) },
        );
        assert(front_runs + dispatch(cfg, items.last()) =~= runs);
    }
}

} // verus!
