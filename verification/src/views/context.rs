//! The session: the tabs in their order, the tab that is active, and the one
//! slot for the failure that is shown.
//!
//! The session decides and the program around it acts. A key, the refresh
//! timer and the arrival of fetched data are the events; what comes back is
//! what to do next: leave, or fetch something and hand it in.

use vstd::prelude::*;
use vstd::string::*;
use crate::failure::{Failure, FailureKind};
use crate::keys::KeyCode;
use crate::models::monitoring::{Member, Sample, ServerVersion};
use crate::models::persistent_subscriptions::SubscriptionInfo;
use crate::models::projections::ProjectionStatus;
use crate::request::{MainTab, Request};
use crate::views::dashboard::DashboardView;
use crate::views::legend::{all_bindings, legend, legend_of, listing, merged, rows_of};
use crate::views::monitoring::MonitoringView;
use crate::views::persistent_subscriptions::PersistentSubscriptionView;
use crate::views::projections::{ProjectionsFetch, ProjectionsViews};
use crate::views::stream_browser::{ResolvedEvent, StreamsView};

verus! {

/// One tab's view.
pub enum TabView {
    Dashboard(DashboardView),
    StreamsBrowser(StreamsView),
    Projections(ProjectionsViews),
    PersistentSubscriptions(PersistentSubscriptionView),
    Monitoring(MonitoringView),
}

/// What the program has to fetch from the store.
pub enum Fetch {
    Nothing,
    /// The flat mapping of statistics.
    ResourceStats,
    /// The newest records of the index of streams and the streams of the
    /// newest events.
    RecentStreams,
    /// The newest events of the stream of this name.
    StreamEvents(String),
    /// The status of all projections.
    ProjectionList,
    /// The query of the projection of this name.
    ProjectionQuery(String),
    /// All persistent subscriptions.
    SubscriptionList,
    /// The version of the server.
    ServerVersion,
    /// A statistics sample and the gossip report.
    ClusterHealth,
}

/// What the program fetched.
pub enum Fetched {
    ResourceStats(Vec<(String, String)>),
    RecentStreams { created: Vec<Vec<u8>>, changed: Vec<String> },
    StreamEvents(Vec<ResolvedEvent>),
    ProjectionList(Vec<ProjectionStatus>),
    ProjectionQuery(String),
    SubscriptionList(Vec<SubscriptionInfo>),
    ServerVersion(Option<ServerVersion>),
    ClusterHealth { stats: Sample, gossip: Vec<Member> },
}

impl TabView {
    /// The view's model is in order.
    pub open spec fn wf(&self) -> bool {
        match self {
            TabView::Dashboard(v) => v.model.wf(),
            TabView::StreamsBrowser(_) => true,
            TabView::Projections(v) => v.wf(),
            TabView::PersistentSubscriptions(v) => v.wf(),
            TabView::Monitoring(_) => true,
        }
    }

    /// Whether the view's model is in order.
    pub fn check_wf(&self) -> (ok: bool)
        ensures
            ok == self.wf(),
    {
        match self {
            TabView::Dashboard(v) => v.model.check_wf(),
            TabView::StreamsBrowser(_) => true,
            TabView::Projections(v) => v.model.check_wf(),
            TabView::PersistentSubscriptions(v) => v.model.inner.check_wf(),
            TabView::Monitoring(_) => true,
        }
    }

    /// Both are views of the same tab.
    pub open spec fn same_kind(before: Self, after: Self) -> bool {
        match (before, after) {
            (TabView::Dashboard(_), TabView::Dashboard(_)) => true,
            (TabView::StreamsBrowser(_), TabView::StreamsBrowser(_)) => true,
            (TabView::Projections(_), TabView::Projections(_)) => true,
            (TabView::PersistentSubscriptions(_), TabView::PersistentSubscriptions(_)) => true,
            (TabView::Monitoring(_), TabView::Monitoring(_)) => true,
            _ => false,
        }
    }

    /// How a view reacts to a key: as the view of its tab does.
    pub open spec fn reacts(before: Self, after: Self, key: KeyCode, request: Request) -> bool {
        match (before, after) {
            (TabView::Dashboard(b), TabView::Dashboard(a)) => DashboardView::reacts(b, a, key, request),
            (TabView::StreamsBrowser(b), TabView::StreamsBrowser(a)) => StreamsView::reacts(
                b,
                a,
                key,
                request,
            ),
            (TabView::Projections(b), TabView::Projections(a)) => ProjectionsViews::reacts(
                b,
                a,
                key,
                request,
            ),
            (
                TabView::PersistentSubscriptions(b),
                TabView::PersistentSubscriptions(a),
            ) => PersistentSubscriptionView::reacts(b, a, key, request),
            (TabView::Monitoring(b), TabView::Monitoring(a)) => MonitoringView::reacts(b, a, key, request),
            _ => false,
        }
    }

    /// How a view is left: the stream browser goes back to its empty first
    /// screen and keeps only what was typed into the search box; every other
    /// view stays as it is.
    pub open spec fn unloaded(before: Self, after: Self) -> bool {
        match (before, after) {
            (TabView::StreamsBrowser(b), TabView::StreamsBrowser(a)) => a@ == (
            crate::views::stream_browser::StreamsState {
                buffer: b@.buffer,
                ..crate::views::stream_browser::initial()
            }),
            _ => after == before,
        }
    }

    /// Reacts to a key.
    pub fn on_key_pressed(&mut self, key: KeyCode) -> (request: Request)
        ensures
            Self::reacts(*old(self), *final(self), key, request),
            old(self).wf() ==> final(self).wf(),
    {
        match self {
            TabView::Dashboard(v) => v.on_key_pressed(key),
            TabView::StreamsBrowser(v) => v.on_key_pressed(key),
            TabView::Projections(v) => v.on_key_pressed(key),
            TabView::PersistentSubscriptions(v) => v.on_key_pressed(key),
            TabView::Monitoring(v) => v.on_key_pressed(key),
        }
    }

    /// Leaves the tab.
    pub fn unload(&mut self)
        ensures
            Self::unloaded(*old(self), *final(self)),
            old(self).wf() ==> final(self).wf(),
    {
        match self {
            TabView::StreamsBrowser(v) => v.unload(),
            _ => {},
        }
    }

    /// The keys that the view reacts to, with what they do.
    pub fn keybindings(&self) -> (bindings: Vec<(&'static str, &'static str)>)
        ensures
            bindings@ == self.bindings(),
    {
        match self {
            TabView::Dashboard(v) => v.keybindings(),
            TabView::StreamsBrowser(v) => v.keybindings(),
            TabView::Projections(v) => v.keybindings(),
            TabView::PersistentSubscriptions(v) => v.keybindings(),
            TabView::Monitoring(v) => {
                let b = v.keybindings();
                assert(b@ =~= Seq::<(&'static str, &'static str)>::empty());
                b
            },
        }
    }

    /// The keys that the view reacts to, with what they do.
    pub open spec fn bindings(&self) -> Seq<(&'static str, &'static str)> {
        match self {
            TabView::Dashboard(_) => crate::views::dashboard::bindings(),
            TabView::StreamsBrowser(v) => crate::views::stream_browser::bindings_of(v.stage),
            TabView::Projections(v) => crate::views::projections::bindings_of(v.stage),
            TabView::PersistentSubscriptions(v) => crate::views::persistent_subscriptions::bindings_of(
                v.stage,
            ),
            TabView::Monitoring(_) => Seq::empty(),
        }
    }

    /// The title of the view's tab.
    pub open spec fn spec_title(&self) -> &'static str {
        match self {
            TabView::Dashboard(_) => MainTab::Dashboard.spec_title(),
            TabView::StreamsBrowser(_) => MainTab::StreamsBrowser.spec_title(),
            TabView::Projections(_) => MainTab::Projections.spec_title(),
            TabView::PersistentSubscriptions(_) => MainTab::PersistentSubscriptions.spec_title(),
            TabView::Monitoring(_) => "Monitoring",
        }
    }

    /// The title of the view's tab.
    pub fn title(&self) -> (t: &'static str)
        ensures
            t == self.spec_title(),
    {
        match self {
            TabView::Dashboard(_) => MainTab::Dashboard.title(),
            TabView::StreamsBrowser(_) => MainTab::StreamsBrowser.title(),
            TabView::Projections(_) => MainTab::Projections.title(),
            TabView::PersistentSubscriptions(_) => MainTab::PersistentSubscriptions.title(),
            TabView::Monitoring(_) => "Monitoring",
        }
    }

    /// Whether `plan` is what a refresh of the view has to fetch: for the
    /// dashboard the statistics; for the stream browser the events of the
    /// selected stream, if one is selected; for the projections the query of
    /// the selected projection in the detail, and the list else; for the
    /// subscriptions the list, while the list is shown; for the monitoring
    /// tab a sample and the gossip.
    pub open spec fn is_refresh_plan(&self, plan: Fetch) -> bool {
        match *self {
            TabView::Dashboard(_) => plan is ResourceStats,
            TabView::StreamsBrowser(v) => match (plan, v.model.selected_stream) {
                (Fetch::StreamEvents(wanted), Some(selected)) => wanted@ == selected@,
                (Fetch::Nothing, None) => true,
                _ => false,
            },
            TabView::Projections(v) => if v.stage == crate::views::projections::Stage::Detail
                && v.selected < v.model.inner@.len() {
                plan is ProjectionQuery && plan->ProjectionQuery_0@
                    == v.model.inner@[v.selected as int].1.name@
            } else {
                plan is ProjectionList
            },
            TabView::PersistentSubscriptions(v) => if v.stage
                == crate::views::persistent_subscriptions::Stage::Main {
                plan is SubscriptionList
            } else {
                plan is Nothing
            },
            TabView::Monitoring(_) => plan is ClusterHealth,
        }
    }

    /// Whether `plan` is what entering the view's tab has to fetch: for the
    /// stream browser its two lists, for the monitoring tab the version of
    /// the server first, and for every other view what a refresh fetches.
    pub open spec fn is_load_plan(&self, plan: Fetch) -> bool {
        match *self {
            TabView::StreamsBrowser(_) => plan is RecentStreams,
            TabView::Monitoring(_) => plan is ServerVersion,
            _ => self.is_refresh_plan(plan),
        }
    }

    /// What a refresh of the view has to fetch.
    pub fn refresh_plan(&self) -> (plan: Fetch)
        ensures
            self.is_refresh_plan(plan),
    {
        match self {
            TabView::Dashboard(_) => Fetch::ResourceStats,
            TabView::StreamsBrowser(v) => match v.refresh_plan() {
                Some(name) => Fetch::StreamEvents(name),
                None => Fetch::Nothing,
            },
            TabView::Projections(v) => match v.refresh_plan() {
                ProjectionsFetch::Query(name) => Fetch::ProjectionQuery(name),
                ProjectionsFetch::List => Fetch::ProjectionList,
            },
            TabView::PersistentSubscriptions(v) => if v.wants_refresh() {
                Fetch::SubscriptionList
            } else {
                Fetch::Nothing
            },
            TabView::Monitoring(_) => Fetch::ClusterHealth,
        }
    }

    /// What entering the view's tab has to fetch.
    pub fn load_plan(&self) -> (plan: Fetch)
        ensures
            self.is_load_plan(plan),
    {
        match self {
            TabView::StreamsBrowser(_) => Fetch::RecentStreams,
            TabView::Monitoring(_) => Fetch::ServerVersion,
            _ => self.refresh_plan(),
        }
    }

    /// How a view takes in what was fetched for it, and what that leads to:
    /// a failure, or what to fetch next. Data that is not meant for the view
    /// leaves it as it is.
    pub open spec fn takes(before: Self, after: Self, data: Fetched, outcome: Result<Fetch, Failure>) -> bool {
        match (before, data) {
            (TabView::Dashboard(b), Fetched::ResourceStats(mapping)) => {
                &&& after is Dashboard
                &&& crate::models::resource_queues::content(after->Dashboard_0.model)
                    == crate::models::resource_queues::queues_of(mapping@)
                &&& after->Dashboard_0.scroll == b.scroll
                &&& outcome is Ok && outcome->Ok_0 is Nothing
            },
            (TabView::StreamsBrowser(b), Fetched::RecentStreams { created, changed }) => {
                &&& after is StreamsBrowser
                &&& outcome is Ok <==> crate::views::stream_browser::all_text(created@)
                &&& outcome is Ok ==> outcome->Ok_0 is Nothing && after->StreamsBrowser_0@ == (
                crate::views::stream_browser::StreamsState {
                    last_created: crate::views::stream_browser::created_names(created@),
                    recently_changed: crate::views::stream_browser::distinct(changed.deep_view()),
                    selected_stream: None,
                    events: 0,
                    ..b@
                })
                &&& outcome is Err ==> after == before && outcome->Err_0.kind
                    == FailureKind::Malformed
            },
            (TabView::StreamsBrowser(b), Fetched::StreamEvents(events)) => {
                &&& after is StreamsBrowser
                &&& after->StreamsBrowser_0@ == (crate::views::stream_browser::StreamsState {
                    events: if b.model.selected_stream is Some {
                        events@.len()
                    } else {
                        b@.events
                    },
                    ..b@
                })
                &&& b.model.selected_stream is Some ==> after->StreamsBrowser_0.model.selected_stream_events
                    == events
                &&& outcome is Ok && outcome->Ok_0 is Nothing
            },
            (TabView::Projections(b), Fetched::ProjectionList(reports)) => {
                &&& after is Projections
                &&& exists|now: u128|
                    after->Projections_0.model@ == crate::models::projections::after_poll(
                        b.model@,
                        reports@,
                        now,
                    )
                &&& after->Projections_0.model.clock == b.model.clock
                &&& after->Projections_0.stage == b.stage
                &&& after->Projections_0.selected == b.selected
                &&& after->Projections_0.scroll == b.scroll
                &&& outcome is Ok && outcome->Ok_0 is Nothing
            },
            (TabView::Projections(b), Fetched::ProjectionQuery(query)) => {
                &&& after is Projections
                &&& after->Projections_0.stage == b.stage
                &&& after->Projections_0.selected == b.selected
                &&& after->Projections_0.scroll == b.scroll
                &&& after->Projections_0.model.previous == b.model.previous
                &&& after->Projections_0.model.last_time == b.model.last_time
                &&& after->Projections_0.model.clock == b.model.clock
                &&& b.selected >= b.model.inner@.len() ==> after->Projections_0.model.inner@
                    == b.model.inner@
                &&& b.selected < b.model.inner@.len() ==> after->Projections_0.model.inner@
                    == b.model.inner@.update(
                    b.selected as int,
                    (
                        b.model.inner@[b.selected as int].0,
                        crate::models::projections::Projection {
                            query,
                            ..b.model.inner@[b.selected as int].1
                        },
                    ),
                )
                &&& outcome is Ok && outcome->Ok_0 is Nothing
            },
            (TabView::PersistentSubscriptions(b), Fetched::SubscriptionList(reports)) => {
                &&& after is PersistentSubscriptions
                &&& after->PersistentSubscriptions_0@ == b@
                &&& b.stage == crate::views::persistent_subscriptions::Stage::Main
                    ==> after->PersistentSubscriptions_0.model.inner.map()
                    == crate::models::persistent_subscriptions::after_reports(
                    b.model.inner.map(),
                    reports@,
                )
                &&& b.stage != crate::views::persistent_subscriptions::Stage::Main
                    ==> after->PersistentSubscriptions_0.model == b.model
                &&& outcome is Ok && outcome->Ok_0 is Nothing
            },
            (TabView::Monitoring(b), Fetched::ServerVersion(version)) => {
                &&& after is Monitoring
                &&& after->Monitoring_0.model@ == (crate::models::monitoring::MonitoringContent {
                    server_version: match version {
                        Some(v) => v,
                        None => ServerVersion { major: 0, minor: 0, patch: 0 },
                    },
                    ..b.model@
                })
                &&& outcome is Ok && outcome->Ok_0 is ClusterHealth
            },
            (TabView::Monitoring(b), Fetched::ClusterHealth { stats, gossip }) => {
                &&& after is Monitoring
                &&& after->Monitoring_0.model@ == if b.model.has_room() {
                    crate::models::monitoring::after_poll(b.model@, stats, gossip@)
                } else {
                    b.model@
                }
                &&& outcome is Ok && outcome->Ok_0 is Nothing
            },
            _ => after == before && outcome is Ok && outcome->Ok_0 is Nothing,
        }
    }

    /// Takes in what was fetched for the view.
    pub fn deliver(&mut self, data: Fetched) -> (outcome: Result<Fetch, Failure>)
        requires
            old(self).wf(),
        ensures
            final(self).wf(),
            Self::takes(*old(self), *final(self), data, outcome),
    {
        match self {
            TabView::Dashboard(v) => match data {
                Fetched::ResourceStats(mapping) => {
                    v.refresh(mapping);
                    Ok(Fetch::Nothing)
                },
                _ => Ok(Fetch::Nothing),
            },
            TabView::StreamsBrowser(v) => match data {
                Fetched::RecentStreams { created, changed } => match v.load(created, changed) {
                    Ok(()) => Ok(Fetch::Nothing),
                    Err(e) => Err(e),
                },
                Fetched::StreamEvents(events) => {
                    v.refresh(events);
                    Ok(Fetch::Nothing)
                },
                _ => Ok(Fetch::Nothing),
            },
            TabView::Projections(v) => match data {
                Fetched::ProjectionList(reports) => {
                    v.refresh(reports);
                    Ok(Fetch::Nothing)
                },
                Fetched::ProjectionQuery(query) => {
                    v.refresh_query(query);
                    Ok(Fetch::Nothing)
                },
                _ => Ok(Fetch::Nothing),
            },
            TabView::PersistentSubscriptions(v) => match data {
                Fetched::SubscriptionList(reports) => {
                    v.refresh(reports);
                    Ok(Fetch::Nothing)
                },
                _ => Ok(Fetch::Nothing),
            },
            TabView::Monitoring(v) => match data {
                Fetched::ServerVersion(version) => {
                    v.load(version);
                    Ok(Fetch::ClusterHealth)
                },
                Fetched::ClusterHealth { stats, gossip } => {
                    let _ = v.refresh(stats, gossip);
                    Ok(Fetch::Nothing)
                },
                _ => Ok(Fetch::Nothing),
            },
        }
    }
}

/// The tab after `selected` in a bar of `count` tabs; after the last tab
/// comes the first.
pub open spec fn next_tab(selected: int, count: int) -> int {
    (selected + 1) % count
}

/// The tab before `selected` in a bar of `count` tabs; before the first tab
/// comes the last.
pub open spec fn previous_tab(selected: int, count: int) -> int {
    if selected == 0 {
        count - 1
    } else {
        selected - 1
    }
}

/// Switching tabs wraps around: forward from the last tab leads to the
/// first, back from the first leads to the last, and every step stays
/// inside the bar.
pub proof fn lemma_tabs_wrap(selected: int, count: int)
    requires
        0 <= selected < count,
    ensures
        next_tab(count - 1, count) == 0,
        previous_tab(0, count) == count - 1,
        0 <= next_tab(selected, count) < count,
        0 <= previous_tab(selected, count) < count,
        selected + 1 < count ==> next_tab(selected, count) == selected + 1,
{
    assert((count - 1 + 1) % count == 0) by (nonlinear_arith)
        requires
            count > 0,
    ;
    assert(0 <= (selected + 1) % count < count) by (nonlinear_arith)
        requires
            0 <= selected < count,
    ;
    if selected + 1 < count {
        assert((selected + 1) % count == selected + 1) by (nonlinear_arith)
            requires
                0 <= selected + 1 < count,
        ;
    }
}

/// Going forward and then back, or back and then forward, leads to the tab
/// where one started.
pub proof fn lemma_tabs_there_and_back(selected: int, count: int)
    requires
        0 <= selected < count,
    ensures
        previous_tab(next_tab(selected, count), count) == selected,
        next_tab(previous_tab(selected, count), count) == selected,
{
    lemma_tabs_wrap(selected, count);
    if selected > 0 {
        lemma_tabs_wrap(selected - 1, count);
    }
}

/// The session.
pub struct Context {
    /// The active tab.
    pub selected_tab: usize,
    /// The views, in the order of their tabs.
    pub views: Vec<TabView>,
    /// The failure that is shown, if any.
    pub last_error: Option<Failure>,
    /// The active tab was entered and its data is not yet in.
    pub loading: bool,
}

impl Context {
    /// There is a tab, the active tab is one of them, and the models are in
    /// order.
    pub open spec fn wf(&self) -> bool {
        &&& self.views@.len() > 0
        &&& self.selected_tab < self.views@.len()
        &&& forall|i: int| 0 <= i < self.views@.len() ==> (#[trigger] self.views@[i]).wf()
    }

    /// Whether there is a tab, the active tab is one of them, and the models
    /// are in order.
    pub fn check_wf(&self) -> (ok: bool)
        ensures
            ok == self.wf(),
    {
        if self.views.len() == 0 || self.selected_tab >= self.views.len() {
            return false;
        }
        let mut i: usize = 0;
        while i < self.views.len()
            invariant
                i <= self.views.len(),
                forall|k: int| 0 <= k < i ==> (#[trigger] self.views@[k]).wf(),
            decreases self.views.len() - i,
        {
            if !self.views[i].check_wf() {
                return false;
            }
            i = i + 1;
        }
        true
    }

    /// Every view but the active one is as it was.
    pub open spec fn others_unchanged(before: Self, after: Self) -> bool {
        &&& after.views@.len() == before.views@.len()
        &&& forall|i: int|
            0 <= i < before.views@.len() && i != before.selected_tab ==> after.views@[i]
                == before.views@[i]
    }

    /// A session with the four main tabs, the first of them active, that
    /// shows no failure.
    pub fn new() -> (ctx: Self)
        ensures
            ctx.wf(),
            ctx.selected_tab == 0,
            ctx.last_error is None,
            ctx.loading,
            ctx.views@.len() == 4,
            ctx.views@[MainTab::Dashboard.spec_index()] is Dashboard,
            ctx.views@[MainTab::StreamsBrowser.spec_index()] is StreamsBrowser,
            ctx.views@[MainTab::Projections.spec_index()] is Projections,
            ctx.views@[MainTab::PersistentSubscriptions.spec_index()] is PersistentSubscriptions,
    {
        let mut views: Vec<TabView> = Vec::new();
        views.push(TabView::Dashboard(DashboardView::new()));
        views.push(TabView::StreamsBrowser(StreamsView::new()));
        views.push(TabView::Projections(ProjectionsViews::new()));
        views.push(TabView::PersistentSubscriptions(PersistentSubscriptionView::new()));
        Context { selected_tab: 0, views, last_error: None, loading: true }
    }

    /// A session with the given tabs, the first of them active; `None`
    /// without a tab, or where the model of a view is out of order.
    pub fn with_views(views: Vec<TabView>) -> (ctx: Option<Self>)
        ensures
            ctx is Some <==> views@.len() > 0 && forall|i: int|
                0 <= i < views@.len() ==> (#[trigger] views@[i]).wf(),
            ctx is Some ==> ctx->0.wf() && ctx->0.views == views && ctx->0.selected_tab == 0
                && ctx->0.last_error is None && ctx->0.loading,
    {
        let ctx = Context { selected_tab: 0, views, last_error: None, loading: true };
        if ctx.check_wf() {
            Some(ctx)
        } else {
            None
        }
    }

    /// Starts the session: tells what the first tab needs to be entered.
    pub fn init(&mut self) -> (plan: Fetch)
        requires
            old(self).wf(),
        ensures
            final(self).wf(),
            final(self).loading,
            final(self).views == old(self).views,
            final(self).selected_tab == old(self).selected_tab,
            final(self).last_error == old(self).last_error,
            old(self).views@[old(self).selected_tab as int].is_load_plan(plan),
    {
        self.loading = true;
        self.views[self.selected_tab].load_plan()
    }

    /// Reacts to a key.
    ///
    /// While a failure is shown only `q` is heard, and it asks to leave;
    /// every other key does nothing. Else Tab and Shift-Tab leave the active
    /// tab and enter the next one or the one before, around the ends of the
    /// bar; the tab is then marked as entered, so that `refresh` names what
    /// it needs, and the key itself asks for nothing. Every other key goes
    /// to the active view.
    pub fn on_key_pressed(&mut self, key: KeyCode) -> (request: Request)
        requires
            old(self).wf(),
        ensures
            final(self).wf(),
            old(self).last_error is Some ==> *final(self) == *old(self) && request == if key.is_quit() {
                Request::Exit
            } else {
                Request::Noop
            },
            old(self).last_error is None ==> Self::others_unchanged(*old(self), *final(self))
                && final(self).last_error is None,
            old(self).last_error is None && (key == KeyCode::Tab || key == KeyCode::BackTab) ==> {
                &&& request == Request::Noop
                &&& final(self).loading
                &&& final(self).selected_tab == if key == KeyCode::Tab {
                    next_tab(old(self).selected_tab as int, old(self).views@.len() as int)
                } else {
                    previous_tab(old(self).selected_tab as int, old(self).views@.len() as int)
                }
                &&& TabView::unloaded(
                    old(self).views@[old(self).selected_tab as int],
                    final(self).views@[old(self).selected_tab as int],
                )
            },
            old(self).last_error is None && key != KeyCode::Tab && key != KeyCode::BackTab ==> {
                &&& final(self).selected_tab == old(self).selected_tab
                &&& final(self).loading == old(self).loading
                &&& TabView::reacts(
                    old(self).views@[old(self).selected_tab as int],
                    final(self).views@[old(self).selected_tab as int],
                    key,
                    request,
                )
            },
    {
        if self.last_error.is_some() {
            return if key.quits() {
                Request::Exit
            } else {
                Request::Noop
            };
        }
        let count = self.views.len();
        let at = self.selected_tab;
        match key {
            KeyCode::Tab => {
                self.views[at].unload();
                proof {
                    lemma_tabs_wrap(at as int, count as int);
                }
                self.selected_tab = if at + 1 < count {
                    at + 1
                } else {
                    0
                };
                proof {
                    if at + 1 >= count {
                        assert(at == count - 1);
                    }
                }
                self.loading = true;
                Request::Noop
            },
            KeyCode::BackTab => {
                self.views[at].unload();
                if at == 0 {
                    self.selected_tab = count - 1;
                } else {
                    self.selected_tab = at - 1;
                }
                self.loading = true;
                Request::Noop
            },
            _ => self.views[at].on_key_pressed(key),
        }
    }

    /// What the program has to fetch now: what the active tab needs to be
    /// entered, if it was entered and its data is not yet in, and else what
    /// a refresh of the active view needs.
    pub fn refresh(&self) -> (plan: Fetch)
        requires
            self.wf(),
        ensures
            self.loading ==> self.views@[self.selected_tab as int].is_load_plan(plan),
            !self.loading ==> self.views@[self.selected_tab as int].is_refresh_plan(plan),
    {
        if self.loading {
            self.views[self.selected_tab].load_plan()
        } else {
            self.views[self.selected_tab].refresh_plan()
        }
    }

    /// Takes in the outcome of a fetch, and tells what to fetch next.
    ///
    /// What was fetched goes to the active view. A failure is kept to be
    /// shown and changes no view; it never ends the session. A resource that
    /// is not there is an empty result and no failure. Every outcome without
    /// a failure clears the failure that was shown.
    pub fn deliver(&mut self, outcome: Result<Fetched, Failure>) -> (next: Fetch)
        requires
            old(self).wf(),
        ensures
            final(self).wf(),
            !final(self).loading,
            final(self).selected_tab == old(self).selected_tab,
            Self::others_unchanged(*old(self), *final(self)),
            match outcome {
                Err(e) => {
                    &&& final(self).views == old(self).views
                    &&& next is Nothing
                    &&& final(self).last_error == if e.kind == FailureKind::ResourceNotFound {
                        None
                    } else {
                        Some(e)
                    }
                },
                Ok(data) => exists|taken: Result<Fetch, Failure>|
                    {
                        &&& #[trigger] TabView::takes(
                            old(self).views@[old(self).selected_tab as int],
                            final(self).views@[old(self).selected_tab as int],
                            data,
                            taken,
                        )
                        &&& match taken {
                            Ok(plan) => next == plan && final(self).last_error is None,
                            Err(e) => next is Nothing && final(self).last_error == Some(e),
                        }
                    },
            },
    {
        self.loading = false;
        match outcome {
            Err(e) => {
                if let FailureKind::ResourceNotFound = e.kind {
                    self.last_error = None;
                } else {
                    self.last_error = Some(e);
                }
                Fetch::Nothing
            },
            Ok(data) => {
                let at = self.selected_tab;
                let taken = self.views[at].deliver(data);
                match taken {
                    Ok(plan) => {
                        self.last_error = None;
                        plan
                    },
                    Err(e) => {
                        self.last_error = Some(e);
                        Fetch::Nothing
                    },
                }
            },
        }
    }

    /// The legend under the tabs: the bindings of the session together with
    /// those of the active view, in three rows.
    pub fn legend(&self) -> (rows: Vec<Vec<(String, String)>>)
        requires
            self.wf(),
        ensures
            rows_of(rows@) == legend_of(
                listing(merged(all_bindings(self.views@[self.selected_tab as int].bindings()))),
            ),
    {
        let bindings = self.views[self.selected_tab].keybindings();
        legend(&bindings)
    }

    /// The titles of the tabs, in their order.
    pub fn titles(&self) -> (titles: Vec<&'static str>)
        ensures
            titles@.len() == self.views@.len(),
            forall|i: int|
                0 <= i < self.views@.len() ==> #[trigger] titles@[i] == self.views@[i].spec_title(),
    {
        let mut titles: Vec<&'static str> = Vec::new();
        let mut i: usize = 0;
        while i < self.views.len()
            invariant
                i <= self.views.len(),
                titles@.len() == i,
                forall|k: int| 0 <= k < i ==> #[trigger] titles@[k] == self.views@[k].spec_title(),
            decreases self.views.len() - i,
        {
            titles.push(self.views[i].title());
            i = i + 1;
        }
        titles
    }

    /// The message of the failure that is shown, if any.
    pub fn error_message(&self) -> (message: Option<String>)
        ensures
            message is Some <==> self.last_error is Some,
            message is Some ==> message->0@ == self.last_error->0.message@,
    {
        match &self.last_error {
            Some(e) => Some(e.message.clone()),
            None => None,
        }
    }
}

} // verus!
