//! The application's state and its decisions: which adapters are selected,
//! when the status may be refreshed, what a button starts, and what a finished
//! background task changes. The interface and the background work itself run
//! outside; they hand results in and carry out what is asked for.
use vstd::prelude::*;
use crate::network::{AdapterInfo, AdapterView, RouteEntry, RouteResult, RouteView, copy_adapter};
use crate::text::{starts_with, starts_with_chars, str_chars};
use crate::ui::cheatsheet::{CheatsheetState, ConfigTool};
use crate::ui::log_panel::{
    LogLevel, LogManager, MAX_LOG_ENTRIES, bounded_push, lemma_continues_trans,
    lemma_stamped_continues, log_continues, messages, newest_stamped,
};

verus! {

/// A finished background task.
pub enum TaskResult {
    /// Configuration done: the route result, and whether the proxy was switched off.
    FixComplete(RouteResult, bool),
    /// The internal route was removed.
    RollbackComplete(RouteResult),
    /// The adapters were listed again.
    RefreshComplete(Vec<AdapterInfo>),
    /// A gateway was pinged: internal or external, and the round-trip time.
    PingResult(bool, Option<u32>),
    /// The monitored routes were read again.
    RoutesUpdate(Vec<RouteEntry>),
}

/// A finished task as plain values.
pub enum TaskView {
    FixComplete(bool, Seq<char>, bool),
    RollbackComplete(bool, Seq<char>),
    RefreshComplete(Seq<AdapterView>),
    PingResult(bool, Option<u32>),
    RoutesUpdate(Seq<RouteView>),
}

impl View for TaskResult {
    type V = TaskView;

    open spec fn view(&self) -> TaskView {
        match self {
            TaskResult::FixComplete(r, p) => TaskView::FixComplete(r.success, r.message@, *p),
            TaskResult::RollbackComplete(r) => TaskView::RollbackComplete(r.success, r.message@),
            TaskResult::RefreshComplete(a) => TaskView::RefreshComplete(a.deep_view()),
            TaskResult::PingResult(i, t) => TaskView::PingResult(*i, *t),
            TaskResult::RoutesUpdate(r) => TaskView::RoutesUpdate(r.deep_view()),
        }
    }
}

/// What has to happen after a task result was taken in.
#[derive(Debug, PartialEq, Eq, Structural)]
pub enum FollowUp {
    Nothing,
    /// Read the route and proxy status again.
    RefreshStatus,
    /// Flush the DNS cache, then read the route and proxy status again.
    FlushThenRefreshStatus,
}

/// The work a configure click hands to the background: add a route to
/// `dest`/`mask` through `gateway`, then switch the proxy off.
pub struct FixJob {
    pub dest: String,
    pub mask: String,
    pub gateway: String,
}

/// The gateways to ping and the route prefix to watch, for one monitoring round.
pub struct MonitorPlan {
    pub internal_gateway: Option<String>,
    pub external_gateway: Option<String>,
    pub route_prefix: String,
}

/// How often the route and proxy status is read again, in milliseconds.
pub const STATUS_INTERVAL_MILLIS: u128 = 10000;

/// How often the gateways are pinged and the routes read again, in milliseconds.
pub const MONITOR_INTERVAL_MILLIS: u128 = 5000;

/// The application's state.
pub struct RouteSplitApp {
    pub is_admin: bool,
    pub route_exists: bool,
    pub proxy_enabled: bool,
    pub all_adapters: Vec<AdapterInfo>,
    pub internal_adapter_idx: Option<usize>,
    pub external_adapter_idx: Option<usize>,
    pub log_manager: LogManager,
    pub cheatsheet_state: CheatsheetState,
    pub is_processing: bool,
    pub last_dark_mode: Option<bool>,
    pub target_dest: String,
    pub target_mask: String,
    pub internal_ping: Option<u32>,
    pub external_ping: Option<u32>,
    pub active_routes: Vec<RouteEntry>,
}

/// The application's state as plain values; the log by its (level, message)
/// pairs, the guide by its tool and the instant of its last copy.
pub struct AppModel {
    pub is_admin: bool,
    pub route_exists: bool,
    pub proxy_enabled: bool,
    pub adapters: Seq<AdapterView>,
    pub internal_idx: Option<usize>,
    pub external_idx: Option<usize>,
    pub log: Seq<(LogLevel, Seq<char>)>,
    pub log_capacity: nat,
    pub active_tool: ConfigTool,
    pub copy_time: Option<std::time::Instant>,
    pub is_processing: bool,
    pub last_dark_mode: Option<bool>,
    pub target_dest: Seq<char>,
    pub target_mask: Seq<char>,
    pub internal_ping: Option<u32>,
    pub external_ping: Option<u32>,
    pub routes: Seq<RouteView>,
}

impl View for RouteSplitApp {
    type V = AppModel;

    open spec fn view(&self) -> AppModel {
        AppModel {
            is_admin: self.is_admin,
            route_exists: self.route_exists,
            proxy_enabled: self.proxy_enabled,
            adapters: self.all_adapters.deep_view(),
            internal_idx: self.internal_adapter_idx,
            external_idx: self.external_adapter_idx,
            log: messages(self.log_manager@),
            log_capacity: self.log_manager.capacity(),
            active_tool: self.cheatsheet_state.active_tool,
            copy_time: self.cheatsheet_state.last_copy_time,
            is_processing: self.is_processing,
            last_dark_mode: self.last_dark_mode,
            target_dest: self.target_dest@,
            target_mask: self.target_mask@,
            internal_ping: self.internal_ping,
            external_ping: self.external_ping,
            routes: self.active_routes.deep_view(),
        }
    }
}

/// A gateway on a `192.168.` network.
pub open spec fn is_lan_gateway(a: AdapterView) -> bool {
    starts_with(a.gateway, "192.168."@)
}

/// Index of the first adapter whose gateway is (`lan`) or is not (`!lan`) on a
/// `192.168.` network.
pub open spec fn first_adapter(s: Seq<AdapterView>, lan: bool) -> Option<usize>
    decreases s.len(),
{
    if s.len() == 0 {
        None
    } else if is_lan_gateway(s[0]) == lan {
        Some(0usize)
    } else {
        match first_adapter(s.drop_first(), lan) {
            Some(i) => Some((i + 1) as usize),
            None => None,
        }
    }
}

/// Appends a message to the model's log.
pub open spec fn logged(m: AppModel, level: LogLevel, msg: Seq<char>) -> AppModel {
    AppModel { log: bounded_push(m.log, (level, msg), m.log_capacity), ..m }
}

/// The state at start: the internal adapter is the first with a `192.168.`
/// gateway, the external one the first without; target `10.0.0.0/255.0.0.0`;
/// nothing running, measured or logged but the start message.
pub open spec fn initial(is_admin: bool, adapters: Seq<AdapterView>, log_capacity: nat) -> AppModel {
    logged(
        AppModel {
            is_admin,
            route_exists: false,
            proxy_enabled: false,
            adapters,
            internal_idx: first_adapter(adapters, true),
            external_idx: first_adapter(adapters, false),
            log: seq![],
            log_capacity,
            active_tool: ConfigTool::FlClash,
            copy_time: None,
            is_processing: false,
            last_dark_mode: None,
            target_dest: "10.0.0.0"@,
            target_mask: "255.0.0.0"@,
            internal_ping: None,
            external_ping: None,
            routes: seq![],
        },
        LogLevel::Info,
        "应用启动，网卡列表已加载"@,
    )
}

/// The status read from the system is taken in only while no task runs; an
/// unreadable proxy setting counts as off.
pub open spec fn status_refreshed(m: AppModel, route_exists: bool, proxy: Option<bool>) -> AppModel {
    if m.is_processing {
        m
    } else {
        AppModel {
            route_exists,
            proxy_enabled: match proxy {
                Some(p) => p,
                None => false,
            },
            ..m
        }
    }
}

/// The state after a finished task was taken in.
pub open spec fn task_applied(m: AppModel, t: TaskView) -> AppModel {
    match t {
        TaskView::FixComplete(success, msg, proxy_ok) => {
            let m1 = logged(
                m,
                if success {
                    LogLevel::Success
                } else {
                    LogLevel::Error
                },
                msg,
            );
            let m2 = if proxy_ok {
                logged(m1, LogLevel::Success, "系统代理已停用"@)
            } else {
                m1
            };
            logged(AppModel { is_processing: false, ..m2 }, LogLevel::Success, "✅ 配置完成!"@)
        },
        TaskView::RollbackComplete(_, _) => logged(
            AppModel { is_processing: false, ..m },
            LogLevel::Success,
            "已清除内网路由规则"@,
        ),
        TaskView::RefreshComplete(adapters) => logged(
            AppModel { adapters, is_processing: false, ..m },
            LogLevel::Info,
            "网卡列表已刷新"@,
        ),
        TaskView::PingResult(internal, rtt) => if internal {
            AppModel { internal_ping: rtt, ..m }
        } else {
            AppModel { external_ping: rtt, ..m }
        },
        TaskView::RoutesUpdate(routes) => AppModel { routes, ..m },
    }
}

/// What has to follow a finished task.
pub open spec fn task_follow_up(t: TaskView) -> FollowUp {
    match t {
        TaskView::FixComplete(_, _, _) => FollowUp::FlushThenRefreshStatus,
        TaskView::RollbackComplete(_, _) => FollowUp::RefreshStatus,
        _ => FollowUp::Nothing,
    }
}

/// How many messages taking in a finished task logs.
pub open spec fn task_log_count(t: TaskView) -> nat {
    match t {
        TaskView::FixComplete(_, _, proxy_ok) => if proxy_ok {
            3
        } else {
            2
        },
        TaskView::RollbackComplete(_, _) => 1,
        TaskView::RefreshComplete(_) => 1,
        _ => 0,
    }
}

/// The selected internal adapter index, if any, points into the adapter list.
pub open spec fn internal_in_range(m: AppModel) -> bool {
    m.internal_idx matches Some(i) ==> i < m.adapters.len()
}

/// The selected adapter indices point into the adapter list.
pub open spec fn selection_in_range(m: AppModel) -> bool {
    &&& (m.internal_idx matches Some(i) ==> i < m.adapters.len())
    &&& (m.external_idx matches Some(i) ==> i < m.adapters.len())
}

/// The message logged when configuration starts.
pub open spec fn fix_message(a: AdapterView) -> Seq<char> {
    "🚀 正在后台执行分流配置: "@ + a.name + " ("@ + a.gateway + ")"@
}

/// The state after a configure click: without an internal adapter an error is
/// logged; otherwise a task starts and says so.
pub open spec fn fix_started(m: AppModel) -> AppModel {
    match m.internal_idx {
        None => logged(m, LogLevel::Error, "❌ 请先选择内网网卡"@),
        Some(i) => logged(
            AppModel { is_processing: true, ..m },
            LogLevel::Info,
            fix_message(m.adapters[i as int]),
        ),
    }
}

/// The state after a restore click: a task starts and says so.
pub open spec fn rollback_started(m: AppModel) -> AppModel {
    logged(AppModel { is_processing: true, ..m }, LogLevel::Info, "🚀 正在后台恢复默认网络配置..."@)
}

/// The state after a refresh click: a task starts.
pub open spec fn refresh_started(m: AppModel) -> AppModel {
    AppModel { is_processing: true, ..m }
}

proof fn lemma_first_adapter(s: Seq<AdapterView>, lan: bool, k: int)
    requires
        0 <= k <= s.len(),
        forall|j: int| 0 <= j < k ==> is_lan_gateway(#[trigger] s[j]) != lan,
        k < s.len() ==> is_lan_gateway(s[k]) == lan,
        s.len() <= usize::MAX,
    ensures
        first_adapter(s, lan) == if k < s.len() {
            Some(k as usize)
        } else {
            None::<usize>
        },
    decreases s.len(),
{
    if s.len() > 0 && k > 0 {
        assert forall|j: int| 0 <= j < k - 1 implies is_lan_gateway(#[trigger] s.drop_first()[j])
            != lan by {
            assert(s.drop_first()[j] == s[j + 1]);
        }
        if k < s.len() {
            assert(s.drop_first()[k - 1] == s[k]);
        }
        lemma_first_adapter(s.drop_first(), lan, k - 1);
    }
}

fn find_adapter(adapters: &Vec<AdapterInfo>, lan: bool) -> (r: Option<usize>)
    ensures
        r == first_adapter(adapters.deep_view(), lan),
{
    let prefix = str_chars("192.168.");
    let ghost s = adapters.deep_view();
    let mut i: usize = 0;
    while i < adapters.len()
        invariant
            i <= adapters.len(),
            s == adapters.deep_view(),
            prefix@ == "192.168."@,
            forall|j: int| 0 <= j < i ==> is_lan_gateway(#[trigger] s[j]) != lan,
        decreases adapters.len() - i,
    {
        let g = str_chars(adapters[i].gateway.as_str());
        assert(s[i as int] == adapters@[i as int]@);
        if starts_with_chars(&g, &prefix) == lan {
            proof {
                lemma_first_adapter(s, lan, i as int);
            }
            return Some(i);
        }
        i = i + 1;
    }
    proof {
        lemma_first_adapter(s, lan, i as int);
    }
    None
}

impl RouteSplitApp {
    /// The state at start for the given rights and adapter list.
    pub fn new(is_admin: bool, all_adapters: Vec<AdapterInfo>) -> (app: RouteSplitApp)
        ensures
            app@ == initial(is_admin, all_adapters.deep_view(), MAX_LOG_ENTRIES as nat),
            newest_stamped(app.log_manager@, 1),
            selection_in_range(app@),
    {
        let internal_adapter_idx = find_adapter(&all_adapters, true);
        let external_adapter_idx = find_adapter(&all_adapters, false);
        let ghost adapters = all_adapters.deep_view();
        let mut app = RouteSplitApp {
            is_admin,
            route_exists: false,
            proxy_enabled: false,
            all_adapters,
            internal_adapter_idx,
            external_adapter_idx,
            log_manager: LogManager::new(),
            cheatsheet_state: CheatsheetState::default(),
            is_processing: false,
            last_dark_mode: None,
            target_dest: "10.0.0.0".to_owned(),
            target_mask: "255.0.0.0".to_owned(),
            internal_ping: None,
            external_ping: None,
            active_routes: Vec::new(),
        };
        proof {
            assert(messages(Seq::empty()) =~= Seq::<(LogLevel, Seq<char>)>::empty());
            assert(app.active_routes.deep_view() =~= Seq::<RouteView>::empty());
            lemma_first_adapter_in_range(adapters, true);
            lemma_first_adapter_in_range(adapters, false);
        }
        app.log_manager.info("应用启动，网卡列表已加载");
        app
    }

    /// Takes in the route and proxy status read from the system; ignored while
    /// a task runs.
    pub fn refresh_status(&mut self, route_exists: bool, proxy: Result<bool, String>)
        ensures
            final(self)@ == status_refreshed(
                old(self)@,
                route_exists,
                match proxy {
                    Ok(p) => Some(p),
                    Err(_) => None,
                },
            ),
            final(self).log_manager@ == old(self).log_manager@,
    {
        if self.is_processing {
            return ;
        }
        self.route_exists = route_exists;
        self.proxy_enabled = match proxy {
            Ok(p) => p,
            Err(_) => false,
        };
    }

    /// Takes in a finished task, logging its outcome, and says what has to follow.
    pub fn check_task_result(&mut self, result: TaskResult) -> (f: FollowUp)
        ensures
            final(self)@ == task_applied(old(self)@, result@),
            f == task_follow_up(result@),
            log_continues(old(self).log_manager@, final(self).log_manager@, task_log_count(result@)),
            newest_stamped(final(self).log_manager@, task_log_count(result@)),
    {
        let ghost l0 = self.log_manager@;
        match result {
            TaskResult::FixComplete(route_res, proxy_ok) => {
                if route_res.success {
                    self.log_manager.ok(route_res.message.as_str());
                } else {
                    self.log_manager.error(route_res.message.as_str());
                }
                let ghost l1 = self.log_manager@;
                if proxy_ok {
                    self.log_manager.ok("系统代理已停用");
                    proof {
                        lemma_continues_trans(l0, l1, self.log_manager@, 1, 1);
                        lemma_stamped_continues(l1, self.log_manager@, 1, 1);
                    }
                }
                let ghost l2 = self.log_manager@;
                self.is_processing = false;
                self.log_manager.ok("✅ 配置完成!");
                proof {
                    lemma_continues_trans(l0, l2, self.log_manager@, if proxy_ok { 2 } else { 1 }, 1);
                    lemma_stamped_continues(l2, self.log_manager@, if proxy_ok { 2 } else { 1 }, 1);
                }
                FollowUp::FlushThenRefreshStatus
            },
            TaskResult::RollbackComplete(_res) => {
                self.is_processing = false;
                self.log_manager.ok("已清除内网路由规则");
                FollowUp::RefreshStatus
            },
            TaskResult::RefreshComplete(adapters) => {
                self.all_adapters = adapters;
                self.is_processing = false;
                self.log_manager.info("网卡列表已刷新");
                FollowUp::Nothing
            },
            TaskResult::PingResult(is_internal, rtt) => {
                assert(log_continues(l0, l0, 0));
                if is_internal {
                    self.internal_ping = rtt;
                } else {
                    self.external_ping = rtt;
                }
                FollowUp::Nothing
            },
            TaskResult::RoutesUpdate(routes) => {
                assert(log_continues(l0, l0, 0));
                self.active_routes = routes;
                FollowUp::Nothing
            },
        }
    }

    /// A refresh click: the adapter listing starts in the background.
    pub fn refresh_adapters(&mut self)
        ensures
            final(self)@ == refresh_started(old(self)@),
            final(self).log_manager@ == old(self).log_manager@,
    {
        self.is_processing = true;
    }

    /// A configure click: the job to run in the background, or `None` (and an
    /// error logged) when no internal adapter is selected.
    pub fn do_fix(&mut self) -> (job: Option<FixJob>)
        requires
            internal_in_range(old(self)@),
        ensures
            final(self)@ == fix_started(old(self)@),
            log_continues(old(self).log_manager@, final(self).log_manager@, 1),
            newest_stamped(final(self).log_manager@, 1),
            job is Some <==> old(self).internal_adapter_idx is Some,
            job matches Some(j) ==> j.dest@ == old(self).target_dest@ && j.mask@
                == old(self).target_mask@ && j.gateway@ == old(
                self,
            )@.adapters[old(self).internal_adapter_idx.unwrap() as int].gateway,
    {
        let idx = match self.internal_adapter_idx {
            Some(i) => i,
            None => {
                self.log_manager.error("❌ 请先选择内网网卡");
                return None;
            },
        };
        assert(self.all_adapters.deep_view()[idx as int] == self.all_adapters@[idx as int]@);
        let gateway = self.all_adapters[idx].gateway.clone();
        let name = self.all_adapters[idx].name.clone();
        let target_dest = self.target_dest.clone();
        let target_mask = self.target_mask.clone();
        self.is_processing = true;
        let mut msg = "🚀 正在后台执行分流配置: ".to_owned();
        msg.append(name.as_str());
        msg.append(" (");
        msg.append(gateway.as_str());
        msg.append(")");
        self.log_manager.info(msg.as_str());
        Some(FixJob { dest: target_dest, mask: target_mask, gateway })
    }

    /// A restore click: the destination whose route the background task
    /// removes.
    pub fn do_rollback(&mut self) -> (dest: String)
        ensures
            final(self)@ == rollback_started(old(self)@),
            log_continues(old(self).log_manager@, final(self).log_manager@, 1),
            newest_stamped(final(self).log_manager@, 1),
            dest@ == old(self).target_dest@,
    {
        self.is_processing = true;
        let target_dest = self.target_dest.clone();
        self.log_manager.info("🚀 正在后台恢复默认网络配置...");
        target_dest
    }

    /// What a monitoring round looks at: the gateways of the selected adapters
    /// and the routes into `10.`.
    pub fn monitor_plan(&self) -> (p: MonitorPlan)
        requires
            selection_in_range(self@),
        ensures
            p.internal_gateway.is_some() == self.internal_adapter_idx.is_some(),
            p.external_gateway.is_some() == self.external_adapter_idx.is_some(),
            p.internal_gateway matches Some(g) ==> g@ == self@.adapters[self.internal_adapter_idx.unwrap() as int].gateway,
            p.external_gateway matches Some(g) ==> g@ == self@.adapters[self.external_adapter_idx.unwrap() as int].gateway,
            p.route_prefix@ == "10."@,
    {
        let internal_gateway = match self.internal_adapter_idx {
            Some(i) => {
                assert(self.all_adapters.deep_view()[i as int] == self.all_adapters@[i as int]@);
                Some(self.all_adapters[i].gateway.clone())
            },
            None => None,
        };
        let external_gateway = match self.external_adapter_idx {
            Some(i) => {
                assert(self.all_adapters.deep_view()[i as int] == self.all_adapters@[i as int]@);
                Some(self.all_adapters[i].gateway.clone())
            },
            None => None,
        };
        MonitorPlan { internal_gateway, external_gateway, route_prefix: "10.".to_owned() }
    }

    /// Whether the route and proxy status is to be read again, `elapsed_ms`
    /// milliseconds after the last reading: every ten seconds, never while a
    /// task runs.
    pub fn status_refresh_due(&self, elapsed_ms: u128) -> (b: bool)
        ensures
            b == (elapsed_ms >= STATUS_INTERVAL_MILLIS && !self.is_processing),
    {
        elapsed_ms >= STATUS_INTERVAL_MILLIS && !self.is_processing
    }

    /// Whether a monitoring round (gateway pings, route reading) is to start,
    /// `elapsed_ms` milliseconds after the last one: every five seconds, never
    /// while a task runs.
    pub fn monitor_due(&self, elapsed_ms: u128) -> (b: bool)
        ensures
            b == (elapsed_ms >= MONITOR_INTERVAL_MILLIS && !self.is_processing),
    {
        elapsed_ms >= MONITOR_INTERVAL_MILLIS && !self.is_processing
    }

    /// Records the colour scheme in use; true when it differs from the last one
    /// recorded, so the visuals must be set again.
    pub fn note_dark_mode(&mut self, dark_mode: bool) -> (changed: bool)
        ensures
            changed == (old(self).last_dark_mode != Some(dark_mode)),
            final(self)@ == (AppModel { last_dark_mode: Some(dark_mode), ..old(self)@ }),
            final(self).log_manager@ == old(self).log_manager@,
    {
        let changed = match self.last_dark_mode {
            Some(d) => d != dark_mode,
            None => true,
        };
        self.last_dark_mode = Some(dark_mode);
        changed
    }

    /// A copy of the adapter at a selected index, if there is one there.
    pub fn adapter_at(&self, idx: Option<usize>) -> (a: Option<AdapterInfo>)
        ensures
            a is Some <==> (idx matches Some(i) && i < self.all_adapters.len()),
            a matches Some(x) ==> x@ == self@.adapters[idx.unwrap() as int],
    {
        match idx {
            Some(i) => if i < self.all_adapters.len() {
                assert(self.all_adapters.deep_view()[i as int] == self.all_adapters@[i as int]@);
                Some(copy_adapter(&self.all_adapters[i]))
            } else {
                None
            },
            None => None,
        }
    }
}

/// The log holds no more entries than it keeps.
pub open spec fn log_bounded(m: AppModel) -> bool {
    0 < m.log_capacity && m.log.len() <= m.log_capacity
}

proof fn lemma_logged_bounded(m: AppModel, level: LogLevel, msg: Seq<char>)
    requires
        log_bounded(m),
    ensures
        log_bounded(logged(m, level, msg)),
        logged(m, level, msg).log.last() == (level, msg),
{
}

/// No step lets the log grow past what it keeps, and each message logged is
/// the newest entry afterwards.
pub proof fn lemma_log_stays_bounded(m: AppModel, t: TaskView, route_exists: bool, proxy: Option<bool>)
    requires
        log_bounded(m),
        internal_in_range(m),
    ensures
        log_bounded(initial(m.is_admin, m.adapters, m.log_capacity)),
        log_bounded(status_refreshed(m, route_exists, proxy)),
        log_bounded(task_applied(m, t)),
        log_bounded(fix_started(m)),
        log_bounded(rollback_started(m)),
        log_bounded(refresh_started(m)),
        t is FixComplete ==> task_applied(m, t).log.last() == (LogLevel::Success, "✅ 配置完成!"@),
        m.internal_idx is None ==> fix_started(m).log.last() == (
            LogLevel::Error,
            "❌ 请先选择内网网卡"@,
        ),
{
    let m0 = AppModel {
        is_admin: m.is_admin,
        route_exists: false,
        proxy_enabled: false,
        adapters: m.adapters,
        internal_idx: first_adapter(m.adapters, true),
        external_idx: first_adapter(m.adapters, false),
        log: seq![],
        log_capacity: m.log_capacity,
        active_tool: ConfigTool::FlClash,
        copy_time: None,
        is_processing: false,
        last_dark_mode: None,
        target_dest: "10.0.0.0"@,
        target_mask: "255.0.0.0"@,
        internal_ping: None,
        external_ping: None,
        routes: seq![],
    };
    lemma_logged_bounded(m0, LogLevel::Info, "应用启动，网卡列表已加载"@);
    match t {
        TaskView::FixComplete(success, msg, proxy_ok) => {
            let m1 = logged(
                m,
                if success {
                    LogLevel::Success
                } else {
                    LogLevel::Error
                },
                msg,
            );
            lemma_logged_bounded(
                m,
                if success {
                    LogLevel::Success
                } else {
                    LogLevel::Error
                },
                msg,
            );
            lemma_logged_bounded(m1, LogLevel::Success, "系统代理已停用"@);
            let m2 = if proxy_ok {
                logged(m1, LogLevel::Success, "系统代理已停用"@)
            } else {
                m1
            };
            lemma_logged_bounded(AppModel { is_processing: false, ..m2 }, LogLevel::Success, "✅ 配置完成!"@);
        },
        TaskView::RollbackComplete(_, _) => {
            lemma_logged_bounded(AppModel { is_processing: false, ..m }, LogLevel::Success, "已清除内网路由规则"@);
        },
        TaskView::RefreshComplete(adapters) => {
            lemma_logged_bounded(
                AppModel { adapters, is_processing: false, ..m },
                LogLevel::Info,
                "网卡列表已刷新"@,
            );
        },
        _ => {},
    }
    lemma_logged_bounded(m, LogLevel::Error, "❌ 请先选择内网网卡"@);
    if let Some(i) = m.internal_idx {
        lemma_logged_bounded(
            AppModel { is_processing: true, ..m },
            LogLevel::Info,
            fix_message(m.adapters[i as int]),
        );
    }
    lemma_logged_bounded(AppModel { is_processing: true, ..m }, LogLevel::Info, "🚀 正在后台恢复默认网络配置..."@);
}

/// While a task runs, status read from the system changes nothing.
pub proof fn lemma_status_frozen_while_processing(m: AppModel, route_exists: bool, proxy: Option<bool>)
    requires
        m.is_processing,
    ensures
        status_refreshed(m, route_exists, proxy) == m,
{
}

/// Each task a button starts marks the application busy, and taking in that
/// task's result makes it idle again, asking for what has to follow: a flush
/// and status refresh after configuring, a status refresh after restoring.
/// A configure click without an internal adapter starts nothing.
pub proof fn lemma_task_cycles(
    m: AppModel,
    success: bool,
    msg: Seq<char>,
    proxy_ok: bool,
    adapters: Seq<AdapterView>,
)
    requires
        internal_in_range(m),
    ensures
        m.internal_idx is Some ==> fix_started(m).is_processing,
        m.internal_idx is None ==> fix_started(m).is_processing == m.is_processing,
        !task_applied(fix_started(m), TaskView::FixComplete(success, msg, proxy_ok)).is_processing,
        task_follow_up(TaskView::FixComplete(success, msg, proxy_ok)) == FollowUp::FlushThenRefreshStatus,
        rollback_started(m).is_processing,
        !task_applied(rollback_started(m), TaskView::RollbackComplete(success, msg)).is_processing,
        task_follow_up(TaskView::RollbackComplete(success, msg)) == FollowUp::RefreshStatus,
        refresh_started(m).is_processing,
        !task_applied(refresh_started(m), TaskView::RefreshComplete(adapters)).is_processing,
        task_applied(refresh_started(m), TaskView::RefreshComplete(adapters)).adapters == adapters,
{
}

/// A ping result sets the round-trip time of its own side only, and a routes
/// update replaces the monitored routes only; neither touches the busy flag.
pub proof fn lemma_measurements_independent(
    m: AppModel,
    internal: bool,
    rtt: Option<u32>,
    routes: Seq<RouteView>,
)
    ensures
        internal ==> task_applied(m, TaskView::PingResult(internal, rtt)) == (AppModel {
            internal_ping: rtt,
            ..m
        }),
        !internal ==> task_applied(m, TaskView::PingResult(internal, rtt)) == (AppModel {
            external_ping: rtt,
            ..m
        }),
        task_applied(m, TaskView::RoutesUpdate(routes)) == (AppModel { routes, ..m }),
        task_follow_up(TaskView::PingResult(internal, rtt)) == FollowUp::Nothing,
        task_follow_up(TaskView::RoutesUpdate(routes)) == FollowUp::Nothing,
{
}

/// The adapters selected at start, by gateway: the internal one is the first
/// whose gateway begins with `192.168.` (any third and fourth number), and
/// none is selected when no gateway does; the external one is the first whose
/// gateway does not begin with `192.168.`, and none when every gateway does.
pub proof fn lemma_selection_by_gateway(adapters: Seq<AdapterView>)
    requires
        adapters.len() <= usize::MAX,
    ensures
        first_adapter(adapters, true) matches Some(i) ==> i < adapters.len() && starts_with(
            adapters[i as int].gateway,
            "192.168."@,
        ) && forall|j: int| 0 <= j < i ==> !starts_with(#[trigger] adapters[j].gateway, "192.168."@),
        first_adapter(adapters, true) is None ==> forall|j: int|
            0 <= j < adapters.len() ==> !starts_with(#[trigger] adapters[j].gateway, "192.168."@),
        first_adapter(adapters, false) matches Some(i) ==> i < adapters.len() && !starts_with(
            adapters[i as int].gateway,
            "192.168."@,
        ) && forall|j: int| 0 <= j < i ==> starts_with(#[trigger] adapters[j].gateway, "192.168."@),
        first_adapter(adapters, false) is None ==> forall|j: int|
            0 <= j < adapters.len() ==> starts_with(#[trigger] adapters[j].gateway, "192.168."@),
    decreases adapters.len(),
{
    if adapters.len() > 0 {
        let rest = adapters.drop_first();
        lemma_selection_by_gateway(rest);
        assert forall|j: int| 0 < j < adapters.len() implies #[trigger] adapters[j] == rest[j - 1] by {}
        let lan0 = starts_with(adapters[0].gateway, "192.168."@);
        assert(is_lan_gateway(adapters[0]) == lan0);
        if !lan0 {
            if let Some(i) = first_adapter(rest, true) {
                assert(first_adapter(adapters, true) == Some((i + 1) as usize));
                assert(rest[i as int] == adapters[i + 1]);
                assert forall|j: int| 0 <= j < i + 1 implies !starts_with(
                    #[trigger] adapters[j].gateway,
                    "192.168."@,
                ) by {
                    if j > 0 {
                        assert(adapters[j] == rest[j - 1]);
                    }
                }
            }
        } else {
            if let Some(i) = first_adapter(rest, false) {
                assert(first_adapter(adapters, false) == Some((i + 1) as usize));
                assert(rest[i as int] == adapters[i + 1]);
                assert forall|j: int| 0 <= j < i + 1 implies starts_with(
                    #[trigger] adapters[j].gateway,
                    "192.168."@,
                ) by {
                    if j > 0 {
                        assert(adapters[j] == rest[j - 1]);
                    }
                }
            }
        }
    }
}

proof fn lemma_first_adapter_in_range(s: Seq<AdapterView>, lan: bool)
    ensures
        first_adapter(s, lan) matches Some(i) ==> i < s.len(),
    decreases s.len(),
{
    if s.len() > 0 && is_lan_gateway(s[0]) != lan {
        lemma_first_adapter_in_range(s.drop_first(), lan);
    }
}

} // verus!
