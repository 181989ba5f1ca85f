//! Instances as they are known while the manager runs, and the events that tell of their changes.

use crate::config::InstanceConfig;
use crate::text;
use std::collections::VecDeque;
use vstd::prelude::*;

verus! {

/// Where an instance stands.
#[derive(Debug, Clone, Copy, PartialEq, Eq, Structural)]
pub enum InstanceStatus {
    Stopped,
    Starting,
    Running,
    Stopping,
    Crashed,
}

/// Whether an instance holds the one place for a running server.
pub open spec fn is_active(s: InstanceStatus) -> bool {
    s == InstanceStatus::Starting || s == InstanceStatus::Running
}

/// Whether an instance holds the one place for a running server.
pub fn active(s: InstanceStatus) -> (r: bool)
    ensures
        r == is_active(s),
{
    match s {
        InstanceStatus::Starting | InstanceStatus::Running => true,
        _ => false,
    }
}

/// A point in time: seconds since 1970, and the nanoseconds of the second that has begun.
#[derive(Debug, Clone, Copy, PartialEq, Eq, Structural)]
pub struct Moment {
    pub secs: i64,
    pub nanos: u32,
}

/// Whether the nanoseconds of a moment are less than a second.
pub open spec fn proper(t: Moment) -> bool {
    t.nanos < 1000000000
}

/// A line of the console, with the second at which it came.
#[derive(Debug)]
pub struct LogLine {
    pub line: String,
    pub timestamp: i64,
}

impl Clone for LogLine {
    fn clone(&self) -> (r: Self)
        ensures
            r == *self,
    {
        LogLine { line: self.line.clone(), timestamp: self.timestamp }
    }
}

/// The view of a line of the console.
pub struct LogModel {
    pub line: Seq<char>,
    pub timestamp: i64,
}

impl View for LogLine {
    type V = LogModel;

    open spec fn view(&self) -> LogModel {
        LogModel { line: self.line@, timestamp: self.timestamp }
    }
}

/// The views of lines of the console.
pub open spec fn log_views(s: Seq<LogLine>) -> Seq<LogModel> {
    s.map_values(|l: LogLine| l@)
}

/// How many lines of the console are kept.
pub const LOG_LIMIT: usize = 1000;

/// An instance. The tick rate and the load of the processor are kept as decimal numerals.
#[derive(Debug)]
pub struct InstanceState {
    pub id: String,
    pub instance_dir: String,
    pub config: InstanceConfig,
    pub status: InstanceStatus,
    pub players: Vec<String>,
    pub started_at: Option<Moment>,
    pub log_buffer: VecDeque<LogLine>,
    pub ram_mb: Option<u64>,
    pub tps: Option<String>,
    pub cpu_pct: Option<String>,
    pub restart_attempts: u32,
    pub low_tps_streak: u32,
    pub high_ram_alerted: bool,
}

/// The view of an instance.
#[verifier::ext_equal]
pub struct InstanceModel {
    pub id: Seq<char>,
    pub instance_dir: Seq<char>,
    pub config: InstanceConfig,
    pub status: InstanceStatus,
    pub players: Seq<Seq<char>>,
    pub started_at: Option<Moment>,
    pub log: Seq<LogModel>,
    pub ram_mb: Option<u64>,
    pub tps: Option<Seq<char>>,
    pub cpu_pct: Option<Seq<char>>,
    pub restart_attempts: u32,
    pub low_tps_streak: u32,
    pub high_ram_alerted: bool,
}

impl View for InstanceState {
    type V = InstanceModel;

    open spec fn view(&self) -> InstanceModel {
        InstanceModel {
            id: self.id@,
            instance_dir: self.instance_dir@,
            config: self.config,
            status: self.status,
            players: text::views(self.players@),
            started_at: self.started_at,
            log: log_views(self.log_buffer@),
            ram_mb: self.ram_mb,
            tps: text::opt_view(self.tps),
            cpu_pct: text::opt_view(self.cpu_pct),
            restart_attempts: self.restart_attempts,
            low_tps_streak: self.low_tps_streak,
            high_ram_alerted: self.high_ram_alerted,
        }
    }
}

impl InstanceModel {
    /// No player is listed twice, no more lines are kept than there is room for, and the start is a
    /// proper moment.
    pub open spec fn wf(self) -> bool {
        &&& self.players.no_duplicates()
        &&& self.log.len() <= LOG_LIMIT
        &&& self.started_at matches Some(t) ==> proper(t)
    }

    /// The name that people see.
    pub open spec fn shown_name(self) -> Seq<char> {
        match self.config.instance.display_name {
            Some(d) => d@,
            None => self.config.instance.name@,
        }
    }

    /// The instance with nothing of an earlier run.
    pub open spec fn fresh(self) -> bool {
        &&& self.status == InstanceStatus::Stopped
        &&& self.players.len() == 0
        &&& self.started_at is None
        &&& self.log.len() == 0
        &&& self.ram_mb is None
        &&& self.tps is None
        &&& self.cpu_pct is None
        &&& self.restart_attempts == 0
        &&& self.low_tps_streak == 0
        &&& !self.high_ram_alerted
    }
}

impl InstanceState {
    /// An instance that was never started.
    pub fn new(id: &str, instance_dir: &str, config: InstanceConfig) -> (r: Self)
        ensures
            r@.id == id@,
            r@.instance_dir == instance_dir@,
            r@.config == config,
            r@.fresh(),
            r@.wf(),
    {
        InstanceState {
            id: id.to_string(),
            instance_dir: instance_dir.to_string(),
            config,
            status: InstanceStatus::Stopped,
            players: Vec::new(),
            started_at: None,
            log_buffer: VecDeque::new(),
            ram_mb: None,
            tps: None,
            cpu_pct: None,
            restart_attempts: 0,
            low_tps_streak: 0,
            high_ram_alerted: false,
        }
    }

    /// The name that people see.
    pub fn display(&self) -> (r: String)
        ensures
            r@ == self@.shown_name(),
    {
        match &self.config.instance.display_name {
            Some(d) => d.clone(),
            None => self.config.instance.name.clone(),
        }
    }
}

/// Strings that are equal one by one to those given.
pub fn copied(v: &Vec<String>) -> (r: Vec<String>)
    ensures
        r@ == v@,
{
    let mut r: Vec<String> = Vec::new();
    for i in 0..v.len()
        invariant
            r@ == v@.take(i as int),
    {
        r.push(v[i].clone());
    }
    assert(v@.take(v@.len() as int) =~= v@);
    r
}

/// An optional string that is equal to the one given.
pub fn copied_opt(s: &Option<String>) -> (r: Option<String>)
    ensures
        r == *s,
{
    match s {
        Some(t) => Some(t.clone()),
        None => None,
    }
}

// ---------------------------------------------------------------------------
// What is shown of an instance
// ---------------------------------------------------------------------------

/// What the dashboard shows of an instance.
#[derive(Debug)]
pub struct InstanceInfo {
    pub id: String,
    pub name: String,
    pub display_name: String,
    pub minecraft_version: String,
    pub loader: Option<String>,
    pub status: InstanceStatus,
    pub players: Vec<String>,
    pub started_at: Option<i64>,
    pub port: u16,
    pub ram_mb: Option<u64>,
    pub tps: Option<String>,
    pub cpu_pct: Option<String>,
    pub java_path: Option<String>,
}

/// The view of what is shown of an instance.
#[verifier::ext_equal]
pub struct InfoModel {
    pub id: Seq<char>,
    pub name: Seq<char>,
    pub display_name: Seq<char>,
    pub minecraft_version: Seq<char>,
    pub loader: Option<Seq<char>>,
    pub status: InstanceStatus,
    pub players: Seq<Seq<char>>,
    pub started_at: Option<i64>,
    pub port: u16,
    pub ram_mb: Option<u64>,
    pub tps: Option<Seq<char>>,
    pub cpu_pct: Option<Seq<char>>,
    pub java_path: Option<Seq<char>>,
}

impl View for InstanceInfo {
    type V = InfoModel;

    open spec fn view(&self) -> InfoModel {
        InfoModel {
            id: self.id@,
            name: self.name@,
            display_name: self.display_name@,
            minecraft_version: self.minecraft_version@,
            loader: text::opt_view(self.loader),
            status: self.status,
            players: text::views(self.players@),
            started_at: self.started_at,
            port: self.port,
            ram_mb: self.ram_mb,
            tps: text::opt_view(self.tps),
            cpu_pct: text::opt_view(self.cpu_pct),
            java_path: text::opt_view(self.java_path),
        }
    }
}

impl InstanceModel {
    /// What the dashboard shows of the instance.
    pub open spec fn info(self) -> InfoModel {
        InfoModel {
            id: self.id,
            name: self.config.instance.name@,
            display_name: self.shown_name(),
            minecraft_version: self.config.instance.minecraft_version@,
            loader: text::opt_view(self.config.instance.loader),
            status: self.status,
            players: self.players,
            started_at: match self.started_at {
                Some(t) => Some(t.secs),
                None => None,
            },
            port: self.config.instance.port,
            ram_mb: self.ram_mb,
            tps: self.tps,
            cpu_pct: self.cpu_pct,
            java_path: text::opt_view(self.config.server.java_path),
        }
    }
}

impl InstanceInfo {
    /// What the dashboard shows of an instance.
    pub fn from(s: &InstanceState) -> (r: Self)
        ensures
            r@ == s@.info(),
    {
        InstanceInfo {
            id: s.id.clone(),
            name: s.config.instance.name.clone(),
            display_name: s.display(),
            minecraft_version: s.config.instance.minecraft_version.clone(),
            loader: copied_opt(&s.config.instance.loader),
            status: s.status,
            players: copied(&s.players),
            started_at: match s.started_at {
                Some(t) => Some(t.secs),
                None => None,
            },
            port: s.config.instance.port,
            ram_mb: s.ram_mb,
            tps: copied_opt(&s.tps),
            cpu_pct: copied_opt(&s.cpu_pct),
            java_path: copied_opt(&s.config.server.java_path),
        }
    }
}

// ---------------------------------------------------------------------------
// Events
// ---------------------------------------------------------------------------

/// What the dashboard and the bot are told.
#[derive(Debug)]
pub enum WsEvent {
    LogLine { instance_id: String, line: String, timestamp: i64 },
    StateChanged { instance_id: String, status: InstanceStatus },
    PlayerJoined { instance_id: String, player: String },
    PlayerLeft { instance_id: String, player: String },
    BackupDone { instance_id: String, filename: String, size_bytes: u64 },
    BackupFailed { instance_id: String, error: String },
    Metrics { instance_id: String, ram_mb: u64, tps: Option<String>, cpu_pct: Option<String> },
    SetupLog { message: String },
    SetupDone { server_path: String },
    SetupFailed { error: String },
    InstanceAdded { instance: InstanceInfo },
    AutoRestarting { instance_id: String, attempt: u32, max_attempts: u32 },
    UpdateLog { instance_id: String, message: String },
    UpdateDone { instance_id: String, minecraft_version: String },
    UpdateFailed { instance_id: String, error: String },
    ModpackLog { message: String },
    ModpackDone { server_path: String },
    ModpackFailed { error: String },
    HealthAlert { instance_id: String, kind: String, message: String },
}

/// The view of an event.
pub enum EventModel {
    LogLine { id: Seq<char>, line: Seq<char>, timestamp: i64 },
    StateChanged { id: Seq<char>, status: InstanceStatus },
    PlayerJoined { id: Seq<char>, player: Seq<char> },
    PlayerLeft { id: Seq<char>, player: Seq<char> },
    BackupDone { id: Seq<char>, filename: Seq<char>, size_bytes: u64 },
    BackupFailed { id: Seq<char>, error: Seq<char> },
    Metrics { id: Seq<char>, ram_mb: u64, tps: Option<Seq<char>>, cpu_pct: Option<Seq<char>> },
    SetupLog { message: Seq<char> },
    SetupDone { server_path: Seq<char> },
    SetupFailed { error: Seq<char> },
    InstanceAdded { instance: InfoModel },
    AutoRestarting { id: Seq<char>, attempt: u32, max_attempts: u32 },
    UpdateLog { id: Seq<char>, message: Seq<char> },
    UpdateDone { id: Seq<char>, minecraft_version: Seq<char> },
    UpdateFailed { id: Seq<char>, error: Seq<char> },
    ModpackLog { message: Seq<char> },
    ModpackDone { server_path: Seq<char> },
    ModpackFailed { error: Seq<char> },
    HealthAlert { id: Seq<char>, kind: Seq<char>, message: Seq<char> },
}

impl View for WsEvent {
    type V = EventModel;

    open spec fn view(&self) -> EventModel {
        match *self {
            WsEvent::LogLine { instance_id, line, timestamp } => EventModel::LogLine {
                id: instance_id@,
                line: line@,
                timestamp,
            },
            WsEvent::StateChanged { instance_id, status } => EventModel::StateChanged {
                id: instance_id@,
                status,
            },
            WsEvent::PlayerJoined { instance_id, player } => EventModel::PlayerJoined {
                id: instance_id@,
                player: player@,
            },
            WsEvent::PlayerLeft { instance_id, player } => EventModel::PlayerLeft {
                id: instance_id@,
                player: player@,
            },
            WsEvent::BackupDone { instance_id, filename, size_bytes } => EventModel::BackupDone {
                id: instance_id@,
                filename: filename@,
                size_bytes,
            },
            WsEvent::BackupFailed { instance_id, error } => EventModel::BackupFailed {
                id: instance_id@,
                error: error@,
            },
            WsEvent::Metrics { instance_id, ram_mb, tps, cpu_pct } => EventModel::Metrics {
                id: instance_id@,
                ram_mb,
                tps: text::opt_view(tps),
                cpu_pct: text::opt_view(cpu_pct),
            },
            WsEvent::SetupLog { message } => EventModel::SetupLog { message: message@ },
            WsEvent::SetupDone { server_path } => EventModel::SetupDone {
                server_path: server_path@,
            },
            WsEvent::SetupFailed { error } => EventModel::SetupFailed { error: error@ },
            WsEvent::InstanceAdded { instance } => EventModel::InstanceAdded {
                instance: instance@,
            },
            WsEvent::AutoRestarting { instance_id, attempt, max_attempts } =>
                EventModel::AutoRestarting { id: instance_id@, attempt, max_attempts },
            WsEvent::UpdateLog { instance_id, message } => EventModel::UpdateLog {
                id: instance_id@,
                message: message@,
            },
            WsEvent::UpdateDone { instance_id, minecraft_version } => EventModel::UpdateDone {
                id: instance_id@,
                minecraft_version: minecraft_version@,
            },
            WsEvent::UpdateFailed { instance_id, error } => EventModel::UpdateFailed {
                id: instance_id@,
                error: error@,
            },
            WsEvent::ModpackLog { message } => EventModel::ModpackLog { message: message@ },
            WsEvent::ModpackDone { server_path } => EventModel::ModpackDone {
                server_path: server_path@,
            },
            WsEvent::ModpackFailed { error } => EventModel::ModpackFailed { error: error@ },
            WsEvent::HealthAlert { instance_id, kind, message } => EventModel::HealthAlert {
                id: instance_id@,
                kind: kind@,
                message: message@,
            },
        }
    }
}

/// The views of events.
pub open spec fn event_views(s: Seq<WsEvent>) -> Seq<EventModel> {
    s.map_values(|e: WsEvent| e@)
}

// ---------------------------------------------------------------------------
// The registry
// ---------------------------------------------------------------------------

/// All instances.
#[derive(Debug)]
pub struct Registry {
    pub list: Vec<InstanceState>,
}

impl View for Registry {
    type V = Seq<InstanceModel>;

    open spec fn view(&self) -> Seq<InstanceModel> {
        self.list@.map_values(|i: InstanceState| i@)
    }
}

/// No two instances share an id, and each is well formed.
pub open spec fn registry_wf(reg: Seq<InstanceModel>) -> bool {
    &&& forall|i: int, j: int| 0 <= i < j < reg.len() ==> reg[i].id != reg[j].id
    &&& forall|i: int| 0 <= i < reg.len() ==> (#[trigger] reg[i]).wf()
}

/// Where the instance with an id stands.
pub open spec fn slot(reg: Seq<InstanceModel>, id: Seq<char>) -> Option<int>
    decreases reg.len(),
{
    if reg.len() == 0 {
        None
    } else {
        match slot(reg.drop_last(), id) {
            Some(i) => Some(i),
            None => if reg.last().id == id {
                Some(reg.len() - 1)
            } else {
                None
            },
        }
    }
}

/// Whether there is an instance with an id.
pub open spec fn known(reg: Seq<InstanceModel>, id: Seq<char>) -> bool {
    slot(reg, id) is Some
}

/// Where the first instance stands that holds the one place for a running server.
pub open spec fn running_slot(reg: Seq<InstanceModel>) -> Option<int>
    decreases reg.len(),
{
    if reg.len() == 0 {
        None
    } else {
        match running_slot(reg.drop_last()) {
            Some(i) => Some(i),
            None => if is_active(reg.last().status) {
                Some(reg.len() - 1)
            } else {
                None
            },
        }
    }
}

/// What a slot is: the first place with that id, and there is none where no slot is.
pub proof fn lemma_slot(reg: Seq<InstanceModel>, id: Seq<char>)
    ensures
        match slot(reg, id) {
            Some(i) => 0 <= i < reg.len() && reg[i].id == id && forall|j: int|
                0 <= j < i ==> (#[trigger] reg[j]).id != id,
            None => forall|j: int| 0 <= j < reg.len() ==> (#[trigger] reg[j]).id != id,
        },
    decreases reg.len(),
{
    if reg.len() > 0 {
        let front = reg.drop_last();
        lemma_slot(front, id);
        assert forall|j: int| 0 <= j < front.len() implies (#[trigger] reg[j]).id == front[j].id by {
        }
    }
}

/// What a running slot is: the first active place, and none is active where there is no slot.
pub proof fn lemma_running_slot(reg: Seq<InstanceModel>)
    ensures
        match running_slot(reg) {
            Some(i) => 0 <= i < reg.len() && is_active(reg[i].status) && forall|j: int|
                0 <= j < i ==> !is_active((#[trigger] reg[j]).status),
            None => forall|j: int|
                0 <= j < reg.len() ==> !is_active((#[trigger] reg[j]).status),
        },
    decreases reg.len(),
{
    if reg.len() > 0 {
        let front = reg.drop_last();
        lemma_running_slot(front);
        assert forall|j: int| 0 <= j < front.len() implies (#[trigger] reg[j]).status
            == front[j].status by {}
    }
}

/// The registry with an instance, in the place of the one with the same id where there is one.
pub open spec fn with_instance(reg: Seq<InstanceModel>, m: InstanceModel) -> Seq<InstanceModel> {
    match slot(reg, m.id) {
        Some(i) => reg.update(i, m),
        None => reg.push(m),
    }
}

impl Registry {
    /// No two instances share an id, and each is well formed.
    pub open spec fn wf(&self) -> bool {
        registry_wf(self@)
    }

    /// A registry without any instance.
    pub fn new() -> (r: Self)
        ensures
            r@ == Seq::<InstanceModel>::empty(),
            r.wf(),
    {
        Registry { list: Vec::new() }
    }

    /// Where the instance with an id stands.
    pub fn find(&self, id: &str) -> (r: Option<usize>)
        ensures
            match r {
                Some(i) => slot(self@, id@) == Some(i as int) && i < self.list@.len(),
                None => slot(self@, id@) is None,
            },
    {
        for i in 0..self.list.len()
            invariant
                slot(self@.take(i as int), id@) is None,
        {
            let ghost t = self@.take(i + 1);
            assert(t.drop_last() =~= self@.take(i as int));
            assert(t.last() == self.list@[i as int]@);
            if text::same(self.list[i].id.as_str(), id) {
                proof {
                    lemma_slot_extends(self@, i + 1, id@);
                }
                return Some(i);
            }
        }
        assert(self@.take(self@.len() as int) =~= self@);
        None
    }

    /// Where the first instance stands that holds the one place for a running server.
    pub fn find_running(&self) -> (r: Option<usize>)
        ensures
            match r {
                Some(i) => running_slot(self@) == Some(i as int) && i < self.list@.len(),
                None => running_slot(self@) is None,
            },
    {
        for i in 0..self.list.len()
            invariant
                running_slot(self@.take(i as int)) is None,
        {
            let ghost t = self@.take(i + 1);
            assert(t.drop_last() =~= self@.take(i as int));
            assert(t.last() == self.list@[i as int]@);
            if active(self.list[i].status) {
                proof {
                    lemma_running_extends(self@, i + 1);
                }
                return Some(i);
            }
        }
        assert(self@.take(self@.len() as int) =~= self@);
        None
    }

    /// Whether there is an instance with an id.
    pub fn contains(&self, id: &str) -> (r: bool)
        ensures
            r == known(self@, id@),
    {
        self.find(id).is_some()
    }

    /// The instance with an id.
    pub fn get(&self, id: &str) -> (r: Option<&InstanceState>)
        ensures
            match r {
                Some(inst) => slot(self@, id@) matches Some(i) && inst@ == self@[i],
                None => slot(self@, id@) is None,
            },
    {
        match self.find(id) {
            Some(i) => Some(&self.list[i]),
            None => None,
        }
    }

    /// Adds an instance, in the place of the one with the same id where there is one.
    pub fn insert(&mut self, inst: InstanceState)
        requires
            old(self).wf(),
            inst@.wf(),
        ensures
            final(self).wf(),
            final(self)@ == with_instance(old(self)@, inst@),
    {
        let ghost before = self@;
        proof {
            lemma_slot(before, inst@.id);
        }
        match self.find(inst.id.as_str()) {
            Some(i) => {
                self.list.set(i, inst);
                assert(self@ =~= before.update(i as int, inst@));
            },
            None => {
                self.list.push(inst);
                assert(self@ =~= before.push(inst@));
            },
        }
    }
}

/// A slot that lies in a front part is the slot of the whole.
pub proof fn lemma_slot_extends(reg: Seq<InstanceModel>, n: int, id: Seq<char>)
    requires
        0 <= n <= reg.len(),
        slot(reg.take(n), id) is Some,
    ensures
        slot(reg, id) == slot(reg.take(n), id),
    decreases reg.len() - n,
{
    if n < reg.len() {
        assert(reg.take(n + 1).drop_last() =~= reg.take(n));
        lemma_slot_extends(reg, n + 1, id);
    } else {
        assert(reg.take(n) =~= reg);
    }
}

proof fn lemma_running_extends(reg: Seq<InstanceModel>, n: int)
    requires
        0 <= n <= reg.len(),
        running_slot(reg.take(n)) is Some,
    ensures
        running_slot(reg) == running_slot(reg.take(n)),
    decreases reg.len() - n,
{
    if n < reg.len() {
        assert(reg.take(n + 1).drop_last() =~= reg.take(n));
        lemma_running_extends(reg, n + 1);
    } else {
        assert(reg.take(n) =~= reg);
    }
}

/// An instance that was added is found, and every other instance stays as it was.
pub proof fn law_added_instance_is_found(reg: Seq<InstanceModel>, m: InstanceModel, id: Seq<char>)
    requires
        registry_wf(reg),
    ensures
        slot(with_instance(reg, m), m.id) matches Some(i) && with_instance(reg, m)[i] == m,
        id != m.id ==> (match slot(reg, id) {
            Some(i) => slot(with_instance(reg, m), id) == Some(i) && with_instance(reg, m)[i]
                == reg[i],
            None => slot(with_instance(reg, m), id) is None,
        }),
{
    let after = with_instance(reg, m);
    lemma_slot(reg, m.id);
    lemma_slot(after, m.id);
    lemma_slot(reg, id);
    lemma_slot(after, id);
    match slot(reg, m.id) {
        Some(i) => {
            assert(after[i].id == m.id);
        },
        None => {
            assert(after[reg.len() as int].id == m.id);
        },
    }
    if id != m.id {
        if let Some(i) = slot(reg, id) {
            assert(after[i] == reg[i]);
            assert(after[i].id == id);
            let k = slot(after, id).unwrap();
            if k < i {
                assert(after[k].id == id);
                assert(reg[k].id == id);
            }
        } else if let Some(k) = slot(after, id) {
            assert(after[k].id == id);
            assert(reg[k].id == id);
        }
    }
}

} // verus!
