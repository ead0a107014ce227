//! Self-healing: which kind of failure a component is prone to, the
//! recovery procedure for each kind and its execution, and maintenance
//! windows scheduled ahead of predicted failures.
//!
//! Health scores and failure probabilities are fractions computed by the
//! embedding code; the decisions here take their results.

use vstd::prelude::*;
use vstd::string::*;
use crate::text::{str_contains, contains_chars, str_less, chars_less};
use crate::events::{
    EventType, KernelEvent, KernelEventSystem, event_view, lemma_published_chain, lemma_published_nothing, published,
    publish_event,
};

verus! {

/// Direction of a health metric.
#[derive(Clone, Copy, PartialEq, Eq, Structural, Debug)]
pub enum Trend {
    Improving,
    Stable,
    Degrading,
    Critical,
}

/// The number a trend is reported as.
pub open spec fn trend_number(t: Trend) -> int {
    match t {
        Trend::Improving => 1,
        Trend::Stable => 0,
        Trend::Degrading => -1,
        Trend::Critical => -2,
    }
}

/// The number `trend` is reported as; see [`trend_number`].
pub fn trend_value(trend: Trend) -> (r: i8)
    ensures
        r == trend_number(trend),
{
    match trend {
        Trend::Improving => 1,
        Trend::Stable => 0,
        Trend::Degrading => -1,
        Trend::Critical => -2,
    }
}

/// Kind of failure.
#[derive(Clone, Copy, PartialEq, Eq, Structural, Debug)]
pub enum FailureType {
    MemoryExhaustion,
    CPUOverload,
    IOFailure,
    NetworkFailure,
    ServiceCrash,
    KernelPanic,
}

/// The failure a component is prone to, by what its name contains,
/// checked in the order memory, cpu, io, network, service.
pub open spec fn failure_type_of(component: Seq<char>) -> FailureType {
    if contains_chars(component, seq!['m', 'e', 'm', 'o', 'r', 'y']) {
        FailureType::MemoryExhaustion
    } else if contains_chars(component, seq!['c', 'p', 'u']) {
        FailureType::CPUOverload
    } else if contains_chars(component, seq!['i', 'o']) {
        FailureType::IOFailure
    } else if contains_chars(component, seq!['n', 'e', 't', 'w', 'o', 'r', 'k']) {
        FailureType::NetworkFailure
    } else if contains_chars(component, seq!['s', 'e', 'r', 'v', 'i', 'c', 'e']) {
        FailureType::ServiceCrash
    } else {
        FailureType::KernelPanic
    }
}

/// The failure `component` is prone to; see [`failure_type_of`].
pub fn predict_failure_type(component: &str) -> (r: FailureType)
    ensures
        r == failure_type_of(component@),
{
    let memory = ['m', 'e', 'm', 'o', 'r', 'y'];
    let cpu = ['c', 'p', 'u'];
    let io = ['i', 'o'];
    let network = ['n', 'e', 't', 'w', 'o', 'r', 'k'];
    let service = ['s', 'e', 'r', 'v', 'i', 'c', 'e'];
    assert(memory@ =~= seq!['m', 'e', 'm', 'o', 'r', 'y']);
    assert(cpu@ =~= seq!['c', 'p', 'u']);
    assert(io@ =~= seq!['i', 'o']);
    assert(network@ =~= seq!['n', 'e', 't', 'w', 'o', 'r', 'k']);
    assert(service@ =~= seq!['s', 'e', 'r', 'v', 'i', 'c', 'e']);
    if str_contains(component, memory.as_slice()) {
        FailureType::MemoryExhaustion
    } else if str_contains(component, cpu.as_slice()) {
        FailureType::CPUOverload
    } else if str_contains(component, io.as_slice()) {
        FailureType::IOFailure
    } else if str_contains(component, network.as_slice()) {
        FailureType::NetworkFailure
    } else if str_contains(component, service.as_slice()) {
        FailureType::ServiceCrash
    } else {
        FailureType::KernelPanic
    }
}

/// Resources to give an agent.
#[derive(Clone, Copy, PartialEq, Eq, Structural, Debug)]
pub struct ResourceAllocation {
    pub cpu_cores: u32,
    pub memory_bytes: u64,
}

/// A step of a recovery procedure.
pub enum RecoveryStep {
    RestartComponent(String),
    ReallocateResources(u64, ResourceAllocation),
    ClearCache,
    ResetState,
    EscalateToOperator,
}

/// Why healing failed.
#[derive(Clone, Copy, PartialEq, Eq, Structural, Debug)]
pub enum HealingError {
    NoProcedure,
    ExecutionFailed,
    EscalationRequired,
}

/// The component a restart step names in the built-in procedures.
pub open spec fn service_name() -> Seq<char> {
    seq!['s', 'e', 'r', 'v', 'i', 'c', 'e']
}

/// Whether `steps` are the built-in recovery procedure for `failure`:
/// clear the cache and give agent 0 one core and 1 GiB after memory
/// exhaustion, two cores and 512 MiB after a CPU overload, restart the
/// service after a crash.
pub open spec fn is_procedure(failure: FailureType, steps: Seq<RecoveryStep>) -> bool {
    match failure {
        FailureType::MemoryExhaustion => {
            &&& steps.len() == 2
            &&& steps[0] is ClearCache
            &&& steps[1] == RecoveryStep::ReallocateResources(
                0,
                ResourceAllocation { cpu_cores: 1, memory_bytes: 0x4000_0000 },
            )
        },
        FailureType::CPUOverload => {
            &&& steps.len() == 1
            &&& steps[0] == RecoveryStep::ReallocateResources(
                0,
                ResourceAllocation { cpu_cores: 2, memory_bytes: 0x2000_0000 },
            )
        },
        FailureType::ServiceCrash => {
            &&& steps.len() == 1
            &&& steps[0] matches RecoveryStep::RestartComponent(c) && c@ == service_name()
        },
        _ => false,
    }
}

/// Whether `failure` has a built-in recovery procedure.
pub open spec fn has_procedure(failure: FailureType) -> bool {
    failure == FailureType::MemoryExhaustion || failure == FailureType::CPUOverload || failure
        == FailureType::ServiceCrash
}

/// The built-in recovery procedure for `failure`, if it has one.
pub fn recovery_procedure(failure: FailureType) -> (r: Option<Vec<RecoveryStep>>)
    ensures
        r is Some == has_procedure(failure),
        r matches Some(steps) ==> is_procedure(failure, steps@),
{
    match failure {
        FailureType::MemoryExhaustion => {
            let mut steps: Vec<RecoveryStep> = Vec::new();
            steps.push(RecoveryStep::ClearCache);
            steps.push(
                RecoveryStep::ReallocateResources(
                    0,
                    ResourceAllocation { cpu_cores: 1, memory_bytes: 0x4000_0000 },
                ),
            );
            assert(steps@[0] is ClearCache);
            assert(steps@[1] == RecoveryStep::ReallocateResources(
                0,
                ResourceAllocation { cpu_cores: 1, memory_bytes: 0x4000_0000 },
            ));
            assert(steps@.len() == 2);
            assert(is_procedure(failure, steps@));
            Some(steps)
        },
        FailureType::CPUOverload => {
            let mut steps: Vec<RecoveryStep> = Vec::new();
            steps.push(
                RecoveryStep::ReallocateResources(
                    0,
                    ResourceAllocation { cpu_cores: 2, memory_bytes: 0x2000_0000 },
                ),
            );
            assert(is_procedure(failure, steps@));
            Some(steps)
        },
        FailureType::ServiceCrash => {
            let name = String::from_str("service");
            proof {
                reveal_strlit("service");
                assert(name@ =~= service_name());
            }
            let mut steps: Vec<RecoveryStep> = Vec::new();
            steps.push(RecoveryStep::RestartComponent(name));
            assert(steps@[0] matches RecoveryStep::RestartComponent(c) && c@ == service_name());
            Some(steps)
        },
        _ => None,
    }
}

/// Whether a step can be carried out without an operator.
pub open spec fn step_ok(step: RecoveryStep) -> bool {
    !(step is EscalateToOperator)
}

/// The event that announces recovery step `step` at `now`: a
/// [`EventType::System`] event, about the agent for a reallocation; none
/// for an escalation, which is left to an operator.
pub open spec fn step_notice(step: RecoveryStep, now: u64) -> Seq<(EventType, u64, Option<u64>, Seq<u8>)> {
    match step {
        RecoveryStep::ReallocateResources(agent, _) => seq![
            (EventType::System, now, Some(agent), Seq::<u8>::empty()),
        ],
        RecoveryStep::EscalateToOperator => Seq::empty(),
        _ => seq![(EventType::System, now, None, Seq::<u8>::empty())],
    }
}

/// The events that announce `steps` at `now`, in order.
pub open spec fn steps_notices(steps: Seq<RecoveryStep>, now: u64) -> Seq<(EventType, u64, Option<u64>, Seq<u8>)>
    decreases steps.len(),
{
    if steps.len() == 0 {
        Seq::empty()
    } else {
        steps_notices(steps.drop_last(), now) + step_notice(steps.last(), now)
    }
}

/// The events that healing `failure` at `now` announces: one per step of
/// its procedure.
pub open spec fn healing_notices(failure: FailureType, now: u64) -> Seq<(EventType, u64, Option<u64>, Seq<u8>)> {
    match failure {
        FailureType::MemoryExhaustion => seq![
            (EventType::System, now, None, Seq::<u8>::empty()),
            (EventType::System, now, Some(0u64), Seq::<u8>::empty()),
        ],
        FailureType::CPUOverload => seq![(EventType::System, now, Some(0u64), Seq::<u8>::empty())],
        FailureType::ServiceCrash => seq![(EventType::System, now, None, Seq::<u8>::empty())],
        _ => Seq::empty(),
    }
}

/// Carries out one recovery step and announces it on `events` at `now`,
/// as [`step_notice`] says: all but escalation succeed.
pub fn execute_step(step: &RecoveryStep, events: &mut Option<KernelEventSystem>, now: u64) -> (r: Result<
    (),
    HealingError,
>)
    ensures
        r is Ok == step_ok(*step),
        r is Err ==> r == Err::<(), HealingError>(HealingError::EscalationRequired),
        published(*old(events), *final(events), step_notice(*step, now)),
{
    let agent_id = match step {
        RecoveryStep::EscalateToOperator => {
            proof {
                lemma_published_nothing(*events);
            }
            return Err(HealingError::EscalationRequired);
        },
        RecoveryStep::ReallocateResources(agent, _) => Some(*agent),
        _ => None,
    };
    let notice = KernelEvent { event_type: EventType::System, timestamp: now, agent_id, data: Vec::new() };
    proof {
        assert(seq![event_view(notice)] =~= step_notice(*step, now));
    }
    publish_event(events, notice);
    Ok(())
}

/// The record of one healing attempt.
#[derive(Clone, Copy, PartialEq, Eq, Structural, Debug)]
pub struct HealingEvent {
    pub timestamp: u64,
    pub failure_type: FailureType,
    pub success: bool,
    pub recovery_time: u64,
}

/// Carries out recovery procedures and records each attempt.
pub struct AutonomousHealer {
    healing_history: Vec<HealingEvent>,
}

impl AutonomousHealer {
    /// The attempts, oldest first.
    pub closed spec fn history(&self) -> Seq<HealingEvent> {
        self.healing_history@
    }

    pub fn new() -> (h: Self)
        ensures
            h.history() == Seq::<HealingEvent>::empty(),
    {
        AutonomousHealer { healing_history: Vec::new() }
    }

    /// Heals a predicted `failure`, started at `start` and done at `end`:
    /// runs its procedure step by step, stopping at a step that fails, and
    /// records the attempt; without a procedure nothing is recorded. Each
    /// step is announced on `events` at `start`.
    pub fn attempt_healing(
        &mut self,
        failure: FailureType,
        start: u64,
        end: u64,
        events: &mut Option<KernelEventSystem>,
    ) -> (r: Result<(), HealingError>)
        requires
            start <= end,
        ensures
            published(*old(events), *final(events), healing_notices(failure, start)),
            !has_procedure(failure) ==> r == Err::<(), HealingError>(HealingError::NoProcedure)
                && final(self).history() == old(self).history(),
            has_procedure(failure) ==> r is Ok && final(self).history() == old(self).history().push(
                HealingEvent {
                    timestamp: start,
                    failure_type: failure,
                    success: true,
                    recovery_time: (end - start) as u64,
                },
            ),
    {
        let steps = match recovery_procedure(failure) {
            None => {
                proof {
                    lemma_published_nothing(*events);
                }
                return Err(HealingError::NoProcedure);
            },
            Some(steps) => steps,
        };
        let mut i: usize = 0;
        proof {
            lemma_published_nothing(*events);
            assert(steps@.subrange(0, 0) =~= Seq::<RecoveryStep>::empty());
        }
        while i < steps.len()
            invariant
                i <= steps@.len(),
                is_procedure(failure, steps@),
                published(*old(events), *events, steps_notices(steps@.subrange(0, i as int), start)),
                self.history() == old(self).history(),
                forall|j: int| 0 <= j < i ==> step_ok(#[trigger] steps@[j]),
            decreases steps.len() - i,
        {
            proof {
                assert(step_ok(steps@[i as int]));
            }
            let ghost ev_before = *events;
            let result = execute_step(&steps[i], events, start);
            proof {
                lemma_published_chain(
                    *old(events),
                    ev_before,
                    *events,
                    steps_notices(steps@.subrange(0, i as int), start),
                    step_notice(steps@[i as int], start),
                );
                assert(steps@.subrange(0, i as int + 1).drop_last() =~= steps@.subrange(0, i as int));
            }
            match result {
                Err(e) => {
                    self.healing_history.push(
                        HealingEvent {
                            timestamp: start,
                            failure_type: failure,
                            success: false,
                            recovery_time: end - start,
                        },
                    );
                    return Err(e);
                },
                Ok(()) => {},
            }
            i = i + 1;
        }
        proof {
            assert(steps@.subrange(0, steps@.len() as int) =~= steps@);
            reveal_with_fuel(steps_notices, 3);
            if failure == FailureType::ServiceCrash {
                assert(steps_notices(steps@, start) =~= healing_notices(failure, start));
            } else if failure == FailureType::CPUOverload {
                assert(steps_notices(steps@, start) =~= healing_notices(failure, start));
            } else {
                assert(steps@.drop_last().drop_last() =~= Seq::<RecoveryStep>::empty());
                assert(steps_notices(steps@, start) =~= healing_notices(failure, start));
            }
        }
        self.healing_history.push(
            HealingEvent { timestamp: start, failure_type: failure, success: true, recovery_time: end - start },
        );
        Ok(())
    }
}

/// Kind of maintenance.
#[derive(Clone, Copy, PartialEq, Eq, Structural, Debug)]
pub enum MaintenanceType {
    Preventive,
    Corrective,
    Predictive,
}

/// Why maintenance could not be scheduled or done.
#[derive(Clone, Copy, PartialEq, Eq, Structural, Debug)]
pub enum MaintenanceError {
    NoPrediction,
    NoPredictedTime,
    NotScheduled,
    ExecutionFailed,
}

/// A scheduled maintenance window.
pub struct MaintenanceWindow {
    pub component: String,
    pub scheduled_time: u64,
    pub maintenance_type: MaintenanceType,
    pub estimated_duration: u64,
    pub priority: u32,
}

/// A maintenance window as plain values.
pub open spec fn window_view(w: MaintenanceWindow) -> (Seq<char>, u64, MaintenanceType, u64, u32) {
    (w.component@, w.scheduled_time, w.maintenance_type, w.estimated_duration, w.priority)
}

/// A maintenance that was done.
pub struct MaintenanceEvent {
    pub timestamp: u64,
    pub component: String,
    pub maintenance_type: MaintenanceType,
    pub duration: u64,
    pub success: bool,
}

/// A maintenance event as plain values.
pub open spec fn maintenance_view(e: MaintenanceEvent) -> (u64, Seq<char>, MaintenanceType, u64, bool) {
    (e.timestamp, e.component@, e.maintenance_type, e.duration, e.success)
}

/// What a failure prediction says for scheduling: when the failure is
/// expected, if known, and the priority its probability gives.
#[derive(Clone, Copy, Debug)]
pub struct FailureForecast {
    pub predicted_time: Option<u64>,
    pub priority: u32,
}

/// How long a maintenance is expected to take, in nanoseconds.
pub const MAINTENANCE_DURATION: u64 = 300_000_000_000;

/// How many maintenance events are kept.
pub const MAINTENANCE_HISTORY: usize = 10000;

/// Maintenance is scheduled a tenth of the time ahead of the predicted
/// failure.
pub open spec fn maintenance_time(predicted: u64) -> u64 {
    (predicted - predicted / 10) as u64
}

/// The windows of `schedule` with their components.
pub open spec fn components(schedule: Seq<(Seq<char>, u64, MaintenanceType, u64, u32)>) -> Seq<Seq<char>> {
    schedule.map_values(|w: (Seq<char>, u64, MaintenanceType, u64, u32)| w.0)
}

/// Where `component` sits or would sit in a schedule sorted by component.
pub open spec fn slot(schedule: Seq<(Seq<char>, u64, MaintenanceType, u64, u32)>, component: Seq<char>) -> int
    decreases schedule.len(),
{
    if schedule.len() == 0 {
        0
    } else if chars_less(schedule.last().0, component) {
        schedule.len() as int
    } else {
        slot(schedule.drop_last(), component)
    }
}

/// `schedule` with `w` in the place of its component.
pub open spec fn scheduled(
    schedule: Seq<(Seq<char>, u64, MaintenanceType, u64, u32)>,
    w: (Seq<char>, u64, MaintenanceType, u64, u32),
) -> Seq<(Seq<char>, u64, MaintenanceType, u64, u32)> {
    let i = slot(schedule, w.0);
    if i < schedule.len() && schedule[i].0 == w.0 {
        schedule.update(i, w)
    } else {
        schedule.insert(i, w)
    }
}

/// The position of the first window due after `now` with the earliest
/// time, if any.
pub open spec fn next_due(schedule: Seq<(Seq<char>, u64, MaintenanceType, u64, u32)>, now: u64) -> Option<int>
    decreases schedule.len(),
{
    if schedule.len() == 0 {
        None
    } else {
        let last = schedule.len() - 1;
        match next_due(schedule.drop_last(), now) {
            None => if schedule[last].1 > now {
                Some(last)
            } else {
                None
            },
            Some(i) => if schedule[last].1 > now && schedule[last].1 < schedule[i].1 {
                Some(last)
            } else {
                Some(i)
            },
        }
    }
}

/// The position of the window of `component`, if any.
pub open spec fn window_of(schedule: Seq<(Seq<char>, u64, MaintenanceType, u64, u32)>, component: Seq<char>) -> Option<
    int,
>
    decreases schedule.len(),
{
    if schedule.len() == 0 {
        None
    } else {
        match window_of(schedule.drop_last(), component) {
            Some(i) => Some(i),
            None => if schedule.last().0 == component {
                Some(schedule.len() - 1)
            } else {
                None
            },
        }
    }
}

/// `history` with `e` added, the oldest dropped past the limit.
pub open spec fn kept_history(
    history: Seq<(u64, Seq<char>, MaintenanceType, u64, bool)>,
    e: (u64, Seq<char>, MaintenanceType, u64, bool),
) -> Seq<(u64, Seq<char>, MaintenanceType, u64, bool)> {
    let h = history.push(e);
    if h.len() > MAINTENANCE_HISTORY {
        h.drop_first()
    } else {
        h
    }
}

fn copy_string(s: &String) -> (c: String)
    ensures
        c@ == s@,
{
    s.clone()
}

fn copy_window(w: &MaintenanceWindow) -> (c: MaintenanceWindow)
    ensures
        window_view(c) == window_view(*w),
{
    MaintenanceWindow {
        component: copy_string(&w.component),
        scheduled_time: w.scheduled_time,
        maintenance_type: w.maintenance_type,
        estimated_duration: w.estimated_duration,
        priority: w.priority,
    }
}

fn copy_event(e: &MaintenanceEvent) -> (c: MaintenanceEvent)
    ensures
        maintenance_view(c) == maintenance_view(*e),
{
    MaintenanceEvent {
        timestamp: e.timestamp,
        component: copy_string(&e.component),
        maintenance_type: e.maintenance_type,
        duration: e.duration,
        success: e.success,
    }
}

fn string_of(s: &str) -> (r: String)
    ensures
        r@ == s@,
{
    String::from_str(s)
}

/// Maintenance ahead of predicted failures: at most one window per
/// component, kept in the order of component names, and the record of
/// maintenance done.
pub struct PredictiveMaintenance {
    schedule: Vec<MaintenanceWindow>,
    history: Vec<MaintenanceEvent>,
}

impl PredictiveMaintenance {
    /// The scheduled windows, by component.
    pub closed spec fn schedule(&self) -> Seq<(Seq<char>, u64, MaintenanceType, u64, u32)> {
        self.schedule@.map_values(|w: MaintenanceWindow| window_view(w))
    }

    /// The maintenance done, oldest first.
    pub closed spec fn history(&self) -> Seq<(u64, Seq<char>, MaintenanceType, u64, bool)> {
        self.history@.map_values(|e: MaintenanceEvent| maintenance_view(e))
    }

    pub fn new() -> (m: Self)
        ensures
            m.schedule() == Seq::<(Seq<char>, u64, MaintenanceType, u64, u32)>::empty(),
            m.history() == Seq::<(u64, Seq<char>, MaintenanceType, u64, bool)>::empty(),
    {
        let m = PredictiveMaintenance { schedule: Vec::new(), history: Vec::new() };
        proof {
            assert(m.schedule() =~= Seq::<(Seq<char>, u64, MaintenanceType, u64, u32)>::empty());
            assert(m.history() =~= Seq::<(u64, Seq<char>, MaintenanceType, u64, bool)>::empty());
        }
        m
    }

    fn slot_of(&self, component: &str) -> (r: usize)
        ensures
            r == slot(self.schedule(), component@),
    {
        let mut i: usize = self.schedule.len();
        proof {
            assert(self.schedule().subrange(0, i as int) =~= self.schedule());
        }
        while i > 0
            invariant
                i <= self.schedule@.len(),
                slot(self.schedule(), component@) == slot(self.schedule().subrange(0, i as int), component@),
            decreases i,
        {
            proof {
                assert(self.schedule().subrange(0, i as int).drop_last() =~= self.schedule().subrange(
                    0,
                    i as int - 1,
                ));
                assert(self.schedule()[i - 1] == window_view(self.schedule@[i - 1]));
            }
            if str_less(self.schedule[i - 1].component.as_str(), component) {
                return i;
            }
            i = i - 1;
        }
        i
    }

    /// Schedules maintenance of `component` ahead of the failure that
    /// `forecast` predicts, replacing its window if it has one: a tenth of
    /// the time before the predicted failure, for five minutes, at the
    /// forecast's priority.
    pub fn schedule_maintenance(&mut self, component: &str, forecast: Option<FailureForecast>) -> (r:
        Result<(), MaintenanceError>)
        ensures
            final(self).history() == old(self).history(),
            match forecast {
                None => {
                    &&& r == Err::<(), MaintenanceError>(MaintenanceError::NoPrediction)
                    &&& final(self).schedule() == old(self).schedule()
                },
                Some(f) => match f.predicted_time {
                    None => {
                        &&& r == Err::<(), MaintenanceError>(MaintenanceError::NoPredictedTime)
                        &&& final(self).schedule() == old(self).schedule()
                    },
                    Some(t) => r is Ok && final(self).schedule() == scheduled(
                        old(self).schedule(),
                        (
                            component@,
                            maintenance_time(t),
                            MaintenanceType::Predictive,
                            MAINTENANCE_DURATION,
                            f.priority,
                        ),
                    ),
                },
            },
    {
        let f = match forecast {
            None => {
                return Err(MaintenanceError::NoPrediction);
            },
            Some(f) => f,
        };
        let predicted = match f.predicted_time {
            None => {
                return Err(MaintenanceError::NoPredictedTime);
            },
            Some(t) => t,
        };
        let window = MaintenanceWindow {
            component: string_of(component),
            scheduled_time: predicted - predicted / 10,
            maintenance_type: MaintenanceType::Predictive,
            estimated_duration: MAINTENANCE_DURATION,
            priority: f.priority,
        };
        let ghost w = window_view(window);
        let i = self.slot_of(component);
        proof {
            assert(i <= self.schedule().len()) by {
                lemma_slot_bounds(self.schedule(), component@);
            }
        }
        if i < self.schedule.len() && str_equals_string(&self.schedule[i].component, component) {
            let ghost before = self.schedule@;
            self.schedule.set(i, window);
            proof {
                assert(self.schedule() =~= old(self).schedule().update(i as int, w));
            }
        } else {
            let ghost before = self.schedule@;
            self.schedule.insert(i, window);
            proof {
                assert(self.schedule() =~= old(self).schedule().insert(i as int, w));
            }
        }
        Ok(())
    }

    /// The first window due after `now` with the earliest time, if any.
    pub fn get_next_maintenance(&self, now: u64) -> (r: Option<MaintenanceWindow>)
        ensures
            match next_due(self.schedule(), now) {
                None => r is None,
                Some(i) => r matches Some(w) && window_view(w) == self.schedule()[i],
            },
    {
        let mut best: Option<usize> = None;
        let mut i: usize = 0;
        while i < self.schedule.len()
            invariant
                i <= self.schedule@.len(),
                match next_due(self.schedule().subrange(0, i as int), now) {
                    None => best is None,
                    Some(k) => best == Some(k as usize) && 0 <= k < i,
                },
            decreases self.schedule.len() - i,
        {
            proof {
                assert(self.schedule().subrange(0, i as int + 1).drop_last() =~= self.schedule().subrange(
                    0,
                    i as int,
                ));
                assert(self.schedule()[i as int] == window_view(self.schedule@[i as int]));
            }
            let t = self.schedule[i].scheduled_time;
            match best {
                None => {
                    if t > now {
                        best = Some(i);
                    }
                },
                Some(b) => {
                    proof {
                        assert(self.schedule()[b as int] == window_view(self.schedule@[b as int]));
                    }
                    if t > now && t < self.schedule[b].scheduled_time {
                        best = Some(i);
                    }
                },
            }
            i = i + 1;
        }
        proof {
            assert(self.schedule().subrange(0, self.schedule@.len() as int) =~= self.schedule());
        }
        match best {
            None => None,
            Some(b) => {
                proof {
                    assert(self.schedule()[b as int] == window_view(self.schedule@[b as int]));
                }
                Some(copy_window(&self.schedule[b]))
            },
        }
    }

    /// Carries out the maintenance scheduled for `component`, begun at
    /// `start` and done at `end`: its window goes, and the maintenance is
    /// recorded as a success, keeping the last ten thousand. Returns the
    /// kind of maintenance, which says how the component's health is
    /// raised.
    pub fn execute_maintenance(&mut self, component: &str, start: u64, end: u64) -> (r: Result<
        MaintenanceType,
        MaintenanceError,
    >)
        requires
            start <= end,
        ensures
            match window_of(old(self).schedule(), component@) {
                None => {
                    &&& r == Err::<MaintenanceType, MaintenanceError>(MaintenanceError::NotScheduled)
                    &&& final(self).schedule() == old(self).schedule()
                    &&& final(self).history() == old(self).history()
                },
                Some(i) => {
                    let w = old(self).schedule()[i];
                    &&& r == Ok::<MaintenanceType, MaintenanceError>(w.2)
                    &&& final(self).schedule() == old(self).schedule().remove(i)
                    &&& final(self).history() == kept_history(
                        old(self).history(),
                        (start, component@, w.2, (end - start) as u64, true),
                    )
                },
            },
    {
        let mut i: usize = 0;
        let mut found: Option<usize> = None;
        while i < self.schedule.len()
            invariant_except_break
                found is None,
                window_of(self.schedule().subrange(0, i as int), component@) is None,
            invariant
                i <= self.schedule@.len(),
            ensures
                match found {
                    None => window_of(
                        self.schedule().subrange(0, self.schedule@.len() as int),
                        component@,
                    ) is None,
                    Some(k) => window_of(self.schedule(), component@) == Some(k as int) && k
                        < self.schedule@.len(),
                },
            decreases self.schedule.len() - i,
        {
            proof {
                assert(self.schedule().subrange(0, i as int + 1).drop_last() =~= self.schedule().subrange(
                    0,
                    i as int,
                ));
                assert(self.schedule()[i as int] == window_view(self.schedule@[i as int]));
            }
            if str_equals_string(&self.schedule[i].component, component) {
                proof {
                    lemma_window_prefix(self.schedule(), component@, i as int + 1);
                }
                found = Some(i);
                break;
            }
            i = i + 1;
        }
        proof {
            if found is None {
                assert(self.schedule().subrange(0, self.schedule@.len() as int) =~= self.schedule());
            }
        }
        let k = match found {
            None => {
                return Err(MaintenanceError::NotScheduled);
            },
            Some(k) => k,
        };
        let ghost before = self.schedule@;
        let window = self.schedule.remove(k);
        proof {
            assert(self.schedule() =~= old(self).schedule().remove(k as int));
            assert(old(self).schedule()[k as int] == window_view(before[k as int]));
        }
        let event = MaintenanceEvent {
            timestamp: start,
            component: string_of(component),
            maintenance_type: window.maintenance_type,
            duration: end - start,
            success: true,
        };
        let ghost ev = maintenance_view(event);
        let ghost h0 = self.history@;
        self.history.push(event);
        if self.history.len() > MAINTENANCE_HISTORY {
            self.history.remove(0);
            proof {
                assert(self.history() =~= old(self).history().push(ev).drop_first());
            }
        } else {
            proof {
                assert(self.history() =~= old(self).history().push(ev));
            }
        }
        Ok(window.maintenance_type)
    }

    /// The maintenance done on `component`, or all when none is named,
    /// oldest first.
    pub fn get_history(&self, component: Option<&str>) -> (r: Vec<MaintenanceEvent>)
        ensures
            r@.map_values(|e: MaintenanceEvent| maintenance_view(e)) == match component {
                None => self.history(),
                Some(c) => self.history().filter(
                    |e: (u64, Seq<char>, MaintenanceType, u64, bool)| e.1 == c@,
                ),
            },
    {
        let mut r: Vec<MaintenanceEvent> = Vec::new();
        let mut i: usize = 0;
        while i < self.history.len()
            invariant
                i <= self.history@.len(),
                r@.map_values(|e: MaintenanceEvent| maintenance_view(e)) == match component {
                    None => self.history().subrange(0, i as int),
                    Some(c) => self.history().subrange(0, i as int).filter(
                        |e: (u64, Seq<char>, MaintenanceType, u64, bool)| e.1 == c@,
                    ),
                },
            decreases self.history.len() - i,
        {
            proof {
                assert(self.history().subrange(0, i as int + 1).drop_last() =~= self.history().subrange(
                    0,
                    i as int,
                ));
                assert(self.history()[i as int] == maintenance_view(self.history@[i as int]));
                reveal(Seq::filter);
            }
            let keep = match component {
                None => true,
                Some(c) => str_equals_string(&self.history[i].component, c),
            };
            let ghost before = r@;
            if keep {
                let e = copy_event(&self.history[i]);
                r.push(e);
                proof {
                    assert(r@.map_values(|e: MaintenanceEvent| maintenance_view(e)) =~= before.map_values(
                        |e: MaintenanceEvent| maintenance_view(e),
                    ).push(maintenance_view(e)));
                }
            }
            proof {
                if component is None {
                    assert(self.history().subrange(0, i as int + 1) =~= self.history().subrange(
                        0,
                        i as int,
                    ).push(self.history()[i as int]));
                }
            }
            i = i + 1;
        }
        proof {
            assert(self.history().subrange(0, self.history@.len() as int) =~= self.history());
        }
        r
    }
}

/// Whether `a` holds exactly the characters of `b`.
fn str_equals_string(a: &String, b: &str) -> (r: bool)
    ensures
        r == (a@ == b@),
{
    let x = a.as_str();
    let n = x.unicode_len();
    let m = b.unicode_len();
    if n != m {
        return false;
    }
    let mut i: usize = 0;
    while i < n
        invariant
            n == x@.len(),
            m == b@.len(),
            n == m,
            x@ == a@,
            i <= n,
            forall|j: int| 0 <= j < i ==> x@[j] == b@[j],
        decreases n - i,
    {
        if x.get_char(i) != b.get_char(i) {
            return false;
        }
        i = i + 1;
    }
    assert(x@ =~= b@);
    true
}

proof fn lemma_slot_bounds(schedule: Seq<(Seq<char>, u64, MaintenanceType, u64, u32)>, component: Seq<char>)
    ensures
        0 <= slot(schedule, component) <= schedule.len(),
    decreases schedule.len(),
{
    if schedule.len() > 0 {
        lemma_slot_bounds(schedule.drop_last(), component);
    }
}

proof fn lemma_window_prefix(
    schedule: Seq<(Seq<char>, u64, MaintenanceType, u64, u32)>,
    component: Seq<char>,
    n: int,
)
    requires
        0 <= n <= schedule.len(),
        window_of(schedule.subrange(0, n), component) is Some,
    ensures
        window_of(schedule, component) == window_of(schedule.subrange(0, n), component),
    decreases schedule.len() - n,
{
    if n < schedule.len() {
        assert(schedule.subrange(0, n + 1).drop_last() =~= schedule.subrange(0, n));
        lemma_window_prefix(schedule, component, n + 1);
    } else {
        assert(schedule.subrange(0, n) =~= schedule);
    }
}

/// Sets up predictive maintenance.
pub fn init_maintenance(maintenance: &mut Option<PredictiveMaintenance>)
    ensures
        (*final(maintenance)) matches Some(m) && m.schedule().len() == 0 && m.history().len() == 0,
{
    *maintenance = Some(PredictiveMaintenance::new());
}

} // verus!
