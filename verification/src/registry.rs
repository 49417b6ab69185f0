use vstd::prelude::*;

use crate::command::{CommandOutcome, CommandResult};
use crate::effect::EffectKind;

verus! {

/// Default rolling window for the failure policy: the three most recent
/// consecutive transport failures must fall within this many milliseconds
/// to mark a controller unreachable.
pub const DEFAULT_HEALTH_WINDOW_MS: u64 = 5000;

/// Consecutive transport failures that mark a controller unreachable.
pub const CONSECUTIVE_FAILURE_LIMIT: u64 = 3;

/// The registry's belief about a controller's reachability.
#[derive(Clone, Copy, PartialEq, Eq, Structural, Debug)]
pub enum HealthState {
    Unknown,
    Reachable,
    Unreachable,
    Faulted,
}

/// Network endpoint of a controller, held as plain values: IPv4 host and
/// port. The concrete socket handling lives with the transport driver.
#[derive(Clone, Copy, PartialEq, Eq, Structural, Debug)]
pub struct NetAddress {
    pub host: u32,
    pub port: u16,
}

/// A known controller: endpoint, declared capabilities, current health,
/// and the timestamps of the transport failures seen since its last
/// success (the material of the failure policy).
#[derive(Debug)]
pub struct Controller {
    pub id: u64,
    pub address: NetAddress,
    pub capabilities: Vec<EffectKind>,
    pub health: HealthState,
    pub failure_times: Vec<u64>,
}

/// Mathematical value of a controller.
pub ghost struct ControllerView {
    pub id: u64,
    pub address: NetAddress,
    pub capabilities: Seq<EffectKind>,
    pub health: HealthState,
    pub failure_times: Seq<u64>,
}

impl View for Controller {
    type V = ControllerView;

    open spec fn view(&self) -> ControllerView {
        ControllerView {
            id: self.id,
            address: self.address,
            capabilities: self.capabilities@,
            health: self.health,
            failure_times: self.failure_times@,
        }
    }
}

impl ControllerView {
    /// Whether the controller declares the effect type.
    pub open spec fn supports(self, kind: EffectKind) -> bool {
        exists|k: int| 0 <= k < self.capabilities.len() && self.capabilities[k] == kind
    }
}

/// The controller views of a controller list, index for index.
pub open spec fn controller_views_of(cs: Seq<Controller>) -> Seq<ControllerView> {
    Seq::new(cs.len(), |i: int| cs[i]@)
}

/// Registration conflict: the endpoint is already registered.
#[derive(Clone, Copy, PartialEq, Eq, Structural, Debug)]
pub struct DuplicateControllerError {
    pub address: NetAddress,
}

/// Tracks the known controllers and their live health. Health is mutated
/// only here, in response to transport outcomes, one controller at a
/// time; the scheduling path only reads it.
#[derive(Debug)]
pub struct Registry {
    pub controllers: Vec<Controller>,
    pub window_ms: u64,
}

/// Mathematical value of the registry.
pub ghost struct RegistryView {
    pub controllers: Seq<ControllerView>,
    pub window_ms: u64,
}

impl View for Registry {
    type V = RegistryView;

    open spec fn view(&self) -> RegistryView {
        RegistryView { controllers: controller_views_of(self.controllers@), window_ms: self.window_ms }
    }
}

/// The failure policy's trigger: the three most recent consecutive
/// failures span at most the rolling window.
pub open spec fn failures_trip(fails: Seq<u64>, window: u64) -> bool {
    &&& fails.len() >= CONSECUTIVE_FAILURE_LIMIT
    &&& fails.last() - fails[fails.len() - CONSECUTIVE_FAILURE_LIMIT] <= window
}

impl RegistryView {
    /// Registration hands out dense ids: a controller's id is its slot.
    pub open spec fn wf(self) -> bool {
        &&& forall|i: int|
            0 <= i < self.controllers.len() ==> (#[trigger] self.controllers[i]).id == i
        &&& forall|i: int, j: int|
            0 <= i < j < self.controllers.len()
                ==> (#[trigger] self.controllers[i]).address != (#[trigger] self.controllers[j]).address
    }

    /// Whether an id names a registered controller.
    pub open spec fn registered(self, id: u64) -> bool {
        id < self.controllers.len()
    }

    /// Health of a registered controller.
    pub open spec fn health_of(self, id: u64) -> HealthState
        recommends
            self.registered(id),
    {
        self.controllers[id as int].health
    }

    /// A controller the executor may try to reach: registered and not
    /// known to be unreachable. Unknown and even faulted controllers are
    /// still attempted; only `Unreachable` makes the executor skip, per
    /// the fallback policy.
    pub open spec fn attemptable(self, id: u64) -> bool {
        self.registered(id) && self.health_of(id) != HealthState::Unreachable
    }

    /// Whether `id` names a registered controller declaring the effect
    /// type.
    pub open spec fn supports_effect(self, id: u64, kind: EffectKind) -> bool {
        self.registered(id) && self.controllers[id as int].supports(kind)
    }

    /// Value of the registry after one outcome has been recorded: a
    /// success makes the controller reachable at once and clears its
    /// failure run; a timeout or transport fault extends the run and, if
    /// the policy trips, marks it unreachable; a rejection says the
    /// controller answered, so it leaves health alone. Outcomes for
    /// unknown ids are ignored.
    pub open spec fn record_spec(self, o: CommandOutcome, now: u64) -> RegistryView {
        if !self.registered(o.controller_id) {
            self
        } else {
            let i = o.controller_id as int;
            let c = self.controllers[i];
            let c2 = if o.result == CommandResult::Success {
                ControllerView { health: HealthState::Reachable, failure_times: Seq::empty(), ..c }
            } else if o.result.is_transport_failure() {
                let fails = c.failure_times.push(now);
                ControllerView {
                    health: if failures_trip(fails, self.window_ms) {
                        HealthState::Unreachable
                    } else {
                        c.health
                    },
                    failure_times: fails,
                    ..c
                }
            } else {
                c
            };
            RegistryView { controllers: self.controllers.update(i, c2), ..self }
        }
    }
}

impl Registry {
    /// An empty registry with the default failure window.
    pub fn new() -> (r: Registry)
        ensures
            r@.controllers.len() == 0,
            r@.window_ms == DEFAULT_HEALTH_WINDOW_MS,
            r@.wf(),
    {
        Registry { controllers: Vec::new(), window_ms: DEFAULT_HEALTH_WINDOW_MS }
    }

    /// An empty registry with a chosen failure window.
    pub fn with_window(window_ms: u64) -> (r: Registry)
        ensures
            r@.controllers.len() == 0,
            r@.window_ms == window_ms,
            r@.wf(),
    {
        Registry { controllers: Vec::new(), window_ms }
    }

    /// Registers a controller at `address` with the declared
    /// capabilities, handing back its fresh id; refused when the endpoint
    /// is already registered. A new controller starts in `Unknown` health
    /// with no failure history.
    pub fn register(&mut self, address: NetAddress, capabilities: Vec<EffectKind>) -> (r: Result<
        u64,
        DuplicateControllerError,
    >)
        requires
            old(self)@.wf(),
        ensures
            final(self)@.wf(),
            final(self)@.window_ms == old(self)@.window_ms,
            match r {
                Ok(id) => {
                    &&& !(exists|j: int|
                        0 <= j < old(self)@.controllers.len()
                            && (#[trigger] old(self)@.controllers[j]).address == address)
                    &&& id == old(self)@.controllers.len()
                    &&& final(self)@.controllers == old(self)@.controllers.push(
                        ControllerView {
                            id,
                            address,
                            capabilities: capabilities@,
                            health: HealthState::Unknown,
                            failure_times: Seq::empty(),
                        },
                    )
                },
                Err(e) => {
                    &&& e.address == address
                    &&& (exists|j: int|
                        0 <= j < old(self)@.controllers.len()
                            && (#[trigger] old(self)@.controllers[j]).address == address)
                    &&& final(self)@ == old(self)@
                },
            },
    {
        let ghost pre = self@;
        let mut i: usize = 0;
        while i < self.controllers.len()
            invariant
                i <= self.controllers@.len(),
                self@ == pre,
                pre == old(self)@,
                pre.wf(),
                forall|j: int| 0 <= j < i ==> (#[trigger] pre.controllers[j]).address != address,
            decreases self.controllers@.len() - i,
        {
            let c = &self.controllers[i];
            if c.address.host == address.host && c.address.port == address.port {
                proof {
                    assert(pre.controllers[i as int].address == address);
                }
                return Err(DuplicateControllerError { address });
            }
            i = i + 1;
        }
        let id = self.controllers.len() as u64;
        self.controllers.push(
            Controller {
                id,
                address,
                capabilities,
                health: HealthState::Unknown,
                failure_times: Vec::new(),
            },
        );
        proof {
            assert(self@.controllers =~= pre.controllers.push(
                ControllerView {
                    id,
                    address,
                    capabilities: capabilities@,
                    health: HealthState::Unknown,
                    failure_times: Seq::empty(),
                },
            ));
        }
        Ok(id)
    }

    /// Reconfigures a registered controller's endpoint, refusing an
    /// endpoint another controller already holds. Reconfiguration is for
    /// setup time: the caller must not move an endpoint while a show
    /// referencing the controller is running.
    pub fn update_address(&mut self, id: u64, address: NetAddress) -> (r: Result<
        (),
        DuplicateControllerError,
    >)
        requires
            old(self)@.wf(),
            old(self)@.registered(id),
        ensures
            final(self)@.wf(),
            match r {
                Ok(()) => {
                    &&& !(exists|j: int|
                        0 <= j < old(self)@.controllers.len() && j != id
                            && (#[trigger] old(self)@.controllers[j]).address == address)
                    &&& final(self)@ == RegistryView {
                        controllers: old(self)@.controllers.update(
                            id as int,
                            ControllerView { address, ..old(self)@.controllers[id as int] },
                        ),
                        ..old(self)@
                    }
                },
                Err(e) => {
                    &&& e.address == address
                    &&& (exists|j: int|
                        0 <= j < old(self)@.controllers.len() && j != id
                            && (#[trigger] old(self)@.controllers[j]).address == address)
                    &&& final(self)@ == old(self)@
                },
            },
    {
        let ghost pre = self@;
        let mut j: usize = 0;
        while j < self.controllers.len()
            invariant
                j <= self.controllers@.len(),
                self@ == pre,
                pre == old(self)@,
                pre.wf(),
                forall|j2: int|
                    0 <= j2 < j && j2 != id ==> (#[trigger] pre.controllers[j2]).address != address,
            decreases self.controllers@.len() - j,
        {
            let c = &self.controllers[j];
            if c.id != id && c.address.host == address.host && c.address.port == address.port {
                proof {
                    assert(pre.controllers[j as int].id == j);
                    assert(pre.controllers[j as int].address == address);
                }
                return Err(DuplicateControllerError { address });
            }
            proof {
                assert(pre.controllers[j as int].id == j);
            }
            j = j + 1;
        }
        let i = id as usize;
        let c = &mut self.controllers[i];
        c.address = address;
        proof {
            assert(self@.controllers =~= pre.controllers.update(
                id as int,
                ControllerView { address, ..pre.controllers[id as int] },
            ));
            assert(self@ =~= RegistryView {
                controllers: pre.controllers.update(
                    id as int,
                    ControllerView { address, ..pre.controllers[id as int] },
                ),
                ..pre
            });
        }
        Ok(())
    }

    /// Health of a controller; `None` when the id is unknown.
    pub fn health(&self, id: u64) -> (r: Option<HealthState>)
        ensures
            r == if self@.registered(id) {
                Some(self@.health_of(id))
            } else {
                None::<HealthState>
            },
    {
        if id < self.controllers.len() as u64 {
            Some(self.controllers[id as usize].health)
        } else {
            None
        }
    }

    /// Folds one transport outcome into the health state, per the
    /// decaying-failure policy spelled out by `record_spec`: slow
    /// degradation, immediate recovery.
    pub fn record_outcome(&mut self, outcome: &CommandOutcome, now_ms: u64)
        ensures
            final(self)@ == old(self)@.record_spec(*outcome, now_ms),
    {
        let ghost pre = self@;
        if outcome.controller_id >= self.controllers.len() as u64 {
            proof {
                assert(self@ =~= pre.record_spec(*outcome, now_ms));
            }
            return;
        }
        let i = outcome.controller_id as usize;
        let window = self.window_ms;
        let c = &mut self.controllers[i];
        match outcome.result {
            CommandResult::Success => {
                c.health = HealthState::Reachable;
                c.failure_times = Vec::new();
            },
            CommandResult::Timeout | CommandResult::TransportError => {
                c.failure_times.push(now_ms);
                let n = c.failure_times.len();
                if n >= 3 {
                    let first = c.failure_times[n - 3];
                    let last = c.failure_times[n - 1];
                    if last < first || last - first <= window {
                        c.health = HealthState::Unreachable;
                    }
                }
            },
            CommandResult::Rejected => {},
        }
        proof {
            assert(self@.controllers =~= pre.record_spec(*outcome, now_ms).controllers);
            assert(self@ =~= pre.record_spec(*outcome, now_ms));
        }
    }

    /// Whether the controller `id` is registered and declares the effect
    /// type `kind`.
    pub fn supports(&self, id: u64, kind: EffectKind) -> (r: bool)
        ensures
            r == self@.supports_effect(id, kind),
    {
        if id >= self.controllers.len() as u64 {
            return false;
        }
        let c = &self.controllers[id as usize];
        let mut k: usize = 0;
        while k < c.capabilities.len()
            invariant
                k <= c.capabilities@.len(),
                id < self.controllers@.len(),
                c@ == self@.controllers[id as int],
                forall|k2: int| 0 <= k2 < k ==> (#[trigger] c.capabilities@[k2]) != kind,
            decreases c.capabilities@.len() - k,
        {
            if c.capabilities[k] == kind {
                proof {
                    assert(self@.controllers[id as int].capabilities[k as int] == kind);
                    assert(self@.controllers[id as int].supports(kind));
                }
                return true;
            }
            k = k + 1;
        }
        false
    }

    /// The subset of `ids`, in order, the executor should attempt:
    /// registered controllers not currently marked unreachable.
    pub fn reachable_controllers(&self, ids: &Vec<u64>) -> (r: Vec<u64>)
        ensures
            r@ == attempt_list(self@, ids@),
    {
        let mut r: Vec<u64> = Vec::new();
        let mut i: usize = 0;
        while i < ids.len()
            invariant
                i <= ids@.len(),
                r@ == attempt_list(self@, ids@.take(i as int)),
            decreases ids@.len() - i,
        {
            proof {
                assert(ids@.take(i as int + 1).drop_last() =~= ids@.take(i as int));
                assert(ids@.take(i as int + 1).last() == ids@[i as int]);
            }
            let id = ids[i];
            if id < self.controllers.len() as u64 {
                let h = self.controllers[id as usize].health;
                let unreachable = match h {
                    HealthState::Unreachable => true,
                    _ => false,
                };
                if !unreachable {
                    r.push(id);
                }
            }
            i = i + 1;
        }
        proof {
            assert(ids@.take(ids@.len() as int) =~= ids@);
        }
        r
    }
}

/// Flapping resistance, degradation half: three consecutive transport
/// failures for one controller, the three spanning at most the rolling
/// window, leave it marked `Unreachable` — whatever its health and
/// failure history were before.
pub proof fn lemma_flapping_degradation(
    reg: RegistryView,
    id: u64,
    o1: CommandOutcome,
    o2: CommandOutcome,
    o3: CommandOutcome,
    t1: u64,
    t2: u64,
    t3: u64,
)
    requires
        reg.registered(id),
        o1.controller_id == id && o1.result.is_transport_failure(),
        o2.controller_id == id && o2.result.is_transport_failure(),
        o3.controller_id == id && o3.result.is_transport_failure(),
        t3 - t1 <= reg.window_ms,
    ensures
        reg.record_spec(o1, t1).record_spec(o2, t2).record_spec(o3, t3).health_of(id)
            == HealthState::Unreachable,
{
    let r1 = reg.record_spec(o1, t1);
    let r2 = r1.record_spec(o2, t2);
    let r3 = r2.record_spec(o3, t3);
    let i = id as int;
    assert(r2.controllers[i].failure_times
        == reg.controllers[i].failure_times.push(t1).push(t2));
    assert(r3.controllers[i].failure_times
        == reg.controllers[i].failure_times.push(t1).push(t2).push(t3));
    let fails = r3.controllers[i].failure_times;
    assert(fails.last() == t3);
    assert(fails[fails.len() - 3] == t1);
    assert(failures_trip(fails, reg.window_ms));
}

/// Flapping resistance, recovery half: one success makes the controller
/// reachable again at once and clears its failure run, whatever came
/// before.
pub proof fn lemma_flapping_recovery(reg: RegistryView, id: u64, o: CommandOutcome, t: u64)
    requires
        reg.registered(id),
        o.controller_id == id,
        o.result == CommandResult::Success,
    ensures
        reg.record_spec(o, t).health_of(id) == HealthState::Reachable,
        reg.record_spec(o, t).controllers[id as int].failure_times.len() == 0,
{
}

/// The ids of `ids`, in order, that name controllers the executor should
/// attempt under registry state `reg`.
pub open spec fn attempt_list(reg: RegistryView, ids: Seq<u64>) -> Seq<u64>
    decreases ids.len(),
{
    if ids.len() == 0 {
        Seq::empty()
    } else {
        let rest = attempt_list(reg, ids.drop_last());
        if reg.attemptable(ids.last()) {
            rest.push(ids.last())
        } else {
            rest
        }
    }
}

} // verus!
