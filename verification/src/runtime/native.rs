//! Events of the native input services in running sessions.

use vstd::prelude::*;
use vstd::string::*;

use crate::domain::arrangement::Topology;
use crate::platform::geometry::DesktopGeometry;
use crate::platform::service::{CaptureServiceEvent, InjectionServiceEvent};
use crate::runtime::activation::ResizeError;
use crate::runtime::agent::{AgentConnection, AgentEffect};
use crate::runtime::controller::ControllerRuntime;
use crate::runtime::effect::{emit, no_effects, Effect};
use crate::runtime::event::{native_failure, RuntimeError, RuntimeEvent};

verus! {

/// `result` and `after` are what an event of the capture service comes to.
pub open spec fn is_capture_step(
    state: crate::runtime::controller::ControllerRuntimeView,
    event: CaptureServiceEvent,
    now_millis: u64,
    result: Result<Vec<Effect>, RuntimeError>,
    after: crate::runtime::controller::ControllerRuntimeView,
) -> bool {
    match event {
        CaptureServiceEvent::Ready { backend } => crate::runtime::controller::is_step(
            crate::runtime::controller::done(
                state,
                seq![
                    crate::runtime::effect::EffectView::Tell(
                        crate::runtime::event::EventView::NativeReady { backend },
                    ),
                ],
            ),
            result,
            after,
        ),
        CaptureServiceEvent::Activated { edge, edge_position } => {
            crate::runtime::controller::is_step(
                crate::runtime::controller::crossing_step(state, edge, edge_position, now_millis),
                result,
                after,
            )
        },
        CaptureServiceEvent::DesktopChanged(geometry) => {
            exists|resized: Result<Topology, ResizeError>| #[trigger]
                crate::runtime::activation::is_resizing(
                    state.controller.screens,
                    state.controller.local_node,
                    crate::domain::display::LayoutView::whole(geometry.size),
                    resized,
                ) && crate::runtime::controller::is_step(
                    crate::runtime::controller::desktop_step(
                        state,
                        geometry,
                        crate::runtime::controller::arranged_or_fault(resized),
                    ),
                    result,
                    after,
                )
        },
        CaptureServiceEvent::Input(event) => crate::runtime::controller::is_step(
            crate::runtime::controller::captured_step(state, event),
            result,
            after,
        ),
        CaptureServiceEvent::Released => crate::runtime::controller::is_step(
            crate::runtime::controller::done(
                crate::runtime::controller::ControllerRuntimeView { pending: None, ..state },
                Seq::empty(),
            ),
            result,
            after,
        ),
        CaptureServiceEvent::Failed { operation, reason } => crate::runtime::controller::is_step(
            crate::runtime::controller::ended(
                state,
                crate::runtime::event::RuntimeFault::Native(
                    crate::runtime::event::failure_text(operation@, reason@),
                ),
            ),
            result,
            after,
        ),
        CaptureServiceEvent::Stopped => crate::runtime::controller::is_step(
            crate::runtime::controller::ended(
                state,
                crate::runtime::event::RuntimeFault::Native("Input capture service stopped"@),
            ),
            result,
            after,
        ),
    }
}

impl ControllerRuntime {
    /// The capture service told something.
    pub fn capture_event(&mut self, event: CaptureServiceEvent, now_millis: u64) -> (result: Result<
        Vec<Effect>,
        RuntimeError,
    >)
        requires
            old(self).is_valid(),
        ensures
            is_capture_step(old(self)@, event, now_millis, result, final(self)@),
            result is Ok ==> final(self).is_valid(),
    {
        match event {
            CaptureServiceEvent::Ready { backend } => {
                let mut effects = no_effects();
                emit(&mut effects, Effect::Tell(RuntimeEvent::NativeReady { backend }));
                assert(crate::runtime::effect::effect_views(effects@) =~= seq![
                    crate::runtime::effect::EffectView::Tell(
                        crate::runtime::event::EventView::NativeReady { backend },
                    ),
                ]);
                Ok(effects)
            },
            CaptureServiceEvent::Activated { edge, edge_position } => {
                self.edge_crossed(edge, edge_position, now_millis)
            },
            CaptureServiceEvent::DesktopChanged(geometry) => self.desktop_changed(geometry),
            CaptureServiceEvent::Input(event) => self.input_captured(event),
            CaptureServiceEvent::Released => {
                self.capture_released();
                Ok(no_effects())
            },
            CaptureServiceEvent::Failed { operation, reason } => Err(
                RuntimeError::Native(native_failure(operation, reason.as_str())),
            ),
            CaptureServiceEvent::Stopped => Err(
                RuntimeError::Native("Input capture service stopped".to_owned()),
            ),
        }
    }
}

/// What comes of an event of the injection service.
pub open spec fn injection_step(
    state: crate::runtime::agent::AgentRuntimeView,
    event: InjectionServiceEvent,
) -> crate::runtime::agent::AgentRuntimeStep {
    match event {
        InjectionServiceEvent::Ready { backend } => crate::runtime::agent::done(
            state,
            seq![
                crate::runtime::agent::AgentEffectView::Tell(
                    crate::runtime::event::EventView::NativeReady { backend },
                ),
            ],
        ),
        InjectionServiceEvent::DesktopChanged(geometry) => crate::runtime::agent::desktop_step(
            state,
            geometry,
        ),
        InjectionServiceEvent::Applied { generation, sequence } => {
            crate::runtime::agent::injected_step(state, generation, sequence)
        },
        InjectionServiceEvent::Released { generation } => crate::runtime::agent::done(
            state,
            Seq::empty(),
        ),
        InjectionServiceEvent::Failed { operation, reason } => crate::runtime::agent::ended(
            state,
            crate::runtime::event::RuntimeFault::Native(
                crate::runtime::event::failure_text(operation@, reason@),
            ),
        ),
        InjectionServiceEvent::Stopped => crate::runtime::agent::ended(
            state,
            crate::runtime::event::RuntimeFault::Native("Input injection service stopped"@),
        ),
    }
}

/// What an agent without a connection makes of what the injection service
/// tells: its desktop from then on, what is told, or why the session ends.
pub open spec fn waiting_step(
    geometry: DesktopGeometry,
    event: InjectionServiceEvent,
) -> Result<
    (DesktopGeometry, Option<crate::runtime::event::EventView>),
    crate::runtime::event::RuntimeFault,
> {
    match event {
        InjectionServiceEvent::Ready { backend } => Ok(
            (geometry, Some(crate::runtime::event::EventView::NativeReady { backend })),
        ),
        InjectionServiceEvent::DesktopChanged(changed) => Ok((changed, None)),
        InjectionServiceEvent::Applied { generation, sequence } => Ok((geometry, None)),
        InjectionServiceEvent::Released { generation } => Ok((geometry, None)),
        InjectionServiceEvent::Failed { operation, reason } => Err(
            crate::runtime::event::RuntimeFault::Native(
                crate::runtime::event::failure_text(operation@, reason@),
            ),
        ),
        InjectionServiceEvent::Stopped => Err(
            crate::runtime::event::RuntimeFault::Native("Input injection service stopped"@),
        ),
    }
}

/// The injection service told something while no connection stands. Gives the
/// desktop from then on and what is told.
pub fn injection_event_before_connection(
    geometry: DesktopGeometry,
    event: InjectionServiceEvent,
) -> (result: Result<(DesktopGeometry, Option<RuntimeEvent>), RuntimeError>)
    ensures
        match result {
            Ok((after, told)) => waiting_step(geometry, event) == Ok::<
                (DesktopGeometry, Option<crate::runtime::event::EventView>),
                crate::runtime::event::RuntimeFault,
            >(
                (
                    after,
                    match told {
                        Some(told) => Some(told@),
                        None => None,
                    },
                ),
            ),
            Err(error) => waiting_step(geometry, event) == Err::<
                (DesktopGeometry, Option<crate::runtime::event::EventView>),
                crate::runtime::event::RuntimeFault,
            >(error@),
        },
{
    match event {
        InjectionServiceEvent::Ready { backend } => Ok(
            (geometry, Some(RuntimeEvent::NativeReady { backend })),
        ),
        InjectionServiceEvent::DesktopChanged(changed) => Ok((changed, None)),
        InjectionServiceEvent::Applied { .. } => Ok((geometry, None)),
        InjectionServiceEvent::Released { .. } => Ok((geometry, None)),
        InjectionServiceEvent::Failed { operation, reason } => Err(
            RuntimeError::Native(native_failure(operation, reason.as_str())),
        ),
        InjectionServiceEvent::Stopped => Err(
            RuntimeError::Native("Input injection service stopped".to_owned()),
        ),
    }
}

impl AgentConnection {
    /// The injection service told something.
    pub fn injection_event(&mut self, event: InjectionServiceEvent) -> (result: Result<
        Vec<AgentEffect>,
        RuntimeError,
    >)
        ensures
            crate::runtime::agent::is_step(
                injection_step(old(self)@, event),
                result,
                final(self)@,
            ),
    {
        match event {
            InjectionServiceEvent::Ready { backend } => {
                let mut effects: Vec<AgentEffect> = Vec::new();
                effects.push(AgentEffect::Tell(RuntimeEvent::NativeReady { backend }));
                assert(crate::runtime::agent::effect_views(effects@) =~= seq![
                    crate::runtime::agent::AgentEffectView::Tell(
                        crate::runtime::event::EventView::NativeReady { backend },
                    ),
                ]);
                Ok(effects)
            },
            InjectionServiceEvent::DesktopChanged(geometry) => Ok(self.desktop_changed(geometry)),
            InjectionServiceEvent::Applied { generation, sequence } => {
                self.batch_injected(generation, sequence)
            },
            InjectionServiceEvent::Released { generation: _ } => {
                let effects: Vec<AgentEffect> = Vec::new();
                assert(crate::runtime::agent::effect_views(effects@) =~= Seq::empty());
                Ok(effects)
            },
            InjectionServiceEvent::Failed { operation, reason } => Err(
                RuntimeError::Native(native_failure(operation, reason.as_str())),
            ),
            InjectionServiceEvent::Stopped => Err(
                RuntimeError::Native("Input injection service stopped".to_owned()),
            ),
        }
    }
}

} // verus!
