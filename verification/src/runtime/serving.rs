//! What an agent does for its controller.

use vstd::prelude::*;

use crate::platform::geometry::DesktopGeometry;
use crate::protocol::clipboard::TextView;
use crate::protocol::message::SessionView;
use crate::runtime::agent::{AgentEffectView, AgentRuntimeView};
use crate::runtime::event::{EventView, RuntimeFault};
use crate::session::agent::ActionView;

verus! {

/// What an agent does for an action of its session.
pub open spec fn is_done_by(action: ActionView, effect: AgentEffectView) -> bool {
    match action {
        ActionView::FocusEntered { position } => effect == AgentEffectView::WarpCursor(position),
        ActionView::ApplyInput(batch) => effect == (AgentEffectView::Inject {
            sequence: batch.sequence,
            events: batch.events,
        }),
        ActionView::ReleaseAllInput => effect == AgentEffectView::ReleaseInput,
        ActionView::Send(message) => effect == AgentEffectView::Send(message),
        ActionView::Clipboard(_) => false,
        ActionView::CloseConnection => effect == AgentEffectView::CloseConnection,
    }
}

/// The actions of an agent session are carried out one by one and in order.
pub proof fn law_agents_carry_out_actions_in_order(actions: Seq<ActionView>)
    requires
        forall|i: int| 0 <= i < actions.len() ==> !(#[trigger] actions[i] is Clipboard),
    ensures
        ({
            let effects = crate::runtime::agent::agent_effects(actions);
            &&& effects.len() == actions.len()
            &&& forall|i: int|
                0 <= i < actions.len() ==> is_done_by(#[trigger] actions[i], effects[i])
        }),
    decreases actions.len(),
{
    if actions.len() > 0 {
        let earlier = actions.drop_last();
        assert forall|i: int| 0 <= i < earlier.len() implies !(
        #[trigger] earlier[i] is Clipboard) by {
            assert(actions[i] == earlier[i]);
        }
        law_agents_carry_out_actions_in_order(earlier);
        assert(!(actions[actions.len() - 1] is Clipboard));
        let effects = crate::runtime::agent::agent_effects(actions);
        assert forall|i: int| 0 <= i < actions.len() implies is_done_by(
            #[trigger] actions[i],
            effects[i],
        ) by {
            if i < earlier.len() {
                assert(earlier[i] == actions[i]);
            }
        }
    }
}

/// A desktop is reported with its size and the number of its monitors, which is at
/// least one.
pub proof fn law_desktops_are_reported_as_they_are(geometry: DesktopGeometry)
    ensures
        crate::runtime::agent::display_report(geometry) matches AgentEffectView::Send(
            SessionView::DisplayChanged { size, monitor_count },
        ) && size == geometry.size && monitor_count >= 1 && monitor_count >= geometry.monitor_count
            && (monitor_count == geometry.monitor_count || monitor_count == 1),
{
}

/// A desktop that is what it was changes nothing. One that is new is told, and the
/// end of the control with it where there was control.
pub proof fn law_new_desktops_are_told(state: AgentRuntimeView, geometry: DesktopGeometry)
    ensures
        ({
            let step = crate::runtime::agent::desktop_step(state, geometry);
            let effects = step.outcome->Ok_0;
            &&& geometry == state.geometry ==> step.state == state && step.outcome == Ok::<
                Seq<AgentEffectView>,
                RuntimeFault,
            >(seq![])
            &&& geometry != state.geometry ==> {
                &&& step.outcome is Ok
                &&& !step.state.application_pending
                &&& effects.last() == AgentEffectView::Tell(
                    EventView::LocalDesktopChanged { geometry },
                )
                &&& effects.contains(
                    AgentEffectView::Tell(
                        EventView::AgentControl {
                            controller: state.controller_node,
                            active: false,
                        },
                    ),
                ) <==> state.controlled
            }
        }),
{
    if geometry != state.geometry {
        let actions = crate::session::agent::display_step(state.agent, geometry.size).outcome->Ok_0;
        assert forall|i: int| 0 <= i < actions.len() implies !(
        #[trigger] actions[i] is Clipboard) by {}
        law_agents_carry_out_actions_in_order(actions);
        let done = crate::runtime::agent::agent_effects(actions);
        let effects = crate::runtime::agent::desktop_step(state, geometry).outcome->Ok_0;
        let ended = AgentEffectView::Tell(
            EventView::AgentControl { controller: state.controller_node, active: false },
        );
        assert forall|i: int| 0 <= i < done.len() implies #[trigger] done[i] != ended by {
            assert(is_done_by(actions[i], done[i]));
        }
        if state.controlled {
            assert(effects[done.len() as int + 1] == ended);
        } else if effects.contains(ended) {
            let i = choose|i: int| 0 <= i < effects.len() && effects[i] == ended;
            if i < done.len() {
                assert(effects[i] == done[i]);
            }
        }
    }
}

/// A change of control is told exactly where a message brings it, with who controls
/// and whether. What follows waits exactly where input is to be injected.
pub proof fn law_changes_of_control_are_told(state: AgentRuntimeView, message: SessionView)
    ensures
        ({
            let step = crate::runtime::agent::input_message_step(state, message);
            let own = crate::session::agent::message_step(state.agent, message);
            &&& step.outcome is Ok <==> own.outcome is Ok
            &&& step.outcome matches Ok(effects) ==> {
                let done = crate::runtime::agent::agent_effects(own.outcome->Ok_0);
                &&& step.state.agent == own.state
                &&& step.state.controlled <==> step.state.agent.active_epoch is Some
                &&& step.state.controlled == state.controlled ==> effects == done
                &&& step.state.controlled != state.controlled ==> effects == done.push(
                    AgentEffectView::Tell(
                        EventView::AgentControl {
                            controller: state.controller_node,
                            active: step.state.controlled,
                        },
                    ),
                )
                &&& step.state.application_pending <==> exists|i: int|
                    0 <= i < own.outcome->Ok_0.len() && #[trigger] own.outcome->Ok_0[i]
                        is ApplyInput
            }
        }),
{
    let step = crate::runtime::agent::input_message_step(state, message);
    let own = crate::session::agent::message_step(state.agent, message);
    if step.outcome is Ok {
        let done = crate::runtime::agent::agent_effects(own.outcome->Ok_0);
        let effects = step.outcome->Ok_0;
        if step.state.controlled == state.controlled {
            assert(effects =~= done);
        } else {
            assert(effects =~= done.push(
                AgentEffectView::Tell(
                    EventView::AgentControl {
                        controller: state.controller_node,
                        active: step.state.controlled,
                    },
                ),
            ));
        }
    }
}

/// What belongs to another session, or to another injection of input, changes
/// nothing.
pub proof fn law_agents_ignore_other_sessions(
    state: AgentRuntimeView,
    peer: Seq<char>,
    session_id: u128,
    generation: u64,
    sequence: u64,
    transfer: TextView,
    reason: Seq<char>,
)
    ensures
        peer != state.controller_node || session_id != state.session_id ==> {
            let given = crate::runtime::agent::transfer_step(state, peer, session_id, transfer);
            let failed = crate::runtime::agent::stream_failure_step(
                state,
                peer,
                session_id,
                reason,
            );
            &&& given.state == state && given.outcome == Ok::<
                Seq<AgentEffectView>,
                RuntimeFault,
            >(seq![])
            &&& failed.state == state && failed.outcome == Ok::<
                Seq<AgentEffectView>,
                RuntimeFault,
            >(seq![])
        },
        peer == state.controller_node && session_id == state.session_id ==> {
            let failed = crate::runtime::agent::stream_failure_step(
                state,
                peer,
                session_id,
                reason,
            );
            &&& failed.state.clipboard is None
            &&& failed.state.agent == state.agent
            &&& failed.outcome matches Ok(effects) && effects.len() == 1 && effects[0]
                matches AgentEffectView::Tell(EventView::Error { message })
        },
        generation != state.generation ==> {
            let injected = crate::runtime::agent::injected_step(state, generation, sequence);
            injected.state == state && injected.outcome == Ok::<
                Seq<AgentEffectView>,
                RuntimeFault,
            >(seq![])
        },
{
}

/// A batch that was injected is acknowledged up to its number, and the next message
/// is taken.
pub proof fn law_injected_batches_are_acknowledged(
    state: AgentRuntimeView,
    sequence: u64,
)
    ensures
        ({
            let step = crate::runtime::agent::injected_step(state, state.generation, sequence);
            step.outcome matches Ok(effects) ==> !step.state.application_pending && effects
                == seq![
                AgentEffectView::Send(
                    SessionView::InputAcknowledged { through_sequence: sequence },
                ),
            ]
        }),
{
    let step = crate::session::agent::confirmation_step(state.agent, sequence);
    if let Ok(actions) = step.outcome {
        assert forall|i: int| 0 <= i < actions.len() implies !(
        #[trigger] actions[i] is Clipboard) by {}
        law_agents_carry_out_actions_in_order(actions);
        let effects = crate::runtime::agent::agent_effects(actions);
        assert(is_done_by(actions[0], effects[0]));
        assert(effects =~= seq![
            AgentEffectView::Send(SessionView::InputAcknowledged { through_sequence: sequence }),
        ]);
    }
}

/// Attempts to reach the controller are counted one by one, up to the largest
/// number.
pub proof fn law_attempts_are_counted(attempt: u32)
    ensures
        attempt < u32::MAX ==> crate::runtime::agent::one_more(attempt) - attempt == 1,
        attempt == u32::MAX ==> crate::runtime::agent::one_more(attempt) == attempt,
{
}

} // verus!
