//! Routes link observations through the one owner of the connection state
//! and keeps the deployment pipeline consistent with it.
use vstd::prelude::*;

use crate::error::LinkError;
use crate::link::{link_action, link_next, LinkAction, LinkEvent, LinkManager, LinkState};
use crate::pipeline::{is_running, with_status, JobStatus, Pipeline};

verus! {

/// Applies `ev` to the link. When that takes the link out of `Connected`, the
/// submission that is running fails with `LinkLost` (it is not retried);
/// otherwise the pipeline is left as it was. Returns the transport action.
pub fn apply_link_event(link: &mut LinkManager, pipeline: &mut Pipeline, ev: LinkEvent) -> (r: LinkAction)
    requires
        old(link).wf(),
        old(pipeline).wf(),
    ensures
        final(link).wf(),
        final(pipeline).wf(),
        (final(link).spec_state(), final(link).spec_stopped())
            == link_next(old(link).spec_state(), old(link).spec_stopped(), ev),
        r == link_action(old(link).spec_state(), old(link).spec_stopped(), ev),
        final(link).spec_device().name@ == old(link).spec_device().name@,
        final(pipeline).spec_wire() == old(pipeline).spec_wire(),
        final(pipeline).spec_closed() == old(pipeline).spec_closed(),
        !(old(link).spec_state() == LinkState::Connected && final(link).spec_state() != LinkState::Connected)
            ==> final(pipeline).spec_jobs() == old(pipeline).spec_jobs(),
        (old(link).spec_state() == LinkState::Connected && final(link).spec_state() != LinkState::Connected)
            ==> {
            ||| (final(pipeline).spec_jobs() == old(pipeline).spec_jobs()
                && forall|i: int| 0 <= i < old(pipeline).spec_jobs().len()
                    ==> !is_running((#[trigger] old(pipeline).spec_jobs()[i]).status))
            ||| exists|i: int| {
                &&& 0 <= i < old(pipeline).spec_jobs().len()
                &&& is_running((#[trigger] old(pipeline).spec_jobs()[i]).status)
                &&& final(pipeline).spec_jobs() == old(pipeline).spec_jobs().update(
                    i,
                    with_status(old(pipeline).spec_jobs()[i], JobStatus::Failed(LinkError::LinkLost)),
                )
            }
        },
{
    let was_connected = link.is_connected();
    let action = link.handle(ev);
    if was_connected && !link.is_connected() {
        pipeline.fail_active(LinkError::LinkLost);
    }
    action
}

/// Ends the running submission with `err`, met while transferring it (a
/// handshake or a response that timed out, or a transport that failed); it is
/// not retried. A lost link is also reported to the link, as a transport
/// failure; any other error leaves the link as it was. Returns the transport
/// action.
pub fn abort_transfer(link: &mut LinkManager, pipeline: &mut Pipeline, err: LinkError) -> (r: LinkAction)
    requires
        old(link).wf(),
        old(pipeline).wf(),
    ensures
        final(link).wf(),
        final(pipeline).wf(),
        final(link).spec_device().name@ == old(link).spec_device().name@,
        final(pipeline).spec_wire() == old(pipeline).spec_wire(),
        final(pipeline).spec_closed() == old(pipeline).spec_closed(),
        err == LinkError::LinkLost ==> {
            &&& (final(link).spec_state(), final(link).spec_stopped())
                == link_next(old(link).spec_state(), old(link).spec_stopped(), LinkEvent::IoError)
            &&& r == link_action(old(link).spec_state(), old(link).spec_stopped(), LinkEvent::IoError)
        },
        err != LinkError::LinkLost ==> {
            &&& final(link).spec_state() == old(link).spec_state()
            &&& final(link).spec_stopped() == old(link).spec_stopped()
            &&& r == LinkAction::Nothing
        },
        (forall|i: int| 0 <= i < old(pipeline).spec_jobs().len()
            ==> !is_running((#[trigger] old(pipeline).spec_jobs()[i]).status))
            ==> final(pipeline).spec_jobs() == old(pipeline).spec_jobs(),
        (exists|i: int| 0 <= i < old(pipeline).spec_jobs().len()
            && is_running((#[trigger] old(pipeline).spec_jobs()[i]).status)) ==> exists|i: int| {
            &&& 0 <= i < old(pipeline).spec_jobs().len()
            &&& is_running((#[trigger] old(pipeline).spec_jobs()[i]).status)
            &&& final(pipeline).spec_jobs() == old(pipeline).spec_jobs().update(
                i,
                with_status(old(pipeline).spec_jobs()[i], JobStatus::Failed(err)),
            )
        },
{
    let lost = match &err {
        LinkError::LinkLost => true,
        _ => false,
    };
    pipeline.fail_active(err);
    if lost {
        link.handle(LinkEvent::IoError)
    } else {
        LinkAction::Nothing
    }
}

} // verus!
