//! Compass monitoring. Each monitoring loop remembers the generation it was
//! started in and ends as soon as the generation moves on; stopping the
//! compass moves it on. Between those checks the loop probes the sensor
//! service, claims the compass when there is one, and reads the heading.
use vstd::prelude::*;

verus! {

/// The generation after `current` (the counter wraps around, as an atomic
/// `fetch_add` does).
pub open spec fn next_generation_spec(current: u64) -> u64 {
    if current == u64::MAX {
        0
    } else {
        (current + 1) as u64
    }
}

/// The generation a stop moves to.
pub fn next_generation(current: u64) -> (n: u64)
    ensures
        n == next_generation_spec(current),
{
    current.wrapping_add(1)
}

/// Whether a loop started in generation `mine` must end.
pub fn superseded(current: u64, mine: u64) -> (r: bool)
    ensures
        r == (current != mine),
{
    current != mine
}

/// Where a monitoring loop is.
#[derive(Clone, Copy, Debug, PartialEq, Eq, Structural)]
pub enum CompassStage {
    /// Connecting to the sensor service and asking whether there is a compass.
    Probing,
    /// The compass is claimed; reading its heading.
    Watching,
}

/// What the loop learned at the start of a round.
#[derive(Clone, Copy, Debug, PartialEq, Eq, Structural)]
pub enum CompassEvent {
    /// The generation moved on since the loop started.
    Superseded,
    /// While probing: whether the service answered and reports a compass.
    Probed(bool),
    /// While watching: whether the heading could be read.
    HeadingRead(bool),
}

/// What the loop does next.
#[derive(Clone, Copy, Debug, PartialEq, Eq, Structural)]
pub enum CompassAction {
    /// End the loop, first releasing the compass when it holds it.
    Exit { release: bool },
    /// Report the compass available, claim it, and start watching.
    Claim,
    /// Report the compass unavailable and wait two seconds before probing again.
    WaitUnavailable,
    /// Store the heading read and wait a tenth of a second.
    StoreHeading,
    /// Probe again at once: the service stopped answering.
    Reconnect,
}

pub open spec fn compass_event_fits(stage: CompassStage, event: CompassEvent) -> bool {
    match event {
        CompassEvent::Superseded => true,
        CompassEvent::Probed(_) => stage == CompassStage::Probing,
        CompassEvent::HeadingRead(_) => stage == CompassStage::Watching,
    }
}

pub open spec fn compass_step_spec(stage: CompassStage, event: CompassEvent) -> (
    CompassStage,
    CompassAction,
) {
    match event {
        CompassEvent::Superseded => (
            stage,
            CompassAction::Exit { release: stage == CompassStage::Watching },
        ),
        CompassEvent::Probed(true) => (CompassStage::Watching, CompassAction::Claim),
        CompassEvent::Probed(false) => (CompassStage::Probing, CompassAction::WaitUnavailable),
        CompassEvent::HeadingRead(true) => (CompassStage::Watching, CompassAction::StoreHeading),
        CompassEvent::HeadingRead(false) => (CompassStage::Probing, CompassAction::Reconnect),
    }
}

/// One round of the monitoring loop: the stage it moves to and what it does.
pub fn compass_step(stage: CompassStage, event: CompassEvent) -> (r: (CompassStage, CompassAction))
    requires
        compass_event_fits(stage, event),
    ensures
        r == compass_step_spec(stage, event),
{
    match event {
        CompassEvent::Superseded => (
            stage,
            CompassAction::Exit { release: stage == CompassStage::Watching },
        ),
        CompassEvent::Probed(found) => if found {
            (CompassStage::Watching, CompassAction::Claim)
        } else {
            (CompassStage::Probing, CompassAction::WaitUnavailable)
        },
        CompassEvent::HeadingRead(ok) => if ok {
            (CompassStage::Watching, CompassAction::StoreHeading)
        } else {
            (CompassStage::Probing, CompassAction::Reconnect)
        },
    }
}

// ------------------------------------------------------------ laws
/// Stopping always ends the loop that was running: the new generation
/// differs from the one it started in, so its next round exits, and it
/// releases the compass when it holds one.
pub proof fn lemma_stop_supersedes_running_loop(g: u64, stage: CompassStage)
    ensures
        next_generation_spec(g) != g,
        compass_step_spec(stage, CompassEvent::Superseded).1 == (CompassAction::Exit {
            release: stage == CompassStage::Watching,
        }),
{
}

/// The loop only ends when superseded, and only watches a compass the
/// service reported: it claims one exactly when a probe finds it, and keeps
/// watching exactly while readings succeed.
pub proof fn lemma_compass_watched_only_when_present(stage: CompassStage, event: CompassEvent)
    requires
        compass_event_fits(stage, event),
    ensures
        compass_step_spec(stage, event).1 is Exit <==> event == CompassEvent::Superseded,
        event != CompassEvent::Superseded ==> (compass_step_spec(stage, event).0
            == CompassStage::Watching <==> (event == CompassEvent::Probed(true) || event
            == CompassEvent::HeadingRead(true))),
{
}

} // verus!
