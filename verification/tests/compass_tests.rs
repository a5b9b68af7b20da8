use khushu::compass::{
    compass_step, next_generation, superseded, CompassAction, CompassEvent, CompassStage,
};

#[test]
fn compass_generations() {
    assert_eq!(next_generation(4), 5);
    assert_eq!(next_generation(u64::MAX), 0);
    assert!(superseded(next_generation(7), 7));
    assert!(!superseded(7, 7));
}

#[test]
fn compass_loop_rounds() {
    assert_eq!(compass_step(CompassStage::Probing, CompassEvent::Probed(true)), (CompassStage::Watching, CompassAction::Claim));
    assert_eq!(
        compass_step(CompassStage::Probing, CompassEvent::Probed(false)),
        (CompassStage::Probing, CompassAction::WaitUnavailable)
    );
    assert_eq!(
        compass_step(CompassStage::Watching, CompassEvent::HeadingRead(true)),
        (CompassStage::Watching, CompassAction::StoreHeading)
    );
    assert_eq!(
        compass_step(CompassStage::Watching, CompassEvent::HeadingRead(false)),
        (CompassStage::Probing, CompassAction::Reconnect)
    );
    assert_eq!(
        compass_step(CompassStage::Watching, CompassEvent::Superseded),
        (CompassStage::Watching, CompassAction::Exit { release: true })
    );
    assert_eq!(
        compass_step(CompassStage::Probing, CompassEvent::Superseded),
        (CompassStage::Probing, CompassAction::Exit { release: false })
    );
}
