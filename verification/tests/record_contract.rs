use powersession::router::record_overwrite_permitted;

/// A stand-in for the recording collaborator, holding it to the overwrite
/// rule the router relies on: an existing destination is refused unless the
/// force flag is set.
struct StubRecorder {
    destination_exists: bool,
    force: bool,
    recorded: bool,
}

impl StubRecorder {
    fn new(destination_exists: bool, force: bool) -> Self {
        StubRecorder { destination_exists, force, recorded: false }
    }

    fn execute(&mut self) -> Result<(), String> {
        if record_overwrite_permitted(self.destination_exists, self.force) {
            self.recorded = true;
            Ok(())
        } else {
            Err("session already exists".to_owned())
        }
    }
}

#[test]
fn rerecording_existing_file_without_force_fails() {
    let mut recorder = StubRecorder::new(true, false);
    assert!(recorder.execute().is_err());
    assert!(!recorder.recorded);
}

#[test]
fn rerecording_existing_file_with_force_succeeds() {
    let mut recorder = StubRecorder::new(true, true);
    assert!(recorder.execute().is_ok());
    assert!(recorder.recorded);
}

#[test]
fn recording_fresh_file_succeeds_without_force() {
    let mut recorder = StubRecorder::new(false, false);
    assert!(recorder.execute().is_ok());
    assert!(recorder.recorded);
}
