use gameloop::sequence::Sequence;

#[test]
fn actions_run_in_the_step_they_are_written_for() {
    let mut sequence = Sequence::new();
    let mut log: Vec<&str> = Vec::new();
    let mut frames: u32 = 0;
    for _ in 0..5 {
        sequence
            .step(&mut log, &mut frames)
            .then(|log, frames| {
                log.push("first");
                *frames += 1;
            })
            .wait(2)
            .then(|log, _| log.push("third"))
            .wait(1)
            .then(|log, _| log.push("fourth"));
        log.push("|");
    }
    assert_eq!(log, vec!["first", "|", "|", "third", "|", "fourth", "|", "|"]);
    assert_eq!(frames, 1);
}

#[test]
fn a_step_opens_the_script_at_its_beginning() {
    let mut sequence = Sequence::new();
    let (mut state, mut context) = (0u8, 0u8);
    let first = sequence.step(&mut state, &mut context);
    assert_eq!((first.before, first.now, first.execute_at_step), (0, 1, 0));
    let second = sequence.step(&mut state, &mut context);
    assert_eq!((second.before, second.now, second.execute_at_step), (1, 2, 0));
    let later = second.wait(3).wait(4);
    assert_eq!((later.before, later.now, later.execute_at_step), (1, 2, 7));
}

#[test]
fn actions_at_one_place_run_in_the_same_step() {
    let mut sequence = Sequence::new();
    let mut log: Vec<u32> = Vec::new();
    let mut step: u32 = 0;
    for _ in 0..3 {
        sequence
            .step(&mut log, &mut step)
            .wait(1)
            .then(|log, step| log.push(*step * 10))
            .then(|log, step| log.push(*step * 10 + 1))
            .wait(0)
            .then(|log, step| log.push(*step * 10 + 2));
        step += 1;
    }
    assert_eq!(log, vec![10, 11, 12]);
}

#[test]
fn a_copy_of_a_script_keeps_its_own_time() {
    let mut script = Sequence::new();
    let mut hits = 0u32;
    let mut unit = ();
    script.step(&mut hits, &mut unit).then(|hits, _| *hits += 1);
    let mut copy = script.clone();
    script.step(&mut hits, &mut unit).wait(1).then(|hits, _| *hits += 10);
    copy.step(&mut hits, &mut unit).wait(1).then(|hits, _| *hits += 100);
    copy.step(&mut hits, &mut unit).wait(1).then(|hits, _| *hits += 1000);
    assert_eq!(hits, 111);
}
