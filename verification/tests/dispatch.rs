use loadtest::dispatch::{join, worker_share, Action, Event, Phase, Worker};
use loadtest::duration::Duration;
use loadtest::stats::Fact;

fn fact(status: u16, millis: u32) -> Fact {
    Fact::new(status, Duration::new(0, millis * 1_000_000), 0)
}

fn same(a: &[Fact], b: &[Fact]) -> bool {
    a.len() == b.len()
        && a.iter().zip(b).all(|(x, y)| {
            x.status() == y.status()
                && x.duration() == y.duration()
                && x.content_length() == y.content_length()
        })
}

#[test]
fn the_share_is_the_quotient_rounded_down() {
    assert_eq!(worker_share(1000, 1), 1000);
    assert_eq!(worker_share(1000, 4), 250);
    assert_eq!(worker_share(1000, 3), 333);
    assert_eq!(worker_share(10, 4), 2);
    assert_eq!(worker_share(3, 4), 0);
    assert_eq!(worker_share(0, 7), 0);
    assert_eq!(worker_share(u32::MAX, 2), 2_147_483_647);
}

#[test]
fn the_remainder_of_the_split_is_not_issued() {
    for (requests, workers) in [(1000u32, 3u32), (10, 4), (7, 7), (5, 8), (0, 3)] {
        let issued = workers * worker_share(requests, workers);
        assert!(issued <= requests);
        assert_eq!(requests - issued, requests % workers);
    }
}

#[test]
fn a_worker_warms_up_once_and_then_measures_its_share() {
    let mut worker = Worker::new(2);
    assert_eq!(worker.phase(), Phase::Idle);
    assert_eq!(worker.handle(Event::Started), Action::WarmUp);
    assert_eq!(worker.phase(), Phase::WarmingUp);
    assert_eq!(worker.handle(Event::WarmedUp), Action::Measure);
    assert_eq!(worker.phase(), Phase::Measuring);
    assert_eq!(worker.handle(Event::Measured(fact(200, 5))), Action::Measure);
    assert_eq!(worker.phase(), Phase::Measuring);
    assert_eq!(worker.handle(Event::Measured(fact(404, 3))), Action::Finish);
    assert_eq!(worker.phase(), Phase::Finished);
    let facts = worker.into_facts().expect("a finished worker hands out its facts");
    assert!(same(&facts, &[fact(200, 5), fact(404, 3)]));
}

#[test]
fn a_worker_without_a_share_only_warms_up() {
    let mut worker = Worker::new(0);
    assert_eq!(worker.handle(Event::Started), Action::WarmUp);
    assert_eq!(worker.handle(Event::WarmedUp), Action::Finish);
    assert_eq!(worker.into_facts().map(|facts| facts.len()), Some(0));
}

#[test]
fn a_failed_warm_up_aborts_the_worker() {
    let mut worker = Worker::new(3);
    assert_eq!(worker.handle(Event::Started), Action::WarmUp);
    assert_eq!(worker.handle(Event::Failed), Action::Abort);
    assert_eq!(worker.phase(), Phase::Aborted);
    assert_eq!(worker.handle(Event::WarmedUp), Action::Abort);
    assert_eq!(worker.handle(Event::Measured(fact(200, 1))), Action::Abort);
    assert!(worker.into_facts().is_none());
}

#[test]
fn a_failed_request_aborts_the_worker_and_leaves_no_partial_result() {
    let mut worker = Worker::new(3);
    worker.handle(Event::Started);
    worker.handle(Event::WarmedUp);
    assert_eq!(worker.handle(Event::Measured(fact(200, 1))), Action::Measure);
    assert_eq!(worker.handle(Event::Failed), Action::Abort);
    assert_eq!(worker.handle(Event::Measured(fact(200, 2))), Action::Abort);
    assert_eq!(worker.phase(), Phase::Aborted);
    assert!(worker.into_facts().is_none());
}

#[test]
fn an_event_out_of_turn_aborts_the_worker() {
    let mut worker = Worker::new(1);
    assert_eq!(worker.handle(Event::WarmedUp), Action::Abort);
    assert_eq!(worker.phase(), Phase::Aborted);

    let mut worker = Worker::new(1);
    worker.handle(Event::Started);
    assert_eq!(worker.handle(Event::Measured(fact(200, 1))), Action::Abort);

    let mut worker = Worker::new(1);
    worker.handle(Event::Started);
    assert_eq!(worker.handle(Event::Started), Action::Abort);

    let mut worker = Worker::new(1);
    worker.handle(Event::Started);
    worker.handle(Event::WarmedUp);
    assert_eq!(worker.handle(Event::WarmedUp), Action::Abort);
}

#[test]
fn a_worker_that_has_not_finished_hands_out_nothing() {
    assert!(Worker::new(1).into_facts().is_none());
    let mut worker = Worker::new(2);
    worker.handle(Event::Started);
    worker.handle(Event::WarmedUp);
    worker.handle(Event::Measured(fact(200, 1)));
    assert!(worker.into_facts().is_none());
}

#[test]
fn a_finished_worker_stays_finished() {
    let mut worker = Worker::new(1);
    worker.handle(Event::Started);
    worker.handle(Event::WarmedUp);
    assert_eq!(worker.handle(Event::Measured(fact(200, 9))), Action::Finish);
    assert_eq!(worker.handle(Event::Measured(fact(500, 1))), Action::Finish);
    assert_eq!(worker.handle(Event::Failed), Action::Finish);
    let facts = worker.into_facts().expect("the worker had finished");
    assert!(same(&facts, &[fact(200, 9)]));
}

#[test]
fn join_concatenates_in_worker_order() {
    let batches = vec![
        vec![fact(200, 30), fact(201, 10)],
        vec![],
        vec![fact(202, 20)],
        vec![fact(203, 5), fact(204, 40), fact(205, 1)],
    ];
    let all = join(&batches);
    let expected = [
        fact(200, 30),
        fact(201, 10),
        fact(202, 20),
        fact(203, 5),
        fact(204, 40),
        fact(205, 1),
    ];
    assert!(same(&all, &expected));
}

#[test]
fn join_of_nothing_is_empty() {
    assert!(join(&[]).is_empty());
    assert!(join(&[vec![], vec![]]).is_empty());
}

#[test]
fn a_run_holds_the_share_of_every_worker() {
    let workers = 3u32;
    let share = worker_share(10, workers);
    let mut batches = Vec::new();
    for w in 0..workers {
        let mut worker = Worker::new(share);
        let mut action = worker.handle(Event::Started);
        let mut sent = 0u32;
        loop {
            match action {
                Action::WarmUp => action = worker.handle(Event::WarmedUp),
                Action::Measure => {
                    sent += 1;
                    action = worker.handle(Event::Measured(fact(200, w * 10 + sent)));
                }
                Action::Finish => break,
                Action::Abort => panic!("no request failed"),
            }
        }
        assert_eq!(sent, share);
        batches.push(worker.into_facts().expect("the worker finished"));
    }
    let all = join(&batches);
    assert_eq!(all.len(), 9);
    assert_eq!(all[0].duration(), Duration::new(0, 1_000_000));
    assert_eq!(all[3].duration(), Duration::new(0, 11_000_000));
    assert_eq!(all[8].duration(), Duration::new(0, 23_000_000));
}
