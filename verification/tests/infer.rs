use modular_agent_audio::error::AudioError;
use modular_agent_audio::infer::{infer_threads, InferWorker, Port, WorkerAction, WorkerEvent};
use modular_agent_audio::pipeline::InferJob;

/// A worker that has loaded its model.
fn idle() -> InferWorker<u32> {
    let (worker, _) = InferWorker::new().step(WorkerEvent::Loaded(Ok(())));
    let (worker, action) = worker.step(WorkerEvent::Announced);
    assert!(matches!(action, WorkerAction::Receive));
    worker
}

fn received(job: InferJob<u32>) -> WorkerEvent<u32> {
    WorkerEvent::Received { job: Some(job), stopping: false }
}

#[test]
fn half_of_the_cores_transcribe() {
    assert_eq!(infer_threads(None), 2);
    assert_eq!(infer_threads(Some(1)), 2);
    assert_eq!(infer_threads(Some(5)), 2);
    assert_eq!(infer_threads(Some(7)), 3);
    assert_eq!(infer_threads(Some(16)), 8);
    assert_eq!(infer_threads(Some(64)), 8);
}

#[test]
fn a_whole_utterance_goes_to_the_text_port() {
    let worker = idle();
    let (worker, action) = worker.step(received(InferJob::Final(vec![1, 2])));
    match action {
        WorkerAction::Transcribe(samples) => assert_eq!(samples, vec![1, 2]),
        _ => panic!("expected to transcribe"),
    }
    let (worker, action) = worker.step(WorkerEvent::Transcribed(Some("hello".to_string())));
    match action {
        WorkerAction::Emit(port, text) => {
            assert_eq!(port.name(), "text");
            assert_eq!(text, "hello");
        }
        _ => panic!("expected to emit"),
    }
    let (_, action) = worker.step(WorkerEvent::Emitted);
    assert!(matches!(action, WorkerAction::Receive));
}

#[test]
fn the_newest_partial_is_transcribed() {
    let worker = idle();
    let (worker, action) = worker.step(received(InferJob::Partial(vec![1])));
    assert!(matches!(action, WorkerAction::TryReceive));
    let (worker, action) = worker.step(WorkerEvent::Next(Some(InferJob::Partial(vec![2]))));
    assert!(matches!(action, WorkerAction::TryReceive));
    let (worker, action) = worker.step(WorkerEvent::Next(None));
    match action {
        WorkerAction::Transcribe(samples) => assert_eq!(samples, vec![2]),
        _ => panic!("expected to transcribe"),
    }
    let (_, action) = worker.step(WorkerEvent::Transcribed(Some("so".to_string())));
    match action {
        WorkerAction::Emit(port, _) => assert_eq!(port, Port::Partial),
        _ => panic!("expected to emit"),
    }
    assert_eq!(Port::Partial.name(), "partial");
}

#[test]
fn a_whole_utterance_ends_the_search() {
    let worker = idle();
    let (worker, _) = worker.step(received(InferJob::Partial(vec![1])));
    let (worker, action) = worker.step(WorkerEvent::Next(Some(InferJob::Final(vec![3]))));
    match action {
        WorkerAction::Transcribe(samples) => assert_eq!(samples, vec![3]),
        _ => panic!("expected to transcribe"),
    }
    assert!(matches!(worker, InferWorker::Transcribing(Port::Text)));
}

#[test]
fn empty_and_failed_transcriptions_are_not_sent() {
    for said in [Some(String::new()), None] {
        let worker = idle();
        let (worker, _) = worker.step(received(InferJob::Final(vec![1])));
        let (worker, action) = worker.step(WorkerEvent::Transcribed(said));
        assert!(matches!(action, WorkerAction::Receive));
        assert!(matches!(worker, InferWorker::Idle));
    }
}

#[test]
fn a_worker_stops_when_told_or_left_alone() {
    let worker = idle();
    let told = WorkerEvent::Received { job: Some(InferJob::Final(vec![1])), stopping: true };
    assert!(matches!(worker.step(told).1, WorkerAction::Stop));
    let worker = idle();
    let alone = WorkerEvent::Received { job: None, stopping: false };
    assert!(matches!(worker.step(alone).1, WorkerAction::Stop));
}

#[test]
fn loading_is_told_before_any_job() {
    let worker: InferWorker<u32> = InferWorker::new();
    let (worker, action) = worker.step(WorkerEvent::Loaded(Ok(())));
    assert!(matches!(action, WorkerAction::Announce(Ok(()))));
    assert!(matches!(worker.step(WorkerEvent::Announced).1, WorkerAction::Receive));

    let worker: InferWorker<u32> = InferWorker::new();
    let failed = Err(AudioError::IoError("no model".to_string()));
    let (worker, action) = worker.step(WorkerEvent::Loaded(failed));
    match action {
        WorkerAction::Announce(Err(AudioError::IoError(m))) => assert_eq!(m, "no model"),
        _ => panic!("expected the failure"),
    }
    assert!(matches!(worker.step(WorkerEvent::Announced).1, WorkerAction::Stop));
}

#[test]
fn every_utterance_is_transcribed_in_order() {
    let mut queue: std::collections::VecDeque<InferJob<u32>> = vec![
        InferJob::Final(vec![1]),
        InferJob::Partial(vec![100]),
        InferJob::Partial(vec![101]),
        InferJob::Final(vec![2]),
        InferJob::Final(vec![3]),
        InferJob::Partial(vec![102]),
    ]
    .into();
    let mut worker = idle();
    let mut action = WorkerAction::Receive;
    let mut texts = Vec::new();
    let mut partials = Vec::new();
    loop {
        let event = match action {
            WorkerAction::Receive => {
                WorkerEvent::Received { job: queue.pop_front(), stopping: false }
            }
            WorkerAction::TryReceive => WorkerEvent::Next(queue.pop_front()),
            WorkerAction::Transcribe(samples) => {
                if matches!(worker, InferWorker::Transcribing(Port::Text)) {
                    texts.push(samples[0]);
                } else {
                    partials.push(samples[0]);
                }
                WorkerEvent::Transcribed(Some("text".to_string()))
            }
            WorkerAction::Emit(_, _) => WorkerEvent::Emitted,
            _ => break,
        };
        let (next, todo) = worker.step(event);
        worker = next;
        action = todo;
    }
    assert_eq!(texts, [1, 2, 3]);
    assert_eq!(partials, [102]);
}
