use fred_wrapper::{queued_reply, FredError, PageCollector, PageStep, QueueEvent};

fn drain(pages: Vec<Result<Vec<u32>, FredError>>) -> (Vec<QueueEvent>, Result<Vec<u32>, FredError>) {
    let (mut collector, started) = PageCollector::<u32>::start();
    let mut events = vec![started];
    for page in pages {
        match collector.on_page(page) {
            PageStep::Continue(next) => collector = next,
            PageStep::Finished { event, reply } => {
                events.push(event);
                return (events, reply);
            }
        }
    }
    let (event, reply) = collector.finish();
    events.push(event);
    (events, reply)
}

#[test]
fn all_pages_succeed_in_order() {
    let (events, reply) = drain(vec![Ok(vec![1, 2]), Ok(vec![]), Ok(vec![3])]);
    assert_eq!(events, vec![QueueEvent::Started, QueueEvent::Succeeded]);
    assert_eq!(reply.unwrap(), vec![1, 2, 3]);
}

#[test]
fn no_pages_is_an_empty_success() {
    let (events, reply) = drain(vec![]);
    assert_eq!(events, vec![QueueEvent::Started, QueueEvent::Succeeded]);
    assert!(reply.unwrap().is_empty());
}

#[test]
fn first_failure_ends_the_request() {
    let (events, reply) = drain(vec![
        Ok(vec![1]),
        Err(FredError::EmptyResponse { resource: "first" }),
        Err(FredError::EmptyResponse { resource: "second" }),
        Ok(vec![2]),
    ]);
    assert_eq!(events, vec![QueueEvent::Started, QueueEvent::Failed]);
    match reply {
        Err(FredError::EmptyResponse { resource }) => assert_eq!(resource, "first"),
        other => panic!("unexpected {other:?}"),
    }
}

#[test]
fn replies_through_the_queue() {
    match queued_reply::<u32>(false, None) {
        Err(FredError::Unavailable(m)) => assert_eq!(m, "queue closed"),
        other => panic!("unexpected {other:?}"),
    }
    match queued_reply::<u32>(true, None) {
        Err(FredError::Unavailable(m)) => assert_eq!(m, "queue worker dropped the response"),
        other => panic!("unexpected {other:?}"),
    }
    assert_eq!(queued_reply(true, Some(Ok(vec![7u32]))).unwrap(), vec![7]);
}
