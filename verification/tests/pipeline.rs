use nonblock_logger::channel::{MessageReceiver, MAX_CAPACITY};
use nonblock_logger::consumer::SinkView;
use nonblock_logger::logger::stop_verdict;
use nonblock_logger::lifecycle::Phase;
use nonblock_logger::{
    messages_in_channel, BaseConsumer, BaseFilter, BaseFormater, Consumer, Delivery, Error, Flow,
    Formater, JoinHandle, Level, LevelFilter, Message, NonblockLogger, Outputer, Record, Worker,
};
use std::sync::{Arc, Mutex};

struct Capture {
    seen: Arc<Mutex<Vec<u8>>>,
}

impl Capture {
    fn new() -> (Capture, Arc<Mutex<Vec<u8>>>) {
        let seen = Arc::new(Mutex::new(Vec::new()));
        (Capture { seen: seen.clone() }, seen)
    }
}

impl Outputer for Capture {
    fn sink_view(&self) -> SinkView {
        unreachable!("a specification is never run")
    }

    fn spec_boxable(&self) -> bool {
        true
    }

    fn boxed(self) -> Result<Box<Self>, Error> {
        Ok(Box::new(self))
    }

    fn write_all(&mut self, bytes: &[u8]) -> Result<(), std::io::Error> {
        self.seen.lock().unwrap().extend_from_slice(bytes);
        Ok(())
    }

    fn desc(&self) -> &str {
        "capture"
    }
}

struct Broken;

impl Outputer for Broken {
    fn sink_view(&self) -> SinkView {
        unreachable!("a specification is never run")
    }

    fn spec_boxable(&self) -> bool {
        true
    }

    fn boxed(self) -> Result<Box<Self>, Error> {
        Ok(Box::new(self))
    }

    fn write_all(&mut self, _bytes: &[u8]) -> Result<(), std::io::Error> {
        Err(std::io::Error::new(std::io::ErrorKind::Other, "disk on fire"))
    }

    fn desc(&self) -> &str {
        "broken"
    }
}

struct Unboxable;

impl Outputer for Unboxable {
    fn sink_view(&self) -> SinkView {
        unreachable!("a specification is never run")
    }

    fn spec_boxable(&self) -> bool {
        false
    }

    fn boxed(self) -> Result<Box<Self>, Error> {
        Err(Error::desc("no box"))
    }

    fn write_all(&mut self, _bytes: &[u8]) -> Result<(), std::io::Error> {
        Ok(())
    }

    fn desc(&self) -> &str {
        "unboxable"
    }
}

struct Plain;

impl Formater for Plain {
    fn spec_renders(&self, _record: &Record, _thread: &str, _text: &String) -> bool {
        unreachable!("a specification is never run")
    }

    fn boxed(self) -> Box<Self> {
        Box::new(self)
    }

    fn format(&self, record: &Record, thread: &str) -> Result<String, Error> {
        Ok(format!("{}|{}|{}\n", thread, record.target, record.args))
    }
}

fn text(seen: &Arc<Mutex<Vec<u8>>>) -> String {
    String::from_utf8(seen.lock().unwrap().clone()).unwrap()
}

fn record(level: Level, body: &str) -> Record {
    Record::new(level, "app".to_string(), Some("src/x.rs".to_string()), Some(7), body.to_string())
}

fn drain<C: Consumer>(worker: &mut Worker<C>) -> Result<(), Error> {
    loop {
        match worker.run(3)? {
            Flow::Continue => {}
            Flow::Stop => return Ok(()),
        }
    }
}

#[test]
fn only_the_error_reaches_a_sink_thresholded_at_warn() {
    let (sink, seen) = Capture::new();
    let logger = NonblockLogger::new()
        .formater(BaseFormater::new().datetime("T"))
        .consumer(BaseConsumer::new().chain(LevelFilter::Warn, sink).unwrap())
        .unwrap();
    let (logger, worker) = logger.detach();
    let mut worker = worker.unwrap();
    assert_eq!(logger.log(&record(Level::Info, "calm"), "1.main").unwrap(), Delivery::Sent);
    assert_eq!(logger.log(&record(Level::Error, "boom"), "1.main").unwrap(), Delivery::Sent);
    assert_eq!(logger.messages_in_channel(), 2);
    logger.send_exit().unwrap();
    drain(&mut worker).unwrap();
    assert_eq!(text(&seen), "T ERROR [1.main] (src/x.rs:7) [app] -- boom\n");
    assert_eq!(logger.messages_in_channel(), 0);
}

#[test]
fn messages_reach_every_qualifying_sink_in_the_order_sent() {
    let (all, seen_all) = Capture::new();
    let (warn, seen_warn) = Capture::new();
    let (off, seen_off) = Capture::new();
    let consumer = BaseConsumer::new()
        .chain(LevelFilter::Trace, all)
        .unwrap()
        .chain(LevelFilter::Off, off)
        .unwrap()
        .chain(LevelFilter::Warn, warn)
        .unwrap();
    assert_eq!(consumer.len(), 3);
    assert_eq!(consumer.targets(Level::Error), vec![0, 2]);
    assert_eq!(consumer.targets(Level::Info), vec![0]);
    let logger = NonblockLogger::new().formater(Plain).consumer(consumer).unwrap();
    let (logger, worker) = logger.detach();
    let mut worker = worker.unwrap();
    let levels = [Level::Info, Level::Error, Level::Debug, Level::Warn, Level::Trace];
    for (i, level) in levels.iter().enumerate() {
        let body = format!("m{}", i + 1);
        assert_eq!(logger.log(&record(*level, &body), "t").unwrap(), Delivery::Sent);
    }
    logger.send_exit().unwrap();
    logger.log(&record(Level::Error, "late"), "t").unwrap();
    drain(&mut worker).unwrap();
    assert_eq!(text(&seen_all), "t|app|m1\nt|app|m2\nt|app|m3\nt|app|m4\nt|app|m5\n");
    assert_eq!(text(&seen_warn), "t|app|m2\nt|app|m4\n");
    assert_eq!(text(&seen_off), "");
}

#[test]
fn a_rejected_record_is_neither_rendered_nor_sent() {
    let filter = BaseFilter::new().notfound(false).chain("app", LevelFilter::Warn);
    let logger = NonblockLogger::new().filter(filter).unwrap();
    assert_eq!(logger.max_level(), LevelFilter::Warn);
    assert!(logger.enabled("app", Level::Error));
    assert!(!logger.enabled("app", Level::Info));
    assert!(!logger.enabled("other", Level::Error));
    assert_eq!(logger.log(&record(Level::Info, "x"), "t").unwrap(), Delivery::Filtered);
    assert_eq!(logger.messages_in_channel(), 0);
    assert!(logger.prepare(&record(Level::Info, "x"), "t").unwrap().is_none());
    let message = logger.prepare(&record(Level::Error, "x"), "t").unwrap().unwrap();
    assert_eq!(message.level, Level::Error);
    assert!(message.content.ends_with(" ERROR [t] (src/x.rs:7) [app] -- x\n"));
}

#[test]
fn an_overlapping_filter_is_refused_by_the_logger() {
    let filter = BaseFilter::new()
        .starts_with(true)
        .chain("net", LevelFilter::Info)
        .chain("net.http", LevelFilter::Debug);
    match NonblockLogger::new().filter(filter) {
        Err(e) => assert_eq!(e.to_string(), "dedup token effect"),
        Ok(_) => panic!("overlapping rules were accepted"),
    }
}

#[test]
fn a_full_queue_is_fatal_unless_the_logger_is_quiet() {
    let logger = NonblockLogger::with_capacity(1).formater(Plain);
    assert!(!logger.quiet_get());
    assert_eq!(logger.log(&record(Level::Info, "one"), "t").unwrap(), Delivery::Sent);
    match logger.log(&record(Level::Info, "two"), "t") {
        Err(Error::Desc(text)) => assert_eq!(text, "NonblockLogger send log message falied!"),
        _ => panic!("the second message was taken"),
    }
    match logger.send(None) {
        Err(Error::Desc(text)) => assert_eq!(text, "NonblockLogger send exit message falied!"),
        _ => panic!("the request to stop was taken"),
    }
    assert_eq!(logger.messages_in_channel(), 1);
}

#[test]
fn a_quiet_logger_drops_what_the_queue_does_not_take() {
    let (sink, seen) = Capture::new();
    let logger = NonblockLogger::with_capacity(1)
        .quiet()
        .formater(Plain)
        .consumer(BaseConsumer::new().chain(LevelFilter::Trace, sink).unwrap())
        .unwrap();
    assert!(logger.quiet_get());
    let (logger, worker) = logger.detach();
    let mut worker = worker.unwrap();
    assert_eq!(logger.log(&record(Level::Info, "one"), "t").unwrap(), Delivery::Sent);
    assert_eq!(logger.log(&record(Level::Info, "two"), "t").unwrap(), Delivery::Dropped);
    assert_eq!(worker.run(1).unwrap(), Flow::Continue);
    let mut handle = JoinHandle::new(&logger);
    assert!(handle.join().unwrap());
    drain(&mut worker).unwrap();
    handle.finish();
    assert!(logger.exited());
    assert_eq!(text(&seen), "t|app|one\n");
}

#[test]
fn join_twice_sends_one_request_to_stop() {
    let logger = NonblockLogger::new();
    let (logger, worker) = logger.detach();
    let mut worker = worker.unwrap();
    assert_eq!(worker.name(), "log");
    let mut handle = JoinHandle::new(&logger);
    assert_eq!(handle.phase(), Phase::Installed);
    assert!(!logger.exited());
    assert!(handle.join().unwrap());
    assert_eq!(handle.phase(), Phase::Stopping);
    assert_eq!(logger.messages_in_channel(), 1);
    assert!(!handle.join().unwrap());
    assert_eq!(handle.phase(), Phase::Stopping);
    assert_eq!(logger.messages_in_channel(), 1);
    drain(&mut worker).unwrap();
    assert!(!logger.exited());
    handle.finish();
    assert_eq!(handle.phase(), Phase::Exited);
    assert!(logger.exited());
    assert!(!handle.join().unwrap());
    handle.finish();
    assert_eq!(handle.phase(), Phase::Exited);
    assert_eq!(logger.messages_in_channel(), 0);
    assert!(logger.exited());
}

#[test]
fn finish_before_join_changes_nothing() {
    let logger = NonblockLogger::new();
    let mut handle = JoinHandle::new(&logger);
    handle.finish();
    assert_eq!(handle.phase(), Phase::Installed);
    assert!(!logger.exited());
}

#[test]
fn the_request_to_stop_fails_where_the_consumer_is_gone() {
    let logger = NonblockLogger::new();
    let (logger, worker) = logger.detach();
    drop(worker);
    match logger.send_exit() {
        Err(Error::Desc(text)) => assert_eq!(text, "NonblockLogger send exit message falied!"),
        _ => panic!("sent into a queue without a receiver"),
    }
    let quiet = NonblockLogger::new().quiet().formater(Plain);
    let (quiet, worker) = quiet.detach();
    drop(worker);
    assert_eq!(quiet.log(&record(Level::Info, "x"), "t").unwrap(), Delivery::Dropped);
    assert!(quiet.send_exit().is_err());
}

#[test]
fn the_worker_is_taken_out_once() {
    let logger = NonblockLogger::new().name("writer");
    assert_eq!(logger.name_get().map(|n| n.as_str()), Some("writer"));
    let (logger, worker) = logger.detach();
    assert_eq!(worker.unwrap().name(), "writer");
    let (logger, worker) = logger.detach();
    assert!(worker.is_none());
    assert!(logger.name_get().is_none());
}

#[test]
fn the_consumer_stops_where_no_sender_is_left() {
    let (sink, seen) = Capture::new();
    let logger = NonblockLogger::new()
        .formater(Plain)
        .consumer(BaseConsumer::new().chain(LevelFilter::Trace, sink).unwrap())
        .unwrap();
    let (logger, worker) = logger.detach();
    let mut worker = worker.unwrap();
    logger.log(&record(Level::Info, "last"), "t").unwrap();
    drop(logger);
    assert_eq!(worker.run(1).unwrap(), Flow::Continue);
    assert_eq!(worker.run(1).unwrap(), Flow::Stop);
    assert_eq!(text(&seen), "t|app|last\n");
}

#[test]
fn a_failed_write_is_reported_with_the_sink_and_the_reason() {
    let (first, seen_first) = Capture::new();
    let (last, seen_last) = Capture::new();
    let mut consumer = BaseConsumer::new()
        .chain(LevelFilter::Trace, first)
        .unwrap()
        .chain(LevelFilter::Warn, Broken)
        .unwrap()
        .chain(LevelFilter::Trace, last)
        .unwrap();
    let calm = Message::new("calm\n".to_string(), Level::Info);
    assert!(consumer.deliver(&calm).is_ok());
    let loud = Message::new("loud\n".to_string(), Level::Error);
    match consumer.deliver(&loud) {
        Err(Error::Desc(text)) => assert_eq!(text, "failed write log to broken: disk on fire"),
        _ => panic!("the failed write went unnoticed"),
    }
    assert_eq!(text(&seen_first), "calm\nloud\n");
    assert_eq!(text(&seen_last), "calm\n");
    assert_eq!(consumer.handle(None).unwrap(), Flow::Stop);
    assert_eq!(consumer.handle(Some(calm)).unwrap(), Flow::Continue);
    assert!(consumer.handle(Some(loud)).is_err());
}

#[test]
fn a_sink_that_refuses_to_be_boxed_is_not_added() {
    match BaseConsumer::new().chain(LevelFilter::Trace, Unboxable) {
        Err(Error::Desc(text)) => assert_eq!(text, "no box"),
        _ => panic!("the sink was added"),
    }
    let consumer = BaseConsumer::default();
    assert_eq!(consumer.len(), 0);
    assert!(consumer.boxed().is_ok());
}

#[test]
fn the_consumer_takes_no_more_than_the_limit() {
    let (sink, seen) = Capture::new();
    let logger = NonblockLogger::new()
        .formater(Plain)
        .consumer(BaseConsumer::new().chain(LevelFilter::Trace, sink).unwrap())
        .unwrap();
    let (logger, worker) = logger.detach();
    let mut worker = worker.unwrap();
    for body in ["a", "b", "c", "d"] {
        logger.log(&record(Level::Info, body), "t").unwrap();
    }
    assert_eq!(worker.run(0).unwrap(), Flow::Continue);
    assert_eq!(text(&seen), "");
    assert_eq!(worker.run(3).unwrap(), Flow::Continue);
    assert_eq!(text(&seen), "t|app|a\nt|app|b\nt|app|c\n");
    logger.send_exit().unwrap();
    assert_eq!(worker.run(3).unwrap(), Flow::Stop);
    assert_eq!(text(&seen), "t|app|a\nt|app|b\nt|app|c\nt|app|d\n");
    assert_eq!(logger.messages_in_channel(), 0);
}

#[test]
fn a_failed_write_ends_the_run() {
    let logger = NonblockLogger::new()
        .formater(Plain)
        .consumer(BaseConsumer::new().chain(LevelFilter::Warn, Broken).unwrap())
        .unwrap();
    let (logger, worker) = logger.detach();
    let mut worker = worker.unwrap();
    logger.log(&record(Level::Info, "calm"), "t").unwrap();
    logger.log(&record(Level::Error, "loud"), "t").unwrap();
    logger.log(&record(Level::Error, "unseen"), "t").unwrap();
    match worker.run(10) {
        Err(Error::Desc(text)) => assert_eq!(text, "failed write log to broken: disk on fire"),
        _ => panic!("the failed write went unnoticed"),
    }
    assert_eq!(logger.messages_in_channel(), 1);
}

#[test]
fn no_logger_has_no_messages() {
    assert_eq!(messages_in_channel::<BaseFilter, BaseFormater, BaseConsumer>(None), 0);
    let logger = NonblockLogger::new().formater(Plain);
    logger.log(&record(Level::Info, "x"), "t").unwrap();
    assert_eq!(messages_in_channel(Some(&logger)), 1);
}

#[test]
fn the_largest_capacity_fits_one_allocation() {
    assert_eq!(MAX_CAPACITY, usize::MAX / 128);
    assert!(MAX_CAPACITY.checked_mul(64).unwrap() <= isize::MAX as usize);
    assert!(std::mem::size_of::<Option<Message>>() + 8 <= 64);
    let logger = NonblockLogger::with_capacity(0).quiet().formater(Plain);
    assert_eq!(logger.log(&record(Level::Info, "x"), "t").unwrap(), Delivery::Dropped);
}

struct Refusing;

impl Consumer for Refusing {
    fn spec_boxable(&self) -> bool {
        false
    }

    fn boxed(self) -> Result<Box<Self>, Error> {
        Err(Error::desc("no consumer"))
    }

    fn consume(&mut self, _receiver: &MessageReceiver, _limit: usize) -> Result<Flow, Error> {
        Ok(Flow::Stop)
    }
}

struct Failing;

impl Consumer for Failing {
    fn spec_boxable(&self) -> bool {
        true
    }

    fn boxed(self) -> Result<Box<Self>, Error> {
        Ok(Box::new(self))
    }

    fn consume(&mut self, _receiver: &MessageReceiver, _limit: usize) -> Result<Flow, Error> {
        Err(Error::desc("asked"))
    }
}

#[test]
fn a_boxed_sink_is_always_added() {
    let (sink, seen) = Capture::new();
    let mut consumer = BaseConsumer::new()
        .chain_boxed(LevelFilter::Info, Box::new(sink))
        .chain_boxed(LevelFilter::Off, Box::new(Broken));
    assert_eq!(consumer.len(), 2);
    assert_eq!(consumer.targets(Level::Warn), vec![0]);
    consumer.deliver(&Message::new("w".to_string(), Level::Warn)).unwrap();
    assert_eq!(text(&seen), "w");
}

#[test]
fn a_consumer_that_refuses_to_be_boxed_is_not_put_in_place() {
    match NonblockLogger::new().consumer(Refusing) {
        Err(Error::Desc(text)) => assert_eq!(text, "no consumer"),
        _ => panic!("the consumer was put in place"),
    }
}

#[test]
fn a_logger_without_worker_asks_no_consumer() {
    let (logger, worker) = NonblockLogger::new().detach();
    assert!(worker.is_some());
    let logger = logger.consumer(Refusing).unwrap();
    let logger = logger.consumer_boxed(Box::new(Failing));
    let (_, worker) = logger.detach();
    assert!(worker.is_none());
}

#[test]
fn a_boxed_consumer_is_the_one_that_runs() {
    let logger = NonblockLogger::new().consumer_boxed(Box::new(Failing));
    let (_, worker) = logger.detach();
    let mut worker = worker.unwrap();
    match worker.run(1) {
        Err(Error::Desc(text)) => assert_eq!(text, "asked"),
        _ => panic!("another consumer ran"),
    }
}

#[test]
fn a_run_of_no_items_asks_no_consumer() {
    let logger = NonblockLogger::new().consumer(Failing).unwrap();
    let (_, worker) = logger.detach();
    let mut worker = worker.unwrap();
    assert_eq!(worker.run(0).unwrap(), Flow::Continue);
    assert!(worker.run(1).is_err());
}

#[test]
fn a_request_to_stop_that_is_not_taken_is_an_error() {
    assert!(stop_verdict(Ok(())).is_ok());
    for back in [None, Some(Message::new("m".to_string(), Level::Info))] {
        match stop_verdict(Err(back)) {
            Err(Error::Desc(text)) => assert_eq!(text, "NonblockLogger send exit message falied!"),
            _ => panic!("the lost request went unnoticed"),
        }
    }
}

#[test]
fn a_bounded_queue_holds_no_more_than_its_capacity() {
    let logger = NonblockLogger::with_capacity(2).quiet().formater(Plain);
    for body in ["a", "b", "c", "d"] {
        logger.log(&record(Level::Info, body), "t").unwrap();
    }
    assert_eq!(logger.messages_in_channel(), 2);
    assert_eq!(messages_in_channel(Some(&logger)), 2);
    let open = NonblockLogger::new().formater(Plain);
    for body in ["a", "b", "c", "d"] {
        assert_eq!(open.log(&record(Level::Info, body), "t").unwrap(), Delivery::Sent);
    }
    assert_eq!(open.messages_in_channel(), 4);
}

#[test]
fn a_function_can_render_in_place_of_the_built_in_formatter() {
    let (sink, seen) = Capture::new();
    let formater = BaseFormater::new().level(3).formater(|base, record, thread| {
        format!("{}/{}/{}/{}\n", base.level_get(), thread, record.target, record.args)
    });
    let shown = (formater.formater_get())(&BaseFormater::new(), &record(Level::Info, "x"), "u");
    assert_eq!(shown, "5/u/app/x\n");
    let logger = NonblockLogger::new()
        .formater(formater)
        .consumer(BaseConsumer::new().chain(LevelFilter::Trace, sink).unwrap())
        .unwrap();
    let (logger, worker) = logger.detach();
    let mut worker = worker.unwrap();
    assert_eq!(logger.log(&record(Level::Warn, "seen"), "t").unwrap(), Delivery::Sent);
    logger.send_exit().unwrap();
    drain(&mut worker).unwrap();
    assert_eq!(text(&seen), "3/t/app/seen\n");
}
