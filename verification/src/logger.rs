//! The logger: filter, formatter and the sending end of the queue, with the
//! policy for a queue that does not take a message.

use crate::channel::{
    bounded, queue_capacity, queued, send, try_send, unbounded, MessageReceiver, MessageSender,
    TrySend, MAX_CAPACITY,
};
use crate::consumer::{BaseConsumer, Consumer, Flow};
use crate::error::Error;
use crate::filter::{BaseFilter, Filter};
use crate::formater::{BaseFormater, Formater};
use crate::level::{Level, LevelFilter};
use crate::lifecycle::{step, Action, Event, Phase};
use crate::record::{Message, Record};
use std::sync::atomic::{AtomicBool, Ordering};
use vstd::prelude::*;
use vstd::string::*;
use vstd::utf8::encode_utf8;

verus! {

/// What became of a record that was handed to the logger.
#[derive(Clone, Copy, Debug, PartialEq, Eq, Structural)]
pub enum Delivery {
    /// The filter rejected it; it was neither rendered nor sent.
    Filtered,
    /// It was rendered and the queue took it.
    Sent,
    /// It was rendered, the queue did not take it, and the logger is quiet.
    Dropped,
}

/// The name of the consumer's thread where none is given.
pub open spec fn default_name() -> Seq<char> {
    "log"@
}

/// The text of the error for a message that the queue did not take.
pub open spec fn send_log_failure_text() -> Seq<char> {
    "NonblockLogger send log message falied!"@
}

/// The text of the error for a request to stop that the queue did not take.
pub open spec fn send_exit_failure_text() -> Seq<char> {
    "NonblockLogger send exit message falied!"@
}

/// What the outcome of an attempt to send means. An item that was taken is
/// sent; one that was not is dropped by a quiet logger and is a fatal error
/// otherwise, with a text that says whether a message or the request to stop
/// was lost.
pub open spec fn spec_send_verdict(quiet: bool, outcome: TrySend) -> Result<Delivery, Seq<char>> {
    match outcome {
        TrySend::Sent => Ok(Delivery::Sent),
        TrySend::Full(item) | TrySend::Disconnected(item) => if quiet {
            Ok(Delivery::Dropped)
        } else if item is Some {
            Err(send_log_failure_text())
        } else {
            Err(send_exit_failure_text())
        },
    }
}

/// Decides what the outcome of an attempt to send means.
pub fn send_verdict(quiet: bool, outcome: TrySend) -> (r: Result<Delivery, Error>)
    ensures
        match spec_send_verdict(quiet, outcome) {
            Ok(d) => r == Ok::<Delivery, Error>(d),
            Err(text) => r matches Err(Error::Desc(s)) && s@ == text,
        },
{
    let lost = match outcome {
        TrySend::Sent => {
            return Ok(Delivery::Sent);
        },
        TrySend::Full(item) => item,
        TrySend::Disconnected(item) => item,
    };
    if quiet {
        Ok(Delivery::Dropped)
    } else if lost.is_some() {
        Err(Error::desc("NonblockLogger send log message falied!"))
    } else {
        Err(Error::desc("NonblockLogger send exit message falied!"))
    }
}

/// The consumer's side of an installed logger: the consumer, the receiving
/// end of the queue, and the name for the thread that runs them.
pub struct Worker<C: Consumer> {
    name: String,
    consumer: Box<C>,
    receiver: MessageReceiver,
}

impl<C: Consumer> Worker<C> {
    /// The name for the consumer's thread.
    pub closed spec fn spec_name(&self) -> Seq<char> {
        self.name@
    }

    /// The consumer that the worker runs.
    pub closed spec fn spec_consumer(&self) -> C {
        *self.consumer
    }

    pub fn name(&self) -> (n: &str)
        ensures
            n@ == self.spec_name(),
    {
        self.name.as_str()
    }

    /// Lets the consumer take items from the queue, `limit` at most.
    /// `Stop` says that the consumer has ended, `Continue` that the limit
    /// was reached. With a limit of zero there is nothing to take, and the
    /// consumer is not asked.
    pub fn run(&mut self, limit: usize) -> (r: Result<Flow, Error>)
        ensures
            final(self).spec_name() == old(self).spec_name(),
            limit == 0 ==> r == Ok::<Flow, Error>(Flow::Continue) && final(self).spec_consumer()
                == old(self).spec_consumer(),
    {
        if limit == 0 {
            return Ok(Flow::Continue);
        }
        self.consumer.consume(&self.receiver, limit)
    }
}

/// A logger under configuration and, once its worker is taken out, the
/// producers' side of the pipeline. `F` is the filter that it asks, `M` the
/// formatter that renders for it, and `C` the consumer that it gives to its
/// worker.
pub struct NonblockLogger<F: Filter, M: Formater, C: Consumer> {
    name: Option<String>,
    filter: Box<F>,
    formater: Box<M>,
    consumer: Option<Box<C>>,
    sender: MessageSender,
    receiver: Option<MessageReceiver>,
    exited: AtomicBool,
    quiet: bool,
}

impl NonblockLogger<BaseFilter, BaseFormater, BaseConsumer> {
    fn assemble(ends: (MessageSender, MessageReceiver)) -> (l: NonblockLogger<
        BaseFilter,
        BaseFormater,
        BaseConsumer,
    >)
        ensures
            l.spec_capacity() == queue_capacity(ends.0),
            l.is_fresh(),
    {
        let filter: Box<BaseFilter> = Box::new(BaseFilter::new());
        let consumer: Box<BaseConsumer> = Box::new(BaseConsumer::new());
        let formater: Box<BaseFormater> = Box::new(BaseFormater::new());
        NonblockLogger {
            name: None,
            filter,
            formater,
            consumer: Some(consumer),
            sender: ends.0,
            receiver: Some(ends.1),
            exited: AtomicBool::new(false),
            quiet: false,
        }
    }

    /// What a logger is before anything is configured: loud and without a
    /// name, with its worker inside, the empty filter, which lets every
    /// record pass, the built-in formatter as it is made, and a consumer
    /// without sinks.
    pub open spec fn is_fresh(&self) -> bool {
        &&& self.holds_worker()
        &&& !self.spec_quiet_get()
        &&& self.spec_name_get() is None
        &&& self.spec_filter().rules() == Seq::<crate::filter::Rule>::empty()
        &&& self.spec_filter().base() == LevelFilter::Trace
        &&& !self.spec_filter().prefix_mode()
        &&& self.spec_filter().pass_unmatched()
        &&& !self.spec_formater().spec_local_get()
        &&& self.spec_formater().spec_level_get() == 5
        &&& self.spec_formater().spec_datetime_get() == "%Y-%m-%d %H:%M:%S.%3f"@
        &&& !self.spec_formater().spec_color_get().color
        &&& self.spec_consumer() matches Some(c) && c.thresholds() == Seq::<LevelFilter>::empty()
    }

    /// A fresh logger with a queue that grows as needed.
    pub fn new() -> (l: NonblockLogger<BaseFilter, BaseFormater, BaseConsumer>)
        ensures
            l.spec_capacity() is None,
            l.is_fresh(),
    {
        Self::assemble(unbounded())
    }

    /// A fresh logger with a queue that holds `cap` items at most.
    pub fn with_capacity(cap: usize) -> (l: NonblockLogger<BaseFilter, BaseFormater, BaseConsumer>)
        requires
            cap <= MAX_CAPACITY,
        ensures
            l.spec_capacity() == Some(cap),
            l.is_fresh(),
    {
        Self::assemble(bounded(cap))
    }
}

impl<F: Filter, M: Formater, C: Consumer> NonblockLogger<F, M, C> {
    #[verifier::type_invariant]
    spec fn well_formed(self) -> bool {
        &&& self.filter.spec_ready()
        &&& self.consumer is Some <==> self.receiver is Some
    }

    /// The filter that the logger asks.
    pub closed spec fn spec_filter(&self) -> F {
        *self.filter
    }

    /// The formatter that renders for the logger.
    pub closed spec fn spec_formater(&self) -> M {
        *self.formater
    }

    /// The consumer that the logger gives to its worker, while the worker is
    /// inside.
    pub closed spec fn spec_consumer(&self) -> Option<C> {
        match self.consumer {
            Some(c) => Some(*c),
            None => None,
        }
    }

    /// The filter's decision on a target and a level.
    pub open spec fn passes(&self, target: Seq<u8>, level: Level) -> bool {
        self.spec_filter().spec_passes(target, level)
    }

    /// Whether a message that the queue does not take is dropped silently.
    pub closed spec fn spec_quiet_get(&self) -> bool {
        self.quiet
    }

    /// The capacity that the queue was made with, `None` for a queue that
    /// grows as needed.
    pub closed spec fn spec_capacity(&self) -> Option<usize> {
        queue_capacity(self.sender)
    }

    /// The name given for the consumer's thread, if any.
    pub closed spec fn spec_name_get(&self) -> Option<Seq<char>> {
        match self.name {
            Some(n) => Some(n@),
            None => None,
        }
    }

    /// Whether the worker is still inside: the logger is under
    /// configuration.
    pub closed spec fn holds_worker(&self) -> bool {
        self.consumer is Some && self.receiver is Some
    }

    /// Everything but the filter, the formatter and the consumer is the
    /// same in both loggers: queue, name, policy, and whether the worker is
    /// inside.
    pub open spec fn same_frame<G: Filter, N: Formater, D: Consumer>(
        &self,
        other: &NonblockLogger<G, N, D>,
    ) -> bool {
        &&& self.holds_worker() == other.holds_worker()
        &&& self.spec_quiet_get() == other.spec_quiet_get()
        &&& self.spec_name_get() == other.spec_name_get()
        &&& self.spec_capacity() == other.spec_capacity()
    }

    /// Puts the formatter in place of the logger's formatter.
    pub fn formater<N: Formater>(self, formater: N) -> (l: NonblockLogger<F, N, C>)
        ensures
            l.spec_formater() == formater,
            l.spec_filter() == self.spec_filter(),
            l.spec_consumer() == self.spec_consumer(),
            l.same_frame(&self),
    {
        proof {
            use_type_invariant(&self);
        }
        NonblockLogger {
            name: self.name,
            filter: self.filter,
            formater: formater.boxed(),
            consumer: self.consumer,
            sender: self.sender,
            receiver: self.receiver,
            exited: self.exited,
            quiet: self.quiet,
        }
    }

    /// Puts a built filter in place of the logger's filter.
    pub fn filter_built<G: Filter>(self, filter: Box<G>) -> (l: NonblockLogger<G, M, C>)
        requires
            filter.spec_ready(),
        ensures
            l.spec_filter() == *filter,
            l.spec_formater() == self.spec_formater(),
            l.spec_consumer() == self.spec_consumer(),
            l.same_frame(&self),
    {
        proof {
            use_type_invariant(&self);
        }
        NonblockLogger {
            name: self.name,
            filter,
            formater: self.formater,
            consumer: self.consumer,
            sender: self.sender,
            receiver: self.receiver,
            exited: self.exited,
            quiet: self.quiet,
        }
    }

    /// Builds the filter and puts it in place, or hands on the filter's
    /// refusal. It succeeds exactly where the filter can be built, and the
    /// logger then asks the built filter; where it cannot, the error is the
    /// filter's own.
    pub fn filter<G: Filter>(self, filter: G) -> (r: Result<NonblockLogger<G, M, C>, Error>)
        ensures
            r is Ok <==> filter.spec_buildable(),
            r matches Err(e) ==> filter.spec_refuses_with(e),
            r matches Ok(l) ==> {
                &&& filter.spec_builds_into(&l.spec_filter())
                &&& l.spec_formater() == self.spec_formater()
                &&& l.spec_consumer() == self.spec_consumer()
                &&& l.same_frame(&self)
            },
    {
        match filter.boxed() {
            Ok(built) => Ok(self.filter_built(built)),
            Err(e) => Err(e),
        }
    }

    /// Boxes the consumer and puts it in place of the logger's consumer.
    /// Whether the consumer can be boxed is for the consumer to say: its
    /// refusal is handed on. A logger whose worker has been taken out has
    /// no place for a consumer: it stays without one, and the consumer is
    /// not asked.
    pub fn consumer<D: Consumer>(self, consumer: D) -> (r: Result<NonblockLogger<F, M, D>, Error>)
        ensures
            r is Ok <==> !self.holds_worker() || consumer.spec_boxable(),
            r matches Ok(l) ==> {
                &&& l.spec_consumer() == if self.holds_worker() {
                    Some(consumer)
                } else {
                    None
                }
                &&& l.spec_filter() == self.spec_filter()
                &&& l.spec_formater() == self.spec_formater()
                &&& l.same_frame(&self)
            },
    {
        proof {
            use_type_invariant(&self);
        }
        if self.consumer.is_none() {
            return Ok(self.rid());
        }
        match consumer.boxed() {
            Ok(boxed) => Ok(self.consumer_boxed(boxed)),
            Err(e) => Err(e),
        }
    }

    /// Puts a boxed consumer in place of the logger's consumer. A logger
    /// whose worker has been taken out stays without a consumer.
    pub fn consumer_boxed<D: Consumer>(self, consumer: Box<D>) -> (l: NonblockLogger<F, M, D>)
        ensures
            l.spec_consumer() == if self.holds_worker() {
                Some(*consumer)
            } else {
                None
            },
            l.spec_filter() == self.spec_filter(),
            l.spec_formater() == self.spec_formater(),
            l.same_frame(&self),
    {
        proof {
            use_type_invariant(&self);
        }
        let consumer = if self.receiver.is_some() {
            Some(consumer)
        } else {
            None
        };
        NonblockLogger {
            name: self.name,
            filter: self.filter,
            formater: self.formater,
            consumer,
            sender: self.sender,
            receiver: self.receiver,
            exited: self.exited,
            quiet: self.quiet,
        }
    }

    /// The logger without its consumer, for a logger whose worker is out.
    fn rid<D: Consumer>(self) -> (l: NonblockLogger<F, M, D>)
        requires
            !self.holds_worker(),
        ensures
            l.spec_consumer() is None,
            l.spec_filter() == self.spec_filter(),
            l.spec_formater() == self.spec_formater(),
            l.same_frame(&self),
    {
        proof {
            use_type_invariant(&self);
        }
        NonblockLogger {
            name: self.name,
            filter: self.filter,
            formater: self.formater,
            consumer: None,
            sender: self.sender,
            receiver: self.receiver,
            exited: self.exited,
            quiet: self.quiet,
        }
    }

    /// Names the consumer's thread.
    pub fn name(self, name: &str) -> (l: NonblockLogger<F, M, C>)
        ensures
            l.spec_name_get() == Some(name@),
            l.holds_worker() == self.holds_worker(),
            l.spec_quiet_get() == self.spec_quiet_get(),
            l.spec_capacity() == self.spec_capacity(),
            l.spec_filter() == self.spec_filter(),
            l.spec_formater() == self.spec_formater(),
            l.spec_consumer() == self.spec_consumer(),
    {
        proof {
            use_type_invariant(&self);
        }
        let mut l = self;
        l.name = Some(String::from_str(name));
        l
    }

    pub fn name_get(&self) -> (n: Option<&String>)
        ensures
            match n {
                Some(n) => self.spec_name_get() == Some(n@),
                None => self.spec_name_get() is None,
            },
    {
        self.name.as_ref()
    }

    /// Makes the logger quiet: a message that the queue does not take is
    /// dropped without an error.
    pub fn quiet(self) -> (l: NonblockLogger<F, M, C>)
        ensures
            l.spec_quiet_get(),
            l.holds_worker() == self.holds_worker(),
            l.spec_name_get() == self.spec_name_get(),
            l.spec_capacity() == self.spec_capacity(),
            l.spec_filter() == self.spec_filter(),
            l.spec_formater() == self.spec_formater(),
            l.spec_consumer() == self.spec_consumer(),
    {
        proof {
            use_type_invariant(&self);
        }
        let mut l = self;
        l.quiet = true;
        l
    }

    #[verifier::when_used_as_spec(spec_quiet_get)]
    pub fn quiet_get(&self) -> (q: bool)
        ensures
            q == self.spec_quiet_get(),
    {
        self.quiet
    }

    /// The most verbose level that the filter can admit: the threshold for
    /// the logging facade.
    pub fn max_level(&self) -> (l: LevelFilter)
        ensures
            l == self.spec_filter().spec_maxlevel(),
    {
        self.filter.maxlevel()
    }

    /// Whether a record of this target and level would be emitted.
    pub fn enabled(&self, target: &str, level: Level) -> (r: bool)
        ensures
            r == self.passes(encode_utf8(target@), level),
    {
        proof {
            use_type_invariant(self);
        }
        self.filter.enabled(target, level)
    }

    /// Filters the record and, only if it passes, has the logger's formatter
    /// render it: the message holds that rendering and the record's level.
    pub fn prepare(&self, record: &Record, thread: &str) -> (r: Result<Option<Message>, Error>)
        ensures
            !self.passes(record.target_bytes(), record.level) ==> r matches Ok(None),
            self.passes(record.target_bytes(), record.level) ==> !(r matches Ok(None)),
            r matches Ok(Some(message)) ==> message.level == record.level
                && self.spec_formater().spec_renders(record, thread, &message.content),
    {
        proof {
            use_type_invariant(self);
        }
        if !self.filter.log(record) {
            return Ok(None);
        }
        match self.formater.format(record, thread) {
            Ok(content) => Ok(Some(Message::new(content, record.level()))),
            Err(e) => Err(e),
        }
    }

    /// Offers an item to the queue without waiting and decides by the
    /// logger's policy what the outcome means. Whether the queue takes the
    /// item is for the queue to say; a quiet logger never fails, and another
    /// fails exactly where the item was not taken.
    pub fn send(&self, item: Option<Message>) -> (r: Result<Delivery, Error>)
        ensures
            !(r matches Ok(Delivery::Filtered)),
            self.spec_quiet_get() ==> r is Ok,
            r matches Ok(Delivery::Dropped) ==> self.spec_quiet_get(),
            r matches Err(e) ==> e matches Error::Desc(s) && s@ == (if item is Some {
                send_log_failure_text()
            } else {
                send_exit_failure_text()
            }),
    {
        let outcome = try_send(&self.sender, item);
        send_verdict(self.quiet, outcome)
    }

    /// Handles one record: filters it, renders it if it passes, and offers
    /// the message to the queue without waiting. A record that does not pass
    /// costs no rendering, and only a quiet logger drops a message.
    pub fn log(&self, record: &Record, thread: &str) -> (r: Result<Delivery, Error>)
        ensures
            !self.passes(record.target_bytes(), record.level) ==> r matches Ok(Delivery::Filtered),
            self.passes(record.target_bytes(), record.level) ==> !(r matches Ok(Delivery::Filtered)),
            r matches Ok(Delivery::Dropped) ==> self.spec_quiet_get(),
    {
        match self.prepare(record, thread) {
            Ok(Some(message)) => self.send(Some(message)),
            Ok(None) => Ok(Delivery::Filtered),
            Err(e) => Err(e),
        }
    }

    /// Puts the request to stop into the queue, waiting for room whether the
    /// logger is quiet or not. It fails only where the consumer's end of the
    /// queue is gone.
    pub fn send_exit(&self) -> (r: Result<(), Error>)
        ensures
            r matches Err(e) ==> e matches Error::Desc(s) && s@ == send_exit_failure_text(),
    {
        stop_verdict(send(&self.sender, None))
    }

    /// Raises the flag that says that the consumer has ended.
    pub fn exit(&self) {
        self.exited.store(true, Ordering::SeqCst)
    }

    /// Whether the flag was seen raised.
    pub fn exited(&self) -> bool {
        self.exited.load(Ordering::Relaxed)
    }

    /// The number of items in the queue at some moment of the call: never
    /// more than the capacity that the queue was made with.
    pub fn messages_in_channel(&self) -> (n: usize)
        ensures
            self.spec_capacity() matches Some(cap) ==> n <= cap,
    {
        queued(&self.sender)
    }

    /// Takes the consumer's side out of the logger: the logger's consumer,
    /// the receiving end of the queue, and the thread's name, `log` where
    /// none was given. What is left is the producers' side, which decides,
    /// renders and sends as before. A logger whose worker is out already
    /// has none to give.
    pub fn detach(self) -> (parts: (NonblockLogger<F, M, C>, Option<Worker<C>>))
        ensures
            parts.1 is Some <==> self.holds_worker(),
            parts.1 matches Some(worker) ==> {
                &&& Some(worker.spec_consumer()) == self.spec_consumer()
                &&& worker.spec_name() == match self.spec_name_get() {
                    Some(n) => n,
                    None => default_name(),
                }
            },
            !parts.0.holds_worker(),
            parts.0.spec_consumer() is None,
            parts.0.spec_quiet_get() == self.spec_quiet_get(),
            parts.0.spec_capacity() == self.spec_capacity(),
            parts.0.spec_filter() == self.spec_filter(),
            parts.0.spec_formater() == self.spec_formater(),
    {
        proof {
            use_type_invariant(&self);
        }
        let worker = match (self.consumer, self.receiver) {
            (Some(consumer), Some(receiver)) => {
                let name = match self.name {
                    Some(name) => name,
                    None => String::from_str("log"),
                };
                Some(Worker { name, consumer, receiver })
            },
            _ => None,
        };
        let l = NonblockLogger {
            name: None,
            filter: self.filter,
            formater: self.formater,
            consumer: None,
            sender: self.sender,
            receiver: None,
            exited: self.exited,
            quiet: self.quiet,
        };
        (l, worker)
    }
}

/// The number of items in the queue of the installed logger, zero where no
/// logger is installed, and never more than the capacity that the logger's
/// queue was made with.
pub fn messages_in_channel<F: Filter, M: Formater, C: Consumer>(
    logger: Option<&NonblockLogger<F, M, C>>,
) -> (n: usize)
    ensures
        logger is None ==> n == 0,
        logger matches Some(l) ==> (l.spec_capacity() matches Some(cap) ==> n <= cap),
{
    match logger {
        Some(logger) => logger.messages_in_channel(),
        None => 0,
    }
}

/// What the outcome of sending the request to stop, waiting for room, means:
/// a request that was not taken is an error, whether the logger is quiet or
/// not.
pub fn stop_verdict(outcome: Result<(), Option<Message>>) -> (r: Result<(), Error>)
    ensures
        r is Ok <==> outcome is Ok,
        r matches Err(e) ==> e matches Error::Desc(s) && s@ == send_exit_failure_text(),
{
    match outcome {
        Ok(()) => Ok(()),
        Err(_) => Err(Error::desc("NonblockLogger send exit message falied!")),
    }
}

/// The handle on the shutdown of an installed logger. It remembers whether
/// the shutdown has been asked for, so that only the first request sends the
/// request to stop.
pub struct JoinHandle<'a, F: Filter, M: Formater, C: Consumer> {
    logger: &'a NonblockLogger<F, M, C>,
    phase: Phase,
}

impl<'a, F: Filter, M: Formater, C: Consumer> JoinHandle<'a, F, M, C> {
    /// The phase of the logger as the handle knows it.
    pub closed spec fn spec_phase(&self) -> Phase {
        self.phase
    }

    /// The handle for a logger that has just been installed.
    pub fn new(logger: &'a NonblockLogger<F, M, C>) -> (h: JoinHandle<'a, F, M, C>)
        ensures
            h.spec_phase() == Phase::Installed,
    {
        Self { logger, phase: Phase::Installed }
    }

    #[verifier::when_used_as_spec(spec_phase)]
    pub fn phase(&self) -> (p: Phase)
        ensures
            p == self.spec_phase(),
    {
        self.phase
    }

    /// Asks for the shutdown. The first call puts the request to stop into
    /// the queue and answers `true`: the caller now waits for the consumer.
    /// Every later call does nothing and answers `false`.
    pub fn join(&mut self) -> (r: Result<bool, Error>)
        ensures
            final(self).spec_phase() == step(old(self).spec_phase(), Event::Join).0,
            step(old(self).spec_phase(), Event::Join).1 == Action::Nothing ==> r matches Ok(false),
            r matches Ok(wait) ==> wait == (step(old(self).spec_phase(), Event::Join).1
                == Action::SendStop),
            r matches Err(e) ==> e matches Error::Desc(s) && s@ == send_exit_failure_text(),
    {
        let (next, action) = step(self.phase, Event::Join);
        self.phase = next;
        match action {
            Action::SendStop => match self.logger.send_exit() {
                Ok(()) => Ok(true),
                Err(e) => Err(e),
            },
            _ => Ok(false),
        }
    }

    /// Records that the consumer has ended, and raises the logger's flag
    /// where this ends the shutdown.
    pub fn finish(&mut self)
        ensures
            final(self).spec_phase() == step(old(self).spec_phase(), Event::Drained).0,
    {
        let (next, action) = step(self.phase, Event::Drained);
        self.phase = next;
        match action {
            Action::MarkExited => self.logger.exit(),
            _ => {},
        }
    }
}

} // verus!
