//! The consumer: an ordered table of sinks with their thresholds, which
//! writes each message to every sink that admits its level.

use crate::channel::{recv, MessageReceiver};
use crate::error::{io_error_text, Error};
use crate::level::{Level, LevelFilter};
use crate::record::Message;
use vstd::prelude::*;
use vstd::string::*;
use vstd::utf8::encode_utf8;

verus! {

/// Whether the consumer goes on receiving.
#[derive(Clone, Copy, Debug, PartialEq, Eq, Structural)]
pub enum Flow {
    Continue,
    Stop,
}

/// What is known of a sink: the bytes that it has taken so far, in the order
/// in which it took them, and the description that diagnostics name it by.
pub struct SinkView {
    pub taken: Seq<u8>,
    pub desc: Seq<char>,
}

/// A sink: somewhere that bytes can be written to, with a short description
/// for diagnostics. `sink_view` is what the contracts know of it, and
/// `spec_boxable` says whether it lets itself be boxed. A write that
/// succeeds has put all the bytes behind those taken before; of one that
/// fails nothing is said but that the description stays.
pub trait Outputer: Send + Sync + 'static {
    spec fn sink_view(&self) -> SinkView;

    spec fn spec_boxable(&self) -> bool;

    /// The sink as it is, boxed to be put into a consumer's table, unless
    /// it refuses.
    fn boxed(self) -> (r: Result<Box<Self>, Error>) where Self: Sized
        ensures
            r is Ok <==> self.spec_boxable(),
            r matches Ok(b) ==> b.sink_view() == self.sink_view(),
    ;

    /// Writes all the bytes, or reports why it could not.
    fn write_all(&mut self, bytes: &[u8]) -> (r: Result<(), std::io::Error>)
        ensures
            final(self).sink_view().desc == old(self).sink_view().desc,
            r is Ok ==> final(self).sink_view().taken == old(self).sink_view().taken + bytes@,
    ;

    fn desc(&self) -> (d: &str)
        ensures
            d@ == self.sink_view().desc,
    ;
}

/// A consumer takes what arrives on the receiving end of the queue.
/// `spec_boxable` says whether it lets itself be boxed.
pub trait Consumer: Send + Sync + 'static {
    spec fn spec_boxable(&self) -> bool;

    /// The consumer itself, boxed to be put behind a logger, unless it
    /// refuses.
    fn boxed(self) -> (r: Result<Box<Self>, Error>) where Self: Sized
        ensures
            r is Ok <==> self.spec_boxable(),
            r matches Ok(b) ==> *b == self,
    ;

    /// Takes items from the queue and handles them, `limit` at most,
    /// waiting for each. `Stop` says that the request to stop has arrived
    /// or that no sender is left; `Continue` that the limit was reached.
    fn consume(&mut self, receiver: &MessageReceiver, limit: usize) -> Result<Flow, Error>;
}

/// The places of the sinks among the first `n` whose threshold admits the
/// level, ascending.
pub open spec fn selected_upto(thresholds: Seq<LevelFilter>, level: Level, n: int) -> Seq<usize>
    decreases n,
{
    if n <= 0 {
        Seq::empty()
    } else if thresholds[n - 1].allows(level) {
        selected_upto(thresholds, level, n - 1).push((n - 1) as usize)
    } else {
        selected_upto(thresholds, level, n - 1)
    }
}

/// The places of the sinks that a message of the level is written to, in
/// the order of the writes, which is the order of the table.
pub open spec fn selected(thresholds: Seq<LevelFilter>, level: Level) -> Seq<usize> {
    selected_upto(thresholds, level, thresholds.len() as int)
}

/// A sink after a message has been delivered: it has taken the message's
/// bytes if its threshold admits the message's level, and is as before if
/// not.
pub open spec fn fed(sink: SinkView, threshold: LevelFilter, message: Message) -> SinkView {
    if threshold.allows(message.level) {
        SinkView { taken: sink.taken + encode_utf8(message.content@), desc: sink.desc }
    } else {
        sink
    }
}

/// A sink after a run of messages has been delivered, one after another.
pub open spec fn fed_all(sink: SinkView, threshold: LevelFilter, messages: Seq<Message>) -> SinkView
    decreases messages.len(),
{
    if messages.len() == 0 {
        sink
    } else {
        fed(fed_all(sink, threshold, messages.drop_last()), threshold, messages.last())
    }
}

/// The sinks of a table after a message has been delivered to all of them.
pub open spec fn delivered(
    sinks: Seq<SinkView>,
    thresholds: Seq<LevelFilter>,
    message: Message,
) -> Seq<SinkView> {
    Seq::new(sinks.len(), |i: int| fed(sinks[i], thresholds[i], message))
}

/// The sinks of a table after a run of messages has been delivered.
pub open spec fn delivered_all(
    sinks: Seq<SinkView>,
    thresholds: Seq<LevelFilter>,
    messages: Seq<Message>,
) -> Seq<SinkView> {
    Seq::new(sinks.len(), |i: int| fed_all(sinks[i], thresholds[i], messages))
}

/// The sinks of a table after the delivery of a message has stopped at the
/// failed write to the sink at `place`: the sinks before it have been fed,
/// the sinks behind it are untouched, and the sink itself keeps its
/// description.
pub open spec fn stopped_at(
    before: Seq<SinkView>,
    after: Seq<SinkView>,
    thresholds: Seq<LevelFilter>,
    message: Message,
    place: int,
) -> bool {
    &&& 0 <= place < before.len()
    &&& after.len() == before.len()
    &&& thresholds[place].allows(message.level)
    &&& after[place].desc == before[place].desc
    &&& forall|i: int| 0 <= i < place ==> #[trigger] after[i] == fed(before[i], thresholds[i], message)
    &&& forall|i: int| place < i < before.len() ==> #[trigger] after[i] == before[i]
}

/// The selected places are places of the table whose thresholds admit the
/// level; they ascend; and none that admits the level is left out.
pub proof fn lemma_selected(thresholds: Seq<LevelFilter>, level: Level, n: int)
    requires
        0 <= n <= thresholds.len(),
        n <= usize::MAX,
    ensures
        forall|k: int|
            0 <= k < selected_upto(thresholds, level, n).len() ==> {
                let place = #[trigger] selected_upto(thresholds, level, n)[k];
                place < n && thresholds[place as int].allows(level)
            },
        forall|j: int, k: int|
            0 <= j < k < selected_upto(thresholds, level, n).len() ==> (#[trigger] selected_upto(
                thresholds,
                level,
                n,
            )[j]) < (#[trigger] selected_upto(thresholds, level, n)[k]),
        forall|place: int|
            0 <= place < n && thresholds[place].allows(level) ==> selected_upto(
                thresholds,
                level,
                n,
            ).contains(place as usize),
    decreases n,
{
    if n > 0 {
        lemma_selected(thresholds, level, n - 1);
        let front = selected_upto(thresholds, level, n - 1);
        let all = selected_upto(thresholds, level, n);
        assert forall|k: int| 0 <= k < all.len() implies {
            let place = #[trigger] all[k];
            place < n && thresholds[place as int].allows(level)
        } by {
            if k < front.len() {
                assert(all[k] == front[k]);
            }
        }
        assert forall|j: int, k: int| 0 <= j < k < all.len() implies (#[trigger] all[j]) < (
        #[trigger] all[k]) by {
            assert(all[j] == front[j]);
            if k < front.len() {
                assert(all[k] == front[k]);
            }
        }
        assert forall|place: int| 0 <= place < n && thresholds[place].allows(level) implies all.contains(
            place as usize,
        ) by {
            if place < n - 1 {
                assert(front.contains(place as usize));
                let k = choose|k: int| 0 <= k < front.len() && front[k] == place as usize;
                assert(all[k] == place as usize);
            } else {
                assert(all[all.len() - 1] == place as usize);
            }
        }
    }
}

/// The text of the error that reports a failed write.
pub open spec fn write_failure_text(desc: Seq<char>, reason: Seq<char>) -> Seq<char> {
    "failed write log to "@ + desc + ": "@ + reason
}

/// What a write's outcome means for the consumer: a failed write is reported
/// with the sink's description and the reason.
pub fn write_verdict(desc: &str, outcome: Result<(), String>) -> (r: Result<(), Error>)
    ensures
        outcome is Ok ==> r is Ok,
        outcome matches Err(reason) ==> r matches Err(Error::Desc(s)) && s@ == write_failure_text(
            desc@,
            reason@,
        ),
{
    match outcome {
        Ok(()) => Ok(()),
        Err(reason) => {
            let mut text = String::from_str("failed write log to ");
            text.append(desc);
            text.append(": ");
            text.append(reason.as_str());
            Err(Error::Desc(text))
        },
    }
}

/// The built-in consumer.
pub struct BaseConsumer {
    outputers: Vec<(LevelFilter, Box<dyn Outputer>)>,
}

impl BaseConsumer {
    /// The thresholds of the sinks, in table order.
    pub closed spec fn thresholds(&self) -> Seq<LevelFilter> {
        Seq::new(self.outputers@.len(), |i: int| self.outputers@[i].0)
    }

    /// The sinks, in table order.
    pub closed spec fn sinks(&self) -> Seq<SinkView> {
        Seq::new(self.outputers@.len(), |i: int| self.outputers@[i].1.sink_view())
    }

    /// A consumer without sinks.
    pub fn new() -> (c: BaseConsumer)
        ensures
            c.thresholds() == Seq::<LevelFilter>::empty(),
            c.sinks() == Seq::<SinkView>::empty(),
    {
        let c = Self { outputers: Vec::new() };
        assert(c.thresholds() =~= Seq::<LevelFilter>::empty());
        assert(c.sinks() =~= Seq::<SinkView>::empty());
        c
    }

    /// Boxes the sink and adds it at the end of the table. Whether the sink
    /// can be boxed is for the sink to say: its refusal is handed on, and a
    /// boxed sink is always added.
    pub fn chain<O: Outputer>(self, level: LevelFilter, outputer: O) -> (r: Result<BaseConsumer, Error>)
        ensures
            r is Ok <==> outputer.spec_boxable(),
            r matches Ok(c) ==> {
                &&& c.thresholds() == self.thresholds().push(level)
                &&& c.sinks().len() == self.sinks().len() + 1
                &&& c.sinks().drop_last() == self.sinks()
            },
    {
        match outputer.boxed() {
            Ok(sink) => Ok(self.chain_boxed(level, sink)),
            Err(e) => Err(e),
        }
    }

    /// Adds a boxed sink at the end of the table. The sinks that were there
    /// stay as they are, and the last sink is the one given.
    pub fn chain_boxed(self, level: LevelFilter, sink: Box<dyn Outputer>) -> (c: BaseConsumer)
        ensures
            c.thresholds() == self.thresholds().push(level),
            c.sinks().len() == self.sinks().len() + 1,
            c.sinks().drop_last() == self.sinks(),
            c.sinks().last() == sink.sink_view(),
    {
        let mut c = self;
        let ghost before = c.outputers@;
        let entry = (level, sink);
        let ghost pushed = entry;
        c.outputers.push(entry);
        proof {
            // For a table of trait objects the facts about `push` are not
            // found unprompted, so they are called by name.
            vstd::seq::axiom_seq_push_len(before, pushed);
            vstd::seq::axiom_seq_push_index_same(before, pushed, before.len() as int);
            assert forall|i: int| 0 <= i < before.len() implies c.outputers@[i] == before[i] by {
                vstd::seq::axiom_seq_push_index_different(before, pushed, i);
            }
            assert(c.thresholds() =~= self.thresholds().push(level));
            assert(c.sinks().drop_last() =~= self.sinks());
        }
        c
    }

    /// The number of sinks.
    pub fn len(&self) -> (n: usize)
        ensures
            n == self.thresholds().len(),
            n == self.sinks().len(),
    {
        self.outputers.len()
    }

    /// The places of the sinks that a message of this level is written to,
    /// in the order of the writes.
    pub fn targets(&self, level: Level) -> (places: Vec<usize>)
        ensures
            places@ == selected(self.thresholds(), level),
    {
        let mut places: Vec<usize> = Vec::new();
        let n = self.outputers.len();
        let mut i: usize = 0;
        while i < n
            invariant
                i <= n,
                n == self.outputers@.len(),
                places@ == selected_upto(self.thresholds(), level, i as int),
            decreases n - i,
        {
            if self.outputers[i].0.allows(level) {
                places.push(i);
            }
            i += 1;
        }
        places
    }

    /// Writes the bytes to the sink at the place and says what the outcome
    /// means. The other sinks are not touched.
    fn write_to(&mut self, place: usize, bytes: &[u8]) -> (r: Result<(), Error>)
        requires
            place < old(self).sinks().len(),
        ensures
            final(self).thresholds() == old(self).thresholds(),
            final(self).sinks().len() == old(self).sinks().len(),
            forall|i: int|
                0 <= i < old(self).sinks().len() && i != place ==> #[trigger] final(self).sinks()[i]
                    == old(self).sinks()[i],
            final(self).sinks()[place as int].desc == old(self).sinks()[place as int].desc,
            r is Ok ==> final(self).sinks()[place as int].taken == old(self).sinks()[place as int].taken
                + bytes@,
            r matches Err(e) ==> e matches Error::Desc(s) && exists|reason: Seq<char>|
                s@ == #[trigger] write_failure_text(old(self).sinks()[place as int].desc, reason),
    {
        let ghost before = self.outputers@;
        let entry = &mut self.outputers[place];
        let outcome = match entry.1.write_all(bytes) {
            Ok(()) => Ok(()),
            Err(e) => Err(io_error_text(&e)),
        };
        let ghost reported = outcome;
        let verdict = write_verdict(entry.1.desc(), outcome);
        proof {
            assert(self.outputers@.len() == before.len());
            assert forall|i: int| 0 <= i < before.len() && i != place implies self.outputers@[i]
                == before[i] by {}
            assert(self.thresholds() =~= old(self).thresholds());
            match reported {
                Err(reason) => {
                    assert(verdict matches Err(Error::Desc(s)) && s@ == write_failure_text(
                        old(self).sinks()[place as int].desc,
                        reason@,
                    ));
                },
                Ok(_) => {},
            }
        }
        verdict
    }

    /// Writes the message to every sink whose threshold admits its level, in
    /// table order, and stops at the first write that fails. On success
    /// every sink has been fed; on failure those before the failed one have,
    /// and the error names the failed sink by its description. Where no
    /// sink admits the level nothing is written and nothing can fail.
    pub fn deliver(&mut self, message: &Message) -> (r: Result<(), Error>)
        ensures
            final(self).thresholds() == old(self).thresholds(),
            final(self).sinks().len() == old(self).sinks().len(),
            r is Ok ==> final(self).sinks() == delivered(
                old(self).sinks(),
                old(self).thresholds(),
                *message,
            ),
            r matches Err(e) ==> exists|place: int, reason: Seq<char>|
                {
                    &&& #[trigger] stopped_at(
                        old(self).sinks(),
                        final(self).sinks(),
                        old(self).thresholds(),
                        *message,
                        place,
                    )
                    &&& e matches Error::Desc(s) && s@ == #[trigger] write_failure_text(
                        old(self).sinks()[place].desc,
                        reason,
                    )
                },
            selected(old(self).thresholds(), message.level).len() == 0 ==> r is Ok,
    {
        let bytes = message.content.as_str().as_bytes();
        let places = self.targets(message.level);
        let sinks = self.outputers.len();
        let ghost thresholds = self.thresholds();
        let ghost before = self.sinks();
        let ghost after = delivered(before, thresholds, *message);
        proof {
            lemma_selected(thresholds, message.level, thresholds.len() as int);
        }
        let mut k: usize = 0;
        while k < places.len()
            invariant
                k <= places@.len(),
                sinks == thresholds.len(),
                places@ == selected(thresholds, message.level),
                forall|j: int| 0 <= j < places@.len() ==> (#[trigger] places@[j]) < sinks
                    && thresholds[places@[j] as int].allows(message.level),
                forall|i: int, j: int| 0 <= i < j < places@.len() ==> (#[trigger] places@[i]) < (
                #[trigger] places@[j]),
                forall|place: int| 0 <= place < sinks && thresholds[place].allows(message.level)
                    ==> places@.contains(place as usize),
                thresholds == old(self).thresholds(),
                before == old(self).sinks(),
                after == delivered(before, thresholds, *message),
                self.thresholds() == thresholds,
                self.sinks().len() == before.len(),
                before.len() == sinks,
                bytes@ == encode_utf8(message.content@),
                forall|i: int|
                    0 <= i < sinks && (k == places@.len() || i < places@[k as int])
                        ==> #[trigger] self.sinks()[i] == after[i],
                forall|i: int|
                    0 <= i < sinks && k < places@.len() && i >= places@[k as int]
                        ==> #[trigger] self.sinks()[i] == before[i],
            decreases places@.len() - k,
        {
            let place = places[k];
            let ghost held = self.sinks();
            let outcome = self.write_to(place, bytes);
            match outcome {
                Ok(()) => {},
                Err(e) => {
                    proof {
                        let reason = choose|reason: Seq<char>|
                            e matches Error::Desc(s) && s@ == #[trigger] write_failure_text(
                                held[place as int].desc,
                                reason,
                            );
                        assert(stopped_at(before, self.sinks(), thresholds, *message, place as int));
                        assert(e matches Error::Desc(s) && s@ == write_failure_text(
                            before[place as int].desc,
                            reason,
                        ));
                    }
                    return Err(e);
                },
            }
            proof {
                let now = self.sinks();
                assert(now[place as int] == after[place as int]);
                assert forall|i: int|
                    0 <= i < sinks && (k + 1 == places@.len() || i < places@[k + 1])
                    implies #[trigger] now[i] == after[i] by {
                    if i > place {
                        if thresholds[i].allows(message.level) {
                            let j = choose|j: int| 0 <= j < places@.len() && places@[j] == i as usize;
                            assert(places@[k as int] < places@[j]);
                        }
                    }
                }
            }
            k += 1;
        }
        assert(self.sinks() =~= after);
        Ok(())
    }

    /// Handles one item from the queue: a message is delivered, and the
    /// request to stop ends the run and touches no sink.
    pub fn handle(&mut self, item: Option<Message>) -> (r: Result<Flow, Error>)
        ensures
            final(self).thresholds() == old(self).thresholds(),
            final(self).sinks().len() == old(self).sinks().len(),
            item is None ==> r == Ok::<Flow, Error>(Flow::Stop) && final(self).sinks() == old(self).sinks(),
            item matches Some(message) ==> {
                &&& r matches Ok(flow) ==> flow == Flow::Continue
                &&& r is Ok ==> final(self).sinks() == delivered(
                    old(self).sinks(),
                    old(self).thresholds(),
                    message,
                )
                &&& r matches Err(e) ==> exists|place: int, reason: Seq<char>|
                    {
                        &&& #[trigger] stopped_at(
                            old(self).sinks(),
                            final(self).sinks(),
                            old(self).thresholds(),
                            message,
                            place,
                        )
                        &&& e matches Error::Desc(s) && s@ == #[trigger] write_failure_text(
                            old(self).sinks()[place].desc,
                            reason,
                        )
                    }
                &&& selected(old(self).thresholds(), message.level).len() == 0 ==> r is Ok
            },
    {
        match item {
            Some(message) => {
                match self.deliver(&message) {
                    Ok(()) => Ok(Flow::Continue),
                    Err(e) => Err(e),
                }
            },
            None => Ok(Flow::Stop),
        }
    }
}

impl Consumer for BaseConsumer {
    open spec fn spec_boxable(&self) -> bool {
        true
    }

    fn boxed(self) -> (r: Result<Box<Self>, Error>) {
        Ok(Box::new(self))
    }

    /// On success every sink has been fed the messages that were taken, in
    /// the order in which the queue gave them. On failure the sinks have
    /// been fed the messages before the failed one, and the delivery of
    /// that one has stopped at the failed sink.
    fn consume(&mut self, receiver: &MessageReceiver, limit: usize) -> (r: Result<Flow, Error>)
        ensures
            final(self).thresholds() == old(self).thresholds(),
            final(self).sinks().len() == old(self).sinks().len(),
            r is Ok ==> exists|received: Seq<Message>|
                {
                    &&& received.len() <= limit
                    &&& r matches Ok(Flow::Continue) ==> received.len() == limit
                    &&& final(self).sinks() == #[trigger] delivered_all(
                        old(self).sinks(),
                        old(self).thresholds(),
                        received,
                    )
                },
            r matches Err(e) ==> exists|received: Seq<Message>, failed: Message, place: int, reason: Seq<char>|
                {
                    &&& received.len() < limit
                    &&& #[trigger] stopped_at(
                        delivered_all(old(self).sinks(), old(self).thresholds(), received),
                        final(self).sinks(),
                        old(self).thresholds(),
                        failed,
                        place,
                    )
                    &&& e matches Error::Desc(s) && s@ == #[trigger] write_failure_text(
                        old(self).sinks()[place].desc,
                        reason,
                    )
                },
    {
        let ghost thresholds = self.thresholds();
        let ghost before = self.sinks();
        let ghost mut received: Seq<Message> = Seq::empty();
        let mut taken: usize = 0;
        assert(self.sinks() =~= delivered_all(before, thresholds, received));
        while taken < limit
            invariant
                taken <= limit,
                received.len() == taken,
                thresholds == old(self).thresholds(),
                before == old(self).sinks(),
                self.thresholds() == thresholds,
                self.sinks() == delivered_all(before, thresholds, received),
            decreases limit - taken,
        {
            let item = match recv(receiver) {
                Some(item) => item,
                None => {
                    return Ok(Flow::Stop);
                },
            };
            let ghost so_far = self.sinks();
            match self.handle(item) {
                Ok(Flow::Stop) => {
                    return Ok(Flow::Stop);
                },
                Ok(Flow::Continue) => {
                    proof {
                        let message = item->0;
                        let longer = received.push(message);
                        assert(longer.drop_last() =~= received);
                        assert(self.sinks() =~= delivered_all(before, thresholds, longer));
                        received = longer;
                    }
                    taken += 1;
                },
                Err(e) => {
                    proof {
                        let failed = item->0;
                        let (place, reason) = choose|place: int, reason: Seq<char>|
                            {
                                &&& #[trigger] stopped_at(
                                    so_far,
                                    self.sinks(),
                                    thresholds,
                                    failed,
                                    place,
                                )
                                &&& e matches Error::Desc(s) && s@ == #[trigger] write_failure_text(
                                    so_far[place].desc,
                                    reason,
                                )
                            };
                        lemma_fed_all(before[place], thresholds[place], received);
                        assert(e matches Error::Desc(s) && s@ == write_failure_text(
                            before[place].desc,
                            reason,
                        ));
                    }
                    return Err(e);
                },
            }
        }
        Ok(Flow::Continue)
    }
}

impl Default for BaseConsumer {
    fn default() -> (c: BaseConsumer)
        ensures
            c.thresholds() == Seq::<LevelFilter>::empty(),
            c.sinks() == Seq::<SinkView>::empty(),
    {
        Self::new()
    }
}

/// The contents of the messages that a threshold admits, one after another
/// in the order of the messages.
pub open spec fn admitted(threshold: LevelFilter, messages: Seq<Message>) -> Seq<u8>
    decreases messages.len(),
{
    if messages.len() == 0 {
        Seq::empty()
    } else if threshold.allows(messages.last().level) {
        admitted(threshold, messages.drop_last()) + encode_utf8(messages.last().content@)
    } else {
        admitted(threshold, messages.drop_last())
    }
}

/// A sink that has been fed a run of messages has taken, behind what it had
/// taken before, the contents of exactly those messages that its threshold
/// admits, in the order in which the messages arrived; and it keeps its
/// description.
pub proof fn lemma_fed_all(sink: SinkView, threshold: LevelFilter, messages: Seq<Message>)
    ensures
        fed_all(sink, threshold, messages).taken == sink.taken + admitted(threshold, messages),
        fed_all(sink, threshold, messages).desc == sink.desc,
    decreases messages.len(),
{
    if messages.len() == 0 {
        assert(sink.taken + admitted(threshold, messages) =~= sink.taken);
    } else {
        lemma_fed_all(sink, threshold, messages.drop_last());
        assert(fed_all(sink, threshold, messages).taken =~= sink.taken + admitted(
            threshold,
            messages,
        ));
    }
}

/// Feeding a sink two runs of messages, one after the other, is feeding it
/// the one run that holds both: what has been delivered stays in front of
/// what is delivered later.
pub proof fn lemma_fed_all_in_two_runs(
    sink: SinkView,
    threshold: LevelFilter,
    first: Seq<Message>,
    second: Seq<Message>,
)
    ensures
        fed_all(fed_all(sink, threshold, first), threshold, second) == fed_all(
            sink,
            threshold,
            first + second,
        ),
    decreases second.len(),
{
    if second.len() == 0 {
        assert(first + second =~= first);
    } else {
        lemma_fed_all_in_two_runs(sink, threshold, first, second.drop_last());
        assert((first + second).drop_last() =~= first + second.drop_last());
        assert((first + second).last() == second.last());
    }
}

} // verus!
