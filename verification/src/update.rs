//! Feeding messages to the application, one after the other.
use vstd::prelude::*;

verus! {

/// A single thing to be done while messages are fed to the application.
///
/// `M` is a message, and `T` the work that an application wants to be run in the background.
#[derive(Debug, PartialEq, Eq)]
pub enum UpdateEffect<M, T> {
    /// Update the application with the message, and report the work that comes of it.
    Feed(M),
    /// Run the work in the background.
    RunStream(T),
    /// Bring the state of the window up to date with the application.
    Synchronize,
    /// Track the subscription of the application as it is now.
    TrackSubscription,
    /// Report the title of the application as it is now.
    ReadTitle,
    /// Give the window this title.
    SetTitle(String),
}

/// The messages that the application has still to be fed with, after the one it has now.
pub struct Update<M> {
    remaining: Vec<M>,
}

/// What follows once a message has been fed and its work is run.
pub open spec fn feed_next<M, T>(remaining: Seq<M>) -> Seq<UpdateEffect<M, T>> {
    if remaining.len() > 0 {
        seq![UpdateEffect::Feed(remaining[0])]
    } else {
        seq![
            UpdateEffect::Synchronize,
            UpdateEffect::TrackSubscription,
            UpdateEffect::ReadTitle,
        ]
    }
}

/// The running of the work that came of a message, if there is any.
pub open spec fn run_work<M, T>(stream: Option<T>) -> Seq<UpdateEffect<M, T>> {
    match stream {
        Some(stream) => seq![UpdateEffect::RunStream(stream)],
        None => seq![],
    }
}

/// The messages that are left once the first is being fed.
pub open spec fn after_first<M>(remaining: Seq<M>) -> Seq<M> {
    if remaining.len() > 0 {
        remaining.skip(1)
    } else {
        remaining
    }
}

impl<M> View for Update<M> {
    type V = Seq<M>;

    closed spec fn view(&self) -> Seq<M> {
        self.remaining@
    }
}

impl<M> Update<M> {
    fn push_next<T>(&mut self, effects: &mut Vec<UpdateEffect<M, T>>) -> (fed: bool)
        ensures
            fed == (old(self)@.len() > 0),
            final(self)@ == after_first(old(self)@),
            final(effects)@ == old(effects)@ + feed_next(old(self)@),
    {
        if self.remaining.len() > 0 {
            let message = self.remaining.remove(0);
            effects.push(UpdateEffect::Feed(message));
            assert(self.remaining@ =~= old(self)@.skip(1));
            assert(effects@ =~= old(effects)@ + feed_next(old(self)@));
            true
        } else {
            effects.push(UpdateEffect::Synchronize);
            effects.push(UpdateEffect::TrackSubscription);
            effects.push(UpdateEffect::ReadTitle);
            assert(effects@ =~= old(effects)@ + feed_next(old(self)@));
            false
        }
    }

    /// Goes on once the application was fed, with the work that came of it.
    ///
    /// The second part says whether another message is being fed now. If not, the update waits
    /// for the title.
    pub fn fed<T>(&mut self, stream: Option<T>) -> (effects: (Vec<UpdateEffect<M, T>>, bool))
        ensures
            effects.0@ == run_work(stream) + feed_next::<M, T>(old(self)@),
            effects.1 == (old(self)@.len() > 0),
            final(self)@ == after_first(old(self)@),
            effects.0@ == (match stream {
                Some(stream) => seq![UpdateEffect::<M, T>::RunStream(stream)],
                None => Seq::<UpdateEffect<M, T>>::empty(),
            }) + (if old(self)@.len() > 0 {
                seq![UpdateEffect::<M, T>::Feed(old(self)@[0])]
            } else {
                seq![
                    UpdateEffect::<M, T>::Synchronize,
                    UpdateEffect::<M, T>::TrackSubscription,
                    UpdateEffect::<M, T>::ReadTitle,
                ]
            }),
            old(self)@.len() > 0 ==> final(self)@ == old(self)@.skip(1),
            old(self)@.len() == 0 ==> final(self)@.len() == 0,
    {
        let mut effects: Vec<UpdateEffect<M, T>> = Vec::new();
        match stream {
            Some(stream) => {
                effects.push(UpdateEffect::RunStream(stream));
            },
            None => {},
        }
        assert(effects@ =~= run_work(stream));
        let fed = self.push_next(&mut effects);
        (effects, fed)
    }
}

/// Takes all messages, and begins to feed them to the application.
///
/// The last part says whether a message is being fed now. If not, the update waits for the title.
pub fn update<M, T>(messages: &mut Vec<M>) -> (begun: (Update<M>, Vec<UpdateEffect<M, T>>, bool))
    ensures
        final(messages)@ == Seq::<M>::empty(),
        begun.0@ == after_first(old(messages)@),
        begun.1@ == feed_next::<M, T>(old(messages)@),
        begun.2 == (old(messages)@.len() > 0),
        old(messages)@.len() > 0 ==> {
            &&& begun.0@ == old(messages)@.skip(1)
            &&& begun.1@ == seq![UpdateEffect::<M, T>::Feed(old(messages)@[0])]
        },
        old(messages)@.len() == 0 ==> {
            &&& begun.0@.len() == 0
            &&& begun.1@ == seq![
                UpdateEffect::<M, T>::Synchronize,
                UpdateEffect::<M, T>::TrackSubscription,
                UpdateEffect::<M, T>::ReadTitle,
            ]
        },
{
    let mut remaining: Vec<M> = Vec::new();
    std::mem::swap(messages, &mut remaining);
    let mut update = Update { remaining };
    let mut effects: Vec<UpdateEffect<M, T>> = Vec::new();
    let fed = update.push_next(&mut effects);
    assert(effects@ =~= feed_next::<M, T>(old(messages)@));
    (update, effects, fed)
}

/// The window gets the title of the application when that is another one than it has.
pub open spec fn title_change<M, T>(shown: Seq<char>, title: String) -> Seq<UpdateEffect<M, T>> {
    if title@ != shown {
        seq![UpdateEffect::SetTitle(title)]
    } else {
        seq![]
    }
}

/// Ends an update with the title that the application has now, and keeps in `shown` the title of
/// the window.
pub fn titled<M, T>(title: String, shown: &mut String) -> (effects: Vec<UpdateEffect<M, T>>)
    ensures
        effects@ == title_change::<M, T>(old(shown)@, title),
        final(shown)@ == title@,
        title@ != old(shown)@ ==> effects@ == seq![UpdateEffect::<M, T>::SetTitle(title)],
        title@ == old(shown)@ ==> effects@.len() == 0,
{
    let mut effects: Vec<UpdateEffect<M, T>> = Vec::new();
    if !title.eq(shown) {
        *shown = title.clone();
        effects.push(UpdateEffect::SetTitle(title));
    }
    assert(effects@ =~= title_change::<M, T>(old(shown)@, title));
    effects
}

/// All that is done in an update until the title is known, from where `remaining` are the messages that were not fed yet,
/// when the messages lead to `streams`, one answer for each.
pub open spec fn update_trace<M, T>(remaining: Seq<M>, streams: Seq<Option<T>>) -> Seq<
    UpdateEffect<M, T>,
>
    decreases remaining.len(),
{
    if remaining.len() == 0 {
        feed_next(remaining)
    } else {
        feed_next(remaining) + run_work(streams[0]) + update_trace(
            after_first(remaining),
            streams.skip(1),
        )
    }
}

/// The messages that are fed to the application by `effects`, in their order.
pub open spec fn fed_messages<M, T>(effects: Seq<UpdateEffect<M, T>>) -> Seq<M>
    decreases effects.len(),
{
    if effects.len() == 0 {
        seq![]
    } else {
        match effects[0] {
            UpdateEffect::Feed(message) => seq![message] + fed_messages(effects.skip(1)),
            _ => fed_messages(effects.skip(1)),
        }
    }
}

proof fn lemma_fed_messages_concat<M, T>(
    first: Seq<UpdateEffect<M, T>>,
    second: Seq<UpdateEffect<M, T>>,
)
    ensures
        fed_messages(first + second) == fed_messages(first) + fed_messages(second),
    decreases first.len(),
{
    if first.len() == 0 {
        assert(first + second =~= second);
        assert(fed_messages(first) + fed_messages(second) =~= fed_messages(second));
    } else {
        assert((first + second).skip(1) =~= first.skip(1) + second);
        lemma_fed_messages_concat(first.skip(1), second);
        match first[0] {
            UpdateEffect::Feed(message) => {
                assert(seq![message] + (fed_messages(first.skip(1)) + fed_messages(second)) =~= (
                seq![message] + fed_messages(first.skip(1))) + fed_messages(second));
            },
            _ => {},
        }
    }
}

proof fn lemma_nothing_fed<M, T>(effects: Seq<UpdateEffect<M, T>>)
    requires
        forall|i: int| 0 <= i < effects.len() ==> !((#[trigger] effects[i]) is Feed),
    ensures
        fed_messages(effects) == Seq::<M>::empty(),
    decreases effects.len(),
{
    if effects.len() > 0 {
        lemma_nothing_fed(effects.skip(1));
        assert(!(effects[0] is Feed));
    }
}

proof fn lemma_one_fed<M, T>(message: M)
    ensures
        fed_messages(seq![UpdateEffect::<M, T>::Feed(message)]) == seq![message],
{
    let effects = seq![UpdateEffect::<M, T>::Feed(message)];
    lemma_nothing_fed(effects.skip(1));
    assert(seq![message] + Seq::<M>::empty() =~= seq![message]);
}

#[verifier::spinoff_prover]
proof fn lemma_trace_feeds_every_message<M, T>(messages: Seq<M>, streams: Seq<Option<T>>)
    ensures
        fed_messages(update_trace(messages, streams)) == messages,
    decreases messages.len(),
{
    if messages.len() == 0 {
        lemma_nothing_fed(feed_next::<M, T>(messages));
        assert(messages =~= Seq::<M>::empty());
    } else {
        let rest = after_first(messages);
        let one = feed_next::<M, T>(messages);
        let work = run_work::<M, T>(streams[0]);
        let tail = update_trace(rest, streams.skip(1));
        lemma_trace_feeds_every_message(rest, streams.skip(1));
        lemma_fed_messages_concat(one + work, tail);
        lemma_fed_messages_concat(one, work);
        lemma_one_fed::<M, T>(messages[0]);
        lemma_nothing_fed(work);
        assert(seq![messages[0]] + Seq::<M>::empty() + rest =~= messages);
    }
}

#[verifier::spinoff_prover]
proof fn lemma_trace_ends_with_title<M, T>(messages: Seq<M>, streams: Seq<Option<T>>)
    ensures
        update_trace(messages, streams).len() >= 3,
        update_trace(messages, streams).skip(update_trace(messages, streams).len() - 3) == seq![
            UpdateEffect::<M, T>::Synchronize,
            UpdateEffect::<M, T>::TrackSubscription,
            UpdateEffect::<M, T>::ReadTitle,
        ],
    decreases messages.len(),
{
    let trace = update_trace(messages, streams);
    if messages.len() == 0 {
        assert(trace.skip(0) =~= feed_next::<M, T>(messages));
    } else {
        let tail = update_trace(after_first(messages), streams.skip(1));
        lemma_trace_ends_with_title(after_first(messages), streams.skip(1));
        assert(trace.skip(trace.len() - 3) =~= tail.skip(tail.len() - 3));
    }
}

/// All that is done in an update, when the messages lead to `streams`, one answer for each, the
/// window has the title `shown`, and the application has `title` in the end.
pub open spec fn update_script<M, T>(
    messages: Seq<M>,
    streams: Seq<Option<T>>,
    shown: Seq<char>,
    title: String,
) -> Seq<UpdateEffect<M, T>> {
    update_trace(messages, streams) + title_change(shown, title)
}

/// An update feeds every message to the application, each once and in the order in which they
/// came, whatever work comes of them. Then it brings the window up to date, tracks the
/// subscription and reads the title, in this order, and sets the title at the end if that has
/// become another one.
#[verifier::spinoff_prover]
pub proof fn law_update_feeds_every_message<M, T>(
    messages: Seq<M>,
    streams: Seq<Option<T>>,
    shown: Seq<char>,
    title: String,
)
    requires
        streams.len() >= messages.len(),
    ensures
        fed_messages(update_script(messages, streams, shown, title)) == messages,
        update_trace(messages, streams).len() >= 3,
        update_script(messages, streams, shown, title).skip(
            update_trace(messages, streams).len() - 3,
        ) == seq![
            UpdateEffect::<M, T>::Synchronize,
            UpdateEffect::<M, T>::TrackSubscription,
            UpdateEffect::<M, T>::ReadTitle,
        ] + title_change::<M, T>(shown, title),
{
    let trace = update_trace(messages, streams);
    let change = title_change::<M, T>(shown, title);
    assert(fed_messages(trace + change) == messages) by {
        lemma_trace_feeds_every_message(messages, streams);
        lemma_fed_messages_concat(trace, change);
        lemma_nothing_fed(change);
        assert(messages + Seq::<M>::empty() =~= messages);
    }
    lemma_trace_ends_with_title(messages, streams);
    assert((trace + change).skip(trace.len() - 3) =~= trace.skip(trace.len() - 3) + change);
}

/// The work that is run in the background by `effects`, in its order.
pub open spec fn run_streams<M, T>(effects: Seq<UpdateEffect<M, T>>) -> Seq<T>
    decreases effects.len(),
{
    if effects.len() == 0 {
        seq![]
    } else {
        match effects[0] {
            UpdateEffect::RunStream(stream) => seq![stream] + run_streams(effects.skip(1)),
            _ => run_streams(effects.skip(1)),
        }
    }
}

/// The work among the first `count` answers, in its order.
pub open spec fn reported_work<T>(streams: Seq<Option<T>>, count: int) -> Seq<T>
    decreases count,
{
    if count <= 0 {
        seq![]
    } else {
        (match streams[0] {
            Some(stream) => seq![stream],
            None => Seq::empty(),
        }) + reported_work(streams.skip(1), count - 1)
    }
}

proof fn lemma_run_streams_concat<M, T>(
    first: Seq<UpdateEffect<M, T>>,
    second: Seq<UpdateEffect<M, T>>,
)
    ensures
        run_streams(first + second) == run_streams(first) + run_streams(second),
    decreases first.len(),
{
    if first.len() == 0 {
        assert(first + second =~= second);
        assert(run_streams(first) + run_streams(second) =~= run_streams(second));
    } else {
        assert((first + second).skip(1) =~= first.skip(1) + second);
        lemma_run_streams_concat(first.skip(1), second);
        match first[0] {
            UpdateEffect::RunStream(stream) => {
                assert(seq![stream] + (run_streams(first.skip(1)) + run_streams(second)) =~= (
                seq![stream] + run_streams(first.skip(1))) + run_streams(second));
            },
            _ => {},
        }
    }
}

proof fn lemma_nothing_run<M, T>(effects: Seq<UpdateEffect<M, T>>)
    requires
        forall|i: int| 0 <= i < effects.len() ==> !((#[trigger] effects[i]) is RunStream),
    ensures
        run_streams(effects) == Seq::<T>::empty(),
    decreases effects.len(),
{
    if effects.len() > 0 {
        lemma_nothing_run(effects.skip(1));
        assert(!(effects[0] is RunStream));
    }
}

/// All work that the messages lead to is run in the background, each once, in the order of the
/// messages, and no other work is.
#[verifier::spinoff_prover]
pub proof fn law_update_runs_all_work<M, T>(messages: Seq<M>, streams: Seq<Option<T>>)
    requires
        streams.len() >= messages.len(),
    ensures
        run_streams(update_trace(messages, streams)) == reported_work(
            streams,
            messages.len() as int,
        ),
    decreases messages.len(),
{
    if messages.len() == 0 {
        lemma_nothing_run(feed_next::<M, T>(messages));
    } else {
        let rest = after_first(messages);
        let one = feed_next::<M, T>(messages);
        let work = run_work::<M, T>(streams[0]);
        let tail = update_trace(rest, streams.skip(1));
        law_update_runs_all_work(rest, streams.skip(1));
        lemma_run_streams_concat(one + work, tail);
        lemma_run_streams_concat(one, work);
        lemma_nothing_run(one);
        match streams[0] {
            Some(stream) => {
                assert(work =~= seq![UpdateEffect::<M, T>::RunStream(stream)]);
                lemma_nothing_run(work.skip(1));
                assert(seq![stream] + Seq::<T>::empty() =~= seq![stream]);
            },
            None => {
                lemma_nothing_run(work);
            },
        }
        let now = match streams[0] {
            Some(stream) => seq![stream],
            None => Seq::<T>::empty(),
        };
        assert(run_streams(work) =~= now);
        assert(Seq::<T>::empty() + now + run_streams(tail) =~= now + run_streams(tail));
    }
}

/// The title of the window is set exactly when the application has another one, and then it is
/// set to that one.
pub proof fn law_title_follows_application<M, T>(shown: Seq<char>, title: String, set: String)
    ensures
        title_change::<M, T>(shown, title).contains(UpdateEffect::SetTitle(set)) <==> (title@
            != shown && set == title),
        title_change::<M, T>(shown, title).len() == (if title@ == shown {
            0int
        } else {
            1
        }),
{
    let change = title_change::<M, T>(shown, title);
    if title@ != shown {
        assert(change[0] == UpdateEffect::<M, T>::SetTitle(title));
    }
}

/// As long as messages are left, the oldest is fed next and the others stay in their order. When
/// none is left, the window is brought up to date, the subscription tracked and the title read.
pub proof fn law_oldest_message_is_fed_next<M, T>(remaining: Seq<M>)
    ensures
        remaining.len() > 0 ==> {
            &&& feed_next::<M, T>(remaining) == seq![UpdateEffect::<M, T>::Feed(remaining[0])]
            &&& seq![remaining[0]] + after_first(remaining) == remaining
        },
        remaining.len() == 0 ==> {
            &&& feed_next::<M, T>(remaining).len() == 3
            &&& feed_next::<M, T>(remaining)[0] is Synchronize
            &&& feed_next::<M, T>(remaining)[1] is TrackSubscription
            &&& feed_next::<M, T>(remaining)[2] is ReadTitle
            &&& after_first(remaining).len() == 0
        },
{
    if remaining.len() > 0 {
        assert(seq![remaining[0]] + after_first(remaining) =~= remaining);
    }
}

} // verus!
