//! One ordinary dispatch: pending events go to the interface, and messages to the application.
use crate::refresh::Status;
use crate::update::{titled, update, Update, UpdateEffect};
use iced_runtime::user_interface::Cache;
use vstd::prelude::*;

verus! {

/// How an interface stands after it has processed events.
#[derive(Debug, Clone, Copy, PartialEq, Eq)]
pub enum InterfaceState {
    /// It does not fit its application any more and has to be built anew.
    Outdated,
    /// It is up to date, and may have asked to be redrawn.
    Updated { redraw_requested: bool },
}

/// A single thing to be done in a dispatch. `E` is an event, `M` a message, and `T` work to be
/// run in the background.
#[derive(Debug)]
pub enum DispatchEffect<E, M, T> {
    /// Let the interface process the pending events, and report what comes of it.
    UpdateInterface,
    /// Tell the subscriptions of an event and its status.
    Broadcast { event: E, status: Status },
    /// End the interface, and report what it leaves behind.
    Extract,
    /// A part of the update of the application.
    Update(UpdateEffect<M, T>),
    /// Report whether the application should be terminated.
    ReadShouldExit,
    /// Build the interface from what the earlier one left behind, or from an empty cache.
    BuildInterface { cache: Option<Cache> },
    /// Ask for the windows to be refreshed.
    RequestRefresh,
    /// Ask the layer shell to exit.
    RequestExit,
}

/// What a dispatch waits for.
pub enum Dispatch<M> {
    Updating,
    Extracting { feed: bool },
    Feeding { update: Update<M>, cache: Option<Cache> },
    /// The title of the application.
    Titling { cache: Option<Cache> },
    /// Whether the application should be terminated.
    Leaving { cache: Option<Cache> },
    Finished,
}

/// An answer to a dispatch.
#[derive(Debug)]
pub enum DispatchReply<M, T> {
    /// How the interface stands, the statuses of the pending events, and the messages that
    /// came of them.
    Updated { state: InterfaceState, statuses: Vec<Status>, produced: Vec<M> },
    Extracted { cache: Option<Cache> },
    /// The work that came of the message.
    Fed { stream: Option<T> },
    /// The title that the application has now.
    Title { title: String },
    /// Whether the application should be terminated.
    ShouldExit { exit: bool },
}

/// Each event with its status, as far as there are both.
pub open spec fn broadcasts<E, M, T>(events: Seq<E>, statuses: Seq<Status>) -> Seq<
    DispatchEffect<E, M, T>,
> {
    Seq::new(
        if events.len() <= statuses.len() {
            events.len()
        } else {
            statuses.len()
        },
        |i: int| DispatchEffect::Broadcast { event: events[i], status: statuses[i] },
    )
}

/// The effects of an update as parts of a dispatch.
pub open spec fn as_dispatch<E, M, T>(effects: Seq<UpdateEffect<M, T>>) -> Seq<
    DispatchEffect<E, M, T>,
> {
    effects.map_values(|effect: UpdateEffect<M, T>| DispatchEffect::<E, M, T>::Update(effect))
}

/// The building of the interface at the end of a dispatch.
pub open spec fn rebuild<E, M, T>(cache: Option<Cache>) -> Seq<DispatchEffect<E, M, T>> {
    seq![DispatchEffect::BuildInterface { cache }, DispatchEffect::RequestRefresh]
}

/// The end of the program, if the application asks for it.
pub open spec fn leave<E, M, T>(exit: bool) -> Seq<DispatchEffect<E, M, T>> {
    if exit {
        seq![DispatchEffect::RequestExit]
    } else {
        Seq::empty()
    }
}

fn broadcast_all<E, M, T>(events: &mut Vec<E>, statuses: &Vec<Status>) -> (effects: Vec<
    DispatchEffect<E, M, T>,
>)
    ensures
        effects@ == broadcasts::<E, M, T>(old(events)@, statuses@),
        final(events)@ == Seq::<E>::empty(),
{
    let ghost all = events@;
    let mut effects: Vec<DispatchEffect<E, M, T>> = Vec::new();
    let mut index: usize = 0;
    assert(all.skip(0) =~= all);
    while events.len() > 0 && index < statuses.len()
        invariant
            index <= statuses@.len(),
            index <= all.len(),
            events@ == all.skip(index as int),
            effects@ == broadcasts::<E, M, T>(all, statuses@).take(index as int),
        decreases events@.len(),
    {
        let event = events.remove(0);
        effects.push(DispatchEffect::Broadcast { event, status: statuses[index] });
        assert(events@ =~= all.skip(index + 1));
        assert(effects@ =~= broadcasts::<E, M, T>(all, statuses@).take(index + 1));
        index = index + 1;
    }
    events.clear();
    assert(effects@ =~= broadcasts::<E, M, T>(all, statuses@));
    effects
}

fn append_update<E, M, T>(
    effects: &mut Vec<DispatchEffect<E, M, T>>,
    parts: Vec<UpdateEffect<M, T>>,
)
    ensures
        final(effects)@ == old(effects)@ + as_dispatch::<E, M, T>(parts@),
{
    let ghost all = parts@;
    let mut parts = parts;
    assert(all.skip(0) =~= all);
    assert(effects@ =~= old(effects)@ + as_dispatch::<E, M, T>(all.take(0)));
    let ghost mut done: int = 0;
    while parts.len() > 0
        invariant
            0 <= done <= all.len(),
            parts@ == all.skip(done),
            effects@ == old(effects)@ + as_dispatch::<E, M, T>(all.take(done)),
        decreases parts@.len(),
    {
        let part = parts.remove(0);
        effects.push(DispatchEffect::Update(part));
        assert(parts@ =~= all.skip(done + 1));
        assert(effects@ =~= old(effects)@ + as_dispatch::<E, M, T>(all.take(done + 1)));
        proof {
            done = done + 1;
        }
    }
    assert(all.take(done) =~= all);
}

impl<M> Dispatch<M> {
    /// Whether the dispatch is waiting for this answer.
    pub open spec fn expects<T>(self, reply: DispatchReply<M, T>) -> bool {
        match self {
            Dispatch::Updating => reply is Updated,
            Dispatch::Extracting { .. } => reply is Extracted,
            Dispatch::Feeding { .. } => reply is Fed,
            Dispatch::Titling { .. } => reply is Title,
            Dispatch::Leaving { .. } => reply is ShouldExit,
            Dispatch::Finished => false,
        }
    }

    /// Tells whether the dispatch is waiting for this answer.
    pub fn accepts<T>(&self, reply: &DispatchReply<M, T>) -> (accepted: bool)
        ensures
            accepted == self.expects(*reply),
            accepted <==> {
                ||| *self is Updating && *reply is Updated
                ||| *self is Extracting && *reply is Extracted
                ||| *self is Feeding && *reply is Fed
                ||| *self is Titling && *reply is Title
                ||| *self is Leaving && *reply is ShouldExit
            },
    {
        match self {
            Dispatch::Updating => matches!(reply, DispatchReply::Updated { .. }),
            Dispatch::Extracting { .. } => matches!(reply, DispatchReply::Extracted { .. }),
            Dispatch::Feeding { .. } => matches!(reply, DispatchReply::Fed { .. }),
            Dispatch::Titling { .. } => matches!(reply, DispatchReply::Title { .. }),
            Dispatch::Leaving { .. } => matches!(reply, DispatchReply::ShouldExit { .. }),
            Dispatch::Finished => false,
        }
    }

    /// Begins a dispatch. Without events and messages there is nothing to do, and without an
    /// interface the windows are only asked to be refreshed.
    pub fn begin<E, T>(pending: bool, built: bool) -> (begun: (
        Dispatch<M>,
        Vec<DispatchEffect<E, M, T>>,
    ))
        ensures
            begun.0 == (if pending && built {
                Dispatch::<M>::Updating
            } else {
                Dispatch::<M>::Finished
            }),
            begun.1@ == (if !pending {
                Seq::<DispatchEffect<E, M, T>>::empty()
            } else if built {
                seq![DispatchEffect::<E, M, T>::UpdateInterface]
            } else {
                seq![DispatchEffect::<E, M, T>::RequestRefresh]
            }),
    {
        let mut effects: Vec<DispatchEffect<E, M, T>> = Vec::new();
        if !pending {
            return (Dispatch::Finished, effects);
        }
        if !built {
            effects.push(DispatchEffect::RequestRefresh);
            return (Dispatch::Finished, effects);
        }
        effects.push(DispatchEffect::UpdateInterface);
        (Dispatch::Updating, effects)
    }

    /// How the dispatch stands after an answer, what it does, and what is left of the pending
    /// events and of the messages. `title` is the title of the window.
    pub open spec fn stepped<E, T>(
        self,
        reply: DispatchReply<M, T>,
        events: Seq<E>,
        messages: Seq<M>,
        title: Seq<char>,
        next: Dispatch<M>,
        effects: Seq<DispatchEffect<E, M, T>>,
        events_left: Seq<E>,
        messages_left: Seq<M>,
        title_left: Seq<char>,
    ) -> bool {
        match (self, reply) {
            (Dispatch::Updating, DispatchReply::Updated { state, statuses, produced }) => {
                let all = messages + produced@;
                let told = broadcasts::<E, M, T>(events, statuses@);
                &&& events_left == Seq::<E>::empty()
                &&& messages_left == all
                &&& title_left == title
                &&& if all.len() > 0 || state is Outdated {
                    &&& next == (Dispatch::<M>::Extracting { feed: all.len() > 0 })
                    &&& effects == told.push(DispatchEffect::Extract)
                } else {
                    &&& next is Finished
                    &&& effects == told.push(DispatchEffect::RequestRefresh)
                }
            },
            (Dispatch::Extracting { feed }, DispatchReply::Extracted { cache }) => {
                &&& events_left == events
                &&& title_left == title
                &&& if feed {
                    &&& messages_left == Seq::<M>::empty()
                    &&& effects == as_dispatch::<E, M, T>(crate::update::feed_next(messages))
                    &&& if messages.len() > 0 {
                        &&& next is Feeding
                        &&& next->update@ == crate::update::after_first(messages)
                        &&& next->Feeding_cache == cache
                    } else {
                        next == (Dispatch::<M>::Titling { cache })
                    }
                } else {
                    &&& messages_left == messages
                    &&& next is Finished
                    &&& effects == rebuild::<E, M, T>(cache)
                }
            },
            (Dispatch::Feeding { update, cache }, DispatchReply::Fed { stream }) => {
                &&& events_left == events
                &&& messages_left == messages
                &&& title_left == title
                &&& effects == as_dispatch::<E, M, T>(
                    crate::update::run_work(stream) + crate::update::feed_next(update@),
                )
                &&& if update@.len() > 0 {
                    &&& next is Feeding
                    &&& next->update@ == crate::update::after_first(update@)
                    &&& next->Feeding_cache == cache
                } else {
                    next == (Dispatch::<M>::Titling { cache })
                }
            },
            (Dispatch::Titling { cache }, DispatchReply::Title { title: current }) => {
                &&& events_left == events
                &&& messages_left == messages
                &&& title_left == current@
                &&& next == (Dispatch::<M>::Leaving { cache })
                &&& effects == as_dispatch::<E, M, T>(
                    crate::update::title_change(title, current),
                ).push(DispatchEffect::ReadShouldExit)
            },
            (Dispatch::Leaving { cache }, DispatchReply::ShouldExit { exit }) => {
                &&& events_left == events
                &&& messages_left == messages
                &&& title_left == title
                &&& next is Finished
                &&& effects == rebuild::<E, M, T>(cache) + leave(exit)
            },
            _ => false,
        }
    }

    /// Goes on with the answer that the dispatch is waiting for.
    ///
    /// Messages are fed to the application only after its interface was ended, and the interface
    /// is built again afterwards. An application that should be terminated then is.
    pub fn step<E, T>(
        self,
        reply: DispatchReply<M, T>,
        iced_events: &mut Vec<E>,
        messages: &mut Vec<M>,
        title: &mut String,
    ) -> (stepped: (Dispatch<M>, Vec<DispatchEffect<E, M, T>>))
        requires
            self.expects(reply),
        ensures
            self.stepped(
                reply,
                old(iced_events)@,
                old(messages)@,
                old(title)@,
                stepped.0,
                stepped.1@,
                final(iced_events)@,
                final(messages)@,
                final(title)@,
            ),
            match (self, reply) {
                (Dispatch::Updating, DispatchReply::Updated { state, statuses, produced }) => {
                    let told = if old(iced_events)@.len() <= statuses@.len() {
                        old(iced_events)@.len()
                    } else {
                        statuses@.len()
                    };
                    let feed = old(messages)@.len() + produced@.len() > 0;
                    &&& final(iced_events)@.len() == 0
                    &&& final(messages)@ == old(messages)@ + produced@
                    &&& final(title)@ == old(title)@
                    &&& stepped.1@.len() == told + 1
                    &&& forall|i: int|
                        0 <= i < told ==> #[trigger] stepped.1@[i] == (DispatchEffect::<
                            E,
                            M,
                            T,
                        >::Broadcast { event: old(iced_events)@[i], status: statuses@[i] })
                    &&& if feed || state is Outdated {
                        &&& stepped.0 == (Dispatch::<M>::Extracting { feed })
                        &&& stepped.1@.last() == DispatchEffect::<E, M, T>::Extract
                    } else {
                        &&& stepped.0 is Finished
                        &&& stepped.1@.last() == DispatchEffect::<E, M, T>::RequestRefresh
                    }
                },
                (Dispatch::Extracting { feed }, DispatchReply::Extracted { cache }) => {
                    &&& final(iced_events)@ == old(iced_events)@
                    &&& final(title)@ == old(title)@
                    &&& final(messages)@ == (if feed {
                        Seq::<M>::empty()
                    } else {
                        old(messages)@
                    })
                    &&& !feed ==> {
                        &&& stepped.0 is Finished
                        &&& stepped.1@ == seq![
                            DispatchEffect::<E, M, T>::BuildInterface { cache },
                            DispatchEffect::<E, M, T>::RequestRefresh,
                        ]
                    }
                    &&& feed && old(messages)@.len() > 0 ==> {
                        &&& stepped.0 is Feeding
                        &&& stepped.0->update@ == old(messages)@.skip(1)
                        &&& stepped.0->Feeding_cache == cache
                        &&& stepped.1@ == seq![
                            DispatchEffect::<E, M, T>::Update(
                                UpdateEffect::Feed(old(messages)@[0]),
                            ),
                        ]
                    }
                    &&& feed && old(messages)@.len() == 0 ==> {
                        &&& stepped.0 == (Dispatch::<M>::Titling { cache })
                        &&& stepped.1@ == seq![
                            DispatchEffect::<E, M, T>::Update(UpdateEffect::Synchronize),
                            DispatchEffect::<E, M, T>::Update(UpdateEffect::TrackSubscription),
                            DispatchEffect::<E, M, T>::Update(UpdateEffect::ReadTitle),
                        ]
                    }
                },
                (Dispatch::Feeding { update, cache }, DispatchReply::Fed { stream }) => {
                    &&& final(iced_events)@ == old(iced_events)@
                    &&& final(messages)@ == old(messages)@
                    &&& final(title)@ == old(title)@
                    &&& stepped.1@ == (match stream {
                        Some(stream) => seq![
                            DispatchEffect::<E, M, T>::Update(UpdateEffect::RunStream(stream)),
                        ],
                        None => Seq::<DispatchEffect<E, M, T>>::empty(),
                    }) + (if update@.len() > 0 {
                        seq![DispatchEffect::<E, M, T>::Update(UpdateEffect::Feed(update@[0]))]
                    } else {
                        seq![
                            DispatchEffect::<E, M, T>::Update(UpdateEffect::Synchronize),
                            DispatchEffect::<E, M, T>::Update(UpdateEffect::TrackSubscription),
                            DispatchEffect::<E, M, T>::Update(UpdateEffect::ReadTitle),
                        ]
                    })
                    &&& if update@.len() > 0 {
                        &&& stepped.0 is Feeding
                        &&& stepped.0->update@ == update@.skip(1)
                        &&& stepped.0->Feeding_cache == cache
                    } else {
                        stepped.0 == (Dispatch::<M>::Titling { cache })
                    }
                },
                (Dispatch::Titling { cache }, DispatchReply::Title { title: current }) => {
                    &&& final(iced_events)@ == old(iced_events)@
                    &&& final(messages)@ == old(messages)@
                    &&& final(title)@ == current@
                    &&& stepped.0 == (Dispatch::<M>::Leaving { cache })
                    &&& stepped.1@ == (if current@ != old(title)@ {
                        seq![
                            DispatchEffect::<E, M, T>::Update(UpdateEffect::SetTitle(current)),
                            DispatchEffect::<E, M, T>::ReadShouldExit,
                        ]
                    } else {
                        seq![DispatchEffect::<E, M, T>::ReadShouldExit]
                    })
                },
                (Dispatch::Leaving { cache }, DispatchReply::ShouldExit { exit }) => {
                    &&& final(iced_events)@ == old(iced_events)@
                    &&& final(messages)@ == old(messages)@
                    &&& final(title)@ == old(title)@
                    &&& stepped.0 is Finished
                    &&& stepped.1@ == (if exit {
                        seq![
                            DispatchEffect::<E, M, T>::BuildInterface { cache },
                            DispatchEffect::<E, M, T>::RequestRefresh,
                            DispatchEffect::<E, M, T>::RequestExit,
                        ]
                    } else {
                        seq![
                            DispatchEffect::<E, M, T>::BuildInterface { cache },
                            DispatchEffect::<E, M, T>::RequestRefresh,
                        ]
                    })
                },
                _ => false,
            },
    {
        match (self, reply) {
            (Dispatch::Updating, DispatchReply::Updated { state, statuses, produced }) => {
                let mut produced = produced;
                messages.append(&mut produced);
                let mut effects = broadcast_all(iced_events, &statuses);
                let rebuilt = match state {
                    InterfaceState::Outdated => true,
                    InterfaceState::Updated { .. } => false,
                };
                if messages.len() > 0 {
                    effects.push(DispatchEffect::Extract);
                    (Dispatch::Extracting { feed: true }, effects)
                } else if rebuilt {
                    effects.push(DispatchEffect::Extract);
                    (Dispatch::Extracting { feed: false }, effects)
                } else {
                    effects.push(DispatchEffect::RequestRefresh);
                    (Dispatch::Finished, effects)
                }
            },
            (Dispatch::Extracting { feed }, DispatchReply::Extracted { cache }) => {
                let mut effects: Vec<DispatchEffect<E, M, T>> = Vec::new();
                if feed {
                    let (update, parts, fed) = update::<M, T>(messages);
                    append_update(&mut effects, parts);
                    assert(effects@ =~= as_dispatch::<E, M, T>(parts@));
                    if fed {
                        (Dispatch::Feeding { update, cache }, effects)
                    } else {
                        (Dispatch::Titling { cache }, effects)
                    }
                } else {
                    effects.push(DispatchEffect::BuildInterface { cache });
                    effects.push(DispatchEffect::RequestRefresh);
                    assert(effects@ =~= rebuild::<E, M, T>(cache));
                    (Dispatch::Finished, effects)
                }
            },
            (Dispatch::Feeding { update, cache }, DispatchReply::Fed { stream }) => {
                let mut update = update;
                let mut effects: Vec<DispatchEffect<E, M, T>> = Vec::new();
                let (parts, fed) = update.fed(stream);
                append_update(&mut effects, parts);
                assert(effects@ =~= as_dispatch::<E, M, T>(parts@));
                if fed {
                    (Dispatch::Feeding { update, cache }, effects)
                } else {
                    (Dispatch::Titling { cache }, effects)
                }
            },
            (Dispatch::Titling { cache }, DispatchReply::Title { title: current }) => {
                let mut effects: Vec<DispatchEffect<E, M, T>> = Vec::new();
                let parts = titled::<M, T>(current, title);
                append_update(&mut effects, parts);
                assert(effects@ =~= as_dispatch::<E, M, T>(parts@));
                effects.push(DispatchEffect::ReadShouldExit);
                (Dispatch::Leaving { cache }, effects)
            },
            (Dispatch::Leaving { cache }, DispatchReply::ShouldExit { exit }) => {
                let mut effects: Vec<DispatchEffect<E, M, T>> = Vec::new();
                effects.push(DispatchEffect::BuildInterface { cache });
                effects.push(DispatchEffect::RequestRefresh);
                if exit {
                    effects.push(DispatchEffect::RequestExit);
                }
                assert(effects@ =~= rebuild::<E, M, T>(cache) + leave(exit));
                (Dispatch::Finished, effects)
            },
            _ => {
                assert(false);
                (Dispatch::Finished, Vec::new())
            },
        }
    }
}

/// A dispatch from its first answer to its last: the answers, how it stood before and after
/// each, what it did upon each, and the pending events, the messages and the title of the window
/// before and after each.
pub struct DispatchRun<E, M, T> {
    pub replies: Seq<DispatchReply<M, T>>,
    pub states: Seq<Dispatch<M>>,
    pub effects: Seq<Seq<DispatchEffect<E, M, T>>>,
    pub events: Seq<Seq<E>>,
    pub messages: Seq<Seq<M>>,
    pub titles: Seq<Seq<char>>,
}

/// The parts, one behind the other.
pub open spec fn joined<X>(parts: Seq<Seq<X>>) -> Seq<X>
    decreases parts.len(),
{
    if parts.len() == 0 {
        Seq::empty()
    } else {
        parts[0] + joined(parts.skip(1))
    }
}

/// Whether a part occurs once.
pub open spec fn occurs_once<X>(parts: Seq<X>, part: X) -> bool {
    exists|k: int| #[trigger] occurs_only_at(parts, part, k)
}

/// Whether a part occurs at `k` and nowhere else.
pub open spec fn occurs_only_at<X>(parts: Seq<X>, part: X, k: int) -> bool {
    &&& 0 <= k < parts.len()
    &&& parts[k] == part
    &&& forall|j: int| 0 <= j < parts.len() && #[trigger] parts[j] == part ==> j == k
}

/// The work that came of the messages, as the answers report it.
pub open spec fn reported_streams<M, T>(replies: Seq<DispatchReply<M, T>>) -> Seq<Option<T>> {
    replies.map_values(|reply: DispatchReply<M, T>| reply->stream)
}

/// What a dispatch does once the update is over: the application is asked whether it should be
/// terminated, and is shown and terminated accordingly.
pub open spec fn farewell<E, M, T>(cache: Option<Cache>, exit: bool) -> Seq<
    DispatchEffect<E, M, T>,
> {
    seq![DispatchEffect::ReadShouldExit] + rebuild(cache) + leave(exit)
}

impl<E, M, T> DispatchRun<E, M, T> {
    /// The state after the answer at `i` follows from the one before.
    pub open spec fn follows(self, i: int) -> bool {
        self.states[i].stepped(
            self.replies[i],
            self.events[i],
            self.messages[i],
            self.titles[i],
            self.states[i + 1],
            self.effects[i],
            self.events[i + 1],
            self.messages[i + 1],
            self.titles[i + 1],
        )
    }

    /// Each state follows from the one before by the answer between them.
    pub open spec fn valid(self) -> bool {
        &&& self.states.len() == self.replies.len() + 1
        &&& self.events.len() == self.replies.len() + 1
        &&& self.messages.len() == self.replies.len() + 1
        &&& self.titles.len() == self.replies.len() + 1
        &&& self.effects.len() == self.replies.len()
        &&& forall|i: int|
            0 <= i < self.replies.len() ==> #[trigger] self.follows(i)
    }

    /// The run after its first answer.
    pub open spec fn rest(self) -> Self {
        DispatchRun {
            replies: self.replies.skip(1),
            states: self.states.skip(1),
            effects: self.effects.skip(1),
            events: self.events.skip(1),
            messages: self.messages.skip(1),
            titles: self.titles.skip(1),
        }
    }

    /// All messages that are there once the interface has processed the pending events.
    pub open spec fn all_messages(self) -> Seq<M> {
        self.messages[0] + self.replies[0]->produced@
    }

    /// The title that the application has once it was fed with all messages.
    pub open spec fn new_title(self) -> String {
        self.replies[self.all_messages().len() as int + 2]->title
    }

    /// Whether the application should be terminated once it was fed with all messages.
    pub open spec fn should_exit(self) -> bool {
        self.replies[self.all_messages().len() as int + 3]->exit
    }

    /// All that a dispatch does once the interface has processed the pending events.
    pub open spec fn script(self) -> Seq<DispatchEffect<E, M, T>> {
        let told = broadcasts::<E, M, T>(self.events[0], self.replies[0]->statuses@);
        if self.all_messages().len() > 0 {
            told + seq![DispatchEffect::<E, M, T>::Extract] + as_dispatch::<E, M, T>(
                crate::update::update_script(
                    self.all_messages(),
                    reported_streams(self.replies.skip(2)),
                    self.titles[0],
                    self.new_title(),
                ),
            ) + farewell(self.replies[1]->Extracted_cache, self.should_exit())
        } else if self.replies[0]->state is Outdated {
            told + seq![DispatchEffect::<E, M, T>::Extract] + rebuild(
                self.replies[1]->Extracted_cache,
            )
        } else {
            told + seq![DispatchEffect::<E, M, T>::RequestRefresh]
        }
    }
}

proof fn lemma_rest_valid<E, M, T>(run: DispatchRun<E, M, T>)
    requires
        run.valid(),
        run.replies.len() > 0,
    ensures
        run.rest().valid(),
        run.rest().states.last() == run.states.last(),
        run.rest().states[0] == run.states[1],
        joined(run.effects) == run.effects[0] + joined(run.rest().effects),
{
    let rest = run.rest();
    assert forall|i: int| 0 <= i < rest.replies.len() implies #[trigger] rest.follows(i) by {
        assert(run.follows(i + 1));
    }
}

proof fn lemma_finished_run_is_over<E, M, T>(run: DispatchRun<E, M, T>)
    requires
        run.valid(),
        run.states[0] is Finished,
    ensures
        run.replies.len() == 0,
        joined(run.effects) == Seq::<DispatchEffect<E, M, T>>::empty(),
{
    if run.replies.len() > 0 {
        assert(run.follows(0));
    }
}

proof fn lemma_titling<E, M, T>(run: DispatchRun<E, M, T>)
    requires
        run.valid(),
        run.states[0] is Titling,
        run.states.last() is Finished,
    ensures
        run.replies.len() == 2,
        run.events.last() == run.events[0],
        run.messages.last() == run.messages[0],
        run.titles.last() == run.replies[0]->title@,
        joined(run.effects) == as_dispatch::<E, M, T>(
            crate::update::title_change(run.titles[0], run.replies[0]->title),
        ) + farewell(run.states[0]->Titling_cache, run.replies[1]->exit),
{
    let cache = run.states[0]->Titling_cache;
    let rest = run.rest();
    assert(run.replies.len() > 0);
    assert(run.follows(0));
    lemma_rest_valid(run);
    assert(rest.replies.len() > 0);
    assert(rest.follows(0));
    lemma_rest_valid(rest);
    lemma_finished_run_is_over(rest.rest());
    assert(joined(run.effects) =~= as_dispatch::<E, M, T>(
        crate::update::title_change(run.titles[0], run.replies[0]->title),
    ) + farewell(cache, run.replies[1]->exit));
}

proof fn lemma_as_dispatch_concat<E, M, T>(
    first: Seq<UpdateEffect<M, T>>,
    second: Seq<UpdateEffect<M, T>>,
)
    ensures
        as_dispatch::<E, M, T>(first + second) == as_dispatch::<E, M, T>(first) + as_dispatch::<
            E,
            M,
            T,
        >(second),
{
    assert(as_dispatch::<E, M, T>(first + second) =~= as_dispatch::<E, M, T>(first) + as_dispatch::<
        E,
        M,
        T,
    >(second));
}

proof fn lemma_regrouped<X>(first: Seq<X>, second: Seq<X>, third: Seq<X>)
    ensures
        first + (second + third) == (first + second) + third,
{
    assert(first + (second + third) =~= (first + second) + third);
}

#[verifier::spinoff_prover]
proof fn lemma_feeding<E, M, T>(run: DispatchRun<E, M, T>)
    requires
        run.valid(),
        run.states[0] is Feeding,
        run.states.last() is Finished,
    ensures
        run.replies.len() == run.states[0]->update@.len() + 3,
        run.events.last() == run.events[0],
        run.messages.last() == run.messages[0],
        run.titles.last() == run.replies[run.states[0]->update@.len() as int + 1]->title@,
        joined(run.effects) == as_dispatch::<E, M, T>(
            crate::update::run_work::<M, T>(reported_streams(run.replies)[0])
                + crate::update::update_script(
                run.states[0]->update@,
                reported_streams(run.replies).skip(1),
                run.titles[0],
                run.replies[run.states[0]->update@.len() as int + 1]->title,
            ),
        ) + farewell(
            run.states[0]->Feeding_cache,
            run.replies[run.states[0]->update@.len() as int + 2]->exit,
        ),
    decreases run.replies.len(),
{
    let remaining = run.states[0]->update@;
    let cache = run.states[0]->Feeding_cache;
    let streams = reported_streams(run.replies);
    let rest = run.rest();
    assert(run.replies.len() > 0);
    assert(run.follows(0));
    lemma_rest_valid(run);
    let work = crate::update::run_work::<M, T>(streams[0]);
    let next = crate::update::feed_next::<M, T>(remaining);
    let title = run.replies[remaining.len() as int + 1]->title;
    let exit = run.replies[remaining.len() as int + 2]->exit;
    let change = crate::update::title_change::<M, T>(run.titles[0], title);
    assert(reported_streams(rest.replies) =~= streams.skip(1));
    if remaining.len() > 0 {
        lemma_feeding(rest);
        let later = crate::update::update_trace(
            crate::update::after_first(remaining),
            streams.skip(1).skip(1),
        );
        let then = crate::update::run_work::<M, T>(streams.skip(1)[0]);
        let farewell = farewell::<E, M, T>(cache, exit);
        assert((work + next) + (then + (later + change)) =~= work + ((next + then + later)
            + change));
        lemma_as_dispatch_concat::<E, M, T>(work + next, then + (later + change));
        lemma_regrouped(
            as_dispatch::<E, M, T>(work + next),
            as_dispatch::<E, M, T>(then + (later + change)),
            farewell,
        );
    } else {
        lemma_titling(rest);
        let farewell = farewell::<E, M, T>(cache, exit);
        assert((work + next) + change =~= work + (next + change));
        lemma_as_dispatch_concat::<E, M, T>(work + next, change);
        lemma_regrouped(
            as_dispatch::<E, M, T>(work + next),
            as_dispatch::<E, M, T>(change),
            farewell,
        );
    }
}

/// A dispatch that is given answers until it is finished does exactly what its script says:
/// it tells of the events, then ends the interface if there are messages or the interface is
/// outdated, feeds the application with all messages, and builds the interface from what the
/// ended one left behind. It always asks for a refresh, once. No event and no message is left over,
/// every message is fed once, in its order, and the window then has the title of the application.
#[verifier::spinoff_prover]
pub proof fn law_dispatch_follows_script<E, M, T>(run: DispatchRun<E, M, T>)
    requires
        run.valid(),
        run.states[0] is Updating,
        run.states.last() is Finished,
    ensures
        joined(run.effects) == run.script(),
        occurs_once(joined(run.effects), DispatchEffect::<E, M, T>::RequestRefresh),
        run.events.last() == Seq::<E>::empty(),
        run.messages.last() == Seq::<M>::empty(),
        run.titles.last() == (if run.all_messages().len() > 0 {
            run.new_title()@
        } else {
            run.titles[0]
        }),
        run.all_messages().len() > 0 ==> crate::update::fed_messages(
            crate::update::update_script(
                run.all_messages(),
                reported_streams(run.replies.skip(2)),
                run.titles[0],
                run.new_title(),
            ),
        ) == run.all_messages(),
{
    assert(run.replies.len() > 0);
    assert(run.follows(0));
    let told = broadcasts::<E, M, T>(run.events[0], run.replies[0]->statuses@);
    let all = run.all_messages();
    let rest = run.rest();
    let script = run.script();
    lemma_rest_valid(run);
    if rest.states[0] is Finished {
        lemma_finished_run_is_over(rest);
        assert(all =~= Seq::<M>::empty());
        assert(joined(run.effects) =~= script);
        assert(occurs_only_at(
            script,
            DispatchEffect::<E, M, T>::RequestRefresh,
            script.len() - 1,
        ));
    } else {
        assert(rest.replies.len() > 0);
        assert(rest.follows(0));
        let end = rest.rest();
        lemma_rest_valid(rest);
        assert(end.replies =~= run.replies.skip(2));
        if all.len() > 0 {
            lemma_feeding(end);
            let streams = reported_streams(run.replies.skip(2));
            let cache = run.replies[1]->Extracted_cache;
            let next = crate::update::feed_next::<M, T>(all);
            let work = crate::update::run_work::<M, T>(streams[0]);
            let later = crate::update::update_trace(
                crate::update::after_first(all),
                streams.skip(1),
            );
            let change = crate::update::title_change::<M, T>(run.titles[0], run.new_title());
            let farewell = farewell::<E, M, T>(cache, run.should_exit());
            crate::update::law_update_feeds_every_message(
                all,
                streams,
                run.titles[0],
                run.new_title(),
            );
            assert(joined(rest.effects) =~= as_dispatch::<E, M, T>(
                (next + work + later) + change,
            ) + farewell);
            assert(joined(run.effects) =~= script);
            assert(occurs_only_at(
                script,
                DispatchEffect::<E, M, T>::RequestRefresh,
                script.len() - farewell.len() + 2,
            ));
        } else {
            lemma_finished_run_is_over(end);
            assert(all =~= Seq::<M>::empty());
            assert(joined(run.effects) =~= script);
            assert(occurs_only_at(
                script,
                DispatchEffect::<E, M, T>::RequestRefresh,
                script.len() - 1,
            ));
        }
    }
}

/// A dispatch asks for the end of the program exactly when it has fed messages to the application
/// and the application should be terminated then.
pub proof fn law_dispatch_exits_when_application_should<E, M, T>(run: DispatchRun<E, M, T>)
    requires
        run.valid(),
        run.states[0] is Updating,
        run.states.last() is Finished,
    ensures
        joined(run.effects).contains(DispatchEffect::<E, M, T>::RequestExit) <==> (
        run.all_messages().len() > 0 && run.should_exit()),
{
    law_dispatch_follows_script(run);
    let script = run.script();
    if run.all_messages().len() > 0 && run.should_exit() {
        assert(script.last() == DispatchEffect::<E, M, T>::RequestExit);
    }
}

/// Once the interface has processed the pending events, the subscriptions are told of them in
/// their order, and of each with exactly the status that the interface reported for it, as far as
/// there are both. Nothing else is told, and no event stays pending.
pub proof fn law_each_event_is_told_with_its_status<E, M, T>(
    state: InterfaceState,
    statuses: Vec<Status>,
    produced: Vec<M>,
    events: (Seq<E>, Seq<E>),
    messages: (Seq<M>, Seq<M>),
    title: (Seq<char>, Seq<char>),
    next: Dispatch<M>,
    effects: Seq<DispatchEffect<E, M, T>>,
)
    requires
        Dispatch::<M>::Updating.stepped(
            DispatchReply::Updated { state, statuses, produced },
            events.0,
            messages.0,
            title.0,
            next,
            effects,
            events.1,
            messages.1,
            title.1,
        ),
    ensures
        events.1.len() == 0,
        effects.len() == 1 + (if events.0.len() <= statuses@.len() {
            events.0.len()
        } else {
            statuses@.len()
        }),
        forall|i: int|
            0 <= i < events.0.len() && i < statuses@.len() ==> #[trigger] effects[i] == (
            DispatchEffect::<E, M, T>::Broadcast { event: events.0[i], status: statuses@[i] }),
        !(effects.last() is Broadcast),
{
}

/// Once the interface has processed the pending events, no message is lost and those that the
/// interface produced wait last. The interface is ended exactly when there is a message or the
/// interface is outdated; otherwise only a refresh is asked for. Whether it asked to be redrawn
/// does not matter.
pub proof fn law_interface_is_ended_when_needed<E, M, T>(
    state: InterfaceState,
    statuses: Vec<Status>,
    produced: Vec<M>,
    events: (Seq<E>, Seq<E>),
    messages: (Seq<M>, Seq<M>),
    title: (Seq<char>, Seq<char>),
    next: Dispatch<M>,
    effects: Seq<DispatchEffect<E, M, T>>,
)
    requires
        Dispatch::<M>::Updating.stepped(
            DispatchReply::Updated { state, statuses, produced },
            events.0,
            messages.0,
            title.0,
            next,
            effects,
            events.1,
            messages.1,
            title.1,
        ),
    ensures
        messages.1 == messages.0 + produced@,
        title.1 == title.0,
        effects.contains(DispatchEffect::<E, M, T>::Extract) <==> (messages.1.len() > 0
            || state is Outdated),
        effects.contains(DispatchEffect::<E, M, T>::RequestRefresh) <==> next is Finished,
        next is Finished <==> (messages.1.len() == 0 && !(state is Outdated)),
        !(next is Finished) ==> next == (Dispatch::<M>::Extracting { feed: messages.1.len() > 0 }),
{
    let last = effects.last();
    if messages.1.len() > 0 || state is Outdated {
        assert(last == DispatchEffect::<E, M, T>::Extract);
    } else {
        assert(last == DispatchEffect::<E, M, T>::RequestRefresh);
    }
}

/// When a dispatch is over after the interface was ended, the interface is built again, once, from
/// exactly what the ended one left behind, and a refresh is asked for after that. The program ends
/// if and only if the application should be terminated.
pub proof fn law_ended_interface_is_built_again<E, M, T>(
    dispatch: Dispatch<M>,
    reply: DispatchReply<M, T>,
    events: (Seq<E>, Seq<E>),
    messages: (Seq<M>, Seq<M>),
    title: (Seq<char>, Seq<char>),
    next: Dispatch<M>,
    effects: Seq<DispatchEffect<E, M, T>>,
)
    requires
        dispatch.stepped(
            reply,
            events.0,
            messages.0,
            title.0,
            next,
            effects,
            events.1,
            messages.1,
            title.1,
        ),
        !(dispatch is Updating),
        next is Finished,
    ensures
        dispatch is Leaving || dispatch == (Dispatch::<M>::Extracting { feed: false }),
        effects.len() >= 2,
        effects[0] == (DispatchEffect::<E, M, T>::BuildInterface {
            cache: match dispatch {
                Dispatch::Leaving { cache } => cache,
                _ => reply->Extracted_cache,
            },
        }),
        effects[1] == DispatchEffect::<E, M, T>::RequestRefresh,
        effects.len() == 3 <==> (dispatch is Leaving && reply->exit),
        effects.len() == 3 ==> effects[2] == DispatchEffect::<E, M, T>::RequestExit,
        effects.len() <= 3,
        events.1 == events.0,
        messages.1 == messages.0,
        title.1 == title.0,
{
}

/// While messages are fed, the application gets the oldest one that it has not got, the work of
/// the one before is run first, and the rest keeps its order. What the ended interface left behind
/// is kept until the end, and the pending events are not touched.
pub proof fn law_feeding_keeps_order_and_cache<E, M, T>(
    update: Update<M>,
    cache: Option<Cache>,
    stream: Option<T>,
    events: (Seq<E>, Seq<E>),
    messages: (Seq<M>, Seq<M>),
    title: (Seq<char>, Seq<char>),
    next: Dispatch<M>,
    effects: Seq<DispatchEffect<E, M, T>>,
)
    requires
        (Dispatch::Feeding { update, cache }).stepped(
            DispatchReply::Fed { stream },
            events.0,
            messages.0,
            title.0,
            next,
            effects,
            events.1,
            messages.1,
            title.1,
        ),
    ensures
        events.1 == events.0,
        messages.1 == messages.0,
        title.1 == title.0,
        stream matches Some(work) ==> effects.len() > 0 && effects[0] == DispatchEffect::<
            E,
            M,
            T,
        >::Update(UpdateEffect::RunStream(work)),
        stream is None ==> !(effects.len() > 0 && (effects[0] matches DispatchEffect::Update(
            effect,
        ) && effect is RunStream)),
        update@.len() > 0 ==> {
            &&& effects.last() == DispatchEffect::<E, M, T>::Update(UpdateEffect::Feed(update@[0]))
            &&& effects.len() == (if stream is Some {
                2int
            } else {
                1
            })
            &&& next matches Dispatch::Feeding { update: left, cache: kept }
            &&& seq![update@[0]] + left@ == update@
            &&& kept == cache
        },
        update@.len() == 0 ==> {
            &&& next == (Dispatch::<M>::Titling { cache })
            &&& effects.len() == (if stream is Some {
                4int
            } else {
                3
            })
            &&& effects[effects.len() - 3] == DispatchEffect::<E, M, T>::Update(
                UpdateEffect::Synchronize,
            )
            &&& effects[effects.len() - 2] == DispatchEffect::<E, M, T>::Update(
                UpdateEffect::TrackSubscription,
            )
            &&& effects.last() == DispatchEffect::<E, M, T>::Update(UpdateEffect::ReadTitle)
        },
{
    if update@.len() > 0 {
        assert(seq![update@[0]] + update@.skip(1) =~= update@);
    }
}

/// When the interface was ended for messages, all of them are taken and the first is fed at once;
/// what the interface left behind is kept.
pub proof fn law_all_messages_are_taken<E, M, T>(
    cache: Option<Cache>,
    events: (Seq<E>, Seq<E>),
    messages: (Seq<M>, Seq<M>),
    title: (Seq<char>, Seq<char>),
    next: Dispatch<M>,
    effects: Seq<DispatchEffect<E, M, T>>,
)
    requires
        (Dispatch::<M>::Extracting { feed: true }).stepped(
            DispatchReply::<M, T>::Extracted { cache },
            events.0,
            messages.0,
            title.0,
            next,
            effects,
            events.1,
            messages.1,
            title.1,
        ),
        messages.0.len() > 0,
    ensures
        events.1 == events.0,
        messages.1.len() == 0,
        title.1 == title.0,
        effects.len() == 1,
        effects[0] == DispatchEffect::<E, M, T>::Update(UpdateEffect::Feed(messages.0[0])),
        next matches Dispatch::Feeding { update, cache: kept } && seq![messages.0[0]] + update@
            == messages.0 && kept == cache,
{
    assert(seq![messages.0[0]] + messages.0.skip(1) =~= messages.0);
}

/// The title of the application becomes that of the window, and is set if that is a change. Then
/// the application is asked whether it should be terminated; what the interface left behind is
/// kept.
pub proof fn law_title_is_set_before_the_exit_is_asked<E, M, T>(
    cache: Option<Cache>,
    current: String,
    events: (Seq<E>, Seq<E>),
    messages: (Seq<M>, Seq<M>),
    title: (Seq<char>, Seq<char>),
    next: Dispatch<M>,
    effects: Seq<DispatchEffect<E, M, T>>,
)
    requires
        (Dispatch::<M>::Titling { cache }).stepped(
            DispatchReply::<M, T>::Title { title: current },
            events.0,
            messages.0,
            title.0,
            next,
            effects,
            events.1,
            messages.1,
            title.1,
        ),
    ensures
        events.1 == events.0,
        messages.1 == messages.0,
        title.1 == current@,
        next == (Dispatch::<M>::Leaving { cache }),
        effects.last() == DispatchEffect::<E, M, T>::ReadShouldExit,
        effects.len() == (if current@ == title.0 {
            1int
        } else {
            2
        }),
        current@ != title.0 ==> effects[0] == DispatchEffect::<E, M, T>::Update(
            UpdateEffect::SetTitle(current),
        ),
{
}

/// At each stage a dispatch waits for one kind of answer.
pub proof fn law_dispatch_waits_for_one_kind_of_answer<M, T>(
    dispatch: Dispatch<M>,
    reply: DispatchReply<M, T>,
)
    ensures
        dispatch.expects(reply) <==> {
            ||| dispatch is Updating && reply is Updated
            ||| dispatch is Extracting && reply is Extracted
            ||| dispatch is Feeding && reply is Fed
            ||| dispatch is Titling && reply is Title
            ||| dispatch is Leaving && reply is ShouldExit
        },
{
}

} // verus!
