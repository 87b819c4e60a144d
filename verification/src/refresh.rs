//! One refresh of the window: what is to be done, in which order, and what the answers lead to.
use vstd::prelude::*;

verus! {

/// What the cursor is over.
#[derive(Debug, Clone, Copy, PartialEq, Eq, Structural)]
pub enum Interaction {
    NoInteraction,
    Idle,
    Pointer,
    Grab,
    Text,
    Crosshair,
    Working,
    Grabbing,
    ResizingHorizontally,
    ResizingVertically,
    ResizingDiagonallyUp,
    ResizingDiagonallyDown,
    NotAllowed,
    ZoomIn,
    ZoomOut,
    Cell,
    Move,
    Copy,
    Help,
}

impl Default for Interaction {
    fn default() -> (interaction: Self)
        ensures
            interaction == Interaction::NoInteraction,
    {
        Interaction::NoInteraction
    }
}

/// Whether an event was handled by a widget.
#[derive(Debug, Clone, Copy, PartialEq, Eq)]
pub enum Status {
    Ignored,
    Captured,
}

/// An event that a refresh itself gives rise to.
#[derive(Debug, Clone, Copy, PartialEq, Eq)]
pub enum RefreshEvent {
    /// The window has been opened.
    Opened,
    /// The window is to be redrawn now.
    RedrawRequested,
}

/// A single thing to be done in a refresh.
#[derive(Debug, Clone, Copy, PartialEq, Eq)]
pub enum RefreshEffect {
    /// Fit the viewport to the window's size and scale.
    UpdateViewport { width: u32, height: u32 },
    /// Build the interface from an empty cache, for the logical size of the viewport.
    BuildInterface,
    /// Give the surface the physical size of the viewport.
    ConfigureSurface,
    /// Report the size that the viewport was fitted to, and whether the scale differs.
    CompareViewport,
    /// Lay the interface out for the logical size of the viewport.
    Relayout,
    /// Let the interface process the events of this refresh, and report their statuses.
    UpdateInterface { opened: bool },
    /// Tell the subscriptions of an event and its status.
    Broadcast { event: RefreshEvent, status: Status },
    /// Draw the interface, and report what the cursor is over and whether there is a pointer.
    Draw,
    /// Ask for the shape of the cursor that fits.
    SetCursorShape { interaction: Interaction },
    /// Present the surface, and report that it is presented.
    Present,
}

/// What a refresh waits for.
#[derive(Debug, Clone, Copy, PartialEq, Eq)]
pub enum Refresh {
    Comparing { width: u32, height: u32, opened: bool },
    Updating { opened: bool },
    Drawing,
    Presenting,
    Finished,
}

/// An answer to a refresh.
#[derive(Debug, PartialEq, Eq)]
pub enum RefreshReply {
    /// The size that the viewport was last fitted to, and whether its scale is another one.
    Viewport { width: u32, height: u32, scale_changed: bool },
    /// The statuses of the events that the interface has processed.
    Updated { statuses: Vec<Status> },
    /// What the cursor is over, and whether there is a pointer to show it.
    Drawn { interaction: Interaction, pointer: bool },
    Presented,
}

/// The events of a refresh. Only the refresh that builds the interface opens the window.
pub open spec fn refresh_events(opened: bool) -> Seq<RefreshEvent> {
    if opened {
        seq![RefreshEvent::Opened, RefreshEvent::RedrawRequested]
    } else {
        seq![RefreshEvent::RedrawRequested]
    }
}

/// Lists the events of a refresh for the interface.
pub fn list_refresh_events(opened: bool) -> (events: Vec<RefreshEvent>)
    ensures
        events@ == refresh_events(opened),
        opened ==> events@ == seq![RefreshEvent::Opened, RefreshEvent::RedrawRequested],
        !opened ==> events@ == seq![RefreshEvent::RedrawRequested],
{
    let mut events: Vec<RefreshEvent> = Vec::new();
    if opened {
        events.push(RefreshEvent::Opened);
    }
    events.push(RefreshEvent::RedrawRequested);
    assert(events@ =~= refresh_events(opened));
    events
}

/// The status of the event at `index`. One that has none counts as ignored.
pub open spec fn status_at(statuses: Seq<Status>, index: int) -> Status {
    if 0 <= index < statuses.len() {
        statuses[index]
    } else {
        Status::Ignored
    }
}

/// Every event of the refresh with its status.
pub open spec fn refresh_broadcasts(opened: bool, statuses: Seq<Status>) -> Seq<RefreshEffect> {
    refresh_events(opened).map(
        |i: int, event: RefreshEvent|
            RefreshEffect::Broadcast { event, status: status_at(statuses, i) },
    )
}

/// The first building of the interface.
pub open spec fn first_build(width: u32, height: u32) -> Seq<RefreshEffect> {
    seq![
        RefreshEffect::UpdateViewport { width, height },
        RefreshEffect::BuildInterface,
        RefreshEffect::ConfigureSurface,
    ]
}

/// The fitting of a built interface to another size or scale.
pub open spec fn refit(width: u32, height: u32) -> Seq<RefreshEffect> {
    seq![
        RefreshEffect::UpdateViewport { width, height },
        RefreshEffect::Relayout,
        RefreshEffect::ConfigureSurface,
    ]
}

/// The cursor changes its shape when it is over something else than before, and is there.
pub open spec fn cursor_change(
    shown: Interaction,
    interaction: Interaction,
    pointer: bool,
) -> Seq<RefreshEffect> {
    if interaction != shown && pointer {
        seq![RefreshEffect::SetCursorShape { interaction }]
    } else {
        seq![]
    }
}

impl Refresh {
    /// Whether the refresh is waiting for this answer.
    pub open spec fn expects(self, reply: RefreshReply) -> bool {
        match self {
            Refresh::Comparing { .. } => reply is Viewport,
            Refresh::Updating { .. } => reply is Updated,
            Refresh::Drawing => reply is Drawn,
            Refresh::Presenting => reply is Presented,
            Refresh::Finished => false,
        }
    }

    /// Tells whether the refresh is waiting for this answer.
    pub fn accepts(&self, reply: &RefreshReply) -> (accepted: bool)
        ensures
            accepted == self.expects(*reply),
            accepted <==> {
                ||| *self is Comparing && *reply is Viewport
                ||| *self is Updating && *reply is Updated
                ||| *self is Drawing && *reply is Drawn
                ||| *self is Presenting && *reply is Presented
            },
    {
        match self {
            Refresh::Comparing { .. } => matches!(reply, RefreshReply::Viewport { .. }),
            Refresh::Updating { .. } => matches!(reply, RefreshReply::Updated { .. }),
            Refresh::Drawing => matches!(reply, RefreshReply::Drawn { .. }),
            Refresh::Presenting => matches!(reply, RefreshReply::Presented),
            Refresh::Finished => false,
        }
    }

    /// How a refresh begins, for a window of the given size.
    pub open spec fn begun(built: bool, width: u32, height: u32) -> (Refresh, Seq<RefreshEffect>) {
        (
            Refresh::Comparing { width, height, opened: !built },
            (if built {
                Seq::empty()
            } else {
                first_build(width, height)
            }) + seq![RefreshEffect::CompareViewport],
        )
    }

    /// How a refresh goes on after an answer, where `shown` is what the cursor was over.
    pub open spec fn stepped(self, reply: RefreshReply, shown: Interaction) -> (
        Refresh,
        Seq<RefreshEffect>,
        Interaction,
    ) {
        match (self, reply) {
            (
                Refresh::Comparing { width, height, opened },
                RefreshReply::Viewport { width: fitted_width, height: fitted_height, scale_changed },
            ) => (
                Refresh::Updating { opened },
                (if fitted_width != width || fitted_height != height || scale_changed {
                    refit(width, height)
                } else {
                    Seq::empty()
                }) + seq![RefreshEffect::UpdateInterface { opened }],
                shown,
            ),
            (Refresh::Updating { opened }, RefreshReply::Updated { statuses }) => (
                Refresh::Drawing,
                refresh_broadcasts(opened, statuses@) + seq![RefreshEffect::Draw],
                shown,
            ),
            (Refresh::Drawing, RefreshReply::Drawn { interaction, pointer }) => (
                Refresh::Presenting,
                cursor_change(shown, interaction, pointer) + seq![RefreshEffect::Present],
                interaction,
            ),
            _ => (Refresh::Finished, Seq::empty(), shown),
        }
    }

    /// Begins a refresh of a window of the given size. `built` says whether there is an
    /// interface yet.
    pub fn begin(built: bool, width: u32, height: u32) -> (begun: (Refresh, Vec<RefreshEffect>))
        ensures
            (begun.0, begun.1@) == Refresh::begun(built, width, height),
            begun.0 == (Refresh::Comparing { width, height, opened: !built }),
            built ==> begun.1@ == seq![RefreshEffect::CompareViewport],
            !built ==> begun.1@ == seq![
                RefreshEffect::UpdateViewport { width, height },
                RefreshEffect::BuildInterface,
                RefreshEffect::ConfigureSurface,
                RefreshEffect::CompareViewport,
            ],
    {
        let mut effects: Vec<RefreshEffect> = Vec::new();
        if !built {
            effects.push(RefreshEffect::UpdateViewport { width, height });
            effects.push(RefreshEffect::BuildInterface);
            effects.push(RefreshEffect::ConfigureSurface);
        }
        effects.push(RefreshEffect::CompareViewport);
        assert(effects@ =~= Refresh::begun(built, width, height).1);
        (Refresh::Comparing { width, height, opened: !built }, effects)
    }

    /// Goes on with the answer that the refresh is waiting for, and keeps in `shown` what the
    /// cursor is over.
    pub fn step(self, reply: RefreshReply, shown: &mut Interaction) -> (stepped: (
        Refresh,
        Vec<RefreshEffect>,
    ))
        requires
            self.expects(reply),
        ensures
            (stepped.0, stepped.1@, *final(shown)) == self.stepped(reply, *old(shown)),
            match (self, reply) {
                (
                    Refresh::Comparing { width, height, opened },
                    RefreshReply::Viewport { width: fitted, height: fitted_height, scale_changed },
                ) => {
                    &&& stepped.0 == (Refresh::Updating { opened })
                    &&& *final(shown) == *old(shown)
                    &&& stepped.1@ == (if fitted == width && fitted_height == height
                        && !scale_changed {
                        seq![RefreshEffect::UpdateInterface { opened }]
                    } else {
                        seq![
                            RefreshEffect::UpdateViewport { width, height },
                            RefreshEffect::Relayout,
                            RefreshEffect::ConfigureSurface,
                            RefreshEffect::UpdateInterface { opened },
                        ]
                    })
                },
                (Refresh::Updating { opened }, RefreshReply::Updated { statuses }) => {
                    &&& stepped.0 is Drawing
                    &&& *final(shown) == *old(shown)
                    &&& stepped.1@.len() == (if opened {
                        3int
                    } else {
                        2
                    })
                    &&& stepped.1@.last() == RefreshEffect::Draw
                    &&& forall|i: int|
                        0 <= i < stepped.1@.len() - 1 ==> #[trigger] stepped.1@[i] == (
                        RefreshEffect::Broadcast {
                            event: if opened && i == 0 {
                                RefreshEvent::Opened
                            } else {
                                RefreshEvent::RedrawRequested
                            },
                            status: if i < statuses@.len() {
                                statuses@[i]
                            } else {
                                Status::Ignored
                            },
                        })
                },
                (Refresh::Drawing, RefreshReply::Drawn { interaction, pointer }) => {
                    &&& stepped.0 is Presenting
                    &&& *final(shown) == interaction
                    &&& stepped.1@ == (if pointer && interaction != *old(shown) {
                        seq![RefreshEffect::SetCursorShape { interaction }, RefreshEffect::Present]
                    } else {
                        seq![RefreshEffect::Present]
                    })
                },
                _ => {
                    &&& stepped.0 is Finished
                    &&& *final(shown) == *old(shown)
                    &&& stepped.1@.len() == 0
                },
            },
    {
        let mut effects: Vec<RefreshEffect> = Vec::new();
        match (self, reply) {
            (
                Refresh::Comparing { width, height, opened },
                RefreshReply::Viewport { width: fitted_width, height: fitted_height, scale_changed },
            ) => {
                if fitted_width != width || fitted_height != height || scale_changed {
                    effects.push(RefreshEffect::UpdateViewport { width, height });
                    effects.push(RefreshEffect::Relayout);
                    effects.push(RefreshEffect::ConfigureSurface);
                }
                effects.push(RefreshEffect::UpdateInterface { opened });
                assert(effects@ =~= self.stepped(reply, *old(shown)).1);
                (Refresh::Updating { opened }, effects)
            },
            (Refresh::Updating { opened }, RefreshReply::Updated { statuses }) => {
                let events = list_refresh_events(opened);
                let mut index: usize = 0;
                while index < events.len()
                    invariant
                        index <= events@.len(),
                        events@ == refresh_events(opened),
                        effects@ == refresh_broadcasts(opened, statuses@).take(index as int),
                    decreases events@.len() - index,
                {
                    let status = if index < statuses.len() {
                        statuses[index]
                    } else {
                        Status::Ignored
                    };
                    effects.push(RefreshEffect::Broadcast { event: events[index], status });
                    assert(effects@ =~= refresh_broadcasts(opened, statuses@).take(index + 1));
                    index = index + 1;
                }
                effects.push(RefreshEffect::Draw);
                assert(effects@ =~= self.stepped(reply, *old(shown)).1);
                (Refresh::Drawing, effects)
            },
            (Refresh::Drawing, RefreshReply::Drawn { interaction, pointer }) => {
                if interaction != *shown {
                    if pointer {
                        effects.push(RefreshEffect::SetCursorShape { interaction });
                    }
                    *shown = interaction;
                }
                effects.push(RefreshEffect::Present);
                assert(effects@ =~= self.stepped(reply, *old(shown)).1);
                (Refresh::Presenting, effects)
            },
            _ => (Refresh::Finished, effects),
        }
    }
}

/// The answers that a whole refresh gets.
pub struct RefreshAnswers {
    pub fitted: (u32, u32),
    pub scale_changed: bool,
    pub statuses: Vec<Status>,
    pub interaction: Interaction,
    pub pointer: bool,
}

/// All that a refresh does, in its order.
pub open spec fn refresh_script(
    built: bool,
    width: u32,
    height: u32,
    shown: Interaction,
    answers: RefreshAnswers,
) -> Seq<RefreshEffect> {
    (if built {
        Seq::empty()
    } else {
        first_build(width, height)
    }) + seq![RefreshEffect::CompareViewport] + (if answers.fitted != (width, height)
        || answers.scale_changed {
        refit(width, height)
    } else {
        Seq::empty()
    }) + seq![RefreshEffect::UpdateInterface { opened: !built }] + refresh_broadcasts(
        !built,
        answers.statuses@,
    ) + seq![RefreshEffect::Draw] + cursor_change(shown, answers.interaction, answers.pointer)
        + seq![RefreshEffect::Present]
}

/// A refresh that gets its answers one after the other does exactly what the script says, then
/// it is finished and what the cursor is over is what was drawn last.
pub proof fn law_refresh_follows_script(
    built: bool,
    width: u32,
    height: u32,
    shown: Interaction,
    answers: RefreshAnswers,
)
    ensures
        ({
            let viewport = RefreshReply::Viewport {
                width: answers.fitted.0,
                height: answers.fitted.1,
                scale_changed: answers.scale_changed,
            };
            let updated = RefreshReply::Updated { statuses: answers.statuses };
            let drawn = RefreshReply::Drawn {
                interaction: answers.interaction,
                pointer: answers.pointer,
            };
            let begun = Refresh::begun(built, width, height);
            let compared = begun.0.stepped(viewport, shown);
            let processed = compared.0.stepped(updated, compared.2);
            let painted = processed.0.stepped(drawn, processed.2);
            let presented = painted.0.stepped(RefreshReply::Presented, painted.2);
            &&& begun.0.expects(viewport)
            &&& compared.0.expects(updated)
            &&& processed.0.expects(drawn)
            &&& painted.0.expects(RefreshReply::Presented)
            &&& begun.1 + compared.1 + processed.1 + painted.1 + presented.1 == refresh_script(
                built,
                width,
                height,
                shown,
                answers,
            )
            &&& presented.0 is Finished
            &&& presented.2 == answers.interaction
        }),
{
    let viewport = RefreshReply::Viewport {
        width: answers.fitted.0,
        height: answers.fitted.1,
        scale_changed: answers.scale_changed,
    };
    let updated = RefreshReply::Updated { statuses: answers.statuses };
    let drawn = RefreshReply::Drawn { interaction: answers.interaction, pointer: answers.pointer };
    let begun = Refresh::begun(built, width, height);
    let compared = begun.0.stepped(viewport, shown);
    let processed = compared.0.stepped(updated, compared.2);
    let painted = processed.0.stepped(drawn, processed.2);
    let presented = painted.0.stepped(RefreshReply::Presented, painted.2);
    assert(begun.1 + compared.1 + processed.1 + painted.1 + presented.1 =~= refresh_script(
        built,
        width,
        height,
        shown,
        answers,
    ));
}

/// Every event that the interface is given in a refresh is broadcast once, in the same order.
pub proof fn law_refresh_broadcasts_every_event(opened: bool, statuses: Seq<Status>)
    ensures
        refresh_broadcasts(opened, statuses).len() == refresh_events(opened).len(),
        forall|i: int|
            0 <= i < refresh_events(opened).len() ==> #[trigger] refresh_broadcasts(
                opened,
                statuses,
            )[i] == (RefreshEffect::Broadcast {
                event: refresh_events(opened)[i],
                status: status_at(statuses, i),
            }),
{
}

/// After the drawing, the shape of the cursor is asked for exactly when there is a pointer and it
/// is over something else than before; the shape is that of what was drawn. The surface is then
/// presented, once and last, and what the cursor is over is kept.
pub proof fn law_cursor_shape_follows_interaction(
    shown: Interaction,
    interaction: Interaction,
    pointer: bool,
    shape: Interaction,
)
    ensures
        ({
            let after = Refresh::Drawing.stepped(
                RefreshReply::Drawn { interaction, pointer },
                shown,
            );
            &&& after.0 is Presenting
            &&& after.2 == interaction
            &&& after.1.contains(RefreshEffect::SetCursorShape { interaction: shape }) <==> (pointer
                && interaction != shown && shape == interaction)
            &&& after.1.len() == (if pointer && interaction != shown {
                2int
            } else {
                1
            })
            &&& after.1.last() == RefreshEffect::Present
        }),
{
    let after = Refresh::Drawing.stepped(RefreshReply::Drawn { interaction, pointer }, shown);
    if pointer && interaction != shown {
        assert(after.1[0] == RefreshEffect::SetCursorShape { interaction });
    }
}

/// Between any two drawings with a pointer, the shape of the second is asked for exactly when it
/// is another one than that of the first, whatever was shown before. Without a pointer none is.
pub proof fn law_every_change_of_shape_is_asked_for(
    shown: Interaction,
    first: Interaction,
    first_pointer: bool,
    second: Interaction,
    second_pointer: bool,
)
    ensures
        ({
            let one = Refresh::Drawing.stepped(
                RefreshReply::Drawn { interaction: first, pointer: first_pointer },
                shown,
            );
            let two = Refresh::Drawing.stepped(
                RefreshReply::Drawn { interaction: second, pointer: second_pointer },
                one.2,
            );
            two.1.contains(RefreshEffect::SetCursorShape { interaction: second }) <==> (
            second_pointer && first != second)
        }),
{
    law_cursor_shape_follows_interaction(shown, first, first_pointer, first);
    law_cursor_shape_follows_interaction(first, second, second_pointer, second);
}

/// A refresh that finds no interface fits the viewport to the size of the window, builds the
/// interface and gives the surface its size, in this order, and opens the window. One that finds
/// an interface does none of this. Both then look how the viewport stands.
pub proof fn law_refresh_builds_missing_interface(built: bool, width: u32, height: u32)
    ensures
        ({
            let begun = Refresh::begun(built, width, height);
            &&& begun.0 == (Refresh::Comparing { width, height, opened: !built })
            &&& begun.1.contains(RefreshEffect::BuildInterface) <==> !built
            &&& begun.1.last() == RefreshEffect::CompareViewport
            &&& begun.1.len() == (if built {
                1int
            } else {
                4
            })
            &&& !built ==> {
                &&& begun.1[0] == (RefreshEffect::UpdateViewport { width, height })
                &&& begun.1[1] == RefreshEffect::BuildInterface
                &&& begun.1[2] == RefreshEffect::ConfigureSurface
            }
        }),
{
    let begun = Refresh::begun(built, width, height);
    if !built {
        assert(begun.1[1] == RefreshEffect::BuildInterface);
    }
}

/// A built interface is laid out anew exactly when the window has another width, height or scale
/// than the viewport was fitted to. The viewport is fitted before, to the size of the window, and
/// the surface after. In the end the interface gets the events, and the window stays as opened as
/// it was.
pub proof fn law_refresh_fits_what_changed(
    size: (u32, u32),
    opened: bool,
    fitted: (u32, u32),
    scale_changed: bool,
    shown: Interaction,
)
    ensures
        ({
            let after = (Refresh::Comparing {
                width: size.0,
                height: size.1,
                opened,
            }).stepped(
                RefreshReply::Viewport { width: fitted.0, height: fitted.1, scale_changed },
                shown,
            );
            let changed = size.0 != fitted.0 || size.1 != fitted.1 || scale_changed;
            &&& after.0 == (Refresh::Updating { opened })
            &&& after.2 == shown
            &&& after.1.last() == (RefreshEffect::UpdateInterface { opened })
            &&& after.1.contains(RefreshEffect::Relayout) <==> changed
            &&& after.1.len() == (if changed {
                4int
            } else {
                1
            })
            &&& changed ==> {
                &&& after.1[0] == (RefreshEffect::UpdateViewport { width: size.0, height: size.1 })
                &&& after.1[1] == RefreshEffect::Relayout
                &&& after.1[2] == RefreshEffect::ConfigureSurface
            }
        }),
{
    let after = (Refresh::Comparing { width: size.0, height: size.1, opened }).stepped(
        RefreshReply::Viewport { width: fitted.0, height: fitted.1, scale_changed },
        shown,
    );
    if size.0 != fitted.0 || size.1 != fitted.1 || scale_changed {
        assert(after.1[1] == RefreshEffect::Relayout);
    }
}

/// The subscriptions are told of each event of a refresh with the status that the interface
/// reported for that very event, or with none reported as ignored. They are told of the opening
/// first, if the window is opened, and then of the redrawing; the drawing comes last.
pub proof fn law_refresh_tells_each_event_with_its_status(
    opened: bool,
    statuses: Vec<Status>,
    shown: Interaction,
)
    ensures
        ({
            let after = (Refresh::Updating { opened }).stepped(
                RefreshReply::Updated { statuses },
                shown,
            );
            let redraw: int = if opened {
                1
            } else {
                0
            };
            &&& after.0 is Drawing
            &&& after.2 == shown
            &&& after.1.len() == redraw + 2
            &&& after.1.last() == RefreshEffect::Draw
            &&& opened ==> after.1[0] == (RefreshEffect::Broadcast {
                event: RefreshEvent::Opened,
                status: if statuses@.len() > 0 {
                    statuses@[0]
                } else {
                    Status::Ignored
                },
            })
            &&& after.1[redraw] == (RefreshEffect::Broadcast {
                event: RefreshEvent::RedrawRequested,
                status: if statuses@.len() > redraw {
                    statuses@[redraw]
                } else {
                    Status::Ignored
                },
            })
        }),
{
}

/// A refresh goes through its stages in order and is over once the surface is presented; at each
/// stage it waits for one kind of answer.
pub proof fn law_refresh_waits_for_one_kind_of_answer(refresh: Refresh, reply: RefreshReply)
    ensures
        refresh.expects(reply) <==> {
            ||| refresh is Comparing && reply is Viewport
            ||| refresh is Updating && reply is Updated
            ||| refresh is Drawing && reply is Drawn
            ||| refresh is Presenting && reply is Presented
        },
        forall|shown: Interaction|
            refresh is Presenting && reply is Presented ==> {
                let after = #[trigger] refresh.stepped(reply, shown);
                after.0 is Finished && after.1.len() == 0 && after.2 == shown
            },
{
}

} // verus!
