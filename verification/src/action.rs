//! What a task of the application, or the application itself, asks of the shell.
use iced_core::window::Id;
use vstd::prelude::*;

verus! {

/// The edges of the screen that a surface is anchored to, one bit for each.
#[derive(Debug, Clone, Copy, PartialEq, Eq)]
pub struct Anchor {
    pub bits: u32,
}

/// The layer that a surface is shown on.
#[derive(Debug, Clone, Copy, PartialEq, Eq)]
pub enum Layer {
    Background,
    Bottom,
    Top,
    Overlay,
}

/// A request of the application to its layer shell window. `S` edits an input region.
#[derive(Debug, PartialEq, Eq)]
pub enum LayershellCustomActions<S> {
    AnchorChange(Anchor),
    AnchorSizeChange(Anchor, (u32, u32)),
    LayerChange(Layer),
    /// The margins at the top, right, bottom and left.
    MarginChange((i32, i32, i32, i32)),
    SizeChange((u32, u32)),
    ExclusiveZoneChange(i32),
    SetInputRegion(S),
    VirtualKeyboardPressed { time: u32, key: u32 },
    /// A request that means something only to a program with many windows.
    MultiWindow,
}

/// A single call to be made on the layer shell window.
#[derive(Debug, PartialEq, Eq)]
pub enum WindowRequest<S> {
    SetAnchor(Anchor),
    SetAnchorWithSize(Anchor, (u32, u32)),
    SetLayer(Layer),
    SetMargin((i32, i32, i32, i32)),
    SetSize((u32, u32)),
    SetExclusiveZone(i32),
    /// Take the rectangle out of the input region.
    SubtractRegion { x: i32, y: i32, width: i32, height: i32 },
    /// Hand the input region to the application's own edit.
    EditRegion(S),
    /// Make the input region that of the surface.
    SetInputRegion,
    /// Press a key of the virtual keyboard.
    PressKey { time: u32, key: u32 },
    /// Release a key of the virtual keyboard once the time is over.
    ReleaseKey { time: u32, key: u32, after_micros: u64 },
}

/// How long a key of the virtual keyboard stays pressed.
pub const KEY_PRESS_MICROS: u64 = 100;

/// A length of the window as a length of a region. One that does not fit counts as nothing.
pub open spec fn region_length(length: u32) -> i32 {
    if length <= i32::MAX {
        length as i32
    } else {
        0
    }
}

/// The calls that an action comes down to, in their order, for a window of the given size.
pub open spec fn window_requests<S>(
    action: LayershellCustomActions<S>,
    has_region: bool,
    size: (u32, u32),
) -> Seq<WindowRequest<S>> {
    match action {
        LayershellCustomActions::AnchorChange(anchor) => seq![WindowRequest::SetAnchor(anchor)],
        LayershellCustomActions::AnchorSizeChange(anchor, size) => seq![
            WindowRequest::SetAnchorWithSize(anchor, size),
        ],
        LayershellCustomActions::LayerChange(layer) => seq![WindowRequest::SetLayer(layer)],
        LayershellCustomActions::MarginChange(margin) => seq![WindowRequest::SetMargin(margin)],
        LayershellCustomActions::SizeChange(size) => seq![WindowRequest::SetSize(size)],
        LayershellCustomActions::ExclusiveZoneChange(zone) => seq![
            WindowRequest::SetExclusiveZone(zone),
        ],
        LayershellCustomActions::SetInputRegion(edit) => if has_region {
            seq![
                WindowRequest::SubtractRegion {
                    x: 0,
                    y: 0,
                    width: region_length(size.0),
                    height: region_length(size.1),
                },
                WindowRequest::EditRegion(edit),
                WindowRequest::SetInputRegion,
            ]
        } else {
            seq![]
        },
        LayershellCustomActions::VirtualKeyboardPressed { time, key } => seq![
            WindowRequest::PressKey { time, key },
            WindowRequest::ReleaseKey { time, key, after_micros: KEY_PRESS_MICROS },
        ],
        LayershellCustomActions::MultiWindow => seq![],
    }
}

fn to_region_length(length: u32) -> (fitted: i32)
    ensures
        fitted == region_length(length),
{
    if length <= i32::MAX as u32 {
        length as i32
    } else {
        0
    }
}

/// The calls that `action` comes down to. Without an input region, a change of it is ignored.
pub fn handle_layer_shell_action<S>(
    action: LayershellCustomActions<S>,
    has_region: bool,
    size: (u32, u32),
) -> (requests: Vec<WindowRequest<S>>)
    ensures
        requests@ == window_requests(action, has_region, size),
        action matches LayershellCustomActions::AnchorChange(anchor) ==> requests@ == seq![
            WindowRequest::<S>::SetAnchor(anchor),
        ],
        action matches LayershellCustomActions::AnchorSizeChange(anchor, wanted) ==> requests@
            == seq![WindowRequest::<S>::SetAnchorWithSize(anchor, wanted)],
        action matches LayershellCustomActions::LayerChange(layer) ==> requests@ == seq![
            WindowRequest::<S>::SetLayer(layer),
        ],
        action matches LayershellCustomActions::MarginChange(margin) ==> requests@ == seq![
            WindowRequest::<S>::SetMargin(margin),
        ],
        action matches LayershellCustomActions::SizeChange(wanted) ==> requests@ == seq![
            WindowRequest::<S>::SetSize(wanted),
        ],
        action matches LayershellCustomActions::ExclusiveZoneChange(zone) ==> requests@ == seq![
            WindowRequest::<S>::SetExclusiveZone(zone),
        ],
        action matches LayershellCustomActions::SetInputRegion(edit) ==> requests@ == (
        if has_region {
            seq![
                WindowRequest::<S>::SubtractRegion {
                    x: 0,
                    y: 0,
                    width: if size.0 <= i32::MAX { size.0 as i32 } else { 0 },
                    height: if size.1 <= i32::MAX { size.1 as i32 } else { 0 },
                },
                WindowRequest::<S>::EditRegion(edit),
                WindowRequest::<S>::SetInputRegion,
            ]
        } else {
            Seq::<WindowRequest<S>>::empty()
        }),
        action matches LayershellCustomActions::VirtualKeyboardPressed { time, key } ==> requests@
            == seq![
            WindowRequest::<S>::PressKey { time, key },
            WindowRequest::<S>::ReleaseKey { time, key, after_micros: 100 },
        ],
        action is MultiWindow ==> requests@ == Seq::<WindowRequest<S>>::empty(),
{
    let mut requests: Vec<WindowRequest<S>> = Vec::new();
    match action {
        LayershellCustomActions::AnchorChange(anchor) => {
            requests.push(WindowRequest::SetAnchor(anchor));
        },
        LayershellCustomActions::AnchorSizeChange(anchor, size) => {
            requests.push(WindowRequest::SetAnchorWithSize(anchor, size));
        },
        LayershellCustomActions::LayerChange(layer) => {
            requests.push(WindowRequest::SetLayer(layer));
        },
        LayershellCustomActions::MarginChange(margin) => {
            requests.push(WindowRequest::SetMargin(margin));
        },
        LayershellCustomActions::SizeChange(size) => {
            requests.push(WindowRequest::SetSize(size));
        },
        LayershellCustomActions::ExclusiveZoneChange(zone) => {
            requests.push(WindowRequest::SetExclusiveZone(zone));
        },
        LayershellCustomActions::SetInputRegion(edit) => {
            if has_region {
                requests.push(
                    WindowRequest::SubtractRegion {
                        x: 0,
                        y: 0,
                        width: to_region_length(size.0),
                        height: to_region_length(size.1),
                    },
                );
                requests.push(WindowRequest::EditRegion(edit));
                requests.push(WindowRequest::SetInputRegion);
            }
        },
        LayershellCustomActions::VirtualKeyboardPressed { time, key } => {
            requests.push(WindowRequest::PressKey { time, key });
            requests.push(
                WindowRequest::ReleaseKey { time, key, after_micros: KEY_PRESS_MICROS },
            );
        },
        LayershellCustomActions::MultiWindow => {},
    }
    assert(requests@ =~= window_requests(action, has_region, size));
    requests
}

/// Which of the clipboards is meant.
#[derive(Debug, Clone, Copy, PartialEq, Eq)]
pub enum ClipboardKind {
    Standard,
    Primary,
}

/// A task's action on the clipboard. `H` is the channel that the answer goes to.
#[derive(Debug, PartialEq, Eq)]
pub enum ClipboardAction<H> {
    Read { target: ClipboardKind, channel: H },
    Write { target: ClipboardKind, contents: String },
}

/// A task's action on a window. `H` is the channel that the answer goes to.
#[derive(Debug, PartialEq, Eq)]
pub enum WindowAction<H> {
    Close(Id),
    Screenshot(Id, H),
    GetScaleFactor(Id, H),
    /// Any other action on a window; a layer shell has none of them.
    Unsupported,
}

/// An action that a task of the application wants to be performed.
///
/// `M` is the message type of the application, and `H` stands for what only the runtime can use:
/// the channel that an answer goes to, or a widget operation.
#[derive(Debug, PartialEq, Eq)]
pub enum Action<M, H> {
    Output(M),
    LoadFont { bytes: Vec<u8>, channel: H },
    Widget(H),
    Clipboard(ClipboardAction<H>),
    Window(WindowAction<H>),
    System,
    Exit,
}

/// What is left to be done of an action once its decisions are made.
#[derive(Debug, PartialEq, Eq)]
pub enum RunEffect<H> {
    Nothing,
    /// Read the clipboard and send what it holds.
    ReadClipboard { target: ClipboardKind, channel: H },
    WriteClipboard { target: ClipboardKind, contents: String },
    /// Apply the operation to the interface if that is built, and report its outcome.
    Operate { operation: H, on_interface: bool },
    /// Take a screenshot and send it.
    Screenshot { channel: H },
    /// Send the scale factor of the surface.
    ReportScaleFactor { channel: H },
    /// Load the font and send that it is loaded.
    LoadFont { bytes: Vec<u8>, channel: H },
}

/// How a widget operation ended.
#[derive(Debug, PartialEq, Eq)]
pub enum Outcome<H> {
    Nothing,
    /// It produced a message, which nobody asked for.
    Message,
    /// Another operation follows.
    Chain(H),
}

/// What is left to be done of `action`.
pub open spec fn run_effect<M, H>(action: Action<M, H>, built: bool) -> RunEffect<H> {
    match action {
        Action::LoadFont { bytes, channel } => RunEffect::LoadFont { bytes, channel },
        Action::Widget(operation) => RunEffect::Operate { operation, on_interface: built },
        Action::Clipboard(ClipboardAction::Read { target, channel }) => RunEffect::ReadClipboard {
            target,
            channel,
        },
        Action::Clipboard(
            ClipboardAction::Write { target, contents },
        ) => RunEffect::WriteClipboard { target, contents },
        Action::Window(WindowAction::Screenshot(_, channel)) => RunEffect::Screenshot { channel },
        Action::Window(WindowAction::GetScaleFactor(_, channel)) => RunEffect::ReportScaleFactor {
            channel,
        },
        _ => RunEffect::Nothing,
    }
}

/// Whether `action` ends the program.
pub open spec fn asks_to_exit<M, H>(action: Action<M, H>) -> bool {
    action is Exit || action matches Action::Window(WindowAction::Close(_))
}

/// An output that is an action for the window waits with the others; any other output is a
/// message for the application.
pub open spec fn output_routed<M, S>(
    output: Result<LayershellCustomActions<S>, M>,
    messages: (Seq<M>, Seq<M>),
    waiting: (Seq<LayershellCustomActions<S>>, Seq<LayershellCustomActions<S>>),
) -> bool {
    match output {
        Ok(action) => waiting.1 == waiting.0.push(action) && messages.1 == messages.0,
        Err(message) => messages.1 == messages.0.push(message) && waiting.1 == waiting.0,
    }
}

/// Files an output of the application, once it is known whether it is an action for the window.
pub fn route_output<M, S>(
    output: Result<LayershellCustomActions<S>, M>,
    messages: &mut Vec<M>,
    waiting_layer_shell_actions: &mut Vec<LayershellCustomActions<S>>,
)
    ensures
        output_routed(
            output,
            (old(messages)@, final(messages)@),
            (old(waiting_layer_shell_actions)@, final(waiting_layer_shell_actions)@),
        ),
        output matches Ok(action) ==> {
            &&& final(waiting_layer_shell_actions)@ == old(waiting_layer_shell_actions)@.push(action)
            &&& final(messages)@ == old(messages)@
        },
        output matches Err(message) ==> {
            &&& final(messages)@ == old(messages)@.push(message)
            &&& final(waiting_layer_shell_actions)@ == old(waiting_layer_shell_actions)@
        },
{
    match output {
        Ok(action) => waiting_layer_shell_actions.push(action),
        Err(message) => messages.push(message),
    }
}

/// Makes the decisions of `action`, and returns what is left to be done of it.
///
/// An output is asked whether it is an action for the window. `built` says whether there is an
/// interface that an operation can be applied to.
pub fn run_action<M, H, S>(
    action: Action<M, H>,
    built: bool,
    messages: &mut Vec<M>,
    waiting_layer_shell_actions: &mut Vec<LayershellCustomActions<S>>,
    should_exit: &mut bool,
) -> (effect: RunEffect<H>) where M: TryInto<LayershellCustomActions<S>, Error = M>
    ensures
        effect == run_effect(action, built),
        *final(should_exit) == (*old(should_exit) || asks_to_exit(action)),
        action matches Action::Output(message) ==> exists|output: Result<
            LayershellCustomActions<S>,
            M,
        >|
            call_ensures(<M as TryInto<LayershellCustomActions<S>>>::try_into, (message,), output)
                && #[trigger] output_routed(
                output,
                (old(messages)@, final(messages)@),
                (old(waiting_layer_shell_actions)@, final(waiting_layer_shell_actions)@),
            ),
        !(action is Output) ==> final(messages)@ == old(messages)@
            && final(waiting_layer_shell_actions)@ == old(waiting_layer_shell_actions)@,
        action matches Action::Widget(operation) ==> effect == (RunEffect::<H>::Operate {
            operation,
            on_interface: built,
        }),
        action matches Action::LoadFont { bytes, channel } ==> effect == (RunEffect::<
            H,
        >::LoadFont { bytes, channel }),
        action matches Action::Clipboard(ClipboardAction::Read { target, channel }) ==> effect == (
        RunEffect::<H>::ReadClipboard { target, channel }),
        action matches Action::Clipboard(ClipboardAction::Write { target, contents }) ==> effect
            == (RunEffect::<H>::WriteClipboard { target, contents }),
        action matches Action::Window(WindowAction::Screenshot(_, channel)) ==> effect == (
        RunEffect::<H>::Screenshot { channel }),
        action matches Action::Window(WindowAction::GetScaleFactor(_, channel)) ==> effect == (
        RunEffect::<H>::ReportScaleFactor { channel }),
        action is Output || action is System || action is Exit ==> effect == RunEffect::<
            H,
        >::Nothing,
        action matches Action::Window(WindowAction::Close(_)) ==> effect == RunEffect::<
            H,
        >::Nothing,
        action matches Action::Window(WindowAction::Unsupported) ==> effect == RunEffect::<
            H,
        >::Nothing,
        *final(should_exit) <==> *old(should_exit) || action is Exit || action matches Action::Window(
            WindowAction::Close(_),
        ),
{
    match action {
        Action::Output(message) => {
            let output = message.try_into();
            route_output(output, messages, waiting_layer_shell_actions);
            RunEffect::Nothing
        },
        Action::Clipboard(action) => match action {
            ClipboardAction::Read { target, channel } => RunEffect::ReadClipboard {
                target,
                channel,
            },
            ClipboardAction::Write { target, contents } => RunEffect::WriteClipboard {
                target,
                contents,
            },
        },
        Action::Widget(operation) => RunEffect::Operate { operation, on_interface: built },
        Action::Window(action) => match action {
            WindowAction::Close(_) => {
                *should_exit = true;
                RunEffect::Nothing
            },
            WindowAction::Screenshot(_, channel) => RunEffect::Screenshot { channel },
            WindowAction::GetScaleFactor(_, channel) => RunEffect::ReportScaleFactor { channel },
            WindowAction::Unsupported => RunEffect::Nothing,
        },
        Action::Exit => {
            *should_exit = true;
            RunEffect::Nothing
        },
        Action::LoadFont { bytes, channel } => RunEffect::LoadFont { bytes, channel },
        Action::System => RunEffect::Nothing,
    }
}

/// What follows a widget operation: the next one of its chain, or nothing.
pub open spec fn after_operation<H>(outcome: Outcome<H>, built: bool) -> RunEffect<H> {
    match outcome {
        Outcome::Chain(operation) => RunEffect::Operate { operation, on_interface: built },
        _ => RunEffect::Nothing,
    }
}

/// Continues the chain of a widget operation that ended with `outcome`.
pub fn operation_finished<H>(outcome: Outcome<H>, built: bool) -> (effect: RunEffect<H>)
    ensures
        effect == after_operation(outcome, built),
        outcome matches Outcome::Chain(operation) ==> effect == (RunEffect::<H>::Operate {
            operation,
            on_interface: built,
        }),
        !(outcome is Chain) ==> effect == RunEffect::<H>::Nothing,
{
    match outcome {
        Outcome::Nothing => RunEffect::Nothing,
        Outcome::Message => RunEffect::Nothing,
        Outcome::Chain(operation) => RunEffect::Operate { operation, on_interface: built },
    }
}

/// A change of the layer leads to one call on the window, which sets the very layer that is asked
/// for, whatever the size and the input region. So the calls for two layers differ.
pub proof fn law_layer_change_sets_that_layer<S>(
    layer: Layer,
    other: Layer,
    regions: (bool, bool),
    sizes: ((u32, u32), (u32, u32)),
)
    ensures
        ({
            let calls = window_requests(
                LayershellCustomActions::<S>::LayerChange(layer),
                regions.0,
                sizes.0,
            );
            let other_calls = window_requests(
                LayershellCustomActions::<S>::LayerChange(other),
                regions.1,
                sizes.1,
            );
            &&& calls.len() == 1
            &&& calls[0] == WindowRequest::<S>::SetLayer(layer)
            &&& calls == other_calls <==> layer == other
        }),
{
    let calls = window_requests(
        LayershellCustomActions::<S>::LayerChange(layer),
        regions.0,
        sizes.0,
    );
    let other_calls = window_requests(
        LayershellCustomActions::<S>::LayerChange(other),
        regions.1,
        sizes.1,
    );
    assert(calls[0] == WindowRequest::<S>::SetLayer(layer));
    assert(other_calls[0] == WindowRequest::<S>::SetLayer(other));
}

/// A change of anchor, size, margin or exclusive zone leads to one call on the window, which
/// carries exactly what is asked for, whatever the size and the input region.
pub proof fn law_window_changes_carry_what_is_asked<S>(
    anchor: Anchor,
    wanted: (u32, u32),
    margin: (i32, i32, i32, i32),
    zone: i32,
    has_region: bool,
    size: (u32, u32),
)
    ensures
        window_requests(LayershellCustomActions::<S>::AnchorChange(anchor), has_region, size)
            == seq![WindowRequest::<S>::SetAnchor(anchor)],
        window_requests(
            LayershellCustomActions::<S>::AnchorSizeChange(anchor, wanted),
            has_region,
            size,
        ) == seq![WindowRequest::<S>::SetAnchorWithSize(anchor, wanted)],
        window_requests(LayershellCustomActions::<S>::SizeChange(wanted), has_region, size)
            == seq![WindowRequest::<S>::SetSize(wanted)],
        window_requests(LayershellCustomActions::<S>::MarginChange(margin), has_region, size)
            == seq![WindowRequest::<S>::SetMargin(margin)],
        window_requests(LayershellCustomActions::<S>::ExclusiveZoneChange(zone), has_region, size)
            == seq![WindowRequest::<S>::SetExclusiveZone(zone)],
        window_requests(LayershellCustomActions::<S>::MultiWindow, has_region, size).len() == 0,
{
}

/// When there is an input region, an edit first takes out of it every point of the window, then
/// edits it, then sets it. A length that does not fit takes nothing out. Without an input region
/// nothing is called.
pub proof fn law_input_region_edit_starts_from_empty<S>(edit: S, size: (u32, u32))
    ensures
        window_requests(LayershellCustomActions::SetInputRegion(edit), false, size).len() == 0,
        ({
            let calls = window_requests(LayershellCustomActions::SetInputRegion(edit), true, size);
            &&& calls.len() == 3
            &&& calls[1] == WindowRequest::EditRegion(edit)
            &&& calls[2] == WindowRequest::<S>::SetInputRegion
            &&& calls[0] matches WindowRequest::SubtractRegion { x, y, width, height }
            &&& forall|px: int|
                size.0 <= i32::MAX ==> (0 <= px < size.0 <==> #[trigger] in_range(x, width, px))
            &&& forall|py: int|
                size.1 <= i32::MAX ==> (0 <= py < size.1 <==> #[trigger] in_range(y, height, py))
            &&& size.0 > i32::MAX ==> width == 0
            &&& size.1 > i32::MAX ==> height == 0
        }),
{
}

/// Whether a coordinate lies in the range of this length.
pub open spec fn in_range(start: i32, length: i32, point: int) -> bool {
    start <= point < start + length
}

/// A key of the virtual keyboard that is pressed is the key that is released, a tenth of a
/// millisecond later and with the same time, and nothing else is called.
pub proof fn law_pressed_key_is_released<S>(
    time: u32,
    key: u32,
    has_region: bool,
    size: (u32, u32),
)
    ensures
        ({
            let calls = window_requests(
                LayershellCustomActions::<S>::VirtualKeyboardPressed { time, key },
                has_region,
                size,
            );
            &&& calls.len() == 2
            &&& calls[0] == (WindowRequest::<S>::PressKey { time, key })
            &&& calls[1] == (WindowRequest::<S>::ReleaseKey { time, key, after_micros: 100 })
        }),
{
}

/// A widget operation of a task is applied to the interface exactly when one is built, and so is
/// every operation that follows it in its chain. The operation itself is what is applied.
pub proof fn law_operation_is_applied_when_built<M, H>(operation: H, built: bool)
    ensures
        run_effect(Action::<M, H>::Widget(operation), built) matches RunEffect::Operate {
            operation: applied,
            on_interface,
        } && applied == operation && on_interface == built,
        after_operation(Outcome::Chain(operation), built) matches RunEffect::Operate {
            operation: applied,
            on_interface,
        } && applied == operation && on_interface == built,
        after_operation(Outcome::<H>::Message, built) is Nothing,
        after_operation(Outcome::<H>::Nothing, built) is Nothing,
{
}

/// What a task asks for is done with what it handed over: the answer goes to its own channel, the
/// clipboard is the one it means, and text and fonts are its own. Whether an interface is built
/// does not matter.
pub proof fn law_task_gets_what_it_asks_for<M, H>(
    id: Id,
    channel: H,
    target: ClipboardKind,
    contents: String,
    bytes: Vec<u8>,
    built: bool,
)
    ensures
        run_effect(
            Action::<M, H>::Clipboard(ClipboardAction::Read { target, channel }),
            built,
        ) == (RunEffect::ReadClipboard { target, channel }),
        run_effect(
            Action::<M, H>::Clipboard(ClipboardAction::Write { target, contents }),
            built,
        ) == (RunEffect::<H>::WriteClipboard { target, contents }),
        run_effect(Action::<M, H>::Window(WindowAction::Screenshot(id, channel)), built) == (
        RunEffect::Screenshot { channel }),
        run_effect(Action::<M, H>::Window(WindowAction::GetScaleFactor(id, channel)), built) == (
        RunEffect::ReportScaleFactor { channel }),
        run_effect(Action::<M, H>::LoadFont { bytes, channel }, built) == (RunEffect::LoadFont {
            bytes,
            channel,
        }),
{
}

/// An action that is an output, closes the window, exits, or means nothing to a layer shell leaves
/// nothing to be done.
pub proof fn law_other_actions_leave_nothing_to_do<M, H>(action: Action<M, H>, built: bool)
    requires
        action is Output || action is System || action is Exit || (
        action matches Action::Window(window) && (window is Close || window is Unsupported)),
    ensures
        run_effect(action, built) is Nothing,
{
}

/// Exactly the exit and the closing of a window end the program.
pub proof fn law_exit_and_close_end_the_program<M, H>(action: Action<M, H>)
    ensures
        asks_to_exit(action) <==> (action is Exit || (action matches Action::Window(window)
            && window is Close)),
{
}

/// An output is filed once, behind what is there already: as an action if it is one, and as a
/// message otherwise.
pub proof fn law_output_is_filed_once<M, S>(
    output: Result<LayershellCustomActions<S>, M>,
    messages: (Seq<M>, Seq<M>),
    waiting: (Seq<LayershellCustomActions<S>>, Seq<LayershellCustomActions<S>>),
)
    requires
        output_routed(output, messages, waiting),
    ensures
        messages.1.len() + waiting.1.len() == messages.0.len() + waiting.0.len() + 1,
        messages.1.take(messages.0.len() as int) == messages.0,
        waiting.1.take(waiting.0.len() as int) == waiting.0,
        output matches Ok(action) ==> waiting.1.len() > waiting.0.len() && waiting.1.last()
            == action,
        output matches Err(message) ==> messages.1.len() > messages.0.len() && messages.1.last()
            == message,
{
    assert(messages.1.take(messages.0.len() as int) =~= messages.0);
    assert(waiting.1.take(waiting.0.len() as int) =~= waiting.0);
}

} // verus!
