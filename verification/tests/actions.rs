use iced_core::window::Id;
use iced_layershell::action::{
    handle_layer_shell_action, operation_finished, route_output, run_action, Action, Anchor,
    ClipboardAction, ClipboardKind, Layer, LayershellCustomActions, Outcome, RunEffect,
    WindowAction, WindowRequest,
};

#[derive(Debug, PartialEq, Eq)]
enum Message {
    Window(u32, u32),
    Other(&'static str),
}

impl TryInto<LayershellCustomActions<&'static str>> for Message {
    type Error = Message;

    fn try_into(self) -> Result<LayershellCustomActions<&'static str>, Message> {
        match self {
            Message::Window(width, height) => {
                Ok(LayershellCustomActions::SizeChange((width, height)))
            }
            other => Err(other),
        }
    }
}

type Run = (RunEffect<u8>, Vec<Message>, Vec<LayershellCustomActions<&'static str>>, bool);

fn run(action: Action<Message, u8>, built: bool) -> Run {
    let mut messages = Vec::new();
    let mut waiting = Vec::new();
    let mut should_exit = false;
    let effect = run_action(action, built, &mut messages, &mut waiting, &mut should_exit);
    (effect, messages, waiting, should_exit)
}

#[test]
fn output_for_the_window_waits_as_an_action() {
    let (effect, messages, waiting, exit) = run(Action::Output(Message::Window(3, 4)), true);
    assert_eq!(effect, RunEffect::Nothing);
    assert!(messages.is_empty());
    assert_eq!(waiting, vec![LayershellCustomActions::SizeChange((3, 4))]);
    assert!(!exit);
}

#[test]
fn other_output_is_a_message() {
    let (effect, messages, waiting, exit) = run(Action::Output(Message::Other("hello")), true);
    assert_eq!(effect, RunEffect::Nothing);
    assert_eq!(messages, vec![Message::Other("hello")]);
    assert!(waiting.is_empty());
    assert!(!exit);
}

#[test]
fn outputs_are_filed_behind_earlier_ones() {
    let mut messages = vec![1];
    let mut waiting: Vec<LayershellCustomActions<()>> = vec![LayershellCustomActions::MultiWindow];
    route_output(Err(2), &mut messages, &mut waiting);
    route_output(
        Ok(LayershellCustomActions::ExclusiveZoneChange(-1)),
        &mut messages,
        &mut waiting,
    );
    assert_eq!(messages, vec![1, 2]);
    assert_eq!(
        waiting,
        vec![
            LayershellCustomActions::MultiWindow,
            LayershellCustomActions::ExclusiveZoneChange(-1)
        ]
    );
}

#[test]
fn closing_and_exiting_ask_for_the_exit() {
    assert!(run(Action::Window(WindowAction::Close(Id::unique())), true).3);
    assert!(run(Action::Exit, true).3);
    assert!(!run(Action::Window(WindowAction::Unsupported), true).3);
    assert!(!run(Action::System, true).3);
}

#[test]
fn a_wish_to_exit_stays() {
    let mut messages: Vec<Message> = Vec::new();
    let mut waiting = Vec::new();
    let mut should_exit = true;
    let effect: RunEffect<u8> =
        run_action(Action::System, true, &mut messages, &mut waiting, &mut should_exit);
    assert_eq!(effect, RunEffect::Nothing);
    assert!(should_exit);
}

#[test]
fn clipboard_actions_are_left_to_the_runtime() {
    let read = ClipboardAction::Read { target: ClipboardKind::Primary, channel: 9 };
    assert_eq!(
        run(Action::Clipboard(read), true).0,
        RunEffect::ReadClipboard { target: ClipboardKind::Primary, channel: 9 }
    );
    let write = ClipboardAction::Write {
        target: ClipboardKind::Standard,
        contents: String::from("text"),
    };
    assert_eq!(
        run(Action::Clipboard(write), true).0,
        RunEffect::WriteClipboard {
            target: ClipboardKind::Standard,
            contents: String::from("text")
        }
    );
}

#[test]
fn window_answers_go_to_their_channels() {
    let id = Id::unique();
    assert_eq!(
        run(Action::Window(WindowAction::Screenshot(id, 1)), true).0,
        RunEffect::Screenshot { channel: 1 }
    );
    assert_eq!(
        run(Action::Window(WindowAction::GetScaleFactor(id, 2)), true).0,
        RunEffect::ReportScaleFactor { channel: 2 }
    );
    assert_eq!(
        run(Action::LoadFont { bytes: vec![1, 2, 3], channel: 3 }, true).0,
        RunEffect::LoadFont { bytes: vec![1, 2, 3], channel: 3 }
    );
}

#[test]
fn operations_chain_until_one_has_no_successor() {
    assert_eq!(
        run(Action::Widget(1), false).0,
        RunEffect::Operate { operation: 1, on_interface: false }
    );
    assert_eq!(
        operation_finished(Outcome::Chain(2), true),
        RunEffect::Operate { operation: 2, on_interface: true }
    );
    assert_eq!(operation_finished(Outcome::<u8>::Message, true), RunEffect::Nothing);
    assert_eq!(operation_finished(Outcome::<u8>::Nothing, true), RunEffect::Nothing);
}

fn requests(
    action: LayershellCustomActions<&'static str>,
    has_region: bool,
) -> Vec<WindowRequest<&'static str>> {
    handle_layer_shell_action(action, has_region, (800, 600))
}

#[test]
fn plain_changes_are_single_calls() {
    let anchor = Anchor { bits: 5 };
    assert_eq!(
        requests(LayershellCustomActions::AnchorChange(anchor), false),
        vec![WindowRequest::SetAnchor(anchor)]
    );
    assert_eq!(
        requests(LayershellCustomActions::AnchorSizeChange(anchor, (1, 2)), false),
        vec![WindowRequest::SetAnchorWithSize(anchor, (1, 2))]
    );
    assert_eq!(
        requests(LayershellCustomActions::LayerChange(Layer::Overlay), false),
        vec![WindowRequest::SetLayer(Layer::Overlay)]
    );
    assert_eq!(
        requests(LayershellCustomActions::MarginChange((1, 2, 3, 4)), false),
        vec![WindowRequest::SetMargin((1, 2, 3, 4))]
    );
    assert_eq!(
        requests(LayershellCustomActions::SizeChange((7, 8)), false),
        vec![WindowRequest::SetSize((7, 8))]
    );
    assert_eq!(
        requests(LayershellCustomActions::ExclusiveZoneChange(-1), false),
        vec![WindowRequest::SetExclusiveZone(-1)]
    );
    assert_eq!(requests(LayershellCustomActions::MultiWindow, true), vec![]);
}

#[test]
fn input_region_is_emptied_edited_and_set() {
    assert_eq!(
        requests(LayershellCustomActions::SetInputRegion("edit"), true),
        vec![
            WindowRequest::SubtractRegion { x: 0, y: 0, width: 800, height: 600 },
            WindowRequest::EditRegion("edit"),
            WindowRequest::SetInputRegion
        ]
    );
}

#[test]
fn input_region_is_ignored_without_a_region() {
    assert_eq!(requests(LayershellCustomActions::SetInputRegion("edit"), false), vec![]);
}

#[test]
fn lengths_that_do_not_fit_count_as_nothing() {
    let edges = handle_layer_shell_action(
        LayershellCustomActions::SetInputRegion("edit"),
        true,
        (i32::MAX as u32, i32::MAX as u32 + 1),
    );
    assert_eq!(
        edges[0],
        WindowRequest::SubtractRegion { x: 0, y: 0, width: i32::MAX, height: 0 }
    );
}

#[test]
fn virtual_key_is_released_after_a_while() {
    assert_eq!(
        requests(LayershellCustomActions::VirtualKeyboardPressed { time: 10, key: 20 }, false),
        vec![
            WindowRequest::PressKey { time: 10, key: 20 },
            WindowRequest::ReleaseKey { time: 10, key: 20, after_micros: 100 }
        ]
    );
}
