use iced_layershell::action::Action;
use iced_layershell::event::{LayerEvent, LayerWindowEvent, ReturnData, WaitingLayerShellEvent};
use iced_layershell::event_loop::{ContextState, EventLoop, LoopStep, Polled};

type Event = LayerEvent<&'static str, u8, u32, ()>;
type Waiting = WaitingLayerShellEvent<&'static str, u8, u32, ()>;
type Loop = EventLoop<&'static str, &'static str, Waiting>;

fn input(code: u8) -> Event {
    LayerEvent::RequestMessages(LayerWindowEvent::Input(code))
}

fn waiting_input(code: u8) -> Waiting {
    WaitingLayerShellEvent::Window(LayerWindowEvent::Input(code))
}

#[test]
fn only_the_start_is_answered_with_a_bind() {
    let mut events: Loop = EventLoop::new("context");
    assert_eq!(events.receive(LayerEvent::InitRequest, true), (ReturnData::RequestBind, false));
    assert_eq!(events.next(), LoopStep::Idle);
    assert_eq!(events.receive(LayerEvent::Other, true), (ReturnData::NoRequest, false));
    assert_eq!(events.next(), LoopStep::Idle);
}

#[test]
fn binding_brings_the_region_and_maybe_a_keyboard() {
    let mut events: Loop = EventLoop::new("context");
    let received = events.receive(LayerEvent::BindProvide("region"), true);
    assert_eq!(received, (ReturnData::NoRequest, true));
    let received = events.receive(LayerEvent::BindProvide("other"), false);
    assert_eq!(received, (ReturnData::NoRequest, false));
    assert_eq!(
        events.next(),
        LoopStep::Handle("context", WaitingLayerShellEvent::UpdateInputRegion("region"))
    );
}

#[test]
fn every_kind_of_event_waits() {
    let mut events: Loop = EventLoop::new("context");
    events.receive(LayerEvent::UserEvent(Action::Output(5)), false);
    events.receive(LayerEvent::NormalDispatch, false);
    events.receive(LayerEvent::RequestMessages(LayerWindowEvent::Refresh), false);
    assert_eq!(
        events.next(),
        LoopStep::Handle("context", WaitingLayerShellEvent::UserAction(Action::Output(5)))
    );
    events.handled(ContextState::Context("context"), None);
    assert_eq!(
        events.next(),
        LoopStep::Handle("context", WaitingLayerShellEvent::NormalDispatch)
    );
    events.handled(ContextState::Context("context"), None);
    assert_eq!(
        events.next(),
        LoopStep::Handle("context", WaitingLayerShellEvent::Window(LayerWindowEvent::Refresh))
    );
}

#[test]
fn events_are_handled_in_their_order() {
    let mut events: Loop = EventLoop::new("context");
    for code in 0..3 {
        events.receive(input(code), false);
    }
    for code in 0..3 {
        assert_eq!(events.next(), LoopStep::Handle("context", waiting_input(code)));
        events.handled(ContextState::Context("context"), None);
    }
    assert_eq!(events.next(), LoopStep::Idle);
}

#[test]
fn returned_event_is_the_next_one() {
    let mut events: Loop = EventLoop::new("context");
    events.receive(input(1), false);
    events.receive(input(2), false);
    assert!(!events.is_taken());
    assert_eq!(events.next(), LoopStep::Handle("context", waiting_input(1)));
    assert!(events.is_taken());
    events.handled(ContextState::Future("future"), Some(waiting_input(1)));
    assert_eq!(events.next(), LoopStep::Poll("future"));
    assert!(!events.polled(Polled::Pending("future")));
    events.receive(input(3), false);
    assert_eq!(events.next(), LoopStep::Poll("future"));
    assert!(events.polled(Polled::Ready("back")));
    for code in 1..4 {
        assert_eq!(events.next(), LoopStep::Handle("back", waiting_input(code)));
        events.handled(ContextState::Context("back"), None);
    }
    assert_eq!(events.next(), LoopStep::Idle);
}
