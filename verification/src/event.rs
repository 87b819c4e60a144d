//! What the layer shell reports, and what of it waits to be handled.
use crate::action::Action;
use vstd::prelude::*;

verus! {

/// An event of the window. `W` is any event that is neither a refresh nor the end.
#[derive(Debug, PartialEq, Eq)]
pub enum LayerWindowEvent<W> {
    Refresh,
    Closed,
    Input(W),
}

/// An event that waits to be handled.
#[derive(Debug, PartialEq, Eq)]
pub enum WaitingLayerShellEvent<R, W, M, H> {
    UpdateInputRegion(R),
    Window(LayerWindowEvent<W>),
    UserAction(Action<M, H>),
    NormalDispatch,
}

/// An event as the layer shell reports it.
#[derive(Debug, PartialEq, Eq)]
pub enum LayerEvent<R, W, M, H> {
    /// The program has started.
    InitRequest,
    /// The globals can be bound. `R` is the region that was created for the input.
    BindProvide(R),
    RequestMessages(LayerWindowEvent<W>),
    UserEvent(Action<M, H>),
    NormalDispatch,
    /// Anything else.
    Other,
}

/// What is asked of the layer shell.
#[derive(Debug, Clone, Copy, PartialEq, Eq)]
pub enum ReturnData {
    NoRequest,
    RequestBind,
    RequestExit,
}

/// Where a program is shown when it starts. `O` is an output of the compositor.
#[derive(Debug, PartialEq, Eq)]
pub enum StartMode<O> {
    /// On the output that is active.
    Active,
    /// Nowhere.
    Background,
    /// On every output.
    AllScreens,
    /// On the output of this name.
    TargetScreen(String),
    /// On this output.
    TargetOutput(O),
}

/// What the layer shell is answered at once.
pub open spec fn answer<R, W, M, H>(event: LayerEvent<R, W, M, H>) -> ReturnData {
    if event is InitRequest {
        ReturnData::RequestBind
    } else {
        ReturnData::NoRequest
    }
}

/// What of an event waits to be handled.
pub open spec fn waiting_part<R, W, M, H>(event: LayerEvent<R, W, M, H>) -> Seq<
    WaitingLayerShellEvent<R, W, M, H>,
> {
    match event {
        LayerEvent::BindProvide(region) => seq![WaitingLayerShellEvent::UpdateInputRegion(region)],
        LayerEvent::RequestMessages(event) => seq![WaitingLayerShellEvent::Window(event)],
        LayerEvent::UserEvent(action) => seq![WaitingLayerShellEvent::UserAction(action)],
        LayerEvent::NormalDispatch => seq![WaitingLayerShellEvent::NormalDispatch],
        _ => seq![],
    }
}

/// Only the start is answered with a request, and that is to bind. What waits to be handled is
/// exactly what the event brings: the region, the event of the window, the action, or that it is
/// time for a dispatch.
pub proof fn law_events_are_answered_and_filed<R, W, M, H>(event: LayerEvent<R, W, M, H>)
    ensures
        answer(event) == ReturnData::RequestBind <==> event is InitRequest,
        answer(event) == ReturnData::NoRequest <==> !(event is InitRequest),
        waiting_part(event).len() <= 1,
        waiting_part(event).len() == 0 <==> event is InitRequest || event is Other,
        event matches LayerEvent::BindProvide(region) ==> waiting_part(event)[0]
            == WaitingLayerShellEvent::<R, W, M, H>::UpdateInputRegion(region),
        event matches LayerEvent::RequestMessages(window) ==> waiting_part(event)[0]
            == WaitingLayerShellEvent::<R, W, M, H>::Window(window),
        event matches LayerEvent::UserEvent(action) ==> waiting_part(event)[0]
            == WaitingLayerShellEvent::<R, W, M, H>::UserAction(action),
        event is NormalDispatch ==> waiting_part(event)[0] == WaitingLayerShellEvent::<
            R,
            W,
            M,
            H,
        >::NormalDispatch,
{
}

} // verus!
