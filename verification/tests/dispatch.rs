use iced_layershell::dispatch::{Dispatch, DispatchEffect, DispatchReply, InterfaceState};
use iced_layershell::refresh::Status;
use iced_layershell::update::{update, UpdateEffect};
use iced_runtime::user_interface::Cache;

type Effect = DispatchEffect<&'static str, u32, char>;
type Reply = DispatchReply<u32, char>;

const CURRENT: InterfaceState = InterfaceState::Updated { redraw_requested: false };

fn updated(state: InterfaceState, statuses: Vec<Status>, produced: Vec<u32>) -> Reply {
    DispatchReply::Updated { state, statuses, produced }
}

fn shown(effects: &[Effect]) -> Vec<String> {
    effects.iter().map(|effect| format!("{effect:?}")).collect()
}

#[test]
fn nothing_pending_is_nothing_to_do() {
    let (dispatch, effects): (Dispatch<u32>, Vec<Effect>) = Dispatch::begin(false, true);
    assert!(matches!(dispatch, Dispatch::Finished));
    assert!(effects.is_empty());
}

#[test]
fn without_interface_only_a_refresh_is_requested() {
    let (dispatch, effects): (Dispatch<u32>, Vec<Effect>) = Dispatch::begin(true, false);
    assert!(matches!(dispatch, Dispatch::Finished));
    assert_eq!(shown(&effects), vec!["RequestRefresh"]);
}

#[test]
fn pending_events_go_to_the_interface() {
    let (dispatch, effects): (Dispatch<u32>, Vec<Effect>) = Dispatch::begin(true, true);
    assert!(matches!(dispatch, Dispatch::Updating));
    assert_eq!(shown(&effects), vec!["UpdateInterface"]);
}

#[test]
fn current_interface_without_messages_stays() {
    let mut events = vec!["a", "b"];
    let mut messages = Vec::new();
    let reply = updated(CURRENT, vec![Status::Captured, Status::Ignored], vec![]);
    let (next, effects): (_, Vec<Effect>) =
        Dispatch::Updating.step(reply, &mut events, &mut messages, &mut String::new());
    assert!(matches!(next, Dispatch::Finished));
    assert_eq!(
        shown(&effects),
        vec![
            "Broadcast { event: \"a\", status: Captured }",
            "Broadcast { event: \"b\", status: Ignored }",
            "RequestRefresh"
        ]
    );
    assert!(events.is_empty());
}

#[test]
fn events_without_status_are_dropped() {
    let mut events = vec!["a", "b", "c"];
    let mut messages = Vec::new();
    let reply = updated(CURRENT, vec![Status::Captured], vec![]);
    let (_, effects): (_, Vec<Effect>) = Dispatch::Updating.step(reply, &mut events, &mut messages, &mut String::new());
    assert_eq!(effects.len(), 2);
    assert!(events.is_empty());
    let reply = updated(CURRENT, vec![Status::Captured, Status::Captured], vec![]);
    let mut events = vec!["a"];
    let (_, effects): (_, Vec<Effect>) = Dispatch::Updating.step(reply, &mut events, &mut messages, &mut String::new());
    assert_eq!(effects.len(), 2);
}

#[test]
fn outdated_interface_is_built_again() {
    let mut events: Vec<&'static str> = Vec::new();
    let mut messages = Vec::new();
    let reply = updated(InterfaceState::Outdated, vec![], vec![]);
    let (next, effects): (_, Vec<Effect>) =
        Dispatch::Updating.step(reply, &mut events, &mut messages, &mut String::new());
    assert_eq!(shown(&effects), vec!["Extract"]);
    let reply: Reply = DispatchReply::Extracted { cache: None };
    let (next, effects): (_, Vec<Effect>) = next.step(reply, &mut events, &mut messages, &mut String::new());
    assert!(matches!(next, Dispatch::Finished));
    assert_eq!(shown(&effects), vec!["BuildInterface { cache: None }", "RequestRefresh"]);
}

#[test]
fn messages_are_fed_between_extracting_and_building() {
    let mut events = vec!["a"];
    let mut messages = vec![1];
    let reply = updated(CURRENT, vec![Status::Captured], vec![2]);
    let (next, effects): (_, Vec<Effect>) =
        Dispatch::Updating.step(reply, &mut events, &mut messages, &mut String::new());
    assert_eq!(
        shown(&effects),
        vec!["Broadcast { event: \"a\", status: Captured }", "Extract"]
    );
    assert_eq!(messages, vec![1, 2]);
    let reply: Reply = DispatchReply::Extracted { cache: Some(Cache::default()) };
    let (next, effects): (_, Vec<Effect>) = next.step(reply, &mut events, &mut messages, &mut String::new());
    assert_eq!(shown(&effects), vec!["Update(Feed(1))"]);
    assert!(messages.is_empty());
    let reply: Reply = DispatchReply::Fed { stream: Some('x') };
    let (next, effects): (_, Vec<Effect>) = next.step(reply, &mut events, &mut messages, &mut String::new());
    assert_eq!(shown(&effects), vec!["Update(RunStream('x'))", "Update(Feed(2))"]);
    let reply: Reply = DispatchReply::Fed { stream: None };
    let (next, effects): (_, Vec<Effect>) =
        next.step(reply, &mut events, &mut messages, &mut String::new());
    assert!(matches!(next, Dispatch::Titling { .. }));
    assert_eq!(
        shown(&effects),
        vec!["Update(Synchronize)", "Update(TrackSubscription)", "Update(ReadTitle)"]
    );
}

fn titled(old: &str, new: &str) -> (Vec<String>, String) {
    let mut events: Vec<&'static str> = Vec::new();
    let mut messages = Vec::new();
    let mut title = String::from(old);
    let titling = Dispatch::Titling { cache: Some(Cache::default()) };
    let reply: Reply = DispatchReply::Title { title: String::from(new) };
    let (next, effects): (_, Vec<Effect>) =
        titling.step(reply, &mut events, &mut messages, &mut title);
    assert!(matches!(next, Dispatch::Leaving { cache: Some(_) }));
    (shown(&effects), title)
}

#[test]
fn changed_title_is_set() {
    assert_eq!(
        titled("clock", "12:00"),
        (
            vec![String::from("Update(SetTitle(\"12:00\"))"), String::from("ReadShouldExit")],
            String::from("12:00")
        )
    );
    assert_eq!(
        titled("clock", "clock"),
        (vec![String::from("ReadShouldExit")], String::from("clock"))
    );
}

fn left(exit: bool) -> Vec<Effect> {
    let mut events: Vec<&'static str> = Vec::new();
    let mut messages = Vec::new();
    let leaving = Dispatch::Leaving { cache: None };
    let reply: Reply = DispatchReply::ShouldExit { exit };
    let (next, effects) = leaving.step(reply, &mut events, &mut messages, &mut String::new());
    assert!(matches!(next, Dispatch::Finished));
    effects
}

#[test]
fn application_that_should_be_terminated_is() {
    assert_eq!(
        shown(&left(true)),
        vec!["BuildInterface { cache: None }", "RequestRefresh", "RequestExit"]
    );
    assert_eq!(
        shown(&left(false)),
        vec!["BuildInterface { cache: None }", "RequestRefresh"]
    );
}

#[test]
fn update_feeds_messages_in_their_order() {
    let mut messages = vec!["one", "two", "three"];
    let mut fed = Vec::new();
    let (mut rest, effects, mut going_on) = update::<_, ()>(&mut messages);
    assert!(messages.is_empty());
    let mut all = effects;
    while going_on {
        let (effects, more) = rest.fed(None);
        all.extend(effects);
        going_on = more;
    }
    for effect in all {
        match effect {
            UpdateEffect::Feed(message) => fed.push(message),
            other => fed.push(match other {
                UpdateEffect::Synchronize => "synchronize",
                UpdateEffect::TrackSubscription => "track",
                UpdateEffect::ReadTitle => "title",
                _ => "stream",
            }),
        }
    }
    assert_eq!(fed, vec!["one", "two", "three", "synchronize", "track", "title"]);
}

#[test]
fn update_without_messages_only_synchronizes_and_tracks() {
    let mut messages: Vec<u8> = Vec::new();
    let (_, effects, going_on) = update::<_, ()>(&mut messages);
    assert!(!going_on);
    assert_eq!(
        effects,
        vec![
            UpdateEffect::Synchronize,
            UpdateEffect::TrackSubscription,
            UpdateEffect::ReadTitle
        ]
    );
}
