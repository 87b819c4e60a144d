use iced_core::layout;
use iced_core::mouse::Cursor;
use iced_core::renderer::Style;
use iced_core::widget::{Tree, Widget};
use iced_core::window::Id;
use iced_core::{Color, Element, Layout, Length, Rectangle, Size};
use iced_layershell::user_interface::{UserInterface, UserInterfaces};
use iced_runtime::user_interface::Cache;

fn cache_of(_ui: &'static str) -> Cache {
    Cache::default()
}

#[test]
fn new_application_has_no_interface() {
    let mut manager: UserInterface<u32, &'static str> = UserInterface::new(7);
    assert!(!manager.is_built());
    assert_eq!(*manager.application(), 7);
    assert!(manager.ui_mut().is_none());
    let (cache, application) = manager.extract(cache_of);
    assert!(cache.is_none());
    assert_eq!(*application, 7);
}

#[test]
fn built_interface_is_made_from_application_and_cache() {
    let mut manager: UserInterface<u32, u32> = UserInterface::new(7);
    manager.build(Cache::default(), |application: &u32, _cache: Cache| application * 2);
    assert!(manager.is_built());
    let guard = manager.ui_mut().unwrap();
    let (mut seen, mut guard) = (0, guard);
    guard.operate(|ui: u32| {
        seen = ui;
        ui
    });
    drop(guard);
    assert_eq!(seen, 14);
}

#[test]
fn building_again_replaces_the_interface() {
    let mut manager: UserInterface<u32, u32> = UserInterface::new(1);
    manager.build(Cache::default(), |_: &u32, _: Cache| 10);
    manager.build(Cache::default(), |_: &u32, _: Cache| 20);
    let mut guard = manager.ui_mut().unwrap();
    assert_eq!(guard.draw(|ui: u32| (ui, ui)), 20);
    drop(guard);
}

#[test]
fn extract_ends_the_interface_before_the_application_changes() {
    let mut manager: UserInterface<u32, &'static str> = UserInterface::new(7);
    manager.build(Cache::default(), |_: &u32, _: Cache| "first");
    let mut ended = "";
    let (cache, application) = manager.extract(|ui: &'static str| {
        ended = ui;
        Cache::default()
    });
    assert!(cache.is_some());
    *application = 8;
    assert_eq!(ended, "first");
    assert!(!manager.is_built());
    assert_eq!(*manager.application(), 8);
}

#[test]
fn dropped_guard_returns_interface() {
    let mut manager: UserInterface<u32, &'static str> = UserInterface::new(7);
    manager.build(Cache::default(), |_: &u32, _: Cache| "ui");
    let guard = manager.ui_mut().unwrap();
    drop(guard);
    assert!(manager.is_built());
    let mut guard = manager.ui_mut().unwrap();
    assert_eq!(guard.draw(|ui: &'static str| (ui, ui)), "ui");
    drop(guard);
    assert_eq!(*manager.application(), 7);
}

#[test]
fn guard_keeps_what_its_operations_leave() {
    let mut manager: UserInterface<(), Vec<&'static str>> = UserInterface::new(());
    manager.build(Cache::default(), |_: &(), _: Cache| vec!["built"]);
    let mut guard = manager.ui_mut().unwrap();
    let interaction = guard.draw(|mut ui: Vec<&'static str>| {
        ui.push("drawn");
        (ui, 5)
    });
    assert_eq!(interaction, 5);
    guard.operate(|mut ui: Vec<&'static str>| {
        ui.push("operated");
        ui
    });
    let res = guard.update(|mut ui: Vec<&'static str>| {
        ui.push("updated");
        (ui, "result")
    });
    assert_eq!(res, "result");
    let mut guard = guard.relayout(|mut ui: Vec<&'static str>| {
        ui.push("laid out");
        ui
    });
    let all = guard.draw(|ui: Vec<&'static str>| (ui.clone(), ui));
    assert_eq!(all, vec!["built", "drawn", "operated", "updated", "laid out"]);
    drop(guard);
    assert!(manager.is_built());
}

#[test]
fn taken_interface_does_not_come_back() {
    let mut manager: UserInterface<(), &'static str> = UserInterface::new(());
    manager.build(Cache::default(), |_: &(), _: Cache| "ui");
    let guard = manager.ui_mut().unwrap();
    let _cache = guard.into_cache(cache_of);
    assert!(!manager.is_built());
}

#[test]
fn windows_have_interfaces_of_their_own() {
    let (first, second, third) = (Id::unique(), Id::unique(), Id::unique());
    let mut manager: UserInterfaces<u32, u32> = UserInterfaces::new(100);
    assert_eq!(*manager.application(), 100);
    manager.build(first, Cache::default(), |application: &u32, _: Id, _: Cache| application + 1);
    manager.build(second, Cache::default(), |application: &u32, _: Id, _: Cache| application + 2);
    assert!(manager.ui_mut(&third).is_none());
    let mut guard = manager.ui_mut(&second).unwrap();
    assert_eq!(guard.draw(|ui: u32| (ui, ui)), 102);
    drop(guard);
    let mut guard = manager.ui_mut(&first).unwrap();
    assert_eq!(guard.draw(|ui: u32| (ui, ui)), 101);
    drop(guard);
}

#[test]
fn building_a_window_again_replaces_only_its_interface() {
    let (first, second) = (Id::unique(), Id::unique());
    let mut manager: UserInterfaces<(), u32> = UserInterfaces::new(());
    manager.build(first, Cache::default(), |_: &(), _: Id, _: Cache| 1);
    manager.build(second, Cache::default(), |_: &(), _: Id, _: Cache| 2);
    manager.build(first, Cache::default(), |_: &(), _: Id, _: Cache| 3);
    let (caches, _) = manager.extract_all(|_: u32| Cache::default());
    assert_eq!(caches.len(), 2);
    assert!(caches.iter().any(|(id, _)| *id == first));
    assert!(caches.iter().any(|(id, _)| *id == second));
}

#[test]
fn removed_window_has_no_interface() {
    let (first, second) = (Id::unique(), Id::unique());
    let mut manager: UserInterfaces<(), u32> = UserInterfaces::new(());
    manager.build(first, Cache::default(), |_: &(), _: Id, _: Cache| 1);
    manager.build(second, Cache::default(), |_: &(), _: Id, _: Cache| 2);
    let mut ended = 0;
    assert!(manager
        .remove(&first, |ui: u32| {
            ended = ui;
            Cache::default()
        })
        .is_some());
    assert_eq!(ended, 1);
    assert!(manager.remove(&first, |_: u32| Cache::default()).is_none());
    assert!(manager.ui_mut(&first).is_none());
    let mut guard = manager.ui_mut(&second).unwrap();
    assert_eq!(guard.draw(|ui: u32| (ui, ui)), 2);
    drop(guard);
}

#[test]
fn checked_out_window_leaves_the_others_alone() {
    let (first, second) = (Id::unique(), Id::unique());
    let mut manager: UserInterfaces<(), u32> = UserInterfaces::new(());
    manager.build(first, Cache::default(), |_: &(), _: Id, _: Cache| 1);
    manager.build(second, Cache::default(), |_: &(), _: Id, _: Cache| 2);
    let mut guard = manager.ui_mut(&first).unwrap();
    guard.operate(|ui: u32| ui + 10);
    drop(guard);
    let mut guard = manager.ui_mut(&second).unwrap();
    assert_eq!(guard.draw(|ui: u32| (ui, ui)), 2);
    drop(guard);
    let mut guard = manager.ui_mut(&first).unwrap();
    assert_eq!(guard.draw(|ui: u32| (ui, ui)), 11);
    drop(guard);
}

#[test]
fn guard_out_of_scope_returns_window() {
    let id = Id::unique();
    let mut manager: UserInterfaces<u8, u32> = UserInterfaces::new(9);
    manager.build(id, Cache::default(), |_: &u8, _: Id, _: Cache| 1);
    {
        let mut guard = manager.ui_mut(&id).unwrap();
        guard.operate(|ui: u32| ui + 1);
    }
    let mut seen = 0;
    let cache = manager.remove(&id, |ui: u32| {
        seen = ui;
        Cache::default()
    });
    assert!(cache.is_some());
    assert_eq!(seen, 2);
    assert_eq!(*manager.application(), 9);
}

#[test]
fn window_whose_interface_was_taken_can_be_built_again() {
    let id = Id::unique();
    let mut manager: UserInterfaces<(), u32> = UserInterfaces::new(());
    manager.build(id, Cache::default(), |_: &(), _: Id, _: Cache| 1);
    let _cache = manager.ui_mut(&id).unwrap().into_cache(|_: u32| Cache::default());
    assert!(manager.remove(&id, |_: u32| Cache::default()).is_none());
    manager.build(id, Cache::default(), |_: &(), _: Id, _: Cache| 2);
    let _cache = manager.ui_mut(&id).unwrap().into_cache(|_: u32| Cache::default());
    let (caches, _) = manager.extract_all(|_: u32| Cache::default());
    assert!(caches.is_empty());
    manager.build(id, Cache::default(), |_: &(), _: Id, _: Cache| 3);
    assert_eq!(manager.ui_mut(&id).unwrap().draw(|ui: u32| (ui, ui)), 3);
}

#[test]
fn taken_window_does_not_come_back() {
    let (first, second) = (Id::unique(), Id::unique());
    let mut manager: UserInterfaces<(), u32> = UserInterfaces::new(());
    manager.build(first, Cache::default(), |_: &(), _: Id, _: Cache| 1);
    manager.build(second, Cache::default(), |_: &(), _: Id, _: Cache| 2);
    let guard = manager.ui_mut(&first).unwrap();
    let _cache = guard.into_cache(|_: u32| Cache::default());
    assert!(manager.ui_mut(&first).is_none());
    let guard = manager.ui_mut(&second).unwrap();
    drop(guard);
    assert!(manager.ui_mut(&second).is_some());
}

#[test]
fn extract_all_ends_every_interface() {
    let (first, second) = (Id::unique(), Id::unique());
    let mut manager: UserInterfaces<u32, u32> = UserInterfaces::new(5);
    manager.build(first, Cache::default(), |_: &u32, _: Id, _: Cache| 1);
    manager.build(second, Cache::default(), |_: &u32, _: Id, _: Cache| 2);
    let (caches, application) = manager.extract_all(|_: u32| Cache::default());
    *application = 6;
    assert_eq!(caches.len(), 2);
    assert!(manager.ui_mut(&first).is_none());
    assert!(manager.ui_mut(&second).is_none());
    assert_eq!(*manager.application(), 6);
}

struct Blank;

impl<Message, Theme, Renderer: iced_core::Renderer> Widget<Message, Theme, Renderer> for Blank {
    fn size(&self) -> Size<Length> {
        Size::new(Length::Fill, Length::Fill)
    }

    fn layout(&self, _: &mut Tree, _: &Renderer, limits: &layout::Limits) -> layout::Node {
        layout::Node::new(limits.max())
    }

    fn draw(
        &self,
        _: &Tree,
        _: &mut Renderer,
        _: &Theme,
        _: &Style,
        _: Layout<'_>,
        _: Cursor,
        _: &Rectangle,
    ) {
    }
}

#[test]
fn interface_of_the_runtime_goes_through_the_manager() {
    type Interface = iced_runtime::UserInterface<'static, (), (), ()>;

    let mut renderer = ();
    let mut manager: UserInterface<u8, Interface> = UserInterface::new(1);
    manager.build(Cache::default(), |_: &u8, cache: Cache| {
        let root: Element<'static, (), (), ()> = Element::new(Blank);
        iced_runtime::UserInterface::build(root, Size::new(10.0, 20.0), cache, &mut renderer)
    });
    let mut guard = manager.ui_mut().unwrap();
    let interaction = guard.draw(|mut ui: Interface| {
        let style = Style { text_color: Color::BLACK };
        let interaction = ui.draw(&mut renderer, &(), &style, Cursor::Unavailable);
        (ui, interaction)
    });
    assert_eq!(interaction, iced_core::mouse::Interaction::None);
    let mut guard = guard.relayout(|ui: Interface| ui.relayout(Size::new(5.0, 5.0), &mut renderer));
    let mut messages = Vec::new();
    let (_, statuses) = guard.update(|mut ui: Interface| {
        let res = ui.update(
            &[],
            Cursor::Unavailable,
            &mut renderer,
            &mut iced_core::clipboard::Null,
            &mut messages,
        );
        (ui, res)
    });
    assert!(statuses.is_empty());
    drop(guard);
    let (cache, _) = manager.extract(|ui: Interface| ui.into_cache());
    assert!(cache.is_some());
    assert!(!manager.is_built());
}
