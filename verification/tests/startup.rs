use iced_futures::Subscription;
use iced_layershell::action::{Anchor, Layer};
use iced_layershell::event::StartMode;
use iced_layershell::startup::{
    executor_created, run, starts_single_window, Application, DefaultStyle, Error,
    KeyboardInteractivity, LayerShellSettings, StartupEffect,
};
use iced_runtime::Task;

struct Light;

impl DefaultStyle for Light {
    type Appearance = &'static str;

    fn default_style(&self) -> &'static str {
        "light"
    }
}

struct Clock;

impl Application for Clock {
    type Flags = ();
    type Message = u8;
    type Theme = Light;

    fn new(_flags: ()) -> (Self, Task<u8>) {
        (Clock, Task::none())
    }

    fn namespace(&self) -> String {
        String::from("clock")
    }

    fn theme(&self) -> Light {
        Light
    }
}

struct Dock;

impl Application for Dock {
    type Flags = u8;
    type Message = u8;
    type Theme = Light;

    fn new(flags: u8) -> (Self, Task<u8>) {
        (Dock, Task::done(flags))
    }

    fn namespace(&self) -> String {
        String::from("dock")
    }

    fn title(&self) -> String {
        String::from("My dock")
    }

    fn theme(&self) -> Light {
        Light
    }

    fn style(&self, _theme: &Light) -> &'static str {
        "dark"
    }

    fn subscription(&self) -> Subscription<u8> {
        iced_futures::event::listen_with(|_, _, _| Some(1))
    }

    fn natural_scroll(&self) -> bool {
        true
    }

    fn should_exit(&self) -> bool {
        true
    }
}

#[test]
fn application_has_defaults() {
    let (clock, work) = Clock::new(());
    assert!(iced_runtime::task::into_stream(work).is_none());
    let recipes = iced_futures::subscription::into_recipes(clock.subscription());
    assert!(recipes.is_empty());
    assert_eq!(clock.title(), "clock");
    assert_eq!(clock.style(&clock.theme()), "light");
    assert!(!clock.natural_scroll());
    assert!(!clock.should_exit());
}

#[test]
fn application_can_say_otherwise() {
    let (dock, work) = Dock::new(3);
    assert!(iced_runtime::task::into_stream(work).is_some());
    let recipes = iced_futures::subscription::into_recipes(dock.subscription());
    assert_eq!(recipes.len(), 1);
    assert_eq!(dock.title(), "My dock");
    assert_eq!(dock.style(&dock.theme()), "dark");
    assert!(dock.natural_scroll());
    assert!(dock.should_exit());
}

#[test]
fn single_window_cannot_start_everywhere_or_nowhere() {
    assert!(starts_single_window(&StartMode::<u8>::Active));
    assert!(starts_single_window(&StartMode::TargetOutput(1)));
    assert!(starts_single_window(&StartMode::<u8>::TargetScreen(String::from("DP-1"))));
    assert!(!starts_single_window(&StartMode::<u8>::AllScreens));
    assert!(!starts_single_window(&StartMode::<u8>::Background));
}

#[test]
fn missing_executor_is_an_error() {
    assert_eq!(executor_created::<u8, &str>(Ok(4)), Ok(4));
    assert_eq!(
        executor_created::<u8, &str>(Err("no threads")),
        Err(Error::ExecutorCreationFailed("no threads"))
    );
}

fn settings(start_mode: StartMode<u8>) -> LayerShellSettings<u8> {
    LayerShellSettings {
        anchor: Anchor { bits: 13 },
        layer: Layer::Bottom,
        exclusive_zone: 30,
        size: Some((800, 40)),
        margin: (1, 2, 3, 4),
        keyboard_interactivity: KeyboardInteractivity::OnDemand,
        start_mode,
        events_transparent: true,
    }
}

#[test]
fn startup_runs_the_first_work_once_the_window_is_there() {
    let mode = || StartMode::<u8>::TargetScreen(String::from("DP-1"));
    assert_eq!(
        run(String::from("clock"), String::from("A clock"), settings(mode()), Some('w')),
        vec![
            StartupEffect::CreateWindow {
                namespace: String::from("clock"),
                title: String::from("A clock"),
                use_display_handle: true,
                size: Some((800, 40)),
                layer: Layer::Bottom,
                events_transparent: true,
                anchor: Anchor { bits: 13 },
                exclusive_zone: 30,
                margin: (1, 2, 3, 4),
                keyboard_interactivity: KeyboardInteractivity::OnDemand,
                start_mode: mode(),
            },
            StartupEffect::RunStream('w'),
            StartupEffect::TrackSubscription,
            StartupEffect::CreateContext,
            StartupEffect::EnterLoop
        ]
    );
}

#[test]
fn startup_without_work_runs_none() {
    let effects = run::<char, u8>(
        String::from("clock"),
        String::from("clock"),
        settings(StartMode::TargetOutput(1)),
        None,
    );
    assert_eq!(effects.len(), 4);
    assert_eq!(effects[1], StartupEffect::TrackSubscription);
}
