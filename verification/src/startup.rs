//! What an application is, and how its program starts.
use crate::action::{Anchor, Layer};
use crate::event::StartMode;
use iced_futures::Subscription;
use iced_runtime::Task;
use vstd::prelude::*;

verus! {

/// A theme that knows a style to begin with.
pub trait DefaultStyle {
    /// The look of a window.
    type Appearance;

    /// The style to begin with.
    fn default_style(&self) -> Self::Appearance;
}

/// An application that is shown in a single window of the layer shell.
pub trait Application: Sized {
    /// The data that the application needs to begin.
    type Flags;

    /// A message of the application.
    type Message;

    /// The theme of the application.
    type Theme: DefaultStyle;

    /// The application as it begins, and the work for the background that it begins with.
    fn new(flags: Self::Flags) -> (Self, Task<Self::Message>);

    /// The name by which the compositor knows the window.
    fn namespace(&self) -> String;

    /// The title of the window, which may change: it is read again after every update. Unless an
    /// application says otherwise, it is the namespace.
    fn title(&self) -> (title: String)
        default_ensures
            call_ensures(Self::namespace, (self,), title),
    {
        self.namespace()
    }

    /// The theme as it is now.
    fn theme(&self) -> Self::Theme;

    /// The style of the theme. Unless an application says otherwise, it is the one that the theme
    /// begins with.
    fn style(&self, theme: &Self::Theme) -> (style: <Self::Theme as DefaultStyle>::Appearance)
        default_ensures
            call_ensures(<Self::Theme as DefaultStyle>::default_style, (theme,), style),
    {
        theme.default_style()
    }

    /// What the application listens to in its current state. Unless an application says
    /// otherwise, it listens to nothing.
    fn subscription(&self) -> (subscription: Subscription<Self::Message>)
        default_ensures
            call_ensures(Subscription::<Self::Message>::none, (), subscription),
    {
        Subscription::none()
    }

    /// Whether to scroll naturally. Unless an application says otherwise, it does not.
    fn natural_scroll(&self) -> (natural: bool)
        default_ensures
            !natural,
    {
        false
    }

    /// Whether the application should be terminated, which is asked after every update. Unless an
    /// application says otherwise, it should not.
    fn should_exit(&self) -> (exit: bool)
        default_ensures
            !exit,
    {
        false
    }
}

/// Why a program could not start. `F` says why there is no executor.
#[derive(Debug, PartialEq, Eq)]
pub enum Error<F> {
    ExecutorCreationFailed(F),
}

/// How the window takes part in the keyboard focus.
#[derive(Debug, Clone, Copy, PartialEq, Eq)]
pub enum KeyboardInteractivity {
    NoInteractivity,
    Exclusive,
    OnDemand,
}

/// How the window is shown. `O` is an output of the compositor.
#[derive(Debug, PartialEq, Eq)]
pub struct LayerShellSettings<O> {
    pub anchor: Anchor,
    pub layer: Layer,
    pub exclusive_zone: i32,
    pub size: Option<(u32, u32)>,
    /// The margins at the top, right, bottom and left.
    pub margin: (i32, i32, i32, i32),
    pub keyboard_interactivity: KeyboardInteractivity,
    pub start_mode: StartMode<O>,
    pub events_transparent: bool,
}

/// A single thing to be done when a program starts. `T` is work for the background, and `O` an
/// output of the compositor.
#[derive(Debug, PartialEq, Eq)]
pub enum StartupEffect<T, O> {
    /// Create the layer shell window.
    CreateWindow {
        namespace: String,
        title: String,
        use_display_handle: bool,
        size: Option<(u32, u32)>,
        layer: Layer,
        events_transparent: bool,
        anchor: Anchor,
        exclusive_zone: i32,
        margin: (i32, i32, i32, i32),
        keyboard_interactivity: KeyboardInteractivity,
        start_mode: StartMode<O>,
    },
    /// Run the work in the background.
    RunStream(T),
    /// Track the subscription of the application.
    TrackSubscription,
    /// Create the state of the window and its context.
    CreateContext,
    /// Enter the loop that the events go through.
    EnterLoop,
}

/// Whether a program with a single window can start in this mode.
pub open spec fn has_single_window<O>(mode: StartMode<O>) -> bool {
    !(mode is AllScreens || mode is Background)
}

/// Tells whether a program with a single window can start in `mode`.
pub fn starts_single_window<O>(mode: &StartMode<O>) -> (single: bool)
    ensures
        single == has_single_window(*mode),
        single <==> !(*mode is AllScreens) && !(*mode is Background),
{
    !matches!(mode, StartMode::AllScreens | StartMode::Background)
}

/// The executor, or why the program cannot start without it.
pub fn executor_created<X, F>(executor: Result<X, F>) -> (created: Result<X, Error<F>>)
    ensures
        created == (match executor {
            Ok(executor) => Ok::<X, Error<F>>(executor),
            Err(cause) => Err::<X, Error<F>>(Error::ExecutorCreationFailed(cause)),
        }),
{
    match executor {
        Ok(executor) => Ok(executor),
        Err(cause) => Err(Error::ExecutorCreationFailed(cause)),
    }
}

/// All that is to be done to start, in its order. The one window is created with the settings as
/// they are, and the work that the application begins with is run once the window is there.
pub open spec fn startup_effects<T, O>(
    namespace: String,
    title: String,
    settings: LayerShellSettings<O>,
    stream: Option<T>,
) -> Seq<StartupEffect<T, O>> {
    seq![
        StartupEffect::CreateWindow {
            namespace,
            title,
            use_display_handle: true,
            size: settings.size,
            layer: settings.layer,
            events_transparent: settings.events_transparent,
            anchor: settings.anchor,
            exclusive_zone: settings.exclusive_zone,
            margin: settings.margin,
            keyboard_interactivity: settings.keyboard_interactivity,
            start_mode: settings.start_mode,
        },
    ] + (match stream {
        Some(stream) => seq![StartupEffect::RunStream(stream)],
        None => Seq::empty(),
    }) + seq![
        StartupEffect::TrackSubscription,
        StartupEffect::CreateContext,
        StartupEffect::EnterLoop,
    ]
}

/// What is to be done to start with `settings`, and with the work that the application begins
/// with.
pub fn run<T, O>(
    namespace: String,
    title: String,
    settings: LayerShellSettings<O>,
    stream: Option<T>,
) -> (effects: Vec<StartupEffect<T, O>>)
    requires
        has_single_window(settings.start_mode),
    ensures
        effects@ == startup_effects(namespace, title, settings, stream),
        effects@.len() == (if stream is Some {
            5int
        } else {
            4
        }),
        effects@[0] == (StartupEffect::<T, O>::CreateWindow {
            namespace,
            title,
            use_display_handle: true,
            size: settings.size,
            layer: settings.layer,
            events_transparent: settings.events_transparent,
            anchor: settings.anchor,
            exclusive_zone: settings.exclusive_zone,
            margin: settings.margin,
            keyboard_interactivity: settings.keyboard_interactivity,
            start_mode: settings.start_mode,
        }),
        stream matches Some(work) ==> effects@[1] == StartupEffect::<T, O>::RunStream(work),
        effects@[effects@.len() - 3] == StartupEffect::<T, O>::TrackSubscription,
        effects@[effects@.len() - 2] == StartupEffect::<T, O>::CreateContext,
        effects@[effects@.len() - 1] == StartupEffect::<T, O>::EnterLoop,
{
    let mut effects: Vec<StartupEffect<T, O>> = Vec::new();
    effects.push(
        StartupEffect::CreateWindow {
            namespace,
            title,
            use_display_handle: true,
            size: settings.size,
            layer: settings.layer,
            events_transparent: settings.events_transparent,
            anchor: settings.anchor,
            exclusive_zone: settings.exclusive_zone,
            margin: settings.margin,
            keyboard_interactivity: settings.keyboard_interactivity,
            start_mode: settings.start_mode,
        },
    );
    match stream {
        Some(stream) => {
            effects.push(StartupEffect::RunStream(stream));
        },
        None => {},
    }
    effects.push(StartupEffect::TrackSubscription);
    effects.push(StartupEffect::CreateContext);
    effects.push(StartupEffect::EnterLoop);
    assert(effects@ =~= startup_effects(namespace, title, settings, stream));
    effects
}

/// A program starts with one window, which is created first and is exactly as it is set: each
/// setting reaches the window unchanged. Work to begin with is run once, after the window is there
/// and before anything else; the loop is entered last.
pub proof fn law_window_is_created_as_set<T, O>(
    namespace: String,
    title: String,
    settings: LayerShellSettings<O>,
    stream: Option<T>,
)
    ensures
        ({
            let effects = startup_effects(namespace, title, settings, stream);
            &&& forall|i: int|
                0 <= i < effects.len() ==> ((#[trigger] effects[i]) is CreateWindow <==> i == 0)
            &&& forall|i: int|
                0 <= i < effects.len() ==> ((#[trigger] effects[i]) is RunStream <==> (i == 1
                    && stream is Some))
            &&& stream matches Some(work) ==> effects[1] == StartupEffect::<T, O>::RunStream(work)
            &&& effects[0]->namespace == namespace
            &&& effects[0]->title == title
            &&& effects[0]->use_display_handle
            &&& effects[0]->size == settings.size
            &&& effects[0]->layer == settings.layer
            &&& effects[0]->events_transparent == settings.events_transparent
            &&& effects[0]->anchor == settings.anchor
            &&& effects[0]->exclusive_zone == settings.exclusive_zone
            &&& effects[0]->margin == settings.margin
            &&& effects[0]->keyboard_interactivity == settings.keyboard_interactivity
            &&& effects[0]->start_mode == settings.start_mode
            &&& effects.len() == (if stream is Some {
                5int
            } else {
                4
            })
            &&& effects[effects.len() - 3] is TrackSubscription
            &&& effects[effects.len() - 2] is CreateContext
            &&& effects[effects.len() - 1] is EnterLoop
        }),
{
}

/// A program with a single window can start on the active output, on the output of a name and on
/// a given output, and neither on all outputs nor on none.
pub proof fn law_single_window_needs_one_output<O>(name: String, output: O)
    ensures
        has_single_window(StartMode::<O>::Active),
        has_single_window(StartMode::<O>::TargetScreen(name)),
        has_single_window(StartMode::TargetOutput(output)),
        !has_single_window(StartMode::<O>::AllScreens),
        !has_single_window(StartMode::<O>::Background),
{
}

} // verus!
