//! Plugin state machine: action instances, key titles, battery polling.
//!
//! The plugin reacts to Stream Deck events, poll ticks and finished battery
//! reads. Each reaction updates the plugin state and returns the commands
//! that the caller carries out in order: key images and titles to set, an
//! alert to show, a battery read to start.

use std::time::Duration;
use tokio::time::Instant;
use vstd::prelude::*;
use vstd::string::*;

use crate::battery::{title_text, BatteryLevels};
use crate::visual::{
    error_image_data_uri, error_svg, key_image_data_uri, levels_svg, loading_image_data_uri,
    loading_svg, svg_data_uri,
};

verus! {

/// UUID of the one action this plugin serves.
pub const ACTION_UUID: &'static str = "com.red.eminence.dygma.battery.levels";

/// Poll interval when no action asks for another.
pub const DEFAULT_POLL_SECS: u64 = 60;

/// Shortest poll interval an action may ask for.
pub const MIN_POLL_SECS: u64 = 15;

/// Longest poll interval an action may ask for.
pub const MAX_POLL_SECS: u64 = 600;

/// Seconds the Neuron needs to query both sides after a forced read.
pub const FORCE_WAIT_SECS: u64 = 2;

/// Title shown while a reading is pending.
pub const LOADING_TITLE: &'static str = "\u{2026}";

/// Title shown when the keyboard cannot be read.
pub const ERROR_TITLE: &'static str = "ERR\nCOM";

#[verifier::external_type_specification]
#[verifier::external_body]
pub struct ExInstant(tokio::time::Instant);

// ---------------------------------------------------------------------------
// Trusted calls: durations and the clock
// ---------------------------------------------------------------------------

/// Names what `std::time::Duration::from_secs` returns for a whole number
/// of seconds.
pub uninterp spec fn secs_duration(secs: u64) -> Duration;

/// Calls `std::time::Duration::from_secs`; claims only that the result is
/// the named duration of exactly `secs` seconds.
#[verifier::external_body]
fn duration_from_secs(secs: u64) -> (d: Duration)
    ensures
        d == secs_duration(secs),
{
    Duration::from_secs(secs)
}

/// Calls `tokio::time::Instant::now`. The result depends on the clock, so
/// nothing is claimed of it.
#[verifier::external_body]
fn instant_now() -> Instant {
    Instant::now()
}

/// Calls `tokio::time::Instant::elapsed` and converts the duration to whole
/// nanoseconds with `Duration::as_nanos` (exact). The result depends on the
/// clock, so nothing is claimed of it.
#[verifier::external_body]
fn elapsed_nanos(since: &Instant) -> u128 {
    since.elapsed().as_nanos()
}

// ---------------------------------------------------------------------------
// Per-action settings
// ---------------------------------------------------------------------------

/// Per-action settings (property inspector).
#[derive(Debug, Clone)]
pub struct ActionSettings {
    /// Poll interval in seconds as stored (read clamped to 15..=600).
    pub poll_interval_secs: u64,
    /// Whether the key art prints the charge number under each bar.
    pub show_percentage: bool,
}

/// A requested poll interval clamped to `MIN_POLL_SECS..=MAX_POLL_SECS`.
pub open spec fn clamp_poll_secs(secs: u64) -> u64 {
    if secs < MIN_POLL_SECS {
        MIN_POLL_SECS
    } else if secs > MAX_POLL_SECS {
        MAX_POLL_SECS
    } else {
        secs
    }
}

fn default_poll_interval_secs() -> (secs: u64)
    ensures
        secs == DEFAULT_POLL_SECS,
{
    DEFAULT_POLL_SECS
}

impl Default for ActionSettings {
    fn default() -> (settings: Self)
        ensures
            settings.poll_interval_secs == DEFAULT_POLL_SECS,
            !settings.show_percentage,
    {
        ActionSettings { poll_interval_secs: default_poll_interval_secs(), show_percentage: false }
    }
}

impl ActionSettings {
    /// The poll interval this action asks for, clamped to 15..=600 s.
    pub fn poll_interval(&self) -> (d: Duration)
        ensures
            d == secs_duration(clamp_poll_secs(self.poll_interval_secs)),
    {
        duration_from_secs(self.poll_interval_secs())
    }

    /// The poll interval in seconds, clamped to 15..=600.
    pub fn poll_interval_secs(&self) -> (secs: u64)
        ensures
            secs == clamp_poll_secs(self.poll_interval_secs),
    {
        let secs = self.poll_interval_secs;
        if secs < MIN_POLL_SECS {
            MIN_POLL_SECS
        } else if secs > MAX_POLL_SECS {
            MAX_POLL_SECS
        } else {
            secs
        }
    }
}

// ---------------------------------------------------------------------------
// Key title
// ---------------------------------------------------------------------------

/// What the Stream Deck key should display.
#[derive(Debug, Clone, PartialEq, Eq)]
pub enum KeyTitle {
    Loading,
    Levels(BatteryLevels),
    Error,
}

/// The text of a key title.
pub open spec fn key_title_text(title: KeyTitle) -> Seq<char> {
    match title {
        KeyTitle::Loading => LOADING_TITLE@,
        KeyTitle::Levels(levels) => title_text(levels),
        KeyTitle::Error => ERROR_TITLE@,
    }
}

/// The data URI of the key art for a title: the bars (with or without
/// numbers), the loading mark, or the error mark.
pub open spec fn key_image(title: KeyTitle, show_percentage: bool) -> Seq<char> {
    match title {
        KeyTitle::Loading => svg_data_uri(loading_svg()),
        KeyTitle::Levels(levels) => svg_data_uri(levels_svg(levels, show_percentage)),
        KeyTitle::Error => svg_data_uri(error_svg()),
    }
}

impl KeyTitle {
    /// The key art to send with `setImage`; `show_percentage` is the key's
    /// own numbers option.
    pub fn image(&self, show_percentage: bool) -> (uri: String)
        ensures
            uri@ == key_image(*self, show_percentage),
    {
        match self {
            KeyTitle::Loading => loading_image_data_uri(),
            KeyTitle::Levels(levels) => key_image_data_uri(levels, show_percentage),
            KeyTitle::Error => error_image_data_uri(),
        }
    }

    /// The text to put on the key.
    pub fn as_title(&self) -> (s: String)
        ensures
            s@ == key_title_text(*self),
    {
        match self {
            KeyTitle::Loading => LOADING_TITLE.to_owned(),
            KeyTitle::Levels(levels) => levels.title(),
            KeyTitle::Error => ERROR_TITLE.to_owned(),
        }
    }
}

/// Result of a background battery read.
#[derive(Debug)]
pub struct BatteryOutcome {
    pub result: Result<BatteryLevels, String>,
    pub force: bool,
}

// ---------------------------------------------------------------------------
// Events in, commands out
// ---------------------------------------------------------------------------

/// A Stream Deck event, as far as the plugin reads it.
#[derive(Debug)]
pub enum StreamDeckEvent {
    /// An instance of an action was added to the display.
    WillAppear { action: String, context: String, settings: ActionSettings },
    /// An instance of an action was removed from the display.
    WillDisappear { context: String },
    /// A key was pressed.
    KeyDown { context: String },
    /// The property inspector stored new settings for an instance.
    DidReceiveSettings { context: String, settings: ActionSettings },
    /// An event the Stream Deck protocol does not know.
    Unknown,
    /// Any other event (not handled).
    Other,
}

/// A [`StreamDeckEvent`] with its strings taken as character sequences.
pub enum StreamDeckEventView {
    WillAppear { action: Seq<char>, context: Seq<char>, settings: ActionSettings },
    WillDisappear { context: Seq<char> },
    KeyDown { context: Seq<char> },
    DidReceiveSettings { context: Seq<char>, settings: ActionSettings },
    Unknown,
    Other,
}

impl View for StreamDeckEvent {
    type V = StreamDeckEventView;

    open spec fn view(&self) -> StreamDeckEventView {
        match self {
            StreamDeckEvent::WillAppear { action, context, settings } => StreamDeckEventView::WillAppear {
                action: action@,
                context: context@,
                settings: *settings,
            },
            StreamDeckEvent::WillDisappear { context } => StreamDeckEventView::WillDisappear {
                context: context@,
            },
            StreamDeckEvent::KeyDown { context } => StreamDeckEventView::KeyDown { context: context@ },
            StreamDeckEvent::DidReceiveSettings { context, settings } => StreamDeckEventView::DidReceiveSettings {
                context: context@,
                settings: *settings,
            },
            StreamDeckEvent::Unknown => StreamDeckEventView::Unknown,
            StreamDeckEvent::Other => StreamDeckEventView::Other,
        }
    }
}

/// Something the caller must do for the plugin, in the order given.
#[derive(Debug, PartialEq, Eq)]
pub enum Command {
    /// Set the image of one key (a data URI); a failure ends the plugin.
    SetImage { context: String, image: String },
    /// Set the title of one key; a failure ends the plugin.
    SetTitle { context: String, title: String },
    /// Flash the alert on one key; a failure is only logged.
    ShowAlert { context: String },
    /// Start a battery read in the background and report its outcome.
    ReadBattery { force: bool },
}

/// A [`Command`] with its strings taken as character sequences.
pub enum CommandView {
    SetImage { context: Seq<char>, image: Seq<char> },
    SetTitle { context: Seq<char>, title: Seq<char> },
    ShowAlert { context: Seq<char> },
    ReadBattery { force: bool },
}

impl View for Command {
    type V = CommandView;

    open spec fn view(&self) -> CommandView {
        match self {
            Command::SetImage { context, image } => CommandView::SetImage {
                context: context@,
                image: image@,
            },
            Command::SetTitle { context, title } => CommandView::SetTitle {
                context: context@,
                title: title@,
            },
            Command::ShowAlert { context } => CommandView::ShowAlert { context: context@ },
            Command::ReadBattery { force } => CommandView::ReadBattery { force: *force },
        }
    }
}

/// The views of a list of commands.
pub open spec fn command_views(cmds: Seq<Command>) -> Seq<CommandView> {
    cmds.map_values(|c: Command| c@)
}

// ---------------------------------------------------------------------------
// The model: actions, title, poll bookkeeping
// ---------------------------------------------------------------------------

/// The visible action instances, in the order they appeared: the key
/// context and its settings.
pub type Actions = Seq<(Seq<char>, ActionSettings)>;

/// What the plugin holds: its visible actions, the shared key title, when
/// the last battery read finished (`None`: none has yet), and whether one is
/// in flight.
pub struct PluginView {
    pub actions: Actions,
    pub title: KeyTitle,
    pub last_poll: Option<Instant>,
    pub in_flight: bool,
}

/// No key context occurs twice among the actions.
pub open spec fn distinct_contexts(actions: Actions) -> bool {
    forall|i: int, j: int|
        0 <= i < actions.len() && 0 <= j < actions.len() && i != j ==> #[trigger] actions[i].0
            != #[trigger] actions[j].0
}

/// Whether some action has this context.
pub open spec fn has_context(actions: Actions, context: Seq<char>) -> bool {
    exists|i: int| 0 <= i < actions.len() && #[trigger] actions[i].0 == context
}

/// The position of the action with this context (taken when there is one).
pub open spec fn context_index(actions: Actions, context: Seq<char>) -> int {
    choose|i: int| 0 <= i < actions.len() && #[trigger] actions[i].0 == context
}

/// The settings an action has, if one has this context.
pub open spec fn settings_of(actions: Actions, context: Seq<char>) -> Option<ActionSettings> {
    if has_context(actions, context) {
        Some(actions[context_index(actions, context)].1)
    } else {
        None
    }
}

/// Records the settings of a context: in place when it is known, appended
/// otherwise.
pub open spec fn upsert_action(actions: Actions, context: Seq<char>, settings: ActionSettings) -> Actions {
    if has_context(actions, context) {
        actions.update(context_index(actions, context), (context, settings))
    } else {
        actions.push((context, settings))
    }
}

/// Forgets a context, keeping the others in order.
pub open spec fn remove_action(actions: Actions, context: Seq<char>) -> Actions {
    if has_context(actions, context) {
        actions.remove(context_index(actions, context))
    } else {
        actions
    }
}

/// Replaces the settings of a known context; an unknown one is ignored.
pub open spec fn update_settings(actions: Actions, context: Seq<char>, settings: ActionSettings) -> Actions {
    if has_context(actions, context) {
        actions.update(context_index(actions, context), (context, settings))
    } else {
        actions
    }
}

/// The shortest clamped poll interval among the first `n` actions.
pub open spec fn min_poll_secs(actions: Actions, n: nat) -> u64
    decreases n,
{
    if n <= 1 {
        clamp_poll_secs(actions[0].1.poll_interval_secs)
    } else {
        let rest = min_poll_secs(actions, (n - 1) as nat);
        let last = clamp_poll_secs(actions[n - 1].1.poll_interval_secs);
        if last < rest {
            last
        } else {
            rest
        }
    }
}

/// The plugin's poll interval in seconds: the shortest any visible action
/// asks for (clamped), or the default when none is visible.
pub open spec fn poll_secs(actions: Actions) -> u64 {
    if actions.len() == 0 {
        DEFAULT_POLL_SECS
    } else {
        min_poll_secs(actions, actions.len())
    }
}

/// Whether a poll is due, given the time since the last finished read
/// (`None`: never polled): there must be a visible action, no read in
/// flight, and a full poll interval since the last read.
pub open spec fn poll_due_spec(v: PluginView, elapsed_nanos: Option<u128>) -> bool {
    &&& v.actions.len() > 0
    &&& !v.in_flight
    &&& match elapsed_nanos {
        None => true,
        Some(e) => e >= poll_secs(v.actions) * 1_000_000_000,
    }
}

/// Asking for a battery read: a read starts only when none is in flight.
pub open spec fn request_step(v: PluginView) -> (PluginView, bool) {
    (PluginView { in_flight: true, ..v }, !v.in_flight)
}

/// The command that starts a forced read, when one starts.
pub open spec fn read_cmds(start: bool) -> Seq<CommandView> {
    if start {
        seq![CommandView::ReadBattery { force: true }]
    } else {
        seq![]
    }
}

/// The title a finished read leaves on the keys.
pub open spec fn outcome_title(result: Result<BatteryLevels, String>) -> KeyTitle {
    match result {
        Ok(levels) => KeyTitle::Levels(levels),
        Err(_) => KeyTitle::Error,
    }
}

/// A read that finished at `now`: nothing is in flight any more, the last
/// read is the one at `now`, and the keys show its levels or the error.
pub open spec fn outcome_step(
    v: PluginView,
    result: Result<BatteryLevels, String>,
    now: Instant,
) -> PluginView {
    PluginView { title: outcome_title(result), last_poll: Some(now), in_flight: false, ..v }
}

/// What repaints one key for a title: its image, drawn with the key's own
/// numbers option, then the title text.
pub open spec fn paint_cmds(context: Seq<char>, show_percentage: bool, title: KeyTitle) -> Seq<
    CommandView,
> {
    seq![
        CommandView::SetImage { context, image: key_image(title, show_percentage) },
        CommandView::SetTitle { context, title: key_title_text(title) },
    ]
}

/// Every visible key repainted for a title, in order: for the action at
/// position `i`, its `SetImage` at `2 * i` and its `SetTitle` at `2 * i + 1`.
pub open spec fn key_cmds(actions: Actions, title: KeyTitle) -> Seq<CommandView> {
    Seq::new(
        2 * actions.len(),
        |j: int| paint_cmds(actions[j / 2].0, actions[j / 2].1.show_percentage, title)[j % 2],
    )
}

/// What a finished read asks for: on failure an alert on the first visible
/// key, then the new image and title on every visible key.
pub open spec fn outcome_cmds(v: PluginView, result: Result<BatteryLevels, String>) -> Seq<CommandView> {
    (if result is Err && v.actions.len() > 0 {
        seq![CommandView::ShowAlert { context: v.actions[0].0 }]
    } else {
        seq![]
    }) + key_cmds(v.actions, outcome_title(result))
}

/// The reaction to a Stream Deck event.
pub open spec fn event_step(v: PluginView, event: StreamDeckEventView) -> (PluginView, Seq<CommandView>) {
    match event {
        StreamDeckEventView::WillAppear { action, context, settings } => {
            if action == ACTION_UUID@ {
                let appeared = PluginView { actions: upsert_action(v.actions, context, settings), ..v };
                let (next, start) = request_step(appeared);
                (next, paint_cmds(context, settings.show_percentage, v.title) + read_cmds(start))
            } else {
                (v, seq![])
            }
        },
        StreamDeckEventView::WillDisappear { context } => (
            PluginView { actions: remove_action(v.actions, context), ..v },
            seq![],
        ),
        StreamDeckEventView::KeyDown { context } => {
            let loading = PluginView { title: KeyTitle::Loading, ..v };
            let (next, start) = request_step(loading);
            (next, paint_cmds(context, false, KeyTitle::Loading) + read_cmds(start))
        },
        StreamDeckEventView::DidReceiveSettings { context, settings } => (
            PluginView { actions: update_settings(v.actions, context, settings), ..v },
            if has_context(v.actions, context) {
                seq![
                    CommandView::SetImage {
                        context,
                        image: key_image(v.title, settings.show_percentage),
                    },
                ]
            } else {
                seq![]
            },
        ),
        StreamDeckEventView::Unknown => (v, seq![]),
        StreamDeckEventView::Other => (v, seq![]),
    }
}

/// A poll tick: when a poll is due, a forced read starts.
pub open spec fn tick_step(v: PluginView, due: bool) -> (PluginView, Seq<CommandView>) {
    if due {
        let (next, start) = request_step(v);
        (next, read_cmds(start))
    } else {
        (v, seq![])
    }
}

// ---------------------------------------------------------------------------
// The plugin
// ---------------------------------------------------------------------------

struct ActionInstance {
    context: String,
    settings: ActionSettings,
}

/// Owns action instances and the shared key view model.
pub struct Plugin {
    actions: Vec<ActionInstance>,
    title: KeyTitle,
    last_poll: Option<Instant>,
    battery_in_flight: bool,
}

/// Appends what repaints one key: its image, then its title.
fn push_paint(cmds: &mut Vec<Command>, context: String, show_percentage: bool, title: &KeyTitle)
    ensures
        command_views(final(cmds)@) == command_views(old(cmds)@) + paint_cmds(
            context@,
            show_percentage,
            *title,
        ),
{
    let ghost before = cmds@;
    let ghost c = context@;
    let image = title.image(show_percentage);
    let text = title.as_title();
    cmds.push(Command::SetImage { context: context.clone(), image });
    cmds.push(Command::SetTitle { context, title: text });
    assert(command_views(cmds@) =~= command_views(before) + paint_cmds(c, show_percentage, *title));
}

/// The actions recorded by a list of instances.
spec fn instances_view(instances: Seq<ActionInstance>) -> Actions {
    instances.map_values(|a: ActionInstance| (a.context@, a.settings))
}

impl View for Plugin {
    type V = PluginView;

    closed spec fn view(&self) -> PluginView {
        PluginView {
            actions: instances_view(self.actions@),
            title: self.title,
            last_poll: self.last_poll,
            in_flight: self.battery_in_flight,
        }
    }
}

impl Plugin {
    /// The plugin's invariant: no key context is recorded twice.
    #[verifier::type_invariant]
    spec fn well_formed(self) -> bool {
        distinct_contexts(instances_view(self.actions@))
    }

    /// No actions, a loading title, never polled, nothing in flight.
    pub fn new() -> (plugin: Self)
        ensures
            plugin@ == (PluginView {
                actions: Seq::empty(),
                title: KeyTitle::Loading,
                last_poll: None,
                in_flight: false,
            }),
    {
        let plugin = Plugin {
            actions: Vec::new(),
            title: KeyTitle::Loading,
            last_poll: None,
            battery_in_flight: false,
        };
        assert(plugin@.actions =~= Seq::empty());
        plugin
    }

    /// Whether any action instance is visible.
    pub fn has_visible_actions(&self) -> (visible: bool)
        ensures
            visible == (self@.actions.len() > 0),
    {
        !self.actions.is_empty()
    }

    /// The title the keys show.
    pub fn key_title(&self) -> (title: &KeyTitle)
        ensures
            *title == self@.title,
    {
        &self.title
    }

    /// Whether a battery read is in flight.
    pub fn is_battery_in_flight(&self) -> (in_flight: bool)
        ensures
            in_flight == self@.in_flight,
    {
        self.battery_in_flight
    }

    /// Whether a battery read has finished since the plugin started.
    pub fn has_polled(&self) -> (polled: bool)
        ensures
            polled == self@.last_poll is Some,
    {
        self.last_poll.is_some()
    }

    /// The contexts of the visible action instances, in the order they
    /// appeared.
    pub fn contexts(&self) -> (contexts: Vec<String>)
        ensures
            contexts@.map_values(|c: String| c@) == self@.actions.map_values(
                |a: (Seq<char>, ActionSettings)| a.0,
            ),
    {
        let mut contexts: Vec<String> = Vec::new();
        let mut i: usize = 0;
        while i < self.actions.len()
            invariant
                i <= self.actions.len(),
                contexts@.len() == i,
                forall|k: int| 0 <= k < i ==> #[trigger] contexts@[k]@ == self.actions@[k].context@,
            decreases self.actions.len() - i,
        {
            contexts.push(self.actions[i].context.clone());
            i = i + 1;
        }
        assert(contexts@.map_values(|c: String| c@) =~= self@.actions.map_values(
            |a: (Seq<char>, ActionSettings)| a.0,
        ));
        contexts
    }

    fn find_action(&self, context: &String) -> (idx: Option<usize>)
        ensures
            match idx {
                Some(i) => {
                    &&& has_context(self@.actions, context@)
                    &&& i == context_index(self@.actions, context@)
                    &&& i < self@.actions.len()
                },
                None => !has_context(self@.actions, context@),
            },
    {
        proof {
            use_type_invariant(self);
        }
        let mut i: usize = 0;
        while i < self.actions.len()
            invariant
                i <= self.actions.len(),
                distinct_contexts(self@.actions),
                self@.actions.len() == self.actions@.len(),
                forall|k: int| 0 <= k < i ==> #[trigger] self@.actions[k].0 != context@,
            decreases self.actions.len() - i,
        {
            if self.actions[i].context == *context {
                assert(self@.actions[i as int].0 == context@);
                let ghost j = context_index(self@.actions, context@);
                assert(self@.actions[j].0 == context@);
                assert(j == i);
                return Some(i);
            }
            i = i + 1;
        }
        None
    }

    /// Records an action instance: a known context gets the new settings in
    /// place, a new one is appended.
    pub fn add_action(&mut self, context: String, settings: ActionSettings)
        ensures
            final(self)@ == (PluginView {
                actions: upsert_action(old(self)@.actions, context@, settings),
                ..old(self)@
            }),
    {
        proof {
            use_type_invariant(&*self);
        }
        let ghost c = context@;
        let ghost before = self@.actions;
        let found = self.find_action(&context);
        let mut actions: Vec<ActionInstance> = Vec::new();
        std::mem::swap(&mut actions, &mut self.actions);
        match found {
            Some(i) => {
                actions.set(i, ActionInstance { context, settings });
            },
            None => {
                actions.push(ActionInstance { context, settings });
            },
        }
        proof {
            assert(instances_view(actions@) =~= upsert_action(before, c, settings));
            lemma_actions_stay_distinct(before, c, settings);
        }
        self.actions = actions;
    }

    /// Forgets an action instance, keeping the others in order.
    pub fn remove_action(&mut self, context: &String)
        ensures
            final(self)@ == (PluginView {
                actions: remove_action(old(self)@.actions, context@),
                ..old(self)@
            }),
    {
        proof {
            use_type_invariant(&*self);
        }
        let ghost before = self@.actions;
        match self.find_action(context) {
            Some(i) => {
                let mut actions: Vec<ActionInstance> = Vec::new();
                std::mem::swap(&mut actions, &mut self.actions);
                let _removed = actions.remove(i);
                proof {
                    assert(instances_view(actions@) =~= remove_action(before, context@));
                    lemma_actions_stay_distinct(before, context@, ActionSettings {
                        poll_interval_secs: 0,
                        show_percentage: false,
                    });
                }
                self.actions = actions;
            },
            None => {},
        }
    }

    fn update_settings(&mut self, context: String, settings: ActionSettings) -> (known: bool)
        ensures
            known == has_context(old(self)@.actions, context@),
            final(self)@ == (PluginView {
                actions: update_settings(old(self)@.actions, context@, settings),
                ..old(self)@
            }),
    {
        proof {
            use_type_invariant(&*self);
        }
        let ghost c = context@;
        let ghost before = self@.actions;
        match self.find_action(&context) {
            Some(i) => {
                let mut actions: Vec<ActionInstance> = Vec::new();
                std::mem::swap(&mut actions, &mut self.actions);
                actions.set(i, ActionInstance { context, settings });
                proof {
                    assert(instances_view(actions@) =~= update_settings(before, c, settings));
                    lemma_actions_stay_distinct(before, c, settings);
                }
                self.actions = actions;
                true
            },
            None => {
                assert(self@.actions =~= update_settings(old(self)@.actions, c, settings));
                false
            },
        }
    }

    fn poll_interval_secs(&self) -> (secs: u64)
        ensures
            secs == poll_secs(self@.actions),
    {
        if self.actions.is_empty() {
            return DEFAULT_POLL_SECS;
        }
        let mut secs = self.actions[0].settings.poll_interval_secs();
        let mut i: usize = 1;
        while i < self.actions.len()
            invariant
                1 <= i <= self.actions.len(),
                self@.actions.len() == self.actions@.len(),
                secs == min_poll_secs(self@.actions, i as nat),
            decreases self.actions.len() - i,
        {
            let next = self.actions[i].settings.poll_interval_secs();
            if next < secs {
                secs = next;
            }
            i = i + 1;
        }
        secs
    }

    /// The shortest poll interval any visible action asks for (clamped),
    /// or the default 60 s when none is visible.
    pub fn poll_interval(&self) -> (d: Duration)
        ensures
            d == secs_duration(poll_secs(self@.actions)),
    {
        duration_from_secs(self.poll_interval_secs())
    }

    /// Whether a poll is due, given the nanoseconds since the last finished
    /// read (`None` when no read has finished).
    pub fn poll_due(&self, elapsed_nanos: Option<u128>) -> (due: bool)
        ensures
            due == poll_due_spec(self@, elapsed_nanos),
    {
        if !self.has_visible_actions() || self.battery_in_flight {
            return false;
        }
        match elapsed_nanos {
            None => true,
            Some(e) => e >= self.poll_interval_secs() as u128 * 1_000_000_000,
        }
    }

    /// Whether a poll is due now: a visible action, no read in flight, and
    /// either no read yet or a full poll interval since the last one.
    pub fn should_poll(&self) -> (due: bool)
        ensures
            due ==> self@.actions.len() > 0 && !self@.in_flight,
            self@.last_poll is None ==> due == (self@.actions.len() > 0 && !self@.in_flight),
            exists|e: Option<u128>| (e is None <==> self@.last_poll is None) && due == poll_due_spec(self@, e),
    {
        if !self.has_visible_actions() || self.battery_in_flight {
            assert(poll_due_spec(self@, None::<u128>) == false);
            assert(poll_due_spec(self@, Some(0u128)) == false);
            return false;
        }
        let elapsed = match &self.last_poll {
            None => None,
            Some(t) => Some(elapsed_nanos(t)),
        };
        self.poll_due(elapsed)
    }

    /// Marks a battery read as in flight. Returns `true` when the caller
    /// must start the read, `false` when one is already running.
    pub fn request_battery(&mut self) -> (start: bool)
        ensures
            (final(self)@, start) == request_step(old(self)@),
    {
        proof {
            use_type_invariant(&*self);
        }
        if self.battery_in_flight {
            return false;
        }
        self.battery_in_flight = true;
        true
    }

    fn push_read(&mut self, cmds: &mut Vec<Command>)
        ensures
            ({
                let (next, start) = request_step(old(self)@);
                &&& final(self)@ == next
                &&& command_views(final(cmds)@) == command_views(old(cmds)@) + read_cmds(start)
            }),
    {
        if self.request_battery() {
            cmds.push(Command::ReadBattery { force: true });
            assert(command_views(cmds@) =~= command_views(old(cmds)@) + read_cmds(true));
        } else {
            assert(command_views(cmds@) =~= command_views(old(cmds)@) + read_cmds(false));
        }
    }

    /// Reacts to a Stream Deck event: records or forgets action instances,
    /// updates their settings (repainting that key's image, whose numbers
    /// option may have changed), and on a new instance or a key press paints
    /// the current (or loading) image and title and starts a forced read.
    pub fn handle_message(&mut self, event: StreamDeckEvent) -> (cmds: Vec<Command>)
        ensures
            (final(self)@, command_views(cmds@)) == event_step(old(self)@, event@),
    {
        let ghost ev = event@;
        let mut cmds: Vec<Command> = Vec::new();
        match event {
            StreamDeckEvent::WillAppear { action, context, settings } => {
                let uuid = ACTION_UUID.to_owned();
                if action != uuid {
                    assert(command_views(cmds@) =~= seq![]);
                    return cmds;
                }
                let ctx = context.clone();
                let show = settings.show_percentage;
                self.add_action(context, settings);
                push_paint(&mut cmds, ctx, show, &self.title);
                self.push_read(&mut cmds);
            },
            StreamDeckEvent::WillDisappear { context } => {
                self.remove_action(&context);
            },
            StreamDeckEvent::KeyDown { context } => {
                proof {
                    use_type_invariant(&*self);
                }
                self.title = KeyTitle::Loading;
                push_paint(&mut cmds, context, false, &self.title);
                self.push_read(&mut cmds);
            },
            StreamDeckEvent::DidReceiveSettings { context, settings } => {
                let ctx = context.clone();
                let show = settings.show_percentage;
                if self.update_settings(context, settings) {
                    let image = self.title.image(show);
                    cmds.push(Command::SetImage { context: ctx, image });
                }
            },
            StreamDeckEvent::Unknown => {},
            StreamDeckEvent::Other => {},
        }
        assert(command_views(cmds@) =~= event_step(old(self)@, ev).1);
        cmds
    }

    /// Reacts to a poll tick: when a poll is due, starts a forced read.
    pub fn on_tick(&mut self) -> (cmds: Vec<Command>)
        ensures
            exists|due: bool|
                {
                    &&& (final(self)@, command_views(cmds@)) == tick_step(old(self)@, due)
                    &&& due ==> old(self)@.actions.len() > 0 && !old(self)@.in_flight
                    &&& old(self)@.last_poll is None ==> due == (old(self)@.actions.len() > 0
                        && !old(self)@.in_flight)
                },
    {
        let mut cmds: Vec<Command> = Vec::new();
        let due = self.should_poll();
        if due {
            self.push_read(&mut cmds);
        }
        assert(command_views(cmds@) =~= tick_step(old(self)@, due).1);
        cmds
    }

    /// Updates the title and poll bookkeeping from a finished read (no
    /// Stream Deck I/O). Returns `true` when a key should flash an alert.
    pub fn apply_battery_outcome(&mut self, outcome: BatteryOutcome) -> (alert: bool)
        ensures
            final(self)@.last_poll is Some,
            final(self)@ == outcome_step(old(self)@, outcome.result, final(self)@.last_poll.unwrap()),
            alert == outcome.result is Err,
    {
        proof {
            use_type_invariant(&*self);
        }
        self.battery_in_flight = false;
        self.last_poll = Some(instant_now());
        match outcome.result {
            Ok(levels) => {
                self.title = KeyTitle::Levels(levels);
                false
            },
            Err(_) => {
                self.title = KeyTitle::Error;
                true
            },
        }
    }

    /// Repaints every visible key for the current title, in order: its
    /// image (with its own numbers option), then its title.
    fn push_keys(&self, cmds: &mut Vec<Command>)
        ensures
            command_views(final(cmds)@) == command_views(old(cmds)@) + key_cmds(
                self@.actions,
                self@.title,
            ),
    {
        let ghost start = command_views(old(cmds)@);
        let ghost all = key_cmds(self@.actions, self@.title);
        let mut i: usize = 0;
        while i < self.actions.len()
            invariant
                i <= self.actions.len(),
                self@.actions.len() == self.actions@.len(),
                all == key_cmds(self@.actions, self@.title),
                command_views(cmds@) == start + all.take(2 * i),
            decreases self.actions.len() - i,
        {
            let context = self.actions[i].context.clone();
            let show = self.actions[i].settings.show_percentage;
            let ghost paint = paint_cmds(self@.actions[i as int].0, show, self@.title);
            assert(context@ == self@.actions[i as int].0);
            assert(show == self@.actions[i as int].1.show_percentage);
            push_paint(cmds, context, show, &self.title);
            assert((2 * i + 0) / 2 == i && (2 * i + 0) % 2 == 0);
            assert((2 * i + 1) / 2 == i && (2 * i + 1) % 2 == 1);
            assert(all[2 * i] == paint[0]);
            assert(all[2 * i + 1] == paint[1]);
            assert(all.take(2 * i + 2) =~= all.take(2 * i) + paint);
            i = i + 1;
        }
        assert(all.take(2 * i) =~= all);
    }

    /// Reacts to a finished battery read: updates the title, asks for an
    /// alert on the first visible key when the read failed, and repaints
    /// every visible key with the new image and title.
    pub fn on_battery_result(&mut self, outcome: BatteryOutcome) -> (cmds: Vec<Command>)
        ensures
            final(self)@.last_poll is Some,
            final(self)@ == outcome_step(old(self)@, outcome.result, final(self)@.last_poll.unwrap()),
            command_views(cmds@) == outcome_cmds(old(self)@, outcome.result),
    {
        let ghost result = outcome.result;
        let show_alert = self.apply_battery_outcome(outcome);
        let mut cmds: Vec<Command> = Vec::new();
        if show_alert && !self.actions.is_empty() {
            cmds.push(Command::ShowAlert { context: self.actions[0].context.clone() });
        }
        assert(command_views(cmds@) =~= (if result is Err && old(self)@.actions.len() > 0 {
            seq![CommandView::ShowAlert { context: old(self)@.actions[0].0 }]
        } else {
            seq![]
        }));
        self.push_keys(&mut cmds);
        cmds
    }
}

// ---------------------------------------------------------------------------
// Laws
// ---------------------------------------------------------------------------

/// Battery reads are single-flight: once a read is requested, a second
/// request starts nothing and changes nothing.
pub proof fn lemma_single_flight(v: PluginView)
    ensures
        request_step(v).0.in_flight,
        !request_step(request_step(v).0).1,
        request_step(request_step(v).0).0 == request_step(v).0,
{
}

proof fn lemma_key_cmds_at(actions: Actions, title: KeyTitle, i: int)
    requires
        0 <= i < actions.len(),
    ensures
        key_cmds(actions, title).len() == 2 * actions.len(),
        key_cmds(actions, title)[2 * i] == (CommandView::SetImage {
            context: actions[i].0,
            image: key_image(title, actions[i].1.show_percentage),
        }),
        key_cmds(actions, title)[2 * i + 1] == (CommandView::SetTitle {
            context: actions[i].0,
            title: key_title_text(title),
        }),
{
    assert((2 * i) / 2 == i && (2 * i) % 2 == 0);
    assert((2 * i + 1) / 2 == i && (2 * i + 1) % 2 == 1);
}

/// After a good read every visible key is repainted, in order, with the key
/// art of the new levels, drawn with that key's own numbers option; no
/// alert is shown.
pub proof fn lemma_good_read_paints_levels(v: PluginView, levels: BatteryLevels)
    ensures
        outcome_cmds(v, Ok(levels)).len() == 2 * v.actions.len(),
        forall|i: int|
            0 <= i < v.actions.len() ==> outcome_cmds(v, Ok(levels))[2 * i] == (
            CommandView::SetImage {
                context: (#[trigger] v.actions[i]).0,
                image: key_image(KeyTitle::Levels(levels), v.actions[i].1.show_percentage),
            }),
{
    let cmds = outcome_cmds(v, Ok(levels));
    let keys = key_cmds(v.actions, KeyTitle::Levels(levels));
    assert(cmds =~= keys);
    assert forall|i: int| 0 <= i < v.actions.len() implies cmds[2 * i] == (CommandView::SetImage {
        context: (#[trigger] v.actions[i]).0,
        image: key_image(KeyTitle::Levels(levels), v.actions[i].1.show_percentage),
    }) by {
        lemma_key_cmds_at(v.actions, KeyTitle::Levels(levels), i);
    }
}

/// After a failed read the first visible key flashes an alert, then every
/// visible key is repainted, in order, with the error art.
pub proof fn lemma_failed_read_paints_error(v: PluginView, err: String)
    ensures
        outcome_cmds(v, Err(err)).len() == 2 * v.actions.len() + (if v.actions.len() > 0 {
            1int
        } else {
            0int
        }),
        v.actions.len() > 0 ==> outcome_cmds(v, Err(err))[0] == (CommandView::ShowAlert {
            context: v.actions[0].0,
        }),
        forall|i: int|
            0 <= i < v.actions.len() ==> outcome_cmds(v, Err(err))[2 * i + 1] == (
            CommandView::SetImage { context: (#[trigger] v.actions[i]).0, image: key_image(KeyTitle::Error, false) }),
{
    let cmds = outcome_cmds(v, Err(err));
    let keys = key_cmds(v.actions, KeyTitle::Error);
    if v.actions.len() > 0 {
        assert(cmds =~= seq![CommandView::ShowAlert { context: v.actions[0].0 }] + keys);
        assert forall|i: int| 0 <= i < v.actions.len() implies cmds[2 * i + 1] == (
        CommandView::SetImage { context: (#[trigger] v.actions[i]).0, image: key_image(KeyTitle::Error, false) })
            by {
            lemma_key_cmds_at(v.actions, KeyTitle::Error, i);
        }
    } else {
        assert(cmds =~= keys);
    }
}

/// Only a finished read moves the poll clock: events, ticks and read
/// requests leave the time of the last read as it was, and a finished read
/// sets it to when it finished.
pub proof fn lemma_only_finished_reads_move_poll_clock(
    v: PluginView,
    event: StreamDeckEventView,
    due: bool,
    result: Result<BatteryLevels, String>,
    now: Instant,
)
    ensures
        event_step(v, event).0.last_poll == v.last_poll,
        tick_step(v, due).0.last_poll == v.last_poll,
        request_step(v).0.last_poll == v.last_poll,
        outcome_step(v, result, now).last_poll == Some(now),
{
}

/// A finished read, good or bad, clears the in-flight mark, so the next
/// request starts a read again.
pub proof fn lemma_outcome_allows_next_read(
    v: PluginView,
    result: Result<BatteryLevels, String>,
    now: Instant,
)
    ensures
        request_step(outcome_step(v, result, now)).1,
{
}

/// A poll is only due with a visible action and no read in flight.
pub proof fn lemma_poll_needs_visible_idle(v: PluginView, elapsed_nanos: Option<u128>)
    ensures
        poll_due_spec(v, elapsed_nanos) ==> v.actions.len() > 0 && !v.in_flight,
{
}

proof fn lemma_min_poll_secs_bounds(actions: Actions, n: nat)
    requires
        1 <= n <= actions.len(),
    ensures
        MIN_POLL_SECS <= min_poll_secs(actions, n) <= MAX_POLL_SECS,
        forall|i: int|
            0 <= i < n ==> min_poll_secs(actions, n) <= clamp_poll_secs(
                #[trigger] actions[i].1.poll_interval_secs,
            ),
        exists|i: int|
            0 <= i < n && min_poll_secs(actions, n) == clamp_poll_secs(
                #[trigger] actions[i].1.poll_interval_secs,
            ),
    decreases n,
{
    if n > 1 {
        lemma_min_poll_secs_bounds(actions, (n - 1) as nat);
        let last = clamp_poll_secs(actions[n - 1].1.poll_interval_secs);
        if last < min_poll_secs(actions, (n - 1) as nat) {
            assert(min_poll_secs(actions, n) == clamp_poll_secs(actions[n - 1].1.poll_interval_secs));
        } else {
            let i = choose|i: int|
                0 <= i < n - 1 && min_poll_secs(actions, (n - 1) as nat) == clamp_poll_secs(
                    #[trigger] actions[i].1.poll_interval_secs,
                );
            assert(min_poll_secs(actions, n) == clamp_poll_secs(actions[i].1.poll_interval_secs));
        }
    } else {
        assert(min_poll_secs(actions, n) == clamp_poll_secs(actions[0].1.poll_interval_secs));
    }
}

/// The poll interval is the shortest (clamped) interval a visible action
/// asks for, so it lies in 15..=600 s; with no visible action it is 60 s.
pub proof fn lemma_poll_secs_is_min(actions: Actions)
    ensures
        MIN_POLL_SECS <= poll_secs(actions) <= MAX_POLL_SECS,
        actions.len() == 0 ==> poll_secs(actions) == DEFAULT_POLL_SECS,
        forall|i: int|
            0 <= i < actions.len() ==> poll_secs(actions) <= clamp_poll_secs(
                #[trigger] actions[i].1.poll_interval_secs,
            ),
        actions.len() > 0 ==> exists|i: int|
            0 <= i < actions.len() && poll_secs(actions) == clamp_poll_secs(
                #[trigger] actions[i].1.poll_interval_secs,
            ),
{
    if actions.len() > 0 {
        lemma_min_poll_secs_bounds(actions, actions.len());
    }
}

/// A poll falls due exactly when a full poll interval has passed: with a
/// visible key and nothing in flight, `elapsed_nanos` nanoseconds after the
/// last read a poll is due if and only if they reach the interval in
/// nanoseconds; before any read it is due at once.
pub proof fn lemma_poll_due_after_interval(v: PluginView, elapsed_nanos: u128)
    requires
        v.actions.len() > 0,
        !v.in_flight,
    ensures
        poll_due_spec(v, Some(elapsed_nanos)) <==> elapsed_nanos >= poll_secs(v.actions)
            * 1_000_000_000,
        poll_due_spec(v, None),
        elapsed_nanos >= MAX_POLL_SECS * 1_000_000_000 ==> poll_due_spec(v, Some(elapsed_nanos)),
        elapsed_nanos < MIN_POLL_SECS * 1_000_000_000 ==> !poll_due_spec(v, Some(elapsed_nanos)),
{
    lemma_poll_secs_is_min(v.actions);
}

/// Right after a read finishes, no poll is due until a full poll interval
/// has passed.
pub proof fn lemma_no_poll_before_interval(
    v: PluginView,
    result: Result<BatteryLevels, String>,
    now: Instant,
    elapsed_nanos: u128,
)
    requires
        elapsed_nanos < poll_secs(v.actions) * 1_000_000_000,
    ensures
        !poll_due_spec(outcome_step(v, result, now), Some(elapsed_nanos)),
{
}

proof fn lemma_index_of_unique(actions: Actions, context: Seq<char>, i: int)
    requires
        distinct_contexts(actions),
        0 <= i < actions.len(),
        actions[i].0 == context,
    ensures
        has_context(actions, context),
        context_index(actions, context) == i,
{
    let j = context_index(actions, context);
    assert(actions[j].0 == context);
}

/// Recording, forgetting and updating actions keep the contexts distinct.
pub proof fn lemma_actions_stay_distinct(actions: Actions, context: Seq<char>, settings: ActionSettings)
    requires
        distinct_contexts(actions),
    ensures
        distinct_contexts(upsert_action(actions, context, settings)),
        distinct_contexts(remove_action(actions, context)),
        distinct_contexts(update_settings(actions, context, settings)),
{
    if has_context(actions, context) {
        let k = context_index(actions, context);
        let up = actions.update(k, (context, settings));
        assert forall|i: int, j: int|
            0 <= i < up.len() && 0 <= j < up.len() && i != j implies #[trigger] up[i].0
            != #[trigger] up[j].0 by {
            assert(actions[i].0 != actions[j].0);
        }
        let rm = actions.remove(k);
        assert forall|i: int, j: int|
            0 <= i < rm.len() && 0 <= j < rm.len() && i != j implies #[trigger] rm[i].0
            != #[trigger] rm[j].0 by {
            let a = if i < k { i } else { i + 1 };
            let b = if j < k { j } else { j + 1 };
            assert(actions[a].0 != actions[b].0);
        }
    } else {
        let up = actions.push((context, settings));
        assert forall|i: int, j: int|
            0 <= i < up.len() && 0 <= j < up.len() && i != j implies #[trigger] up[i].0
            != #[trigger] up[j].0 by {
            if i < actions.len() && j < actions.len() {
                assert(actions[i].0 != actions[j].0);
            } else if i < actions.len() {
                assert(actions[i].0 != context);
            } else {
                assert(actions[j].0 != context);
            }
        }
    }
}

/// Every reaction to an event keeps the contexts distinct.
pub proof fn lemma_event_keeps_invariant(v: PluginView, event: StreamDeckEventView)
    requires
        distinct_contexts(v.actions),
    ensures
        distinct_contexts(event_step(v, event).0.actions),
{
    match event {
        StreamDeckEventView::WillAppear { action, context, settings } => {
            lemma_actions_stay_distinct(v.actions, context, settings);
        },
        StreamDeckEventView::WillDisappear { context } => {
            lemma_actions_stay_distinct(v.actions, context, ActionSettings { poll_interval_secs: 0, show_percentage: false });
        },
        StreamDeckEventView::DidReceiveSettings { context, settings } => {
            lemma_actions_stay_distinct(v.actions, context, settings);
        },
        _ => {},
    }
}

/// A key that appears gets the settings it came with; when it disappears
/// again, the actions are as they were before it appeared.
pub proof fn lemma_appear_then_disappear(v: PluginView, context: Seq<char>, settings: ActionSettings)
    requires
        distinct_contexts(v.actions),
        !has_context(v.actions, context),
    ensures
        ({
            let appear = StreamDeckEventView::WillAppear { action: ACTION_UUID@, context, settings };
            let appeared = event_step(v, appear).0;
            let gone = event_step(appeared, StreamDeckEventView::WillDisappear { context }).0;
            &&& settings_of(appeared.actions, context) == Some(settings)
            &&& gone.actions == v.actions
        }),
{
    let appear = StreamDeckEventView::WillAppear { action: ACTION_UUID@, context, settings };
    let appeared = event_step(v, appear).0;
    let pushed = v.actions.push((context, settings));
    assert(appeared.actions == pushed);
    lemma_actions_stay_distinct(v.actions, context, settings);
    lemma_index_of_unique(pushed, context, v.actions.len() as int);
    assert(pushed.remove(v.actions.len() as int) =~= v.actions);
}

} // verus!
