//! The state of the application and its answers to what happens: clicks,
//! keys, the mouse wheel, the player's events and the onboarding form.

use vstd::prelude::*;

use crate::pages::Onboarding;
use crate::pages::PageState;
use crate::pages::Pages;
use crate::pages::default_state;
use crate::server::network_cache::FetchResult;

verus! {

/// The settings kept on disk.
#[derive(Clone, Debug)]
pub struct Config {
    pub server_address: String,
}

/// What the application knows of the player. The play position, the
/// length and the buffered ranges (fractions of seconds) are kept with the
/// interface.
#[derive(Clone, Copy, Debug, PartialEq, Eq, Structural)]
pub struct MpvProperties {
    pub is_paused: bool,
    pub volume: i64,
}

impl Default for MpvProperties {
    fn default() -> (r: Self)
        ensures
            r == (MpvProperties { is_paused: false, volume: 100 }),
    {
        MpvProperties { is_paused: false, volume: 100 }
    }
}

/// The application: the page shown and its state, the player's properties
/// and the settings.
pub struct App {
    pub page: Pages,
    pub page_state: PageState,
    pub properties: MpvProperties,
    pub config: Config,
}

/// A key of the keyboard, as far as the player tells keys apart.
#[derive(Clone, Copy, Debug, PartialEq, Eq, Structural)]
pub enum Key {
    Left,
    Right,
    Space,
    Other,
}

/// A key event: the key (none when the system names no key), whether it
/// was released, and whether shift was held.
#[derive(Clone, Copy, Debug, PartialEq, Eq, Structural)]
pub struct KeyboardInput {
    pub key: Option<Key>,
    pub released: bool,
    pub shift: bool,
}

/// A window event, as far as the player reacts to it.
#[derive(Clone, Copy, Debug, PartialEq, Eq, Structural)]
pub enum WindowInput {
    Keyboard(KeyboardInput),
    CursorMoved,
    /// The wheel turned by lines, up or down or not at all.
    WheelLines(ScrollDirection),
    /// The wheel turned by pixels (touch pads).
    WheelPixels,
    Other,
}

#[derive(Clone, Copy, Debug, PartialEq, Eq, Structural)]
pub enum ScrollDirection {
    Up,
    Down,
    Still,
}

/// What the player is told to do.
#[derive(Clone, Copy, Debug, PartialEq, Eq, Structural)]
pub enum PlayerCommand {
    Nothing,
    /// Seek back by this many seconds.
    SeekBackward(u32),
    /// Seek forward by this many seconds.
    SeekForward(u32),
    /// Pause when playing, play when paused.
    TogglePause,
    /// The mouse moved over the player: show the controls.
    ShowControls,
    /// Change the volume by the wheel turned this way.
    ScrollVolume(ScrollDirection),
}

/// A value that a player event carries. Fractional values and structured
/// nodes stay with the interface.
#[derive(Clone, Copy, Debug, PartialEq, Eq, Structural)]
pub enum PropertyData {
    Flag(bool),
    Int64(i64),
    Double,
    Node,
    Other,
}

/// An event of the player.
#[derive(Clone, Debug)]
pub enum MpvEvent {
    PlaybackRestart,
    EndFile,
    PropertyChange { name: String, change: PropertyData },
    Other,
}

/// The property that the interface must copy out of the event it handed in.
#[derive(Clone, Copy, Debug, PartialEq, Eq, Structural)]
pub enum PropertyUpdate {
    Nothing,
    TimePos,
    Duration,
    SeekableRanges,
}

/// What the entered server address is.
#[derive(Clone, Copy, Debug, PartialEq, Eq, Structural)]
pub enum AddressStatus {
    Empty,
    Invalid,
    Valid,
}

/// What the onboarding page does once the server answered.
#[derive(Clone, Copy, Debug, PartialEq, Eq, Structural)]
pub enum OnboardingAction {
    /// Nothing to do.
    Idle,
    /// The answer is on its way: say so.
    ShowLoading,
    /// The server answered: save the settings to disk (the page is now the
    /// overview).
    SaveConfig,
}

/// The properties after a change of property `name` to `change`, and the
/// property the interface must copy out of the event.
pub open spec fn property_change(props: MpvProperties, name: Seq<char>, change: PropertyData) -> (
    MpvProperties,
    PropertyUpdate,
) {
    if name == "time-pos"@ {
        (props, if change is Double { PropertyUpdate::TimePos } else { PropertyUpdate::Nothing })
    } else if name == "pause"@ {
        match change {
            PropertyData::Flag(paused) => (MpvProperties { is_paused: paused, ..props }, PropertyUpdate::Nothing),
            _ => (props, PropertyUpdate::Nothing),
        }
    } else if name == "duration"@ {
        (props, if change is Double { PropertyUpdate::Duration } else { PropertyUpdate::Nothing })
    } else if name == "volume"@ {
        match change {
            PropertyData::Int64(volume) => (MpvProperties { volume, ..props }, PropertyUpdate::Nothing),
            _ => (props, PropertyUpdate::Nothing),
        }
    } else if name == "demuxer-cache-state"@ {
        (props, if change is Node { PropertyUpdate::SeekableRanges } else { PropertyUpdate::Nothing })
    } else {
        (props, PropertyUpdate::Nothing)
    }
}

/// The command of a key event on the player page.
pub open spec fn key_command(input: KeyboardInput) -> PlayerCommand {
    let seek = if input.shift { 1u32 } else { 5u32 };
    if !input.released {
        PlayerCommand::Nothing
    } else {
        match input.key {
            Some(Key::Left) => PlayerCommand::SeekBackward(seek),
            Some(Key::Right) => PlayerCommand::SeekForward(seek),
            Some(Key::Space) => PlayerCommand::TogglePause,
            _ => PlayerCommand::Nothing,
        }
    }
}

/// Law: released arrow keys seek by the same amount both ways: one second
/// with shift held, five without; space toggles pause whatever shift says;
/// a key that is only pressed does nothing.
pub proof fn lemma_arrow_keys_seek_alike(shift: bool)
    ensures
        key_command(KeyboardInput { key: Some(Key::Left), released: true, shift }) == PlayerCommand::SeekBackward(
            if shift { 1 } else { 5 },
        ),
        key_command(KeyboardInput { key: Some(Key::Right), released: true, shift })
            == PlayerCommand::SeekForward(if shift { 1 } else { 5 }),
        key_command(KeyboardInput { key: Some(Key::Space), released: true, shift })
            == PlayerCommand::TogglePause,
        forall|key: Option<Key>| key_command(KeyboardInput { key, released: false, shift }) == PlayerCommand::Nothing,
{
}

/// Law: a change of the "pause" property to a flag sets the paused state to
/// that flag, whatever it was, and a change of the "volume" property to an
/// integer sets the volume to it; neither touches the other property nor
/// asks the interface to copy anything.
pub proof fn lemma_pause_and_volume_follow_player(props: MpvProperties, paused: bool, volume: i64)
    ensures
        property_change(props, "pause"@, PropertyData::Flag(paused)).0.is_paused == paused,
        property_change(props, "pause"@, PropertyData::Flag(paused)).0.volume == props.volume,
        property_change(props, "pause"@, PropertyData::Flag(paused)).1 == PropertyUpdate::Nothing,
        property_change(props, "volume"@, PropertyData::Int64(volume)).0.volume == volume,
        property_change(props, "volume"@, PropertyData::Int64(volume)).0.is_paused == props.is_paused,
        property_change(props, "volume"@, PropertyData::Int64(volume)).1 == PropertyUpdate::Nothing,
{
    reveal_strlit("time-pos");
    reveal_strlit("pause");
    reveal_strlit("duration");
    reveal_strlit("volume");
    assert("pause"@.len() != "time-pos"@.len());
    assert("volume"@.len() != "time-pos"@.len());
    assert("volume"@.len() != "pause"@.len());
    assert("volume"@.len() != "duration"@.len());
}

/// Law: a change of "time-pos", "duration" or "demuxer-cache-state" never
/// changes the paused state or the volume; the interface is asked to copy
/// the play position or the length exactly when a fractional value came
/// with them, and the buffered ranges exactly when a node came with them.
pub proof fn lemma_fractional_properties_are_copied(props: MpvProperties, change: PropertyData)
    ensures
        property_change(props, "time-pos"@, change).0 == props,
        property_change(props, "duration"@, change).0 == props,
        property_change(props, "demuxer-cache-state"@, change).0 == props,
        (property_change(props, "time-pos"@, change).1 == PropertyUpdate::TimePos) <==> change
            == PropertyData::Double,
        (property_change(props, "duration"@, change).1 == PropertyUpdate::Duration) <==> change
            == PropertyData::Double,
        (property_change(props, "demuxer-cache-state"@, change).1 == PropertyUpdate::SeekableRanges)
            <==> change == PropertyData::Node,
{
    reveal_strlit("time-pos");
    reveal_strlit("pause");
    reveal_strlit("duration");
    reveal_strlit("volume");
    reveal_strlit("demuxer-cache-state");
    assert("duration"@[0] != "time-pos"@[0]);
    assert("duration"@.len() != "pause"@.len());
    assert("demuxer-cache-state"@.len() != "time-pos"@.len());
    assert("demuxer-cache-state"@.len() != "pause"@.len());
    assert("demuxer-cache-state"@.len() != "duration"@.len());
    assert("demuxer-cache-state"@.len() != "volume"@.len());
}

/// The volume after the wheel turned: five up, or five down but not below
/// zero from a volume of one to four; none when it does not change.
pub open spec fn scrolled_volume_spec(current: i64, direction: ScrollDirection) -> Option<int> {
    match direction {
        ScrollDirection::Up => Some(current + 5),
        ScrollDirection::Down => if current == 0 {
            None
        } else if 0 <= current <= 4 {
            Some(0)
        } else {
            Some(current - 5)
        },
        ScrollDirection::Still => None,
    }
}

/// The new volume when the wheel turned in `direction` at volume `current`.
pub fn scrolled_volume(current: i64, direction: ScrollDirection) -> (r: Option<i64>)
    requires
        direction == ScrollDirection::Up ==> current <= i64::MAX - 5,
        direction == ScrollDirection::Down ==> (0 <= current <= 4 || current >= i64::MIN + 5),
    ensures
        r matches Some(v) ==> scrolled_volume_spec(current, direction) == Some(v as int),
        r is None ==> scrolled_volume_spec(current, direction) is None,
{
    match direction {
        ScrollDirection::Up => Some(current + 5),
        ScrollDirection::Down => {
            if current == 0 {
                None
            } else if 0 <= current && current <= 4 {
                Some(0)
            } else {
                Some(current - 5)
            }
        },
        ScrollDirection::Still => None,
    }
}

/// Law: turning the wheel one notch up then one notch down gives back a
/// volume that is not negative.
pub proof fn lemma_scroll_up_then_down(current: i64)
    requires
        0 <= current <= i64::MAX - 5,
    ensures
        scrolled_volume_spec(current, ScrollDirection::Up) == Some(current + 5),
        scrolled_volume_spec((current + 5) as i64, ScrollDirection::Down) == Some(current as int),
{
}

/// Law: turning the wheel never makes a volume that is not negative
/// negative.
pub proof fn lemma_scroll_keeps_volume_non_negative(current: i64, direction: ScrollDirection)
    requires
        current >= 0,
    ensures
        scrolled_volume_spec(current, direction) matches Some(v) ==> v >= 0,
{
}

/// The volume after a click on the volume icon: muted to 0, or back to 100
/// from mute.
pub fn volume_after_mute_toggle(volume: i64) -> (r: i64)
    ensures
        r == (if volume == 0 { 100i64 } else { 0i64 }),
{
    if volume == 0 {
        100
    } else {
        0
    }
}

/// Name for whether `reqwest::Url::parse` (the `url` crate's parser) accepts
/// a text as an address.
pub uninterp spec fn url_parses(text: Seq<char>) -> bool;

/// Whether `reqwest::Url::parse` accepts `text`. The contract claims only
/// that the answer is a function of the text, under the name `url_parses`.
#[verifier::external_body]
fn is_valid_url(text: &str) -> (r: bool)
    ensures
        r == url_parses(text@),
{
    reqwest::Url::parse(text).is_ok()
}

impl App {
    /// The application at start: the onboarding page when no server is set,
    /// else the overview.
    pub fn new(config: Config) -> (r: App)
        ensures
            r.page == (if config.server_address@.len() == 0 { Pages::Onboarding } else { Pages::Overview }),
            r.page_state == default_state(r.page),
            r.properties == (MpvProperties { is_paused: false, volume: 100 }),
            r.config == config,
    {
        let page = if config.server_address.as_str().is_empty() {
            Pages::Onboarding
        } else {
            Pages::Overview
        };
        let page_state = page.get_default_state();
        App { page, page_state, properties: MpvProperties { is_paused: false, volume: 100 }, config }
    }

    /// The page shown.
    pub fn get_page(&self) -> (r: Pages)
        ensures
            r == self.page,
    {
        self.page
    }

    /// The state of the page shown.
    pub fn get_page_state(&self) -> (r: &PageState)
        ensures
            *r == self.page_state,
    {
        &self.page_state
    }

    /// Shows `page`, in the state it starts with.
    pub fn navigate(&mut self, page: Pages)
        ensures
            final(self).page == page,
            final(self).page_state == default_state(page),
            final(self).properties == old(self).properties,
            final(self).config == old(self).config,
    {
        self.page = page;
        self.page_state = page.get_default_state();
    }

    /// Whether a click on the page body toggles pause: on the player page.
    pub fn on_body_click(&self) -> (r: bool)
        ensures
            r == (self.page == Pages::Player),
    {
        self.page == Pages::Player
    }

    /// The command for a key event: keys act on the player page only, when
    /// released: left and right seek by five seconds (one with shift),
    /// space toggles pause.
    pub fn handle_player_keyboard_events(&self, input: &KeyboardInput) -> (r: PlayerCommand)
        ensures
            r == (if self.page == Pages::Player { key_command(*input) } else { PlayerCommand::Nothing }),
    {
        if self.page != Pages::Player {
            return PlayerCommand::Nothing;
        }
        if input.key.is_none() {
            return PlayerCommand::Nothing;
        }
        if !input.released {
            return PlayerCommand::Nothing;
        }
        let seek: u32 = if input.shift { 1 } else { 5 };
        match input.key {
            Some(Key::Left) => PlayerCommand::SeekBackward(seek),
            Some(Key::Right) => PlayerCommand::SeekForward(seek),
            Some(Key::Space) => PlayerCommand::TogglePause,
            _ => PlayerCommand::Nothing,
        }
    }

    /// The command for a mouse event on the player page: moving shows the
    /// controls, turning the wheel by lines changes the volume.
    pub fn handle_player_mouse_events(&self, input: &WindowInput) -> (r: PlayerCommand)
        ensures
            r == (if self.page != Pages::Player {
                PlayerCommand::Nothing
            } else {
                match *input {
                    WindowInput::CursorMoved => PlayerCommand::ShowControls,
                    WindowInput::WheelLines(direction) => PlayerCommand::ScrollVolume(direction),
                    _ => PlayerCommand::Nothing,
                }
            }),
    {
        if self.page != Pages::Player {
            return PlayerCommand::Nothing;
        }
        match input {
            WindowInput::CursorMoved => PlayerCommand::ShowControls,
            WindowInput::WheelLines(direction) => PlayerCommand::ScrollVolume(*direction),
            _ => PlayerCommand::Nothing,
        }
    }

    /// Takes in an event of the player: playback starting shows the player,
    /// the end of a file shows the overview (both unpause); a property change
    /// updates the property.
    pub fn handle_mpv_events(&mut self, event: &MpvEvent) -> (r: PropertyUpdate)
        ensures
            final(self).config == old(self).config,
            final(self).page_state == old(self).page_state,
            match *event {
                MpvEvent::PlaybackRestart => {
                    &&& final(self).page == Pages::Player
                    &&& final(self).properties == MpvProperties { is_paused: false, ..old(self).properties }
                    &&& r == PropertyUpdate::Nothing
                },
                MpvEvent::EndFile => {
                    &&& final(self).page == Pages::Overview
                    &&& final(self).properties == MpvProperties { is_paused: false, ..old(self).properties }
                    &&& r == PropertyUpdate::Nothing
                },
                MpvEvent::PropertyChange { name, change } => {
                    &&& final(self).page == old(self).page
                    &&& (final(self).properties, r) == property_change(old(self).properties, name@, change)
                },
                MpvEvent::Other => {
                    &&& final(self).page == old(self).page
                    &&& final(self).properties == old(self).properties
                    &&& r == PropertyUpdate::Nothing
                },
            },
    {
        match event {
            MpvEvent::PlaybackRestart => {
                self.page = Pages::Player;
                self.properties.is_paused = false;
                PropertyUpdate::Nothing
            },
            MpvEvent::EndFile => {
                self.page = Pages::Overview;
                self.properties.is_paused = false;
                PropertyUpdate::Nothing
            },
            MpvEvent::PropertyChange { name, change } => {
                if *name == "time-pos".to_owned() {
                    if *change == PropertyData::Double {
                        PropertyUpdate::TimePos
                    } else {
                        PropertyUpdate::Nothing
                    }
                } else if *name == "pause".to_owned() {
                    if let PropertyData::Flag(paused) = change {
                        self.properties.is_paused = *paused;
                    }
                    PropertyUpdate::Nothing
                } else if *name == "duration".to_owned() {
                    if *change == PropertyData::Double {
                        PropertyUpdate::Duration
                    } else {
                        PropertyUpdate::Nothing
                    }
                } else if *name == "volume".to_owned() {
                    if let PropertyData::Int64(volume) = change {
                        self.properties.volume = *volume;
                    }
                    PropertyUpdate::Nothing
                } else if *name == "demuxer-cache-state".to_owned() {
                    if *change == PropertyData::Node {
                        PropertyUpdate::SeekableRanges
                    } else {
                        PropertyUpdate::Nothing
                    }
                } else {
                    PropertyUpdate::Nothing
                }
            },
            MpvEvent::Other => PropertyUpdate::Nothing,
        }
    }

    /// Takes in the server address entered on the onboarding page, given
    /// whether it is a valid address. An empty entry changes nothing;
    /// otherwise the entry becomes the server address of the settings.
    pub fn apply_server_address(&mut self, server_address: String, valid: bool) -> (r: AddressStatus)
        ensures
            final(self).page == old(self).page,
            final(self).page_state == old(self).page_state,
            final(self).properties == old(self).properties,
            server_address@.len() == 0 ==> r == AddressStatus::Empty && final(self).config == old(self).config,
            server_address@.len() > 0 ==> {
                &&& r == (if valid { AddressStatus::Valid } else { AddressStatus::Invalid })
                &&& final(self).config.server_address@ == server_address@
            },
    {
        if server_address.as_str().is_empty() {
            return AddressStatus::Empty;
        }
        self.config.server_address = server_address;
        if valid {
            AddressStatus::Valid
        } else {
            AddressStatus::Invalid
        }
    }

    /// Takes in the server address entered on the onboarding page: tests
    /// it with `reqwest::Url::parse`, then as `apply_server_address`.
    pub fn onboarding_edit(&mut self, server_address: String) -> (r: AddressStatus)
        ensures
            final(self).page == old(self).page,
            final(self).page_state == old(self).page_state,
            final(self).properties == old(self).properties,
            server_address@.len() == 0 ==> r == AddressStatus::Empty && final(self).config == old(self).config,
            server_address@.len() > 0 ==> {
                &&& r == (if url_parses(server_address@) { AddressStatus::Valid } else { AddressStatus::Invalid })
                &&& final(self).config.server_address@ == server_address@
            },
    {
        let valid = is_valid_url(server_address.as_str());
        self.apply_server_address(server_address, valid)
    }

    /// "Save" was clicked on the onboarding page (it is offered next to a
    /// valid address only): start trying the server.
    pub fn onboarding_save(&mut self)
        requires
            old(self).page_state is Onboarding,
        ensures
            final(self).page == old(self).page,
            final(self).properties == old(self).properties,
            final(self).config == old(self).config,
            final(self).page_state == PageState::Onboarding(
                Onboarding { try_request: true, ..old(self).page_state->Onboarding_0 },
            ),
    {
        if let PageState::Onboarding(state) = &mut self.page_state {
            state.try_request = true;
        }
    }

    /// Whether the onboarding page is trying the entered server.
    pub fn onboarding_tries_server(&self) -> (r: bool)
        ensures
            r == (self.page_state matches PageState::Onboarding(state) && state.try_request),
    {
        match &self.page_state {
            PageState::Onboarding(state) => state.try_request,
            _ => false,
        }
    }

    /// Takes in the server's answer to the list of series while the
    /// onboarding page tries the server: an error stops the trying and is
    /// kept to be shown; an answer shows the overview.
    pub fn onboarding_on_series<T>(&mut self, result: &FetchResult<T>) -> (r: OnboardingAction)
        requires
            old(self).page_state is Onboarding,
        ensures
            final(self).properties == old(self).properties,
            final(self).config == old(self).config,
            !old(self).page_state->Onboarding_0.try_request ==> {
                &&& r == OnboardingAction::Idle
                &&& final(self).page == old(self).page
                &&& final(self).page_state == old(self).page_state
            },
            old(self).page_state->Onboarding_0.try_request ==> match *result {
                FetchResult::Loading => {
                    &&& r == OnboardingAction::ShowLoading
                    &&& final(self).page == old(self).page
                    &&& final(self).page_state == old(self).page_state
                },
                FetchResult::Error(message) => {
                    &&& r == OnboardingAction::Idle
                    &&& final(self).page == old(self).page
                    &&& final(self).page_state == PageState::Onboarding(
                        Onboarding { try_request: false, last_error: Some(message) },
                    )
                },
                FetchResult::Loaded(_) => {
                    &&& r == OnboardingAction::SaveConfig
                    &&& final(self).page == Pages::Overview
                    &&& final(self).page_state == default_state(Pages::Overview)
                },
            },
    {
        if !self.onboarding_tries_server() {
            return OnboardingAction::Idle;
        }
        match result {
            FetchResult::Loading => OnboardingAction::ShowLoading,
            FetchResult::Error(message) => {
                self.page_state = PageState::Onboarding(
                    Onboarding { try_request: false, last_error: Some(message.clone()) },
                );
                OnboardingAction::Idle
            },
            FetchResult::Loaded(_) => {
                self.navigate(Pages::Overview);
                OnboardingAction::SaveConfig
            },
        }
    }
}

} // verus!
