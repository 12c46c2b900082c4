use playarr::pages::Episode;
use playarr::pages::Onboarding;
use playarr::pages::PageState;
use playarr::pages::Pages;
use playarr::pages::Show;
use playarr::server::network_cache::FetchResult;
use playarr::ui::scrolled_volume;
use playarr::ui::volume_after_mute_toggle;
use playarr::ui::AddressStatus;
use playarr::ui::App;
use playarr::ui::Config;
use playarr::ui::Key;
use playarr::ui::KeyboardInput;
use playarr::ui::MpvEvent;
use playarr::ui::MpvProperties;
use playarr::ui::OnboardingAction;
use playarr::ui::PlayerCommand;
use playarr::ui::PropertyData;
use playarr::ui::PropertyUpdate;
use playarr::ui::ScrollDirection;
use playarr::ui::WindowInput;

fn app_with(address: &str) -> App {
    App::new(Config { server_address: address.to_string() })
}

fn onboarding_state(app: &App) -> Onboarding {
    match app.get_page_state() {
        PageState::Onboarding(s) => s.clone(),
        _ => panic!("not on the onboarding page"),
    }
}

#[test]
fn default_states_of_pages() {
    assert!(matches!(Pages::Overview.get_default_state(), PageState::Overview(_)));
    assert!(matches!(Pages::Player.get_default_state(), PageState::Player));
    match Pages::Onboarding.get_default_state() {
        PageState::Onboarding(s) => {
            assert!(!s.try_request);
            assert_eq!(s.last_error, None);
        }
        _ => panic!("wrong state"),
    }
    match (Pages::Show { id: 3, season: 2 }).get_default_state() {
        PageState::Show(s) => assert_eq!(s, Show { id: 3, season: 2 }),
        _ => panic!("wrong state"),
    }
    match (Pages::Episode { id: 8 }).get_default_state() {
        PageState::Episode(s) => assert_eq!(s, Episode { id: 8 }),
        _ => panic!("wrong state"),
    }
}

#[test]
fn start_page_depends_on_server() {
    let a = app_with("");
    assert_eq!(a.get_page(), Pages::Onboarding);
    let b = app_with("http://localhost:8000");
    assert_eq!(b.get_page(), Pages::Overview);
    assert_eq!(b.properties, MpvProperties { is_paused: false, volume: 100 });
    assert_eq!(MpvProperties::default(), MpvProperties { is_paused: false, volume: 100 });
}

#[test]
fn navigate_resets_page_state() {
    let mut a = app_with("http://x");
    a.navigate(Pages::Show { id: 5, season: 1 });
    assert_eq!(a.get_page(), Pages::Show { id: 5, season: 1 });
    assert!(matches!(a.get_page_state(), PageState::Show(Show { id: 5, season: 1 })));
    a.navigate(Pages::Episode { id: 2 });
    assert_eq!(a.get_page(), Pages::Episode { id: 2 });
    assert!(matches!(a.get_page_state(), PageState::Episode(Episode { id: 2 })));
}

#[test]
fn body_click_pauses_only_on_player() {
    let mut a = app_with("http://x");
    assert!(!a.on_body_click());
    a.navigate(Pages::Player);
    assert!(a.on_body_click());
}

#[test]
fn keys_on_player_page() {
    let mut a = app_with("http://x");
    let left = KeyboardInput { key: Some(Key::Left), released: true, shift: false };
    assert_eq!(a.handle_player_keyboard_events(&left), PlayerCommand::Nothing);
    a.navigate(Pages::Player);
    assert_eq!(a.handle_player_keyboard_events(&left), PlayerCommand::SeekBackward(5));
    let right_shift = KeyboardInput { key: Some(Key::Right), released: true, shift: true };
    assert_eq!(a.handle_player_keyboard_events(&right_shift), PlayerCommand::SeekForward(1));
    let space = KeyboardInput { key: Some(Key::Space), released: true, shift: false };
    assert_eq!(a.handle_player_keyboard_events(&space), PlayerCommand::TogglePause);
    let pressed = KeyboardInput { key: Some(Key::Space), released: false, shift: false };
    assert_eq!(a.handle_player_keyboard_events(&pressed), PlayerCommand::Nothing);
    let none = KeyboardInput { key: None, released: true, shift: false };
    assert_eq!(a.handle_player_keyboard_events(&none), PlayerCommand::Nothing);
    let other = KeyboardInput { key: Some(Key::Other), released: true, shift: false };
    assert_eq!(a.handle_player_keyboard_events(&other), PlayerCommand::Nothing);
}

#[test]
fn mouse_on_player_page() {
    let mut a = app_with("http://x");
    assert_eq!(a.handle_player_mouse_events(&WindowInput::CursorMoved), PlayerCommand::Nothing);
    a.navigate(Pages::Player);
    assert_eq!(a.handle_player_mouse_events(&WindowInput::CursorMoved), PlayerCommand::ShowControls);
    assert_eq!(
        a.handle_player_mouse_events(&WindowInput::WheelLines(ScrollDirection::Up)),
        PlayerCommand::ScrollVolume(ScrollDirection::Up)
    );
    assert_eq!(a.handle_player_mouse_events(&WindowInput::WheelPixels), PlayerCommand::Nothing);
    assert_eq!(a.handle_player_mouse_events(&WindowInput::Other), PlayerCommand::Nothing);
}

#[test]
fn wheel_volume_steps() {
    assert_eq!(scrolled_volume(50, ScrollDirection::Up), Some(55));
    assert_eq!(scrolled_volume(100, ScrollDirection::Up), Some(105));
    assert_eq!(scrolled_volume(50, ScrollDirection::Down), Some(45));
    assert_eq!(scrolled_volume(3, ScrollDirection::Down), Some(0));
    assert_eq!(scrolled_volume(5, ScrollDirection::Down), Some(0));
    assert_eq!(scrolled_volume(0, ScrollDirection::Down), None);
    assert_eq!(scrolled_volume(-3, ScrollDirection::Down), Some(-8));
    assert_eq!(scrolled_volume(50, ScrollDirection::Still), None);
    assert_eq!(scrolled_volume(i64::MAX - 5, ScrollDirection::Up), Some(i64::MAX));
}

#[test]
fn mute_toggle() {
    assert_eq!(volume_after_mute_toggle(0), 100);
    assert_eq!(volume_after_mute_toggle(40), 0);
    assert_eq!(volume_after_mute_toggle(-1), 0);
}

#[test]
fn player_events_change_page_and_properties() {
    let mut a = app_with("http://x");
    a.properties.is_paused = true;
    assert_eq!(a.handle_mpv_events(&MpvEvent::PlaybackRestart), PropertyUpdate::Nothing);
    assert_eq!(a.get_page(), Pages::Player);
    assert!(!a.properties.is_paused);
    let pause = MpvEvent::PropertyChange { name: "pause".to_string(), change: PropertyData::Flag(true) };
    assert_eq!(a.handle_mpv_events(&pause), PropertyUpdate::Nothing);
    assert!(a.properties.is_paused);
    let volume = MpvEvent::PropertyChange { name: "volume".to_string(), change: PropertyData::Int64(35) };
    a.handle_mpv_events(&volume);
    assert_eq!(a.properties.volume, 35);
    let wrong = MpvEvent::PropertyChange { name: "volume".to_string(), change: PropertyData::Double };
    assert_eq!(a.handle_mpv_events(&wrong), PropertyUpdate::Nothing);
    assert_eq!(a.properties.volume, 35);
    let time = MpvEvent::PropertyChange { name: "time-pos".to_string(), change: PropertyData::Double };
    assert_eq!(a.handle_mpv_events(&time), PropertyUpdate::TimePos);
    let duration = MpvEvent::PropertyChange { name: "duration".to_string(), change: PropertyData::Double };
    assert_eq!(a.handle_mpv_events(&duration), PropertyUpdate::Duration);
    let cache = MpvEvent::PropertyChange { name: "demuxer-cache-state".to_string(), change: PropertyData::Node };
    assert_eq!(a.handle_mpv_events(&cache), PropertyUpdate::SeekableRanges);
    let unknown = MpvEvent::PropertyChange { name: "speed".to_string(), change: PropertyData::Double };
    assert_eq!(a.handle_mpv_events(&unknown), PropertyUpdate::Nothing);
    assert_eq!(a.handle_mpv_events(&MpvEvent::Other), PropertyUpdate::Nothing);
    assert_eq!(a.get_page(), Pages::Player);
    assert_eq!(a.handle_mpv_events(&MpvEvent::EndFile), PropertyUpdate::Nothing);
    assert_eq!(a.get_page(), Pages::Overview);
    assert!(!a.properties.is_paused);
}

#[test]
fn onboarding_validates_and_saves_address() {
    let mut a = app_with("");
    assert_eq!(a.onboarding_edit(String::new()), AddressStatus::Empty);
    assert_eq!(a.config.server_address, "");
    assert_eq!(a.onboarding_edit("not an address".to_string()), AddressStatus::Invalid);
    assert_eq!(a.config.server_address, "not an address");
    assert!(!a.onboarding_tries_server());
    assert_eq!(a.onboarding_edit("http://localhost:8000".to_string()), AddressStatus::Valid);
    assert_eq!(a.config.server_address, "http://localhost:8000");
    assert_eq!(a.onboarding_edit(String::new()), AddressStatus::Empty);
    assert_eq!(a.config.server_address, "http://localhost:8000");
    assert!(!a.onboarding_tries_server());
    a.onboarding_save();
    assert!(a.onboarding_tries_server());
}

#[test]
fn onboarding_follows_server_answer() {
    let mut a = app_with("");
    assert_eq!(a.onboarding_on_series(&FetchResult::<()>::Loading), OnboardingAction::Idle);
    a.onboarding_save();
    assert_eq!(a.onboarding_on_series(&FetchResult::<()>::Loading), OnboardingAction::ShowLoading);
    assert_eq!(
        a.onboarding_on_series(&FetchResult::<()>::Error("refused".to_string())),
        OnboardingAction::Idle
    );
    let s = onboarding_state(&a);
    assert!(!s.try_request);
    assert_eq!(s.last_error, Some("refused".to_string()));
    assert_eq!(a.get_page(), Pages::Onboarding);
    a.onboarding_save();
    let s = onboarding_state(&a);
    assert_eq!(s.last_error, Some("refused".to_string()));
    assert_eq!(a.onboarding_on_series(&FetchResult::Loaded(())), OnboardingAction::SaveConfig);
    assert_eq!(a.get_page(), Pages::Overview);
    assert!(matches!(a.get_page_state(), PageState::Overview(_)));
}

#[test]
fn apply_address_records_validity() {
    let mut a = app_with("");
    assert_eq!(a.apply_server_address("abc".to_string(), false), AddressStatus::Invalid);
    assert_eq!(a.apply_server_address("abc".to_string(), true), AddressStatus::Valid);
    assert_eq!(a.apply_server_address(String::new(), true), AddressStatus::Empty);
    assert_eq!(a.config.server_address, "abc");
}

#[test]
fn wheel_up_then_down_restores_volume() {
    for volume in [0i64, 1, 4, 5, 37, 100, 150] {
        let up = scrolled_volume(volume, ScrollDirection::Up).unwrap();
        assert_eq!(scrolled_volume(up, ScrollDirection::Down), Some(volume));
    }
}
