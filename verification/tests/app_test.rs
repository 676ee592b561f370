use wifi_gui::backend::error::NMError;
use wifi_gui::device::wifi::access_point::{AccessPointUpdate, NetworkDisplayInfo};
use wifi_gui::device::wifi::sec_types::WifiSecurity;
use wifi_gui::tui::app::{AppState, AppStatus, InputMode, KeyInput, KeyOutcome};
use wifi_gui::tui::error::FrontendError;
use wifi_gui::tui::handler::{begin_connect, AppAction, ConnectStep};

fn mock_network(ssid: &str, strength: u8, path: &str) -> NetworkDisplayInfo {
    NetworkDisplayInfo {
        ssid: ssid.into(),
        strength,
        path: path.into(),
        band: "5GHz".into(),
        security: WifiSecurity::Wpa2,
    }
}

/// Multiple access points with the same SSID are deduplicated, keeping only
/// the one with the strongest signal.
#[test]
fn test_deduplication_on_added() {
    let mut app = AppState::new();
    let net1 = mock_network("A", 50, "/1");
    let net2 = mock_network("A", 80, "/2");

    app.apply_update(AccessPointUpdate::Added(net1));
    app.apply_update(AccessPointUpdate::Added(net2));

    assert_eq!(app.networks.len(), 1);
    assert_eq!(app.networks[0].strength, 80);
    assert_eq!(app.networks[0].path, "/2");
}

/// The selection sticks to the chosen path even if its position in the list
/// changes due to sorting.
#[test]
fn test_selection_persistence_after_sort() {
    let mut app = AppState::new();
    let net1 = mock_network("A", 50, "/1");
    let net2 = mock_network("B", 30, "/2");

    app.set_networks(vec![net1.clone(), net2.clone()]);
    app.selected_path = Some("/2".into());

    app.apply_update(AccessPointUpdate::PropertyChanged {
        path: "/2".into(),
        strength: 90,
    });

    assert_eq!(app.list_state.selected(), Some(0));
    assert_eq!(app.selected_path.as_ref().unwrap(), "/2");
}

/// If the selected network is removed, the selection falls back to the first
/// remaining item.
#[test]
fn test_remove_selected_item() {
    let mut app = AppState::new();
    let net1 = mock_network("A", 50, "/1");
    let net2 = mock_network("B", 30, "/2");
    app.set_networks(vec![net1.clone(), net2.clone()]);

    app.next();
    app.apply_update(AccessPointUpdate::Removed("/2".to_string()));

    assert_eq!(app.networks.len(), 1);
    assert_eq!(app.list_state.selected(), Some(0));
    assert_eq!(app.selected_path, Some("/1".to_string()));
}

/// Removing the only network clears the list, the remembered path and the
/// highlight.
#[test]
fn test_remove_last_item() {
    let mut app = AppState::new();
    let net1 = mock_network("A", 50, "/1");

    app.set_networks(vec![net1.clone()]);

    app.apply_update(AccessPointUpdate::Removed("/1".to_string()));

    assert_eq!(app.networks.len(), 0);
    assert_eq!(app.selected_path, None);
    assert_eq!(app.list_state.selected(), None);
}

#[test]
fn weaker_duplicate_is_ignored_and_new_ssid_is_added_in_order() {
    let mut app = AppState::new();
    app.apply_update(AccessPointUpdate::Added(mock_network("A", 80, "/1")));
    app.apply_update(AccessPointUpdate::Added(mock_network("A", 80, "/2")));
    app.apply_update(AccessPointUpdate::Added(mock_network("A", 10, "/3")));
    assert_eq!(app.networks.len(), 1);
    assert_eq!(app.networks[0].path, "/1");
    app.apply_update(AccessPointUpdate::Added(mock_network("B", 90, "/4")));
    app.apply_update(AccessPointUpdate::Added(mock_network("C", 80, "/5")));
    let paths: Vec<&str> = app.networks.iter().map(|n| n.path.as_str()).collect();
    // stable: "A" (80) was there before "C" (80)
    assert_eq!(paths, vec!["/4", "/1", "/5"]);
    assert_eq!(app.selected_path, Some("/1".to_string()));
    assert_eq!(app.list_state.selected(), Some(1));
}

#[test]
fn property_change_of_unknown_path_only_sorts() {
    let mut app = AppState::new();
    app.set_networks(vec![mock_network("A", 10, "/1"), mock_network("B", 70, "/2")]);
    assert_eq!(app.list_state.selected(), Some(0));
    app.apply_update(AccessPointUpdate::PropertyChanged { path: "/9".into(), strength: 99 });
    assert_eq!(app.networks[0].path, "/2");
    assert_eq!(app.networks[1].strength, 10);
    assert_eq!(app.list_state.selected(), Some(1));
    assert_eq!(app.selected_path, Some("/1".to_string()));
}

#[test]
fn next_and_previous_wrap_around() {
    let mut app = AppState::new();
    app.next();
    assert_eq!(app.list_state.selected(), None);
    app.set_networks(vec![
        mock_network("A", 90, "/1"),
        mock_network("B", 50, "/2"),
        mock_network("C", 10, "/3"),
    ]);
    app.previous();
    assert_eq!(app.list_state.selected(), Some(2));
    assert_eq!(app.selected_path, Some("/3".to_string()));
    app.next();
    assert_eq!(app.list_state.selected(), Some(0));
    app.next();
    app.previous();
    assert_eq!(app.list_state.selected(), Some(0));
    assert_eq!(app.selected_path, Some("/1".to_string()));
}

#[test]
fn network_from_selected_errors() {
    let mut app = AppState::new();
    match app.network_from_selected() {
        Err(FrontendError::Tui(m)) => {
            assert_eq!(m, "The selected network resulted in no index or other Tui error!")
        }
        _ => panic!("expected a Tui error"),
    }
    app.set_networks(vec![mock_network("A", 90, "/1")]);
    assert_eq!(app.network_from_selected().unwrap().path, "/1");
    app.set_networks(vec![]);
    match app.network_from_selected() {
        Err(FrontendError::Tui(m)) => assert_eq!(m, "The selected network resulted in no index or other Tui error!"),
        _ => panic!("expected a Tui error"),
    }
}

#[test]
fn actions_set_the_status_line() {
    let mut app = AppState::new();
    assert_eq!(app.status_text(), "Idle");
    app.handle_action(AppAction::ConnectStarted("Home".into()));
    assert!(matches!(&app.status, Some(AppStatus::IsConnecting(m)) if m == "Connecting to Home"));
    app.handle_action(AppAction::ConnectFinished(Ok("done".into())));
    assert_eq!(app.status_text(), "done");
    app.handle_action(AppAction::ConnectFinished(Err(NMError::ConnectionFailed("Home".into()))));
    assert_eq!(app.status_text(), "Backend error: Failed to connect to SSID Home");
    app.handle_action(AppAction::FrontendError(FrontendError::AlreadyConnecting));
    assert_eq!(app.status_text(), "Already working on connecting to a network");
    app.handle_action(AppAction::NMError(NMError::NoDeviceFound));
    assert_eq!(app.status_text(), "No device found!");
    app.handle_action(AppAction::NMError(NMError::NetworkNotFound("x".into())));
    assert!(matches!(&app.status, Some(AppStatus::Error(m)) if m == "Network not found: x"));
}

#[test]
fn error_messages() {
    assert_eq!(NMError::InvalidSsid("s".into()).message(), "Invalid SSID s");
    assert_eq!(NMError::SignalError("m".into()).message(), "Signal error: m");
    assert!(NMError::Dbus(zbus::Error::Unsupported).message().starts_with("D-bus error: "));
    assert_eq!(FrontendError::Tui("t".into()).message(), "An error occured in the Tui with message: t");
    assert_eq!(FrontendError::System("s".into()).message(), "A system error occured with message: s");
}

#[test]
fn keys_drive_the_state() {
    let mut app = AppState::new();
    app.set_networks(vec![mock_network("A", 90, "/1"), mock_network("B", 50, "/2")]);
    assert_eq!(app.handle_key(KeyInput::Down), KeyOutcome::Handled);
    assert_eq!(app.list_state.selected(), Some(1));
    assert_eq!(app.handle_key(KeyInput::Up), KeyOutcome::Handled);
    assert_eq!(app.list_state.selected(), Some(0));
    assert_eq!(app.handle_key(KeyInput::Char('x')), KeyOutcome::Handled);
    assert_eq!(app.handle_key(KeyInput::Enter), KeyOutcome::Connect);
    assert_eq!(app.handle_key(KeyInput::Char('q')), KeyOutcome::Quit);

    app.input_mode = InputMode::PasswordInput;
    assert_eq!(app.handle_key(KeyInput::Char('q')), KeyOutcome::Handled);
    assert_eq!(app.handle_key(KeyInput::Char('w')), KeyOutcome::Handled);
    assert_eq!(app.password_buffer, Some("qw".to_string()));
    assert_eq!(app.handle_key(KeyInput::Backspace), KeyOutcome::Handled);
    assert_eq!(app.password_buffer, Some("q".to_string()));
    app.handle_key(KeyInput::Backspace);
    app.handle_key(KeyInput::Backspace);
    assert_eq!(app.password_buffer, Some(String::new()));
    assert_eq!(app.handle_key(KeyInput::Enter), KeyOutcome::Connect);
    assert_eq!(app.handle_key(KeyInput::Esc), KeyOutcome::Handled);
    assert_eq!(app.input_mode, InputMode::Normal);
    assert_eq!(app.password_buffer, None);
}

#[test]
fn connect_flow() {
    let mut app = AppState::new();
    assert!(matches!(begin_connect(&mut app), ConnectStep::Rejected(FrontendError::Tui(_))));

    app.set_networks(vec![mock_network("Home", 90, "/1")]);
    assert!(matches!(begin_connect(&mut app), ConnectStep::PasswordNeeded));
    assert_eq!(app.input_mode, InputMode::PasswordInput);

    app.password_buffer = Some("secret".into());
    match begin_connect(&mut app) {
        ConnectStep::Start { network, password } => {
            assert_eq!(network.ssid, "Home");
            assert_eq!(password, Some("secret".to_string()));
        }
        _ => panic!("expected a start"),
    }
    assert_eq!(app.password_buffer, None);
    assert_eq!(app.input_mode, InputMode::Normal);

    app.handle_action(AppAction::ConnectStarted("Home".into()));
    assert!(matches!(
        begin_connect(&mut app),
        ConnectStep::Rejected(FrontendError::AlreadyConnecting)
    ));

    let mut open = AppState::new();
    let mut net = mock_network("Cafe", 40, "/7");
    net.security = WifiSecurity::Open;
    open.set_networks(vec![net]);
    match begin_connect(&mut open) {
        ConnectStep::Start { network, password } => {
            assert_eq!(network.path, "/7");
            assert_eq!(password, None);
        }
        _ => panic!("expected a start"),
    }
}

#[test]
fn empty_list_ignores_any_highlight() {
    let mut app = AppState::new();
    app.previous();
    app.next();
    assert_eq!(app.list_state.selected(), None);
    assert_eq!(app.handle_key(KeyInput::Up), KeyOutcome::Handled);
    assert_eq!(app.selected_path, None);
}
