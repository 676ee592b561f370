use crate::backend::error::NMError;
use crate::device::wifi::access_point::NetworkDisplayInfo;
use crate::device::wifi::sec_types::WifiSecurity;
use crate::tui::app::{selection_error_text, selection_lookup, AppState, AppStatus, InputMode};
use crate::tui::error::FrontendError;
use vstd::prelude::*;

verus! {

/// What the backend and the front end report to the state.
#[derive(Debug)]
pub enum AppAction {
    /// Takes the SSID we are connecting to.
    ConnectStarted(String),
    /// What happened after connecting.
    ConnectFinished(Result<String, NMError>),
    /// A `FrontendError` occurred.
    FrontendError(FrontendError),
    NMError(NMError),
}


/// What pressing Enter comes to.
pub enum ConnectStep {
    /// Nothing to connect to now; the error is to be reported.
    Rejected(FrontendError),
    /// The network needs a password; the prompt is open.
    PasswordNeeded,
    /// Connect to this network, with this password.
    Start { network: NetworkDisplayInfo, password: Option<String> },
}

/// Decides what an Enter press does. A connection already under way is
/// refused; so is a press with no network highlighted. A secured network
/// with no password typed opens the password prompt. Otherwise the
/// connection starts with the typed password, which is dropped from the
/// state, and the prompt closes.
pub fn begin_connect(app: &mut AppState) -> (r: ConnectStep)
    ensures
        old(app).status matches Some(AppStatus::IsConnecting(_)) ==> r == ConnectStep::Rejected(
            FrontendError::AlreadyConnecting,
        ) && *final(app) == *old(app),
        !(old(app).status matches Some(AppStatus::IsConnecting(_))) ==> match selection_lookup(
            old(app).networks@,
            old(app).list_state@,
        ) {
            None => *final(app) == *old(app) && (r matches ConnectStep::Rejected(
                FrontendError::Tui(m),
            ) && m@ == selection_error_text(old(app).list_state@)),
            Some(n) => if n.security != WifiSecurity::Open && old(app).password_buffer is None {
                r == ConnectStep::PasswordNeeded && *final(app) == AppState {
                    input_mode: InputMode::PasswordInput,
                    ..*old(app)
                }
            } else {
                r == ConnectStep::Start { network: n, password: old(app).password_buffer }
                    && *final(app) == AppState {
                    password_buffer: None,
                    input_mode: InputMode::Normal,
                    ..*old(app)
                }
            },
        },
{
    if let Some(AppStatus::IsConnecting(_)) = &app.status {
        return ConnectStep::Rejected(FrontendError::AlreadyConnecting);
    }
    let network = match app.network_from_selected() {
        Ok(n) => n,
        Err(e) => {
            return ConnectStep::Rejected(e);
        },
    };
    if network.security != WifiSecurity::Open && app.password_buffer.is_none() {
        app.input_mode = InputMode::PasswordInput;
        return ConnectStep::PasswordNeeded;
    }
    let password = app.password_buffer.take();
    app.input_mode = InputMode::Normal;
    ConnectStep::Start { network, password }
}

} // verus!
