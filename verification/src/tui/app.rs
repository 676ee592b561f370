use crate::backend::error::{describes_nm_error, NMError};
use crate::device::wifi::access_point::{AccessPointUpdate, NetworkDisplayInfo};
use crate::device::wifi::ranking::{
    is_first_path, lemma_added_keeps_one_entry_per_ssid, lemma_first_path_unique,
    lemma_stable_sort_keeps_entries, merge_into, is_stable_permutation, merge_network, position_of_path,
    sort_by_strength, sorted_by_strength, stably_sorted_from, unique_ssids,
};
use crate::tui::error::{describes_frontend_error, FrontendError};
use crate::tui::handler::AppAction;
use vstd::prelude::*;
use vstd::string::*;

verus! {

/// Whether keys go to the list or to the password prompt.
#[derive(Debug, Clone, Copy, PartialEq, Eq, Structural)]
pub enum InputMode {
    Normal,
    PasswordInput,
}

/// The message of the status line.
#[derive(Debug, Clone)]
pub enum AppStatus {
    Error(String),
    IsConnecting(String),
    Status(String),
}

/// Which row of the list is highlighted, if any.
#[derive(Debug, Clone, Copy)]
pub struct ListState {
    selected: Option<usize>,
}

impl View for ListState {
    type V = Option<usize>;

    closed spec fn view(&self) -> Option<usize> {
        self.selected
    }
}

impl Default for ListState {
    fn default() -> (r: Self)
        ensures
            r@ is None,
    {
        ListState { selected: None }
    }
}

impl ListState {
    /// The highlighted row.
    pub fn selected(&self) -> (r: Option<usize>)
        ensures
            r == self@,
    {
        self.selected
    }

    /// Highlights a row, or none.
    pub fn select(&mut self, index: Option<usize>)
        ensures
            final(self)@ == index,
    {
        self.selected = index;
    }
}

/// A key press, as the front end reads it.
#[derive(Debug, Clone, Copy, PartialEq, Eq, Structural)]
pub enum KeyInput {
    Char(char),
    Up,
    Down,
    Enter,
    Esc,
    Backspace,
    Other,
}

/// What the loop does after a key press.
#[derive(Debug, Clone, Copy, PartialEq, Eq, Structural)]
pub enum KeyOutcome {
    /// Leave the program.
    Quit,
    /// Try to connect to the highlighted network.
    Connect,
    /// The key was handled, or ignored.
    Handled,
}

/// The state of the terminal front end.
pub struct AppState {
    pub networks: Vec<NetworkDisplayInfo>,
    pub list_state: ListState,
    pub selected_path: Option<String>,
    pub input_mode: InputMode,
    pub password_buffer: Option<String>,
    pub status: Option<AppStatus>,
}

/// The selection when no remembered path can be kept: the first network,
/// or nothing when the list is empty.
pub open spec fn fallback_selection(
    networks: Seq<NetworkDisplayInfo>,
    path: Option<String>,
    sel: Option<usize>,
) -> bool {
    if networks.len() > 0 {
        path == Some(networks[0].path) && sel == Some(0usize)
    } else {
        path is None && sel is None
    }
}

/// The selection after resynchronising with the list: it stays on the
/// remembered path when a network has that path (the first such network),
/// and falls back to the first network otherwise.
pub open spec fn synced_selection(
    networks: Seq<NetworkDisplayInfo>,
    remembered: Option<String>,
    path: Option<String>,
    sel: Option<usize>,
) -> bool {
    match remembered {
        Some(p) => if exists|i: int| is_first_path(networks, i, p@) {
            &&& path == remembered
            &&& sel is Some
            &&& is_first_path(networks, sel->0 as int, p@)
        } else {
            fallback_selection(networks, path, sel)
        },
        None => fallback_selection(networks, path, sel),
    }
}

/// The highlighted row is a row of the list and the remembered path is its
/// path, or nothing is highlighted nor remembered and the list is empty.
pub open spec fn selection_consistent(
    networks: Seq<NetworkDisplayInfo>,
    path: Option<String>,
    sel: Option<usize>,
) -> bool {
    match sel {
        Some(i) => i < networks.len() && path is Some && path->0@ == networks[i as int].path@,
        None => path is None && networks.len() == 0,
    }
}

/// The list after the access point at `path` (the first with that path)
/// reports a new strength, before sorting.
pub open spec fn with_strength(s: Seq<NetworkDisplayInfo>, path: Seq<char>, strength: u8) -> Seq<
    NetworkDisplayInfo,
> {
    if exists|i: int| is_first_path(s, i, path) {
        let i = choose|i: int| is_first_path(s, i, path);
        s.update(i, NetworkDisplayInfo { strength: strength, ..s[i] })
    } else {
        s
    }
}

/// Keeps the networks whose path is not `path`.
pub open spec fn not_at_path(path: Seq<char>) -> spec_fn(NetworkDisplayInfo) -> bool {
    |n: NetworkDisplayInfo| n.path@ != path
}

/// The list after an update: a strength change or a new access point
/// followed by a stable sort from the strongest signal to the weakest, or
/// the list without the networks at the removed path.
pub open spec fn networks_after_update(
    before: Seq<NetworkDisplayInfo>,
    update: AccessPointUpdate,
    after: Seq<NetworkDisplayInfo>,
) -> bool {
    match update {
        AccessPointUpdate::PropertyChanged { path, strength } => stably_sorted_from(
            after,
            with_strength(before, path@, strength),
        ),
        AccessPointUpdate::Added(network) => stably_sorted_from(
            after,
            merge_network(before, network),
        ),
        AccessPointUpdate::Removed(path) => after == before.filter(not_at_path(path@)),
    }
}

/// The list runs from the strongest signal to the weakest and has one entry per SSID.
pub open spec fn list_well_ordered(s: Seq<NetworkDisplayInfo>) -> bool {
    sorted_by_strength(s) && unique_ssids(s)
}

proof fn lemma_filter_keeps_order(s: Seq<NetworkDisplayInfo>, pred: spec_fn(NetworkDisplayInfo) -> bool)
    ensures
        sorted_by_strength(s) ==> sorted_by_strength(s.filter(pred)),
        unique_ssids(s) ==> unique_ssids(s.filter(pred)),
        forall|i: int| 0 <= i < s.filter(pred).len() ==> s.contains(#[trigger] s.filter(pred)[i]),
    decreases s.len(),
{
    reveal(Seq::filter);
    if s.len() > 0 {
        let d = s.drop_last();
        let x = s.last();
        lemma_filter_keeps_order(d, pred);
        let fd = d.filter(pred);
        let f = s.filter(pred);
        assert forall|i: int| 0 <= i < fd.len() implies s.contains(#[trigger] fd[i]) by {
            let j = choose|j: int| 0 <= j < d.len() && d[j] == fd[i];
            assert(s[j] == d[j]);
        }
        if pred(x) {
            assert(f == fd.push(x));
            assert forall|i: int| 0 <= i < f.len() implies s.contains(#[trigger] f[i]) by {
                if i < fd.len() {
                    assert(f[i] == fd[i]);
                } else {
                    assert(s[s.len() - 1] == x);
                }
            }
            if sorted_by_strength(s) {
                assert forall|a: int, b: int| 0 <= a < b < f.len() implies #[trigger] f[a].strength
                    >= #[trigger] f[b].strength by {
                    assert(f[a] == fd[a]);
                    if b < fd.len() {
                        assert(f[b] == fd[b]);
                    } else {
                        let j = choose|j: int| 0 <= j < d.len() && d[j] == fd[a];
                        assert(s[j] == d[j]);
                        assert(s[j].strength >= s[s.len() - 1].strength);
                    }
                }
            }
            if unique_ssids(s) {
                assert forall|a: int, b: int| 0 <= a < b < f.len() implies #[trigger] f[a].ssid@
                    != #[trigger] f[b].ssid@ by {
                    assert(f[a] == fd[a]);
                    if b < fd.len() {
                        assert(f[b] == fd[b]);
                    } else {
                        let j = choose|j: int| 0 <= j < d.len() && d[j] == fd[a];
                        assert(s[j] == d[j]);
                        assert(s[j].ssid@ != s[s.len() - 1].ssid@);
                    }
                }
            }
        } else {
            assert(f == fd);
            if sorted_by_strength(s) {
                assert(sorted_by_strength(d));
            }
            if unique_ssids(s) {
                assert(unique_ssids(d));
            }
        }
    }
}

/// Every update keeps the list running from the strongest signal to the
/// weakest with one entry per SSID.
pub proof fn lemma_update_keeps_list_well_ordered(
    before: Seq<NetworkDisplayInfo>,
    update: AccessPointUpdate,
    after: Seq<NetworkDisplayInfo>,
)
    requires
        list_well_ordered(before),
        networks_after_update(before, update, after),
    ensures
        list_well_ordered(after),
{
    match update {
        AccessPointUpdate::PropertyChanged { path, strength } => {
            let changed = with_strength(before, path@, strength);
            assert(unique_ssids(changed)) by {
                if exists|i: int| is_first_path(before, i, path@) {
                    let i = choose|i: int| is_first_path(before, i, path@);
                    assert forall|a: int, b: int| 0 <= a < b < changed.len() implies
                        #[trigger] changed[a].ssid@ != #[trigger] changed[b].ssid@ by {
                        assert(changed[a].ssid == before[a].ssid);
                        assert(changed[b].ssid == before[b].ssid);
                    }
                }
            }
            lemma_stable_sort_keeps_entries(after, changed);
        },
        AccessPointUpdate::Added(network) => {
            lemma_added_keeps_one_entry_per_ssid(before, network, after);
        },
        AccessPointUpdate::Removed(path) => {
            lemma_filter_keeps_order(before, not_at_path(path@));
        },
    }
}

/// The row after `sel` in a list of `n` rows, wrapping around; no selection counts as the first row.
pub open spec fn next_index(sel: Option<usize>, n: int) -> int {
    let i = match sel {
        Some(i) => i as int,
        None => 0,
    };
    (i + 1) % n
}

/// The row before `sel` in a list of `n` rows, wrapping around; no selection counts as the first row.
pub open spec fn previous_index(sel: Option<usize>, n: int) -> int {
    let i = match sel {
        Some(i) => i as int,
        None => 0,
    };
    if i == 0 {
        n - 1
    } else {
        i - 1
    }
}

/// `new` is `old` with the highlight moved to row `index` and its path remembered.
pub open spec fn moved_to(old: AppState, new: AppState, index: int) -> bool {
    &&& 0 <= index < old.networks@.len()
    &&& new.list_state@ == Some(index as usize)
    &&& new.selected_path == Some(old.networks@[index].path)
    &&& new.networks == old.networks
    &&& new.input_mode == old.input_mode
    &&& new.password_buffer == old.password_buffer
    &&& new.status == old.status
}

/// What `next` does: nothing on an empty list, else highlight the next row.
pub open spec fn moved_next(old: AppState, new: AppState) -> bool {
    if old.networks@.len() == 0 {
        new == old
    } else {
        moved_to(old, new, next_index(old.list_state@, old.networks@.len() as int))
    }
}

/// What `previous` does: nothing on an empty list, else highlight the previous row.
pub open spec fn moved_previous(old: AppState, new: AppState) -> bool {
    if old.networks@.len() == 0 {
        new == old
    } else {
        moved_to(old, new, previous_index(old.list_state@, old.networks@.len() as int))
    }
}

/// The network at the highlighted row, if there is one.
pub open spec fn selection_lookup(networks: Seq<NetworkDisplayInfo>, sel: Option<usize>) -> Option<
    NetworkDisplayInfo,
> {
    match sel {
        Some(i) => if i < networks.len() {
            Some(networks[i as int])
        } else {
            None
        },
        None => None,
    }
}

/// The message of the error when no network is highlighted.
pub open spec fn selection_error_text(sel: Option<usize>) -> Seq<char> {
    match sel {
        Some(_) => "The Network was not found in the Tui list"@,
        None => "The selected network resulted in no index or other Tui error!"@,
    }
}

/// `new` differs from `old` at most in the list, the highlight and the remembered path.
pub open spec fn only_list_changed(old: AppState, new: AppState) -> bool {
    &&& new.input_mode == old.input_mode
    &&& new.password_buffer == old.password_buffer
    &&& new.status == old.status
}

/// `new` differs from `old` at most in the status line.
pub open spec fn only_status_changed(old: AppState, new: AppState) -> bool {
    &&& new.networks == old.networks
    &&& new.list_state == old.list_state
    &&& new.selected_path == old.selected_path
    &&& new.input_mode == old.input_mode
    &&& new.password_buffer == old.password_buffer
}

/// The status line after an action of the backend or the front end.
pub open spec fn status_after(action: AppAction, status: Option<AppStatus>) -> bool {
    match action {
        AppAction::ConnectStarted(ssid) => status matches Some(AppStatus::IsConnecting(m)) && m@
            == "Connecting to "@ + ssid@,
        AppAction::ConnectFinished(Ok(msg)) => status == Some(AppStatus::Status(msg)),
        AppAction::ConnectFinished(Err(e)) => status matches Some(AppStatus::Error(m)) && exists|
            t: Seq<char>,
        | #[trigger] describes_nm_error(e, t) && m@ == "Backend error: "@ + t,
        AppAction::FrontendError(e) => status matches Some(AppStatus::Error(m))
            && describes_frontend_error(e, m@),
        AppAction::NMError(e) => status matches Some(AppStatus::Error(m)) && describes_nm_error(
            e,
            m@,
        ),
    }
}

/// The text of the status line.
pub open spec fn status_text_view(status: Option<AppStatus>) -> Seq<char> {
    match status {
        Some(AppStatus::Error(m)) => m@,
        Some(AppStatus::IsConnecting(m)) => m@,
        Some(AppStatus::Status(m)) => m@,
        None => "Idle"@,
    }
}

/// Calls `String::push`. Claimed: the character is appended.
#[verifier::external_body]
fn string_push(s: &mut String, c: char)
    ensures
        final(s)@ == old(s)@.push(c),
{
    s.push(c)
}

/// Calls `String::pop`. Claimed: the last character is removed and
/// returned; an empty string stays empty and gives `None`.
#[verifier::external_body]
fn string_pop(s: &mut String) -> (r: Option<char>)
    ensures
        old(s)@.len() == 0 ==> r is None && final(s)@ == old(s)@,
        old(s)@.len() > 0 ==> r == Some(old(s)@.last()) && final(s)@ == old(s)@.drop_last(),
{
    s.pop()
}

/// The buffer after a typed character: the character appended, to an empty
/// buffer when there was none.
pub open spec fn typed_into(old: Option<String>, new: Option<String>, c: char) -> bool {
    new matches Some(b) && b@ == (match old {
        Some(o) => o@,
        None => Seq::<char>::empty(),
    }).push(c)
}

/// The buffer after a backspace: its last character removed, if any.
pub open spec fn erased_from(old: Option<String>, new: Option<String>) -> bool {
    match old {
        Some(o) => new matches Some(b) && b@ == (if o@.len() > 0 {
            o@.drop_last()
        } else {
            o@
        }),
        None => new is None,
    }
}

impl AppState {
    /// An empty list, nothing selected, in normal mode, with no status.
    pub fn new() -> (r: Self)
        ensures
            r.networks@.len() == 0,
            r.list_state@ is None,
            r.selected_path is None,
            r.input_mode == InputMode::Normal,
            r.password_buffer is None,
            r.status is None,
    {
        AppState {
            networks: Vec::new(),
            list_state: ListState::default(),
            selected_path: None,
            input_mode: InputMode::Normal,
            password_buffer: None,
            status: None,
        }
    }

    /// Shows what an action of the backend or the front end reports in the status line.
    pub fn handle_action(&mut self, action: AppAction)
        ensures
            only_status_changed(*old(self), *final(self)),
            status_after(action, final(self).status),
    {
        match action {
            AppAction::ConnectStarted(ssid) => {
                self.status = Some(
                    AppStatus::IsConnecting(String::from_str("Connecting to ").concat(ssid.as_str())),
                );
            },
            AppAction::ConnectFinished(Ok(msg)) => {
                self.status = Some(AppStatus::Status(msg));
            },
            AppAction::ConnectFinished(Err(e)) => {
                let text = e.message();
                self.status = Some(
                    AppStatus::Error(String::from_str("Backend error: ").concat(text.as_str())),
                );
                assert(describes_nm_error(e, text@));
            },
            AppAction::FrontendError(e) => {
                self.status = Some(AppStatus::Error(e.message()));
            },
            AppAction::NMError(e) => {
                self.status = Some(AppStatus::Error(e.message()));
            },
        }
    }

    /// Resynchronises the highlight with the list (see `synced_selection`).
    fn sync_selection(&mut self)
        ensures
            final(self).networks == old(self).networks,
            only_list_changed(*old(self), *final(self)),
            synced_selection(
                final(self).networks@,
                old(self).selected_path,
                final(self).selected_path,
                final(self).list_state@,
            ),
    {
        if let Some(path) = &self.selected_path {
            if let Some(index) = position_of_path(&self.networks, path) {
                self.list_state.select(Some(index));
                return ;
            }
        }
        if self.networks.len() > 0 {
            self.selected_path = Some(self.networks[0].path.clone());
            self.list_state.select(Some(0));
        } else {
            self.selected_path = None;
            self.list_state.select(None);
        }
    }

    /// Replaces the list and resynchronises the highlight.
    pub fn set_networks(&mut self, networks: Vec<NetworkDisplayInfo>)
        ensures
            final(self).networks == networks,
            only_list_changed(*old(self), *final(self)),
            synced_selection(
                networks@,
                old(self).selected_path,
                final(self).selected_path,
                final(self).list_state@,
            ),
    {
        self.networks = networks;
        self.sync_selection();
    }

    /// Applies the update to the list when adding, removing or updating an item.
    ///
    /// When a property gets updated, the first network with that path takes
    /// the new strength and the list is sorted again. A new access point
    /// whose SSID is already listed (mesh networks etc.) replaces the listed
    /// one only when its signal is stronger; otherwise it is added. The list
    /// is sorted again at the end. Remove removes every network with that
    /// path. In each case the highlight is resynchronised.
    pub fn apply_update(&mut self, update: AccessPointUpdate)
        ensures
            only_list_changed(*old(self), *final(self)),
            synced_selection(
                final(self).networks@,
                old(self).selected_path,
                final(self).selected_path,
                final(self).list_state@,
            ),
            networks_after_update(old(self).networks@, update, final(self).networks@),
    {
        match update {
            AccessPointUpdate::PropertyChanged { path, strength } => {
                let ghost before = self.networks@;
                if let Some(i) = position_of_path(&self.networks, &path) {
                    proof {
                        let c = choose|k: int| is_first_path(before, k, path@);
                        lemma_first_path_unique(before, path@, i as int, c);
                    }
                    self.networks[i].strength = strength;
                    assert(self.networks@ =~= with_strength(before, path@, strength));
                }
                let mut list = Vec::new();
                std::mem::swap(&mut list, &mut self.networks);
                self.networks = sort_by_strength(list);
                self.sync_selection();
            },
            AccessPointUpdate::Added(new_network) => {
                merge_into(&mut self.networks, new_network);
                let mut list = Vec::new();
                std::mem::swap(&mut list, &mut self.networks);
                self.networks = sort_by_strength(list);
                self.sync_selection();
            },
            AccessPointUpdate::Removed(path) => {
                let ghost before = self.networks@;
                let mut rest = Vec::new();
                std::mem::swap(&mut rest, &mut self.networks);
                let n = rest.len();
                let mut kept: Vec<NetworkDisplayInfo> = Vec::new();
                let mut i: usize = 0;
                proof {
                    reveal(Seq::filter);
                    assert(before.take(0) =~= Seq::<NetworkDisplayInfo>::empty());
                }
                while i < n
                    invariant
                        n == before.len(),
                        i <= n,
                        rest@ == before.skip(i as int),
                        kept@ == before.take(i as int).filter(not_at_path(path@)),
                    decreases n - i,
                {
                    let x = rest.remove(0);
                    proof {
                        assert(x == before[i as int]);
                        assert(before.take(i + 1) =~= before.take(i as int).push(x));
                        before.take(i as int).lemma_filter_push(x, not_at_path(path@));
                    }
                    if x.path != path {
                        kept.push(x);
                    }
                    assert(rest@ =~= before.skip(i + 1));
                    i = i + 1;
                }
                assert(before.take(n as int) =~= before);
                self.networks = kept;
                self.sync_selection();
            },
        }
    }

    /// The network at the highlighted row.
    ///
    /// # Errors
    /// `FrontendError::Tui` when no row is highlighted, or when the
    /// highlighted row is not in the list.
    pub fn network_from_selected(&mut self) -> (r: Result<NetworkDisplayInfo, FrontendError>)
        ensures
            *final(self) == *old(self),
            match r {
                Ok(n) => selection_lookup(old(self).networks@, old(self).list_state@) == Some(n),
                Err(e) => selection_lookup(old(self).networks@, old(self).list_state@) is None && (
                e matches FrontendError::Tui(m) && m@ == selection_error_text(
                    old(self).list_state@,
                )),
            },
    {
        let index = match self.list_state.selected() {
            Some(index) => index,
            None => {
                return Err(
                    FrontendError::Tui(
                        String::from_str(
                            "The selected network resulted in no index or other Tui error!",
                        ),
                    ),
                );
            },
        };
        if index < self.networks.len() {
            Ok(self.networks[index].duplicate())
        } else {
            Err(FrontendError::Tui(String::from_str("The Network was not found in the Tui list")))
        }
    }

    /// Highlights the next row of the list, wrapping around to the first.
    pub fn next(&mut self)
        requires
            old(self).networks@.len() > 0 ==> (old(self).list_state@ matches Some(i) ==> i
                < usize::MAX),
        ensures
            moved_next(*old(self), *final(self)),
    {
        if self.networks.len() == 0 {
            return ;
        }
        let i = match self.list_state.selected() {
            Some(i) => i,
            None => 0,
        };
        let next_i = (i + 1) % self.networks.len();
        self.selected_path = Some(self.networks[next_i].path.clone());
        self.list_state.select(Some(next_i));
    }

    /// Highlights the previous row of the list, wrapping around to the last.
    pub fn previous(&mut self)
        requires
            old(self).networks@.len() > 0 ==> (old(self).list_state@ matches Some(i) ==> i
                <= old(self).networks@.len()),
        ensures
            moved_previous(*old(self), *final(self)),
    {
        if self.networks.len() == 0 {
            return ;
        }
        let i = match self.list_state.selected() {
            Some(i) => i,
            None => 0,
        };
        let prev_i = if i == 0 {
            self.networks.len() - 1
        } else {
            i - 1
        };
        self.selected_path = Some(self.networks[prev_i].path.clone());
        self.list_state.select(Some(prev_i));
    }

    /// The text of the status line: the current message, or `Idle`.
    pub fn status_text(&self) -> (r: &str)
        ensures
            r@ == status_text_view(self.status),
    {
        match &self.status {
            Some(AppStatus::Error(m)) => m.as_str(),
            Some(AppStatus::IsConnecting(m)) => m.as_str(),
            Some(AppStatus::Status(m)) => m.as_str(),
            None => "Idle",
        }
    }

    /// Handles a key press: in the list, `q` quits, the arrows move the
    /// highlight and Enter asks to connect; at the password prompt, Enter
    /// asks to connect, Esc leaves the prompt and drops the password,
    /// characters are typed and Backspace erases the last one.
    pub fn handle_key(&mut self, key: KeyInput) -> (r: KeyOutcome)
        requires
            old(self).input_mode == InputMode::Normal && old(self).networks@.len() > 0 ==> (
            old(self).list_state@ matches Some(i) ==> (key == KeyInput::Down ==> i < usize::MAX)
                && (key == KeyInput::Up ==> i <= old(self).networks@.len())),
        ensures
            match old(self).input_mode {
                InputMode::Normal => match key {
                    KeyInput::Char(c) => r == (if c == 'q' {
                        KeyOutcome::Quit
                    } else {
                        KeyOutcome::Handled
                    }) && *final(self) == *old(self),
                    KeyInput::Down => r == KeyOutcome::Handled && moved_next(*old(self), *final(self)),
                    KeyInput::Up => r == KeyOutcome::Handled && moved_previous(
                        *old(self),
                        *final(self),
                    ),
                    KeyInput::Enter => r == KeyOutcome::Connect && *final(self) == *old(self),
                    _ => r == KeyOutcome::Handled && *final(self) == *old(self),
                },
                InputMode::PasswordInput => match key {
                    KeyInput::Enter => r == KeyOutcome::Connect && *final(self) == *old(self),
                    KeyInput::Esc => r == KeyOutcome::Handled && *final(self) == AppState {
                        input_mode: InputMode::Normal,
                        password_buffer: None,
                        ..*old(self)
                    },
                    KeyInput::Char(c) => r == KeyOutcome::Handled && typed_into(
                        old(self).password_buffer,
                        final(self).password_buffer,
                        c,
                    ) && *final(self) == AppState {
                        password_buffer: final(self).password_buffer,
                        ..*old(self)
                    },
                    KeyInput::Backspace => r == KeyOutcome::Handled && erased_from(
                        old(self).password_buffer,
                        final(self).password_buffer,
                    ) && *final(self) == AppState {
                        password_buffer: final(self).password_buffer,
                        ..*old(self)
                    },
                    _ => r == KeyOutcome::Handled && *final(self) == *old(self),
                },
            },
    {
        match self.input_mode {
            InputMode::Normal => match key {
                KeyInput::Char(c) => {
                    if c == 'q' {
                        KeyOutcome::Quit
                    } else {
                        KeyOutcome::Handled
                    }
                },
                KeyInput::Down => {
                    self.next();
                    KeyOutcome::Handled
                },
                KeyInput::Up => {
                    self.previous();
                    KeyOutcome::Handled
                },
                KeyInput::Enter => KeyOutcome::Connect,
                _ => KeyOutcome::Handled,
            },
            InputMode::PasswordInput => match key {
                KeyInput::Enter => KeyOutcome::Connect,
                KeyInput::Esc => {
                    self.input_mode = InputMode::Normal;
                    self.password_buffer = None;
                    KeyOutcome::Handled
                },
                KeyInput::Char(c) => {
                    let mut buf = match &self.password_buffer {
                        Some(b) => b.clone(),
                        None => String::new(),
                    };
                    string_push(&mut buf, c);
                    self.password_buffer = Some(buf);
                    KeyOutcome::Handled
                },
                KeyInput::Backspace => {
                    match &self.password_buffer {
                        Some(b) => {
                            let mut buf = b.clone();
                            string_pop(&mut buf);
                            self.password_buffer = Some(buf);
                        },
                        None => {},
                    }
                    KeyOutcome::Handled
                },
                _ => KeyOutcome::Handled,
            },
        }
    }
}

/// The next row is the one below, wrapping from the last row to the first;
/// the previous row is the one above, wrapping from the first to the last.
/// Moving to the next row and back to the previous one returns to the row
/// one started from, and so does moving back and then forward.
pub proof fn lemma_next_previous_round_trip(i: usize, n: usize)
    requires
        i < n,
    ensures
        previous_index(Some(next_index(Some(i), n as int) as usize), n as int) == i,
        next_index(Some(previous_index(Some(i), n as int) as usize), n as int) == i,
        next_index(Some(i), n as int) == (if i + 1 < n {
            i + 1
        } else {
            0
        }),
        previous_index(Some(i), n as int) == (if i > 0 {
            i - 1
        } else {
            n - 1
        }),
{
    let nx = next_index(Some(i), n as int);
    if i + 1 < n {
        assert((i + 1) % (n as int) == i + 1) by (nonlinear_arith)
            requires
                0 <= i + 1 < n,
        ;
    } else {
        assert((i + 1) % (n as int) == 0) by (nonlinear_arith)
            requires
                i + 1 == n,
        ;
    }
    assert(nx as usize as int == nx);
    let pv = previous_index(Some(i), n as int);
    assert(pv as usize as int == pv);
    if i == 0 {
        assert((n - 1 + 1) % (n as int) == 0) by (nonlinear_arith)
            requires
                n > 0,
        ;
    } else {
        assert((i - 1 + 1) % (n as int) == i) by (nonlinear_arith)
            requires
                0 < i < n,
        ;
    }
}

/// After a resynchronisation the highlight and the remembered path agree
/// with the list: a highlighted row is in the list and the remembered path
/// is its path, and nothing is highlighted only when the list is empty.
pub proof fn lemma_synced_selection_is_consistent(
    networks: Seq<NetworkDisplayInfo>,
    remembered: Option<String>,
    path: Option<String>,
    sel: Option<usize>,
)
    requires
        synced_selection(networks, remembered, path, sel),
    ensures
        selection_consistent(networks, path, sel),
{
}

/// Moving the highlight keeps it consistent with the list.
pub proof fn lemma_moves_keep_selection_consistent(old: AppState, new: AppState)
    requires
        selection_consistent(old.networks@, old.selected_path, old.list_state@),
        moved_next(old, new) || moved_previous(old, new),
    ensures
        selection_consistent(new.networks@, new.selected_path, new.list_state@),
{
    let n = old.networks@.len() as int;
    assert(old.networks@.len() == old.networks.len());
    if n > 0 {
        let i = old.list_state@->0 as int;
        assert(0 <= next_index(old.list_state@, n) < n) by (nonlinear_arith)
            requires
                next_index(old.list_state@, n) == (i + 1) % n,
                n > 0,
        ;
        assert(0 <= previous_index(old.list_state@, n) < n);
        if moved_next(old, new) {
            assert(moved_to(old, new, next_index(old.list_state@, n)));
        } else {
            assert(moved_to(old, new, previous_index(old.list_state@, n)));
        }
    }
}

/// The network `n` reporting the signal strength `strength`.
pub open spec fn restrengthened(n: NetworkDisplayInfo, strength: u8) -> NetworkDisplayInfo {
    NetworkDisplayInfo { strength: strength, ..n }
}

/// A strength change lands: the list keeps its length, the first network
/// with the reported path now has exactly the reported strength (whether
/// the signal grew or weakened), every other network is still there
/// unchanged, and nothing else is.
pub proof fn lemma_strength_change_applied(
    before: Seq<NetworkDisplayInfo>,
    path: String,
    strength: u8,
    i: int,
    after: Seq<NetworkDisplayInfo>,
)
    requires
        is_first_path(before, i, path@),
        networks_after_update(before, AccessPointUpdate::PropertyChanged { path, strength }, after),
    ensures
        after.len() == before.len(),
        after.contains(restrengthened(before[i], strength)),
        forall|j: int| 0 <= j < before.len() && j != i ==> after.contains(#[trigger] before[j]),
        forall|k: int|
            0 <= k < after.len() ==> #[trigger] after[k] == restrengthened(before[i], strength) || exists|j: int| 0 <= j < before.len() && j != i && after[k] == before[j],
{
    let changed = with_strength(before, path@, strength);
    let c = choose|k: int| is_first_path(before, k, path@);
    lemma_first_path_unique(before, path@, i, c);
    assert(changed == before.update(i, restrengthened(before[i], strength)));
    lemma_stable_sort_keeps_entries(after, changed);
    let perm = choose|perm: Seq<int>| is_stable_permutation(after, changed, perm);
    assert(changed[i] == restrengthened(before[i], strength));
    assert(after.contains(changed[i]));
    assert forall|j: int| 0 <= j < before.len() && j != i implies after.contains(#[trigger] before[j]) by {
        assert(changed[j] == before[j]);
        assert(after.contains(changed[j]));
    }
    assert forall|k: int| 0 <= k < after.len() implies #[trigger] after[k] == restrengthened(before[i], strength) || exists|j: int| 0 <= j < before.len() && j != i && after[k] == before[j] by {
        assert(changed.contains(after[k]));
        let j = choose|j: int| 0 <= j < changed.len() && changed[j] == after[k];
        if j != i {
            assert(changed[j] == before[j]);
        }
    }
}

/// The network at a highlighted row is the network of that row; when the
/// highlight is consistent with the list, it is the network with the
/// remembered path.
pub proof fn lemma_selected_network_is_highlighted(
    networks: Seq<NetworkDisplayInfo>,
    path: Option<String>,
    i: usize,
)
    requires
        i < networks.len(),
    ensures
        selection_lookup(networks, Some(i)) == Some(networks[i as int]),
        selection_consistent(networks, path, Some(i)) ==> path is Some
            && selection_lookup(networks, Some(i))->0.path@ == path->0@,
        forall|k: usize| k >= networks.len() ==> #[trigger] selection_lookup(networks, Some(k)) is None,
        selection_lookup(networks, None) is None,
{
}

/// Typing a character at the password prompt appends exactly that
/// character: the text grows by one, ends with it and keeps what was there
/// (nothing, when there was no buffer); erasing right after gives the text
/// back.
pub proof fn lemma_typing_appends(
    old: Option<String>,
    mid: Option<String>,
    new: Option<String>,
    c: char,
)
    requires
        typed_into(old, mid, c),
    ensures
        ({
            let before = match old {
                Some(o) => o@,
                None => Seq::<char>::empty(),
            };
            &&& mid is Some
            &&& mid->0@.len() == before.len() + 1
            &&& mid->0@.last() == c
            &&& mid->0@.drop_last() == before
            &&& erased_from(mid, new) ==> new is Some && new->0@ == before
        }),
{
    let before = match old {
        Some(o) => o@,
        None => Seq::<char>::empty(),
    };
    assert(mid->0@.drop_last() =~= before);
}

} // verus!
