//! The state of the terminal dashboard: the rows it shows, the category tab
//! and the selected row, and how keys change them.

use vstd::prelude::*;

use crate::models::{WatchedServiceStatus, WatchedServicesSnapshot};
use crate::text::{concat2, concat3, decimal, decimal_text, lemma_filter_push, owned, str_eq};

verus! {

/// One row of the watchlist table, as text.
#[derive(Debug, Clone)]
pub struct ServiceRow {
    pub name: String,
    pub category: String,
    pub port: String,
    pub endpoint: String,
    pub status: String,
    pub probe: String,
    pub latency: String,
    pub listener: String,
    pub process: String,
    pub pid: String,
    pub message: String,
}

/// The placeholder for a missing value.
pub open spec fn dash() -> Seq<char> {
    "\u{2014}"@
}

/// `r` shows the status of `s`.
pub open spec fn row_of(s: WatchedServiceStatus, r: ServiceRow) -> bool {
    &&& r.name == s.name
    &&& r.category == s.category
    &&& r.port@ == decimal(s.port as nat)
    &&& r.endpoint@ == s.protocol@ + "://"@ + s.address@ + ":"@ + decimal(s.port as nat)
    &&& r.status == s.health.status
    &&& r.probe == s.health.check_kind
    &&& r.latency@ == match s.health.latency_ms {
        Some(ms) => decimal(ms as nat) + "ms"@,
        None => dash(),
    }
    &&& r.listener@ == match s.listener {
        Some(l) => l.local_address@ + ":"@ + decimal(l.port as nat),
        None => "not-listening"@,
    }
    &&& r.process@ == match s.listener {
        Some(l) => match l.process {
            Some(p) => p@,
            None => dash(),
        },
        None => dash(),
    }
    &&& r.pid@ == match s.listener {
        Some(l) => match l.pid {
            Some(pid) => decimal(pid as nat),
            None => dash(),
        },
        None => dash(),
    }
    &&& r.message == s.health.message
}

/// The row that shows a watched service.
pub fn service_row(s: WatchedServiceStatus) -> (r: ServiceRow)
    ensures
        row_of(s, r),
{
    let (process, pid, listener) = match &s.listener {
        Some(l) => {
            let process = match &l.process {
                Some(p) => p.clone(),
                None => owned("\u{2014}"),
            };
            let pid = match l.pid {
                Some(v) => decimal_text(v as u128),
                None => owned("\u{2014}"),
            };
            let port = decimal_text(l.port as u128);
            (process, pid, concat3(l.local_address.as_str(), ":", port.as_str()))
        },
        None => (owned("\u{2014}"), owned("\u{2014}"), owned("not-listening")),
    };
    let latency = match s.health.latency_ms {
        Some(ms) => {
            let t = decimal_text(ms);
            concat2(t.as_str(), "ms")
        },
        None => owned("\u{2014}"),
    };
    let port = decimal_text(s.port as u128);
    let head = concat3(s.protocol.as_str(), "://", s.address.as_str());
    let endpoint = concat3(head.as_str(), ":", port.as_str());
    ServiceRow {
        name: s.name,
        category: s.category,
        port,
        endpoint,
        status: s.health.status,
        probe: s.health.check_kind,
        latency,
        listener,
        process,
        pid,
        message: s.health.message,
    }
}

// ---------------------------------------------------------------------------
// Categories
// ---------------------------------------------------------------------------

/// The number of category tabs.
pub const CATEGORY_COUNT: usize = 5;

/// The key of each category tab; outside the tabs, `all`.
pub open spec fn category_key(i: int) -> Seq<char> {
    if i == 1 {
        "web"@
    } else if i == 2 {
        "infra"@
    } else if i == 3 {
        "hermes"@
    } else if i == 4 {
        "game"@
    } else {
        "all"@
    }
}

/// The label of each category tab; outside the tabs, `All`.
pub open spec fn category_label(i: int) -> Seq<char> {
    if i == 1 {
        "Web"@
    } else if i == 2 {
        "Infra"@
    } else if i == 3 {
        "Hermes"@
    } else if i == 4 {
        "Game"@
    } else {
        "All"@
    }
}

/// The key of a category tab.
pub fn category_key_of(i: usize) -> (r: &'static str)
    ensures
        r@ == category_key(i as int),
{
    if i == 1 {
        "web"
    } else if i == 2 {
        "infra"
    } else if i == 3 {
        "hermes"
    } else if i == 4 {
        "game"
    } else {
        "all"
    }
}

/// The label of a category tab.
pub fn category_label_of(i: usize) -> (r: &'static str)
    ensures
        r@ == category_label(i as int),
{
    if i == 1 {
        "Web"
    } else if i == 2 {
        "Infra"
    } else if i == 3 {
        "Hermes"
    } else if i == 4 {
        "Game"
    } else {
        "All"
    }
}

/// Whether a row shows under the category with key `key`.
pub open spec fn shows_under(key: Seq<char>) -> spec_fn(ServiceRow) -> bool {
    |r: ServiceRow| key == "all"@ || r.category@ == key
}

/// The rows that show under a category.
pub open spec fn visible_rows(rows: Seq<ServiceRow>, key: Seq<char>) -> Seq<ServiceRow> {
    rows.filter(shows_under(key))
}

/// The indices of the rows that show under the category with key `key`, in order.
pub fn visible_indices(rows: &Vec<ServiceRow>, key: &str) -> (r: Vec<usize>)
    ensures
        forall|k: int| 0 <= k < r@.len() ==> (#[trigger] r@[k]) < rows@.len(),
        forall|k: int|
            0 <= k < r@.len() ==> shows_under(key@)(rows@[#[trigger] r@[k] as int])
                && rows@.take(r@[k] as int).filter(shows_under(key@)).len() == k,
        r@.map_values(|i: usize| rows@[i as int]) == visible_rows(rows@, key@),
{
    let all = str_eq(key, "all");
    let mut r: Vec<usize> = Vec::new();
    let mut k: usize = 0;
    assert(rows@.take(0) =~= Seq::<ServiceRow>::empty());
    assert(r@.map_values(|i: usize| rows@[i as int]) =~= Seq::<ServiceRow>::empty());
    assert(Seq::<ServiceRow>::empty().filter(shows_under(key@)) =~= Seq::<ServiceRow>::empty())
        by {
        reveal(Seq::filter);
    }
    while k < rows.len()
        invariant
            k <= rows.len(),
            all == (key@ == "all"@),
            forall|j: int| 0 <= j < r@.len() ==> (#[trigger] r@[j]) < k,
            forall|j: int|
                0 <= j < r@.len() ==> shows_under(key@)(rows@[#[trigger] r@[j] as int])
                    && rows@.take(r@[j] as int).filter(shows_under(key@)).len() == j,
            r@.map_values(|i: usize| rows@[i as int]) == rows@.take(k as int).filter(
                shows_under(key@),
            ),
        decreases rows.len() - k,
    {
        proof {
            lemma_filter_push(rows@.take(k as int), rows@[k as int], shows_under(key@));
            assert(rows@.take(k + 1) =~= rows@.take(k as int).push(rows@[k as int]));
        }
        if all || str_eq(rows[k].category.as_str(), key) {
            let ghost before = r@;
            r.push(k);
            assert(r@.map_values(|i: usize| rows@[i as int]) =~= before.map_values(
                |i: usize| rows@[i as int],
            ).push(rows@[k as int]));
        }
        k += 1;
    }
    assert(rows@.take(k as int) =~= rows@);
    r
}

// ---------------------------------------------------------------------------
// The dashboard state
// ---------------------------------------------------------------------------

/// What the dashboard shows and which row and tab are selected.
#[derive(Debug)]
pub struct AppState {
    pub services: Vec<ServiceRow>,
    pub warnings: Vec<String>,
    pub selected: usize,
    pub active_category: usize,
    pub should_quit: bool,
}

/// The keys that the dashboard acts on.
#[derive(Debug, Clone, Copy, PartialEq, Eq, Structural)]
pub enum Key {
    Char(char),
    Esc,
    Tab,
    BackTab,
    Left,
    Right,
    Up,
    Down,
    Other,
}

/// What the caller must do after a key.
#[derive(Debug, Clone, Copy, PartialEq, Eq, Structural)]
pub enum Action {
    /// Nothing more.
    Nothing,
    /// Take a new snapshot and hand it to `refresh`.
    Refresh,
}

/// The tab after tab `c`, wrapping from the last to the first.
pub open spec fn next_tab(c: usize) -> usize {
    ((c + 1) % 5) as usize
}

/// The tab before tab `c`, wrapping from the first to the last.
pub open spec fn previous_tab(c: usize) -> usize {
    if c == 0 {
        4
    } else {
        (c - 1) as usize
    }
}

/// The number of rows that show under the active tab.
pub open spec fn visible_count(s: AppState) -> nat {
    visible_rows(s.services@, category_key(s.active_category as int)).len()
}

/// The selection points at a visible row, or at 0 when no row shows, and
/// the active tab is one of the tabs.
pub open spec fn well_formed(s: AppState) -> bool {
    &&& s.active_category < 5
    &&& if visible_count(s) == 0 {
        s.selected == 0
    } else {
        s.selected < visible_count(s)
    }
}

/// Tab, Right and `l` show the next tab.
pub open spec fn next_key(k: Key) -> bool {
    k == Key::Tab || k == Key::Right || k == Key::Char('l')
}

/// Shift+Tab, Left and `h` show the previous tab.
pub open spec fn previous_key(k: Key) -> bool {
    k == Key::BackTab || k == Key::Left || k == Key::Char('h')
}

/// Down and `j` move the selection down.
pub open spec fn down_key(k: Key) -> bool {
    k == Key::Down || k == Key::Char('j')
}

/// Up and `k` move the selection up.
pub open spec fn up_key(k: Key) -> bool {
    k == Key::Up || k == Key::Char('k')
}

/// The predicate "the row has status `status`".
pub open spec fn has_status(status: Seq<char>) -> spec_fn(ServiceRow) -> bool {
    |r: ServiceRow| r.status@ == status
}

/// The selection after clamping to `count` visible rows.
pub open spec fn clamped(selected: usize, count: nat) -> usize {
    if count == 0 {
        0
    } else if selected >= count {
        (count - 1) as usize
    } else {
        selected
    }
}

impl AppState {
    /// A dashboard showing a first snapshot, on the `All` tab, first row selected.
    pub fn new(snapshot: WatchedServicesSnapshot) -> (r: AppState)
        ensures
            well_formed(r),
            r.active_category == 0,
            r.selected == 0,
            !r.should_quit,
            shows_snapshot(r, snapshot),
    {
        let mut state = AppState {
            services: Vec::new(),
            warnings: Vec::new(),
            selected: 0,
            active_category: 0,
            should_quit: false,
        };
        state.refresh(snapshot);
        state
    }

    /// Whether the selection points at a visible row (or at 0 when none
    /// shows) and the active tab is one of the tabs.
    pub fn is_well_formed(&self) -> (r: bool)
        ensures
            r == well_formed(*self),
    {
        if self.active_category >= CATEGORY_COUNT {
            return false;
        }
        let count = self.visible_len();
        if count == 0 {
            self.selected == 0
        } else {
            self.selected < count
        }
    }

    /// The number of rows that show under the active tab.
    pub fn visible_len(&self) -> (r: usize)
        ensures
            r == visible_count(*self),
    {
        let idx = visible_indices(&self.services, category_key_of(self.active_category));
        assert(idx@.map_values(|i: usize| self.services@[i as int]).len() == idx@.len());
        idx.len()
    }

    /// The indices of the rows that show under the active tab.
    pub fn visible_services(&self) -> (r: Vec<usize>)
        ensures
            forall|k: int| 0 <= k < r@.len() ==> (#[trigger] r@[k]) < self.services@.len(),
            forall|k: int|
                0 <= k < r@.len() ==> shows_under(category_key(self.active_category as int))(
                    self.services@[#[trigger] r@[k] as int],
                ) && self.services@.take(r@[k] as int).filter(
                    shows_under(category_key(self.active_category as int)),
                ).len() == k,
            r@.map_values(|i: usize| self.services@[i as int]) == visible_rows(
                self.services@,
                category_key(self.active_category as int),
            ),
    {
        visible_indices(&self.services, category_key_of(self.active_category))
    }

    /// The number of rows that show under tab `tab`.
    pub fn tab_size(&self, tab: usize) -> (r: usize)
        ensures
            r == visible_rows(self.services@, category_key(tab as int)).len(),
    {
        let idx = visible_indices(&self.services, category_key_of(tab));
        assert(idx@.map_values(|i: usize| self.services@[i as int]).len() == idx@.len());
        idx.len()
    }

    /// The number of rows under the active tab whose status is `status`.
    pub fn visible_with_status(&self, status: &str) -> (r: usize)
        ensures
            r == visible_rows(self.services@, category_key(self.active_category as int)).filter(
                has_status(status@),
            ).len(),
    {
        let idx = self.visible_services();
        let ghost vis = idx@.map_values(|i: usize| self.services@[i as int]);
        let mut count: usize = 0;
        let mut k: usize = 0;
        assert(vis.take(0) =~= Seq::<ServiceRow>::empty());
        assert(Seq::<ServiceRow>::empty().filter(has_status(status@)) =~= Seq::<ServiceRow>::empty())
            by {
            reveal(Seq::filter);
        }
        while k < idx.len()
            invariant
                k <= idx.len(),
                vis == idx@.map_values(|i: usize| self.services@[i as int]),
                forall|j: int| 0 <= j < idx@.len() ==> (#[trigger] idx@[j]) < self.services@.len(),
                count == vis.take(k as int).filter(has_status(status@)).len(),
                count <= k,
            decreases idx.len() - k,
        {
            let row = &self.services[idx[k]];
            assert(vis[k as int] == *row);
            proof {
                lemma_filter_push(vis.take(k as int), vis[k as int], has_status(status@));
                assert(vis.take(k + 1) =~= vis.take(k as int).push(vis[k as int]));
            }
            if str_eq(row.status.as_str(), status) {
                count += 1;
            }
            k += 1;
        }
        assert(vis.take(k as int) =~= vis);
        count
    }

    /// The key of the active tab.
    pub fn active_category_key(&self) -> (r: &'static str)
        ensures
            r@ == category_key(self.active_category as int),
    {
        category_key_of(self.active_category)
    }

    /// The label of the active tab.
    pub fn active_category_label(&self) -> (r: &'static str)
        ensures
            r@ == category_label(self.active_category as int),
    {
        category_label_of(self.active_category)
    }

    /// The index of the selected row, when a row shows.
    pub fn selected_row(&self) -> (r: Option<usize>)
        ensures
            match r {
                Some(i) => self.selected < visible_count(*self) && i < self.services@.len()
                    && self.services@[i as int] == visible_rows(
                    self.services@,
                    category_key(self.active_category as int),
                )[self.selected as int] && shows_under(category_key(self.active_category as int))(
                    self.services@[i as int],
                ) && self.services@.take(i as int).filter(
                    shows_under(category_key(self.active_category as int)),
                ).len() == self.selected,
                None => self.selected >= visible_count(*self),
            },
    {
        let idx = self.visible_services();
        assert(idx@.map_values(|i: usize| self.services@[i as int]).len() == idx@.len());
        if self.selected < idx.len() {
            let i = idx[self.selected];
            assert(idx@.map_values(|i: usize| self.services@[i as int])[self.selected as int]
                == self.services@[i as int]);
            Some(i)
        } else {
            None
        }
    }

    /// Keeps the selection on a visible row.
    pub fn clamp_selection(&mut self)
        ensures
            final(self).services == old(self).services,
            final(self).warnings == old(self).warnings,
            final(self).active_category == old(self).active_category,
            final(self).should_quit == old(self).should_quit,
            final(self).selected == clamped(old(self).selected, visible_count(*old(self))),
    {
        let count = self.visible_len();
        if count == 0 {
            self.selected = 0;
            return;
        }
        if self.selected >= count {
            self.selected = count - 1;
        }
    }

    /// Shows a new snapshot, keeping the selection on a visible row.
    pub fn refresh(&mut self, snapshot: WatchedServicesSnapshot)
        ensures
            shows_snapshot(*final(self), snapshot),
            final(self).active_category == old(self).active_category,
            final(self).should_quit == old(self).should_quit,
            final(self).selected == clamped(old(self).selected, visible_count(*final(self))),
            old(self).active_category < 5 ==> well_formed(*final(self)),
    {
        let ghost services = snapshot.services@;
        let WatchedServicesSnapshot { services: mut statuses, warnings } = snapshot;
        let mut rows: Vec<ServiceRow> = Vec::new();
        let total = statuses.len();
        let mut k: usize = 0;
        assert(services.skip(0) =~= services);
        while statuses.len() > 0
            invariant
                k <= total == services.len(),
                statuses@ == services.skip(k as int),
                rows@.len() == k,
                forall|j: int| 0 <= j < k ==> row_of(services[j], #[trigger] rows@[j]),
            decreases statuses.len(),
        {
            let s = statuses.remove(0);
            assert(s == services[k as int]);
            rows.push(service_row(s));
            k += 1;
            assert(statuses@ =~= services.skip(k as int));
        }
        self.services = rows;
        self.warnings = warnings;
        self.clamp_selection();
    }

    /// Moves the selection one row down, when a row shows below it.
    pub fn move_down(&mut self)
        ensures
            final(self).services == old(self).services,
            final(self).warnings == old(self).warnings,
            final(self).active_category == old(self).active_category,
            final(self).should_quit == old(self).should_quit,
            final(self).selected == if old(self).selected + 1 < visible_count(*old(self)) {
                (old(self).selected + 1) as usize
            } else {
                old(self).selected
            },
    {
        let count = self.visible_len();
        if self.selected < count && self.selected + 1 < count {
            self.selected += 1;
        }
    }

    /// Moves the selection one row up, stopping at the first row.
    pub fn move_up(&mut self)
        ensures
            final(self).services == old(self).services,
            final(self).warnings == old(self).warnings,
            final(self).active_category == old(self).active_category,
            final(self).should_quit == old(self).should_quit,
            final(self).selected == if old(self).selected > 0 {
                (old(self).selected - 1) as usize
            } else {
                0
            },
    {
        if self.selected > 0 {
            self.selected -= 1;
        }
    }

    /// Shows the next tab, wrapping from the last to the first, and selects
    /// its first row.
    pub fn next_category(&mut self)
        requires
            old(self).active_category < usize::MAX,
        ensures
            final(self).services == old(self).services,
            final(self).warnings == old(self).warnings,
            final(self).should_quit == old(self).should_quit,
            final(self).active_category == next_tab(old(self).active_category),
            final(self).selected == 0,
    {
        self.active_category = (self.active_category + 1) % CATEGORY_COUNT;
        self.selected = 0;
        self.clamp_selection();
    }

    /// Shows the previous tab, wrapping from the first to the last, and
    /// selects its first row.
    pub fn previous_category(&mut self)
        ensures
            final(self).services == old(self).services,
            final(self).warnings == old(self).warnings,
            final(self).should_quit == old(self).should_quit,
            final(self).active_category == previous_tab(old(self).active_category),
            final(self).selected == 0,
    {
        self.active_category = if self.active_category == 0 {
            CATEGORY_COUNT - 1
        } else {
            self.active_category - 1
        };
        self.selected = 0;
        self.clamp_selection();
    }

    /// Acts on a key press: `q` or Esc quits, `r` asks for a refresh, Tab,
    /// Right or `l` and Shift+Tab, Left or `h` switch tabs, Down or `j` and
    /// Up or `k` move the selection.
    pub fn handle_key(&mut self, key: Key) -> (r: Action)
        requires
            next_key(key) ==> old(self).active_category < usize::MAX,
        ensures
            well_formed(*old(self)) ==> well_formed(*final(self)),
            r == (if key == Key::Char('r') {
                Action::Refresh
            } else {
                Action::Nothing
            }),
            final(self).should_quit == (old(self).should_quit || key == Key::Char('q') || key
                == Key::Esc),
            final(self).services == old(self).services,
            final(self).warnings == old(self).warnings,
            final(self).active_category == (if next_key(key) {
                next_tab(old(self).active_category)
            } else if previous_key(key) {
                previous_tab(old(self).active_category)
            } else {
                old(self).active_category
            }),
            final(self).selected == (if next_key(key) || previous_key(key) {
                0
            } else if down_key(key) && old(self).selected + 1 < visible_count(*old(self)) {
                (old(self).selected + 1) as usize
            } else if up_key(key) && old(self).selected > 0 {
                (old(self).selected - 1) as usize
            } else {
                old(self).selected
            }),
    {
        match key {
            Key::Char('q') | Key::Esc => {
                self.should_quit = true;
                Action::Nothing
            },
            Key::Char('r') => Action::Refresh,
            Key::Tab | Key::Right | Key::Char('l') => {
                self.next_category();
                Action::Nothing
            },
            Key::BackTab | Key::Left | Key::Char('h') => {
                self.previous_category();
                Action::Nothing
            },
            Key::Down | Key::Char('j') => {
                self.move_down();
                Action::Nothing
            },
            Key::Up | Key::Char('k') => {
                self.move_up();
                Action::Nothing
            },
            _ => Action::Nothing,
        }
    }
}

/// The dashboard shows the rows and warnings of a snapshot.
pub open spec fn shows_snapshot(s: AppState, snapshot: WatchedServicesSnapshot) -> bool {
    &&& s.services@.len() == snapshot.services@.len()
    &&& forall|k: int|
        0 <= k < s.services@.len() ==> row_of(snapshot.services@[k], #[trigger] s.services@[k])
    &&& s.warnings == snapshot.warnings
}

} // verus!
