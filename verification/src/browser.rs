//! Navigation of the three-column browser (dependencies, packages,
//! symbols) as a state machine: keys and finished loads move the state and
//! ask for the next loads; the terminal loop performs them.
use vstd::prelude::*;
use crate::config::ColumnFocus;

verus! {

/// Rows from the bottom at which scrolling down loads more symbols.
pub const LOAD_MORE_THRESHOLD: usize = 5;

/// Page size of symbol results.
pub const SYMBOL_PAGE_SIZE: usize = 50;

/// What the browser shows and which rows are selected.
#[derive(Debug, Clone, Copy, PartialEq, Eq, Structural)]
pub struct BrowserNav {
    /// The focused column.
    pub focus: ColumnFocus,
    /// Number of dependencies listed.
    pub dep_count: usize,
    /// Selected dependency row.
    pub dep_selected: Option<usize>,
    /// Number of packages listed.
    pub pkg_count: usize,
    /// Selected package row.
    pub pkg_selected: Option<usize>,
    /// Number of symbols loaded.
    pub symbol_count: usize,
    /// Selected symbol row.
    pub symbol_selected: Option<usize>,
    /// Number of symbols matching in all.
    pub symbols_total: usize,
    /// Whether more symbols can be loaded.
    pub symbols_has_more: bool,
}

/// A key of the browser, as the terminal loop classifies it.
#[derive(Debug, Clone, Copy, PartialEq, Eq, Structural)]
pub enum BrowserKey {
    /// `q`.
    Quit,
    /// Esc, Left or `h`.
    Back,
    /// Right or `l`.
    Right,
    /// Enter.
    Enter,
    /// Down or `j`.
    Down,
    /// Up or `k`.
    Up,
    /// Any other key.
    Other,
}

/// What the terminal loop does next.
#[derive(Debug, Clone, Copy, PartialEq, Eq, Structural)]
pub enum BrowserAction {
    /// Leave the browser.
    Exit,
    /// Load the packages of the selected dependency, then report them.
    LoadPackages,
    /// Load the first page of symbols of the selected dependency and package.
    LoadSymbols,
    /// Load the next page of symbols.
    LoadMoreSymbols,
    /// Move the symbol selection down one row (after loading more).
    SelectNextSymbol,
    /// Open the source view of this symbol row.
    OpenShow(usize),
}

/// Selections stay inside their lists.
pub open spec fn nav_wf(s: BrowserNav) -> bool {
    &&& (s.dep_selected matches Some(i) ==> i < s.dep_count)
    &&& (s.pkg_selected matches Some(i) ==> i < s.pkg_count)
    &&& (s.symbol_selected matches Some(i) ==> i < s.symbol_count)
}

/// The row a selection stands at (the first when none is selected).
pub open spec fn row(sel: Option<usize>) -> int {
    match sel { Some(i) => i as int, None => 0 }
}

/// The state a browser starts in over `dep_count` dependencies: the first
/// dependency selected, nothing loaded.
pub open spec fn spec_initial(focus: ColumnFocus, dep_count: usize) -> BrowserNav {
    BrowserNav {
        focus,
        dep_count,
        dep_selected: if dep_count > 0 { Some(0) } else { None },
        pkg_count: 0,
        pkg_selected: None,
        symbol_count: 0,
        symbol_selected: None,
        symbols_total: 0,
        symbols_has_more: false,
    }
}

/// The browser's starting state and the loads it starts with: the packages
/// of the first dependency, and its symbols too when the packages or the
/// symbols column has focus.
pub fn initial(focus: ColumnFocus, dep_count: usize) -> (r: (BrowserNav, Vec<BrowserAction>))
    ensures
        r.0 == spec_initial(focus, dep_count),
        nav_wf(r.0),
        r.1@ == (if focus == ColumnFocus::Dep { seq![BrowserAction::LoadPackages] }
            else { seq![BrowserAction::LoadPackages, BrowserAction::LoadSymbols] }),
{
    let s = BrowserNav {
        focus,
        dep_count,
        dep_selected: if dep_count > 0 { Some(0) } else { None },
        pkg_count: 0,
        pkg_selected: None,
        symbol_count: 0,
        symbol_selected: None,
        symbols_total: 0,
        symbols_has_more: false,
    };
    let actions = match focus {
        ColumnFocus::Dep => vec![BrowserAction::LoadPackages],
        _ => vec![BrowserAction::LoadPackages, BrowserAction::LoadSymbols],
    };
    (s, actions)
}

/// After the packages of a dependency are loaded: the package selection
/// stays when still inside the list, else moves to the first row (none for
/// an empty list); the symbols are cleared.
pub open spec fn spec_packages_loaded(s: BrowserNav, count: usize) -> BrowserNav {
    BrowserNav {
        pkg_count: count,
        pkg_selected: if count == 0 {
            None
        } else {
            match s.pkg_selected {
                Some(i) => if i < count { Some(i) } else { Some(0) },
                None => Some(0),
            }
        },
        symbol_count: 0,
        symbol_selected: None,
        symbols_total: 0,
        symbols_has_more: false,
        ..s
    }
}

/// Record `count` loaded packages.
pub fn packages_loaded(s: BrowserNav, count: usize) -> (r: BrowserNav)
    ensures
        r == spec_packages_loaded(s, count),
        nav_wf(s) ==> nav_wf(r),
{
    let pkg_selected = if count == 0 {
        None
    } else {
        match s.pkg_selected {
            Some(i) => if i < count { Some(i) } else { Some(0) },
            None => Some(0),
        }
    };
    BrowserNav {
        pkg_count: count,
        pkg_selected,
        symbol_count: 0,
        symbol_selected: None,
        symbols_total: 0,
        symbols_has_more: false,
        ..s
    }
}

/// After the first page of symbols is loaded: `count` of `total` symbols,
/// the first selected (none for an empty page).
pub open spec fn spec_symbols_loaded(s: BrowserNav, count: usize, total: usize) -> BrowserNav {
    BrowserNav {
        symbol_count: count,
        symbols_total: total,
        symbols_has_more: count < total,
        symbol_selected: if count == 0 { None } else { Some(0) },
        ..s
    }
}

/// Record a loaded first page of symbols.
pub fn symbols_loaded(s: BrowserNav, count: usize, total: usize) -> (r: BrowserNav)
    ensures
        r == spec_symbols_loaded(s, count, total),
        nav_wf(s) ==> nav_wf(r),
{
    BrowserNav {
        symbol_count: count,
        symbols_total: total,
        symbols_has_more: count < total,
        symbol_selected: if count == 0 { None } else { Some(0) },
        ..s
    }
}

/// After the next page of symbols is loaded: `added` more of `total`.
pub open spec fn spec_more_symbols_loaded(s: BrowserNav, added: usize, total: usize) -> BrowserNav {
    BrowserNav {
        symbol_count: (s.symbol_count + added) as usize,
        symbols_total: total,
        symbols_has_more: s.symbol_count + added < total,
        ..s
    }
}

/// Record a loaded next page of symbols.
pub fn more_symbols_loaded(s: BrowserNav, added: usize, total: usize) -> (r: BrowserNav)
    requires
        s.symbol_count + added <= usize::MAX,
    ensures
        r == spec_more_symbols_loaded(s, added, total),
        nav_wf(s) ==> nav_wf(r),
{
    BrowserNav {
        symbol_count: s.symbol_count + added,
        symbols_total: total,
        symbols_has_more: s.symbol_count + added < total,
        ..s
    }
}

/// Moving the symbol selection down one row, when one remains below.
pub open spec fn spec_select_next_symbol(s: BrowserNav) -> BrowserNav {
    if row(s.symbol_selected) + 1 < s.symbol_count {
        BrowserNav { symbol_selected: Some((row(s.symbol_selected) + 1) as usize), ..s }
    } else {
        s
    }
}

/// Move the symbol selection down one row, when one remains below.
pub fn select_next_symbol(s: BrowserNav) -> (r: BrowserNav)
    ensures
        r == spec_select_next_symbol(s),
        nav_wf(s) ==> nav_wf(r),
{
    let i = match s.symbol_selected { Some(i) => i, None => 0 };
    if s.symbol_count > 0 && i < s.symbol_count - 1 {
        BrowserNav { symbol_selected: Some(i + 1), ..s }
    } else {
        s
    }
}

/// Moving right: from the dependencies to a non-empty package list (its
/// first row selected and its symbols loaded when none was selected), from
/// the packages to a non-empty symbol list (its first row selected when none
/// was); nothing from the symbols.
pub open spec fn spec_move_right(s: BrowserNav) -> (BrowserNav, Seq<BrowserAction>) {
    match s.focus {
        ColumnFocus::Dep => if s.pkg_count > 0 {
            if s.pkg_selected is None {
                (BrowserNav { focus: ColumnFocus::Pkg, pkg_selected: Some(0), ..s }, seq![BrowserAction::LoadSymbols])
            } else {
                (BrowserNav { focus: ColumnFocus::Pkg, ..s }, Seq::empty())
            }
        } else {
            (s, Seq::empty())
        },
        ColumnFocus::Pkg => if s.symbol_count > 0 {
            if s.symbol_selected is None {
                (BrowserNav { focus: ColumnFocus::Symbol, symbol_selected: Some(0), ..s }, Seq::empty())
            } else {
                (BrowserNav { focus: ColumnFocus::Symbol, ..s }, Seq::empty())
            }
        } else {
            (s, Seq::empty())
        },
        ColumnFocus::Symbol => (s, Seq::empty()),
    }
}

fn move_right(s: BrowserNav) -> (r: (BrowserNav, Vec<BrowserAction>))
    ensures
        (r.0, r.1@) == spec_move_right(s),
{
    match s.focus {
        ColumnFocus::Dep => {
            if s.pkg_count > 0 {
                if s.pkg_selected.is_none() {
                    (BrowserNav { focus: ColumnFocus::Pkg, pkg_selected: Some(0), ..s }, vec![BrowserAction::LoadSymbols])
                } else {
                    (BrowserNav { focus: ColumnFocus::Pkg, ..s }, Vec::new())
                }
            } else {
                (s, Vec::new())
            }
        },
        ColumnFocus::Pkg => {
            if s.symbol_count > 0 {
                if s.symbol_selected.is_none() {
                    (BrowserNav { focus: ColumnFocus::Symbol, symbol_selected: Some(0), ..s }, Vec::new())
                } else {
                    (BrowserNav { focus: ColumnFocus::Symbol, ..s }, Vec::new())
                }
            } else {
                (s, Vec::new())
            }
        },
        ColumnFocus::Symbol => (s, Vec::new()),
    }
}

/// The effect of a key in the browser (with no source view open).
///
/// `q` leaves; Back leaves from the dependencies and otherwise moves focus
/// one column left; Right moves right; Enter opens the selected symbol in
/// the symbols column and otherwise moves right; Down and Up move the
/// selection of the focused column, reloading the columns to its right,
/// and Down near the end of the symbols loads more of them first.
pub open spec fn spec_on_key(s: BrowserNav, key: BrowserKey) -> (BrowserNav, Seq<BrowserAction>) {
    match key {
        BrowserKey::Quit => (s, seq![BrowserAction::Exit]),
        BrowserKey::Back => match s.focus {
            ColumnFocus::Dep => (s, seq![BrowserAction::Exit]),
            ColumnFocus::Pkg => (BrowserNav { focus: ColumnFocus::Dep, ..s }, Seq::empty()),
            ColumnFocus::Symbol => (BrowserNav { focus: ColumnFocus::Pkg, ..s }, Seq::empty()),
        },
        BrowserKey::Right => spec_move_right(s),
        BrowserKey::Enter => match s.focus {
            ColumnFocus::Symbol => if row(s.symbol_selected) < s.symbol_count {
                (s, seq![BrowserAction::OpenShow(row(s.symbol_selected) as usize)])
            } else {
                (s, Seq::empty())
            },
            _ => spec_move_right(s),
        },
        BrowserKey::Down => match s.focus {
            ColumnFocus::Dep => if row(s.dep_selected) + 1 < s.dep_count {
                (BrowserNav { dep_selected: Some((row(s.dep_selected) + 1) as usize), ..s },
                    seq![BrowserAction::LoadPackages, BrowserAction::LoadSymbols])
            } else {
                (s, Seq::empty())
            },
            ColumnFocus::Pkg => if row(s.pkg_selected) + 1 < s.pkg_count {
                (BrowserNav { pkg_selected: Some((row(s.pkg_selected) + 1) as usize), ..s },
                    seq![BrowserAction::LoadSymbols])
            } else {
                (s, Seq::empty())
            },
            ColumnFocus::Symbol => if s.symbols_has_more && row(s.symbol_selected) + LOAD_MORE_THRESHOLD >= s.symbol_count {
                (s, seq![BrowserAction::LoadMoreSymbols, BrowserAction::SelectNextSymbol])
            } else {
                (spec_select_next_symbol(s), Seq::empty())
            },
        },
        BrowserKey::Up => match s.focus {
            ColumnFocus::Dep => if row(s.dep_selected) > 0 {
                (BrowserNav { dep_selected: Some((row(s.dep_selected) - 1) as usize), ..s },
                    seq![BrowserAction::LoadPackages, BrowserAction::LoadSymbols])
            } else {
                (s, Seq::empty())
            },
            ColumnFocus::Pkg => if row(s.pkg_selected) > 0 {
                (BrowserNav { pkg_selected: Some((row(s.pkg_selected) - 1) as usize), ..s },
                    seq![BrowserAction::LoadSymbols])
            } else {
                (s, Seq::empty())
            },
            ColumnFocus::Symbol => if row(s.symbol_selected) > 0 {
                (BrowserNav { symbol_selected: Some((row(s.symbol_selected) - 1) as usize), ..s }, Seq::empty())
            } else {
                (s, Seq::empty())
            },
        },
        BrowserKey::Other => (s, Seq::empty()),
    }
}

/// Handle a key in the browser: the next state and the actions to perform,
/// in order.
pub fn on_key(s: BrowserNav, key: BrowserKey) -> (r: (BrowserNav, Vec<BrowserAction>))
    ensures
        (r.0, r.1@) == spec_on_key(s, key),
        nav_wf(s) ==> nav_wf(r.0),
{
    match key {
        BrowserKey::Quit => (s, vec![BrowserAction::Exit]),
        BrowserKey::Back => match s.focus {
            ColumnFocus::Dep => (s, vec![BrowserAction::Exit]),
            ColumnFocus::Pkg => (BrowserNav { focus: ColumnFocus::Dep, ..s }, Vec::new()),
            ColumnFocus::Symbol => (BrowserNav { focus: ColumnFocus::Pkg, ..s }, Vec::new()),
        },
        BrowserKey::Right => move_right(s),
        BrowserKey::Enter => match s.focus {
            ColumnFocus::Symbol => {
                let idx = match s.symbol_selected { Some(i) => i, None => 0 };
                if idx < s.symbol_count {
                    (s, vec![BrowserAction::OpenShow(idx)])
                } else {
                    (s, Vec::new())
                }
            },
            _ => move_right(s),
        },
        BrowserKey::Down => match s.focus {
            ColumnFocus::Dep => {
                let i = match s.dep_selected { Some(i) => i, None => 0 };
                if s.dep_count > 0 && i < s.dep_count - 1 {
                    (BrowserNav { dep_selected: Some(i + 1), ..s }, vec![BrowserAction::LoadPackages, BrowserAction::LoadSymbols])
                } else {
                    (s, Vec::new())
                }
            },
            ColumnFocus::Pkg => {
                let i = match s.pkg_selected { Some(i) => i, None => 0 };
                if s.pkg_count > 0 && i < s.pkg_count - 1 {
                    (BrowserNav { pkg_selected: Some(i + 1), ..s }, vec![BrowserAction::LoadSymbols])
                } else {
                    (s, Vec::new())
                }
            },
            ColumnFocus::Symbol => {
                let i = match s.symbol_selected { Some(i) => i, None => 0 };
                if s.symbols_has_more && (i as u128) + (LOAD_MORE_THRESHOLD as u128) >= (s.symbol_count as u128) {
                    (s, vec![BrowserAction::LoadMoreSymbols, BrowserAction::SelectNextSymbol])
                } else {
                    (select_next_symbol(s), Vec::new())
                }
            },
        },
        BrowserKey::Up => match s.focus {
            ColumnFocus::Dep => {
                let i = match s.dep_selected { Some(i) => i, None => 0 };
                if i > 0 {
                    (BrowserNav { dep_selected: Some(i - 1), ..s }, vec![BrowserAction::LoadPackages, BrowserAction::LoadSymbols])
                } else {
                    (s, Vec::new())
                }
            },
            ColumnFocus::Pkg => {
                let i = match s.pkg_selected { Some(i) => i, None => 0 };
                if i > 0 {
                    (BrowserNav { pkg_selected: Some(i - 1), ..s }, vec![BrowserAction::LoadSymbols])
                } else {
                    (s, Vec::new())
                }
            },
            ColumnFocus::Symbol => {
                let i = match s.symbol_selected { Some(i) => i, None => 0 };
                if i > 0 {
                    (BrowserNav { symbol_selected: Some(i - 1), ..s }, Vec::new())
                } else {
                    (s, Vec::new())
                }
            },
        },
        BrowserKey::Other => (s, Vec::new()),
    }
}

/// A key of the source view, as the terminal loop classifies it.
#[derive(Debug, Clone, Copy, PartialEq, Eq, Structural)]
pub enum ShowKey {
    /// `q`: leave the browser.
    Quit,
    /// Esc: close the view.
    Close,
    /// Scroll by this many lines (negative: up).
    Scroll(i32),
    /// Tab: switch between the primary and the secondary view.
    ToggleSecondary,
    /// Enter beside the results: load the selected result again.
    Reload,
    /// Any other key.
    Other,
}

/// Scroll state of the source view.
#[derive(Debug, Clone, Copy, PartialEq, Eq, Structural)]
pub struct ShowNav {
    /// First line shown.
    pub scroll: u16,
    /// Whether the secondary view is shown.
    pub showing_secondary: bool,
}

/// What a source view key leads to.
#[derive(Debug, Clone, Copy, PartialEq, Eq, Structural)]
pub enum ShowOutcome {
    /// Leave the browser.
    Exit,
    /// Close the view.
    Close,
    /// Keep the view open in this state.
    Stay(ShowNav),
    /// Load the selected result again.
    Reload,
}

/// Scrolling saturates at 0 and at `u16::MAX`; toggling the secondary
/// view starts it at the top.
pub open spec fn spec_on_show_key(v: ShowNav, key: ShowKey) -> ShowOutcome {
    match key {
        ShowKey::Quit => ShowOutcome::Exit,
        ShowKey::Close => ShowOutcome::Close,
        ShowKey::Scroll(d) => {
            let target = v.scroll as int + d as int;
            let clamped = if target < 0 { 0 } else if target > u16::MAX { u16::MAX as int } else { target };
            ShowOutcome::Stay(ShowNav { scroll: clamped as u16, ..v })
        },
        ShowKey::ToggleSecondary => ShowOutcome::Stay(ShowNav { scroll: 0, showing_secondary: !v.showing_secondary }),
        ShowKey::Reload => ShowOutcome::Reload,
        ShowKey::Other => ShowOutcome::Stay(v),
    }
}

/// Handle a key of the open source view.
pub fn on_show_key(v: ShowNav, key: ShowKey) -> (r: ShowOutcome)
    ensures
        r == spec_on_show_key(v, key),
{
    match key {
        ShowKey::Quit => ShowOutcome::Exit,
        ShowKey::Close => ShowOutcome::Close,
        ShowKey::Scroll(d) => {
            let target: i64 = v.scroll as i64 + d as i64;
            let clamped: u16 = if target < 0 { 0 } else if target > 65535 { 65535 } else { target as u16 };
            ShowOutcome::Stay(ShowNav { scroll: clamped, ..v })
        },
        ShowKey::ToggleSecondary => ShowOutcome::Stay(ShowNav { scroll: 0, showing_secondary: !v.showing_secondary }),
        ShowKey::Reload => ShowOutcome::Reload,
        ShowKey::Other => ShowOutcome::Stay(v),
    }
}

/// Every key and every finished load keeps the selections inside their
/// lists.
pub proof fn law_navigation_stays_in_range(s: BrowserNav, key: BrowserKey, n: usize, total: usize)
    requires
        nav_wf(s),
    ensures
        nav_wf(spec_on_key(s, key).0),
        nav_wf(spec_packages_loaded(s, n)),
        nav_wf(spec_symbols_loaded(s, n, total)),
        nav_wf(spec_select_next_symbol(s)),
        s.symbol_count + n <= usize::MAX ==> nav_wf(spec_more_symbols_loaded(s, n, total)),
{
}

/// A key press, as the terminal reports it.
#[derive(Debug, Clone, Copy, PartialEq, Eq, Structural)]
pub enum TermKey {
    /// A character key.
    Char(char),
    /// Esc.
    Esc,
    /// Left arrow.
    Left,
    /// Right arrow.
    Right,
    /// Up arrow.
    Up,
    /// Down arrow.
    Down,
    /// Page up.
    PageUp,
    /// Page down.
    PageDown,
    /// Tab.
    Tab,
    /// Enter.
    Enter,
    /// Any other key.
    Other,
}

/// The browser key of a key press: `q` quits; Esc, Left and `h` go back;
/// Right and `l` go right; Enter; Down and `j`; Up and `k`.
pub open spec fn spec_browser_key(k: TermKey) -> BrowserKey {
    match k {
        TermKey::Char('q') => BrowserKey::Quit,
        TermKey::Esc | TermKey::Left | TermKey::Char('h') => BrowserKey::Back,
        TermKey::Right | TermKey::Char('l') => BrowserKey::Right,
        TermKey::Enter => BrowserKey::Enter,
        TermKey::Down | TermKey::Char('j') => BrowserKey::Down,
        TermKey::Up | TermKey::Char('k') => BrowserKey::Up,
        _ => BrowserKey::Other,
    }
}

/// Classify a key press in the browser.
pub fn classify_browser_key(k: TermKey) -> (r: BrowserKey)
    ensures
        r == spec_browser_key(k),
{
    match k {
        TermKey::Char('q') => BrowserKey::Quit,
        TermKey::Esc | TermKey::Left | TermKey::Char('h') => BrowserKey::Back,
        TermKey::Right | TermKey::Char('l') => BrowserKey::Right,
        TermKey::Enter => BrowserKey::Enter,
        TermKey::Down | TermKey::Char('j') => BrowserKey::Down,
        TermKey::Up | TermKey::Char('k') => BrowserKey::Up,
        _ => BrowserKey::Other,
    }
}

/// The source view key of a key press: Esc closes; `q` quits; Down/`j`
/// and Up/`k` scroll one line, PageDown and PageUp twenty; Tab switches
/// views when there is a second one; Enter reloads when allowed.
pub open spec fn spec_show_key(k: TermKey, has_secondary: bool, allow_reload: bool) -> ShowKey {
    match k {
        TermKey::Esc => ShowKey::Close,
        TermKey::Char('q') => ShowKey::Quit,
        TermKey::Down | TermKey::Char('j') => ShowKey::Scroll(1i32),
        TermKey::Up | TermKey::Char('k') => ShowKey::Scroll(-1i32),
        TermKey::PageDown => ShowKey::Scroll(20i32),
        TermKey::PageUp => ShowKey::Scroll(-20i32),
        TermKey::Tab => if has_secondary { ShowKey::ToggleSecondary } else { ShowKey::Other },
        TermKey::Enter => if allow_reload { ShowKey::Reload } else { ShowKey::Other },
        _ => ShowKey::Other,
    }
}

/// Classify a key press in the source view.
pub fn classify_show_key(k: TermKey, has_secondary: bool, allow_reload: bool) -> (r: ShowKey)
    ensures
        r == spec_show_key(k, has_secondary, allow_reload),
{
    match k {
        TermKey::Esc => ShowKey::Close,
        TermKey::Char('q') => ShowKey::Quit,
        TermKey::Down | TermKey::Char('j') => ShowKey::Scroll(1),
        TermKey::Up | TermKey::Char('k') => ShowKey::Scroll(-1),
        TermKey::PageDown => ShowKey::Scroll(20),
        TermKey::PageUp => ShowKey::Scroll(-20),
        TermKey::Tab => if has_secondary { ShowKey::ToggleSecondary } else { ShowKey::Other },
        TermKey::Enter => if allow_reload { ShowKey::Reload } else { ShowKey::Other },
        _ => ShowKey::Other,
    }
}

/// The state of the search results view: the selected row of `count`
/// results, and the source view when one is open.
#[derive(Debug, Clone, Copy, PartialEq, Eq, Structural)]
pub struct ResultsNav {
    /// Selected row.
    pub selected: usize,
    /// Number of results.
    pub count: usize,
    /// The open source view.
    pub show: Option<ShowNav>,
}

/// What the results view does next.
#[derive(Debug, Clone, Copy, PartialEq, Eq, Structural)]
pub enum ResultsAction {
    /// Leave the view.
    Exit,
    /// Load the source of this result row and open it.
    OpenShow(usize),
    /// Nothing more.
    Nothing,
}

/// The selection stays inside a non-empty result list.
pub open spec fn results_wf(s: ResultsNav) -> bool {
    s.count > 0 && s.selected < s.count
}

/// A key in the results view.  Without a source view: `q`/Esc leave,
/// Down/`j` and Up/`k` move the selection with wrap-around, Enter opens the
/// selected result.  With one: its key handling, where Enter beside the
/// results (`side_by_side`) reopens the selected result.
pub open spec fn spec_results_on_key(s: ResultsNav, k: TermKey, has_secondary: bool, side_by_side: bool) -> (ResultsNav, ResultsAction) {
    match s.show {
        Some(v) => match spec_on_show_key(v, spec_show_key(k, has_secondary, side_by_side)) {
            ShowOutcome::Exit => (s, ResultsAction::Exit),
            ShowOutcome::Close => (ResultsNav { show: None, ..s }, ResultsAction::Nothing),
            ShowOutcome::Stay(v2) => (ResultsNav { show: Some(v2), ..s }, ResultsAction::Nothing),
            ShowOutcome::Reload => (s, ResultsAction::OpenShow(s.selected)),
        },
        None => match k {
            TermKey::Char('q') | TermKey::Esc => (s, ResultsAction::Exit),
            TermKey::Down | TermKey::Char('j') => (ResultsNav {
                selected: if s.selected + 1 >= s.count { 0 } else { (s.selected + 1) as usize }, ..s
            }, ResultsAction::Nothing),
            TermKey::Up | TermKey::Char('k') => (ResultsNav {
                selected: if s.selected == 0 { (s.count - 1) as usize } else { (s.selected - 1) as usize }, ..s
            }, ResultsAction::Nothing),
            TermKey::Enter => (s, ResultsAction::OpenShow(s.selected)),
            _ => (s, ResultsAction::Nothing),
        },
    }
}

/// Handle a key in the results view.
pub fn results_on_key(s: ResultsNav, k: TermKey, has_secondary: bool, side_by_side: bool) -> (r: (ResultsNav, ResultsAction))
    requires
        results_wf(s),
    ensures
        r == spec_results_on_key(s, k, has_secondary, side_by_side),
        results_wf(r.0),
{
    match s.show {
        Some(v) => match on_show_key(v, classify_show_key(k, has_secondary, side_by_side)) {
            ShowOutcome::Exit => (s, ResultsAction::Exit),
            ShowOutcome::Close => (ResultsNav { show: None, ..s }, ResultsAction::Nothing),
            ShowOutcome::Stay(v2) => (ResultsNav { show: Some(v2), ..s }, ResultsAction::Nothing),
            ShowOutcome::Reload => (s, ResultsAction::OpenShow(s.selected)),
        },
        None => match k {
            TermKey::Char('q') | TermKey::Esc => (s, ResultsAction::Exit),
            TermKey::Down | TermKey::Char('j') => {
                let next = if s.selected + 1 >= s.count { 0 } else { s.selected + 1 };
                (ResultsNav { selected: next, ..s }, ResultsAction::Nothing)
            },
            TermKey::Up | TermKey::Char('k') => {
                let next = if s.selected == 0 { s.count - 1 } else { s.selected - 1 };
                (ResultsNav { selected: next, ..s }, ResultsAction::Nothing)
            },
            TermKey::Enter => (s, ResultsAction::OpenShow(s.selected)),
            _ => (s, ResultsAction::Nothing),
        },
    }
}

/// A source view opened on the results: at the top, on the primary view.
pub fn results_show_opened(s: ResultsNav) -> (r: ResultsNav)
    ensures
        r == (ResultsNav { show: Some(ShowNav { scroll: 0, showing_secondary: false }), ..s }),
{
    ResultsNav { show: Some(ShowNav { scroll: 0, showing_secondary: false }), ..s }
}
/// Without an open source view, moving down then up (or up then down)
/// comes back to the same result.
pub proof fn law_down_then_up_returns(s: ResultsNav, has_secondary: bool, side_by_side: bool)
    requires
        results_wf(s),
        s.show is None,
    ensures
        spec_results_on_key(spec_results_on_key(s, TermKey::Down, has_secondary, side_by_side).0, TermKey::Up, has_secondary, side_by_side).0 == s,
        spec_results_on_key(spec_results_on_key(s, TermKey::Up, has_secondary, side_by_side).0, TermKey::Down, has_secondary, side_by_side).0 == s,
{
}
} // verus!
