use vstd::prelude::*;
use crate::config::{GoToConfig, GoToEntry};
use crate::input::{
    is_ctrl_c, is_left_click, key_is_ctrl_c, mouse_is_left_click, rect_contains,
    rect_contains_spec, KeyCode, KeyEvent, KeyModifiers, MouseEvent,
};
use crate::paths::path_exists;
use crate::state::{
    App, AppView, DestView, Effect, EffectView, EntryView, GoToDestination, GoToHit, GoToOverlay,
    GoToOverlayRow, GoToView, RowView, SidebarRow, SidebarRowView,
};
use crate::text::{ascii_fold, ascii_fold_code, concatenate, digit_char, digit_for};

verus! {

// ---------------------------------------------------------------------------
// Which destinations the overlay offers
// ---------------------------------------------------------------------------

/// The entries of the "Places" sidebar, in order, without its headings.
pub open spec fn sidebar_items(rows: Seq<SidebarRowView>) -> Seq<EntryView>
    decreases rows.len(),
{
    if rows.len() == 0 {
        Seq::empty()
    } else {
        let rest = sidebar_items(rows.drop_last());
        match rows.last() {
            SidebarRowView::Item(e) => rest.push(e),
            SidebarRowView::Section(_) => rest,
        }
    }
}

/// At most the first five elements of `s`.
pub open spec fn first_five(s: Seq<EntryView>) -> Seq<EntryView> {
    if s.len() <= 5 {
        s
    } else {
        s.take(5)
    }
}

/// The destinations of the overlay: the first five configured ones, or, when
/// none is configured, the first five entries of the "Places" sidebar.
pub open spec fn goto_candidates_spec(config: Seq<EntryView>, sidebar: Seq<SidebarRowView>) -> Seq<
    EntryView,
> {
    if config.len() == 0 {
        first_five(sidebar_items(sidebar))
    } else {
        first_five(config)
    }
}

/// The message shown for a destination that does not exist.
pub open spec fn missing_message(title: Seq<char>) -> Seq<char> {
    title + " not available"@
}

/// Row `i` of the overlay for destination `e`, given whether its path exists.
pub open spec fn row_spec(i: int, e: EntryView, exists: bool) -> RowView {
    RowView {
        shortcut: digit_char(i + 1),
        label: e.title,
        destination: if exists {
            DestView::Path(e.path)
        } else {
            DestView::Missing(missing_message(e.title))
        },
    }
}

/// `g` is the overlay for the destinations `cands`: titled "Go to", one row
/// per destination, in order, each opening its path if that exists and
/// otherwise reporting the destination as not available.
pub open spec fn built_from(g: GoToView, cands: Seq<EntryView>) -> bool {
    &&& g.title == "Go to"@
    &&& g.rows.len() == cands.len()
    &&& forall|i: int|
        0 <= i < cands.len() ==> #[trigger] g.rows[i] == row_spec(i, cands[i], true) || g.rows[i]
            == row_spec(i, cands[i], false)
}

fn clone_entry(title: &String, path: &String) -> (e: GoToEntry)
    ensures
        e@ == (EntryView { title: title@, path: path@ }),
{
    GoToEntry { title: title.clone(), path: path.clone() }
}

/// The destinations the overlay offers, from the configuration and the
/// "Places" sidebar.
pub fn goto_candidates(sidebar: &Vec<SidebarRow>, config: &GoToConfig) -> (r: Vec<GoToEntry>)
    ensures
        r@.map_values(|e: GoToEntry| e@) == goto_candidates_spec(
            config@,
            sidebar@.map_values(|s: SidebarRow| s@),
        ),
{
    let ghost rows = sidebar@.map_values(|s: SidebarRow| s@);
    let mut all: Vec<GoToEntry> = Vec::new();
    if config.entries.len() == 0 {
        let mut i: usize = 0;
        assert(rows.take(0) =~= Seq::<SidebarRowView>::empty());
        assert(all@.map_values(|e: GoToEntry| e@) =~= Seq::<EntryView>::empty());
        while i < sidebar.len()
            invariant
                i <= sidebar@.len(),
                rows == sidebar@.map_values(|s: SidebarRow| s@),
                all@.map_values(|e: GoToEntry| e@) == sidebar_items(rows.take(i as int)),
            decreases sidebar@.len() - i,
        {
            let ghost before = all@;
            assert(rows.take(i + 1).drop_last() =~= rows.take(i as int));
            assert(rows.take(i + 1).last() == sidebar@[i as int]@);
            match sidebar[i].item() {
                Some(item) => {
                    let e = clone_entry(&item.title, &item.path);
                    all.push(e);
                    assert(all@.map_values(|e: GoToEntry| e@) =~= before.map_values(
                        |e: GoToEntry| e@,
                    ).push(e@));
                },
                None => {},
            }
            i = i + 1;
        }
        assert(rows.take(i as int) =~= rows);
    } else {
        let mut i: usize = 0;
        assert(all@.map_values(|e: GoToEntry| e@) =~= config@.take(0));
        while i < config.entries.len()
            invariant
                i <= config.entries@.len(),
                all@.map_values(|e: GoToEntry| e@) == config@.take(i as int),
            decreases config.entries@.len() - i,
        {
            let e = clone_entry(&config.entries[i].title, &config.entries[i].path);
            assert(e@ == config@[i as int]);
            let ghost before = all@;
            all.push(e);
            assert(all@.map_values(|e: GoToEntry| e@) =~= before.map_values(|e: GoToEntry| e@).push(
                e@,
            ));
            assert(config@.take(i + 1) =~= config@.take(i as int).push(config@[i as int]));
            i = i + 1;
        }
        assert(config@.take(i as int) =~= config@);
    }
    let ghost src = all@.map_values(|e: GoToEntry| e@);
    let mut r: Vec<GoToEntry> = Vec::new();
    let mut k: usize = 0;
    let n = if all.len() < 5 {
        all.len()
    } else {
        5
    };
    assert(r@.map_values(|e: GoToEntry| e@) =~= src.take(0));
    while k < n
        invariant
            n <= all@.len(),
            k <= n,
            src == all@.map_values(|e: GoToEntry| e@),
            r@.map_values(|e: GoToEntry| e@) == src.take(k as int),
        decreases n - k,
    {
        let e = clone_entry(&all[k].title, &all[k].path);
        assert(e@ == src[k as int]);
        let ghost before = r@;
        r.push(e);
        assert(r@.map_values(|e: GoToEntry| e@) =~= before.map_values(|e: GoToEntry| e@).push(e@));
        assert(src.take(k + 1) =~= src.take(k as int).push(src[k as int]));
        k = k + 1;
    }
    assert(src.take(n as int) =~= first_five(src));
    r
}

/// Row `index` of the overlay for `entry`, given whether its path exists.
pub fn goto_row(index: usize, entry: &GoToEntry, exists: bool) -> (r: GoToOverlayRow)
    requires
        index < usize::MAX,
    ensures
        r@ == row_spec(index as int, entry@, exists),
{
    let destination = if exists {
        GoToDestination::Path(entry.path.clone())
    } else {
        GoToDestination::Missing(concatenate(entry.title.as_str(), " not available"))
    };
    GoToOverlayRow {
        shortcut: digit_for(index + 1),
        label: entry.title.clone(),
        destination,
    }
}

/// The "go to" overlay: one row for each of the destinations the
/// configuration or the sidebar offers, with shortcuts 1 to 5.
pub fn build_goto_overlay(app: &App, config: &GoToConfig) -> (o: GoToOverlay)
    ensures
        built_from(o@, goto_candidates_spec(config@, app@.sidebar)),
{
    let cands = goto_candidates(&app.navigation.sidebar, config);
    let ghost cv = cands@.map_values(|e: GoToEntry| e@);
    assert(cands@.len() == cv.len());
    let mut rows: Vec<GoToOverlayRow> = Vec::new();
    let mut i: usize = 0;
    while i < cands.len()
        invariant
            i <= cands@.len(),
            cands@.len() <= 5,
            cv == cands@.map_values(|e: GoToEntry| e@),
            rows@.len() == i,
            forall|j: int|
                0 <= j < i ==> #[trigger] rows@[j]@ == row_spec(j, cv[j], true) || rows@[j]@
                    == row_spec(j, cv[j], false),
        decreases cands@.len() - i,
    {
        let exists = path_exists(cands[i].path.as_str());
        let row = goto_row(i, &cands[i], exists);
        rows.push(row);
        i = i + 1;
    }
    let o = GoToOverlay { title: String::from_str("Go to"), rows };
    assert(o@.rows.len() == cv.len());
    assert forall|j: int| 0 <= j < cv.len() implies #[trigger] o@.rows[j] == row_spec(
        j,
        cv[j],
        true,
    ) || o@.rows[j] == row_spec(j, cv[j], false) by {
        assert(o@.rows[j] == rows@[j]@);
    }
    o
}

// ---------------------------------------------------------------------------
// Choosing a row
// ---------------------------------------------------------------------------

pub proof fn lemma_shortcut_lookup_bounds(rows: Seq<RowView>, ch: char, i: int)
    ensures
        shortcut_lookup(rows, ch, i) matches Some(k) ==> i <= k < rows.len(),
    decreases rows.len() - i,
{
    if 0 <= i < rows.len() && ascii_fold(rows[i].shortcut) != ascii_fold(ch) {
        lemma_shortcut_lookup_bounds(rows, ch, i + 1);
    }
}

/// The first row, from `i` on, whose shortcut matches `ch` ignoring ASCII
/// case.
pub open spec fn shortcut_lookup(rows: Seq<RowView>, ch: char, i: int) -> Option<int>
    decreases rows.len() - i,
{
    if i < 0 || i >= rows.len() {
        None
    } else if ascii_fold(rows[i].shortcut) == ascii_fold(ch) {
        Some(i)
    } else {
        shortcut_lookup(rows, ch, i + 1)
    }
}

/// The first drawn row, from `i` on, whose area holds the cell.
pub open spec fn hit_lookup(hits: Seq<GoToHit>, column: u16, row: u16, i: int) -> Option<int>
    decreases hits.len() - i,
{
    if i < 0 || i >= hits.len() {
        None
    } else if rect_contains_spec(hits[i].rect, column, row) {
        Some(i)
    } else {
        hit_lookup(hits, column, row, i + 1)
    }
}

pub open spec fn close_goto(app: AppView) -> AppView {
    AppView { goto: None, ..app }
}

/// Choosing row `index`: an existing destination closes the overlay and is
/// opened; a missing one shows its message in the status line and leaves the
/// overlay open; an index with no row does nothing.
pub open spec fn confirm_goto_spec(app: AppView, index: int) -> (AppView, EffectView) {
    match app.goto {
        Some(g) => if 0 <= index < g.rows.len() {
            match g.rows[index].destination {
                DestView::Path(p) => (close_goto(app), EffectView::SetDir(p)),
                DestView::Missing(m) => (AppView { status: m, ..app }, EffectView::Nothing),
            }
        } else {
            (app, EffectView::Nothing)
        },
        None => (app, EffectView::Nothing),
    }
}

/// What a key does while the "go to" overlay is open: Ctrl+C and Esc close
/// it; `0` (without Control or Alt) closes it and returns to the start
/// directory; another character chooses the row with that shortcut.
pub open spec fn goto_key_spec(app: AppView, key: KeyEvent) -> (AppView, EffectView) {
    if is_ctrl_c(key) {
        (close_goto(app), EffectView::Nothing)
    } else {
        match key.code {
            KeyCode::Esc => (close_goto(app), EffectView::Nothing),
            KeyCode::Char(ch) => if key.modifiers.plain() {
                if ch == '0' {
                    (close_goto(app), EffectView::SetDir(app.start_dir))
                } else {
                    match app.goto {
                        Some(g) => match shortcut_lookup(g.rows, ch, 0) {
                            Some(i) => confirm_goto_spec(app, i),
                            None => (app, EffectView::Nothing),
                        },
                        None => (app, EffectView::Nothing),
                    }
                }
            } else {
                (app, EffectView::Nothing)
            },
            _ => (app, EffectView::Nothing),
        }
    }
}

/// What a mouse event does while the "go to" overlay is open: a left click
/// outside its panel closes it; one on a row chooses that row.
pub open spec fn goto_mouse_spec(app: AppView, mouse: MouseEvent) -> (AppView, EffectView) {
    if is_left_click(mouse) {
        if !(app.goto_panel matches Some(p) && rect_contains_spec(p, mouse.column, mouse.row)) {
            (close_goto(app), EffectView::Nothing)
        } else {
            match hit_lookup(app.goto_hits, mouse.column, mouse.row, 0) {
                Some(k) => confirm_goto_spec(app, app.goto_hits[k].index as int),
                None => (app, EffectView::Nothing),
            }
        }
    } else {
        (app, EffectView::Nothing)
    }
}

fn clone_destination(d: &GoToDestination) -> (r: GoToDestination)
    ensures
        r@ == d@,
{
    match d {
        GoToDestination::Path(p) => GoToDestination::Path(p.clone()),
        GoToDestination::Missing(m) => GoToDestination::Missing(m.clone()),
    }
}

impl App {
    pub fn goto_is_open(&self) -> (r: bool)
        ensures
            r == self@.goto is Some,
    {
        self.overlays.goto.is_some()
    }

    /// The overlay's title, or the empty string when it is closed.
    pub fn goto_title(&self) -> (r: &str)
        ensures
            r@ == match self@.goto {
                Some(g) => g.title,
                None => Seq::<char>::empty(),
            },
    {
        match &self.overlays.goto {
            Some(o) => o.title.as_str(),
            None => {
                proof {
                    reveal_strlit("");
                }
                ""
            },
        }
    }

    /// The number of rows, or 0 when the overlay is closed.
    pub fn goto_row_count(&self) -> (r: usize)
        ensures
            r == match self@.goto {
                Some(g) => g.rows.len(),
                None => 0,
            },
    {
        match &self.overlays.goto {
            Some(o) => o.rows.len(),
            None => 0,
        }
    }

    /// The label of row `index`, or the empty string when there is no such
    /// row.
    pub fn goto_row_label(&self, index: usize) -> (r: &str)
        ensures
            r@ == match self@.goto {
                Some(g) => if index < g.rows.len() {
                    g.rows[index as int].label
                } else {
                    Seq::<char>::empty()
                },
                None => Seq::<char>::empty(),
            },
    {
        proof {
            reveal_strlit("");
        }
        match &self.overlays.goto {
            Some(o) => if index < o.rows.len() {
                o.rows[index].label.as_str()
            } else {
                ""
            },
            None => "",
        }
    }

    /// The shortcut of row `index`, if there is such a row.
    pub fn goto_row_shortcut(&self, index: usize) -> (r: Option<char>)
        ensures
            r == match self@.goto {
                Some(g) => if index < g.rows.len() {
                    Some(g.rows[index as int].shortcut)
                } else {
                    None
                },
                None => None,
            },
    {
        match &self.overlays.goto {
            Some(o) => if index < o.rows.len() {
                Some(o.rows[index].shortcut)
            } else {
                None
            },
            None => None,
        }
    }

    /// Opens the "go to" overlay (closing the help overlay and clearing the
    /// status line) with the destinations of `config`, or of the sidebar when
    /// `config` has none.
    pub fn open_goto_overlay(&mut self, config: &GoToConfig)
        requires
            old(self)@.wf(),
        ensures
            final(self)@.wf(),
            final(self)@.goto matches Some(g) && built_from(
                g,
                goto_candidates_spec(config@, old(self)@.sidebar),
            ),
            final(self)@ == (AppView {
                help: false,
                goto: final(self)@.goto,
                status: Seq::empty(),
                ..old(self)@
            }),
    {
        self.overlays.help = false;
        let o = build_goto_overlay(self, config);
        self.overlays.goto = Some(o);
        self.status = String::new();
    }

    /// The first row whose shortcut is `ch`, ignoring ASCII case.
    pub fn goto_row_index_for_shortcut(&self, ch: char) -> (r: Option<usize>)
        ensures
            r matches Some(i) ==> self@.goto matches Some(g) && i < g.rows.len(),
            match self@.goto {
                Some(g) => match shortcut_lookup(g.rows, ch, 0) {
                    Some(i) => r matches Some(k) && k as int == i,
                    None => r is None,
                },
                None => r is None,
            },
    {
        let needle = ascii_fold_code(ch);
        match &self.overlays.goto {
            Some(o) => {
                let ghost rows = o@.rows;
                let mut i: usize = 0;
                while i < o.rows.len()
                    invariant
                        i <= o.rows@.len(),
                        self@.goto == Some(o@),
                        rows == o@.rows,
                        needle == ascii_fold(ch),
                        shortcut_lookup(rows, ch, 0) == shortcut_lookup(rows, ch, i as int),
                    decreases o.rows@.len() - i,
                {
                    proof {
                        lemma_shortcut_lookup_bounds(rows, ch, i as int);
                    }
                    assert(rows[i as int] == o.rows@[i as int]@);
                    if ascii_fold_code(o.rows[i].shortcut) == needle {
                        return Some(i);
                    }
                    i = i + 1;
                }
                None
            },
            None => None,
        }
    }

    /// Chooses row `index` of the "go to" overlay.
    pub fn confirm_goto_index(&mut self, index: usize) -> (e: Effect)
        requires
            old(self)@.wf(),
        ensures
            final(self)@.wf(),
            (final(self)@, e@) == confirm_goto_spec(old(self)@, index as int),
    {
        let destination = match &self.overlays.goto {
            Some(o) => if index < o.rows.len() {
                assert(o@.rows[index as int] == o.rows@[index as int]@);
                clone_destination(&o.rows[index].destination)
            } else {
                return Effect::Nothing;
            },
            None => {
                return Effect::Nothing;
            },
        };
        match destination {
            GoToDestination::Path(path) => {
                self.overlays.goto = None;
                Effect::SetDir(path)
            },
            GoToDestination::Missing(status) => {
                self.status = status;
                Effect::Nothing
            },
        }
    }

    /// Handles a key while the "go to" overlay is open.
    pub fn handle_goto_key(&mut self, key: KeyEvent) -> (e: Effect)
        requires
            old(self)@.wf(),
        ensures
            final(self)@.wf(),
            (final(self)@, e@) == goto_key_spec(old(self)@, key),
    {
        if key_is_ctrl_c(&key) {
            self.overlays.goto = None;
            return Effect::Nothing;
        }
        let plain = !key.modifiers.control && !key.modifiers.alt;
        match key.code {
            KeyCode::Esc => {
                self.overlays.goto = None;
                Effect::Nothing
            },
            KeyCode::Char(ch) => {
                if !plain {
                    return Effect::Nothing;
                }
                if ch == '0' {
                    self.overlays.goto = None;
                    return Effect::SetDir(self.navigation.start_dir.clone());
                }
                match self.goto_row_index_for_shortcut(ch) {
                    Some(index) => self.confirm_goto_index(index),
                    None => Effect::Nothing,
                }
            },
            _ => Effect::Nothing,
        }
    }

    /// Handles a mouse event while the "go to" overlay is open.
    pub fn handle_goto_mouse(&mut self, mouse: MouseEvent) -> (e: Effect)
        requires
            old(self)@.wf(),
        ensures
            final(self)@.wf(),
            (final(self)@, e@) == goto_mouse_spec(old(self)@, mouse),
    {
        if !mouse_is_left_click(&mouse) {
            return Effect::Nothing;
        }
        let inside = match self.input.frame_state.goto_panel {
            Some(panel) => rect_contains(panel, mouse.column, mouse.row),
            None => false,
        };
        if !inside {
            self.overlays.goto = None;
            return Effect::Nothing;
        }
        let ghost hits = self@.goto_hits;
        let mut k: usize = 0;
        let n = self.input.frame_state.goto_hits.len();
        while k < n
            invariant
                self@ == old(self)@,
                old(self)@.wf(),
                is_left_click(mouse),
                old(self)@.goto_panel matches Some(p) && rect_contains_spec(
                    p,
                    mouse.column,
                    mouse.row,
                ),
                k <= n,
                n == hits.len(),
                hits == self@.goto_hits,
                hit_lookup(hits, mouse.column, mouse.row, 0) == hit_lookup(
                    hits,
                    mouse.column,
                    mouse.row,
                    k as int,
                ),
            decreases n - k,
        {
            let hit = self.input.frame_state.goto_hits[k];
            assert(hits[k as int] == hit);
            if rect_contains(hit.rect, mouse.column, mouse.row) {
                assert(hit_lookup(hits, mouse.column, mouse.row, k as int) == Some(k as int));
                return self.confirm_goto_index(hit.index);
            }
            k = k + 1;
        }
        Effect::Nothing
    }
}

} // verus!

verus! {

// ---------------------------------------------------------------------------
// Laws of the "go to" overlay
// ---------------------------------------------------------------------------

/// A character key pressed without Control or Alt.
pub open spec fn char_key(ch: char) -> KeyEvent {
    KeyEvent {
        code: KeyCode::Char(ch),
        modifiers: KeyModifiers {
            shift: false,
            control: false,
            alt: false,
            super_key: false,
            hyper: false,
            meta: false,
        },
    }
}

/// The overlay offers at most five destinations.
pub proof fn law_at_most_five_destinations(config: Seq<EntryView>, sidebar: Seq<SidebarRowView>)
    ensures
        goto_candidates_spec(config, sidebar).len() <= 5,
{
}

proof fn lemma_digits_differ(i: int, j: int)
    requires
        0 <= i < 5,
        0 <= j < 5,
        i != j,
    ensures
        ascii_fold(digit_char(i + 1)) != ascii_fold(digit_char(j + 1)),
{
}

proof fn lemma_lookup_finds(rows: Seq<RowView>, i: int, from: int)
    requires
        rows.len() <= 5,
        forall|k: int| 0 <= k < rows.len() ==> #[trigger] rows[k].shortcut == digit_char(k + 1),
        0 <= from <= i < rows.len(),
    ensures
        shortcut_lookup(rows, digit_char(i + 1), from) == Some(i),
    decreases i - from,
{
    if from < i {
        assert(rows[from].shortcut == digit_char(from + 1));
        lemma_digits_differ(from, i);
        lemma_lookup_finds(rows, i, from + 1);
    } else {
        assert(rows[i].shortcut == digit_char(i + 1));
    }
}

/// In an overlay built for the destinations, the shortcut of each row leads
/// to that row.
pub proof fn law_shortcut_finds_its_row(
    g: GoToView,
    config: Seq<EntryView>,
    sidebar: Seq<SidebarRowView>,
    i: int,
)
    requires
        built_from(g, goto_candidates_spec(config, sidebar)),
        0 <= i < g.rows.len(),
    ensures
        g.rows[i].shortcut == digit_char(i + 1),
        shortcut_lookup(g.rows, g.rows[i].shortcut, 0) == Some(i),
{
    let cands = goto_candidates_spec(config, sidebar);
    assert forall|k: int| 0 <= k < g.rows.len() implies #[trigger] g.rows[k].shortcut == digit_char(
        k + 1,
    ) by {
        assert(g.rows[k] == row_spec(k, cands[k], true) || g.rows[k] == row_spec(k, cands[k], false));
    }
    lemma_lookup_finds(g.rows, i, 0);
}

/// With a built overlay open, pressing a row's shortcut opens its directory
/// and closes the overlay when the directory exists, and otherwise shows that
/// the destination is not available and leaves the overlay open.
pub proof fn law_shortcut_chooses_row(
    app: AppView,
    config: Seq<EntryView>,
    i: int,
)
    requires
        app.goto matches Some(g) && built_from(g, goto_candidates_spec(config, app.sidebar)),
        0 <= i < app.goto->0.rows.len(),
    ensures
        ({
            let g = app.goto->0;
            let (next, effect) = goto_key_spec(app, char_key(digit_char(i + 1)));
            match g.rows[i].destination {
                DestView::Path(p) => next == close_goto(app) && effect == EffectView::SetDir(p),
                DestView::Missing(m) => next == (AppView { status: m, ..app }) && effect
                    == EffectView::Nothing,
            }
        }),
{
    let g = app.goto->0;
    law_shortcut_finds_its_row(g, config, app.sidebar, i);
    assert(digit_char(i + 1) != '0');
}

/// `0` (without Control or Alt) closes the overlay and returns to the
/// directory the program started in.
pub proof fn law_zero_returns_to_start(app: AppView)
    ensures
        goto_key_spec(app, char_key('0')) == (close_goto(app), EffectView::SetDir(app.start_dir)),
{
}

} // verus!

verus! {

/// The items of two sidebars put together are the items of the first, then
/// those of the second.
pub proof fn lemma_sidebar_items_concat(a: Seq<SidebarRowView>, b: Seq<SidebarRowView>)
    ensures
        sidebar_items(a + b) == sidebar_items(a) + sidebar_items(b),
    decreases b.len(),
{
    if b.len() == 0 {
        assert(a + b =~= a);
        assert(sidebar_items(a) + sidebar_items(b) =~= sidebar_items(a));
    } else {
        assert((a + b).drop_last() =~= a + b.drop_last());
        assert((a + b).last() == b.last());
        lemma_sidebar_items_concat(a, b.drop_last());
        match b.last() {
            SidebarRowView::Item(e) => {
                assert(sidebar_items(a) + sidebar_items(b.drop_last()).push(e) =~= (sidebar_items(a)
                    + sidebar_items(b.drop_last())).push(e));
            },
            SidebarRowView::Section(_) => {},
        }
    }
}

/// Only the first five items of the sidebar decide the destinations: two
/// sidebars whose first five items agree offer the same ones.
pub proof fn law_only_first_five_items_matter(
    config: Seq<EntryView>,
    a: Seq<SidebarRowView>,
    b: Seq<SidebarRowView>,
)
    requires
        first_five(sidebar_items(a)) == first_five(sidebar_items(b)),
    ensures
        goto_candidates_spec(config, a) == goto_candidates_spec(config, b),
{
}

/// A section heading anywhere in the sidebar changes no destination.
pub proof fn law_sections_do_not_matter(
    config: Seq<EntryView>,
    before: Seq<SidebarRowView>,
    after: Seq<SidebarRowView>,
    heading: Seq<char>,
)
    ensures
        goto_candidates_spec(config, before + seq![SidebarRowView::Section(heading)] + after)
            == goto_candidates_spec(config, before + after),
{
    let with = before + seq![SidebarRowView::Section(heading)];
    lemma_sidebar_items_concat(with, after);
    lemma_sidebar_items_concat(before, seq![SidebarRowView::Section(heading)]);
    lemma_sidebar_items_concat(before, after);
    let one: Seq<SidebarRowView> = seq![SidebarRowView::Section(heading)];
    assert(one.drop_last() =~= Seq::<SidebarRowView>::empty());
    assert(one.last() == SidebarRowView::Section(heading));
    assert(sidebar_items(Seq::<SidebarRowView>::empty()) == Seq::<EntryView>::empty());
    assert(sidebar_items(one) == sidebar_items(one.drop_last()));
    assert(sidebar_items(one) =~= Seq::<EntryView>::empty());
    assert(sidebar_items(before) + sidebar_items(one) =~= sidebar_items(before));
}

/// Rows after the fifth item of the sidebar change no destination.
pub proof fn law_items_after_fifth_do_not_matter(
    config: Seq<EntryView>,
    first: Seq<SidebarRowView>,
    rest: Seq<SidebarRowView>,
)
    requires
        sidebar_items(first).len() >= 5,
    ensures
        goto_candidates_spec(config, first + rest) == goto_candidates_spec(config, first),
{
    lemma_sidebar_items_concat(first, rest);
    let x = sidebar_items(first);
    let y = sidebar_items(rest);
    assert((x + y).take(5) =~= x.take(5));
    if x.len() == 5 {
        assert(x.take(5) =~= x);
    }
}

} // verus!
