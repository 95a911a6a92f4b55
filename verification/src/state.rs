use vstd::prelude::*;
use crate::input::Rect;
use crate::paths::opt_view;

verus! {

// ---------------------------------------------------------------------------
// The "cd" overlay
// ---------------------------------------------------------------------------

/// The overlay in which a path is typed to navigate to it. `cursor_col`
/// counts characters, not bytes.
pub struct CdOverlay {
    pub input: String,
    pub cursor_col: usize,
    pub error: Option<String>,
}

pub struct CdView {
    pub input: Seq<char>,
    pub cursor: nat,
    pub error: Option<Seq<char>>,
}

impl View for CdOverlay {
    type V = CdView;

    open spec fn view(&self) -> CdView {
        CdView { input: self.input@, cursor: self.cursor_col as nat, error: opt_view(self.error) }
    }
}

impl CdView {
    /// The cursor stands within the input (at most just after its last
    /// character), and the input's length leaves room for the cursor to move
    /// past one more character (a machine limit: no `String` comes near it).
    pub open spec fn wf(self) -> bool {
        &&& self.cursor <= self.input.len()
        &&& self.input.len() < usize::MAX
    }

    /// One more character fits in the input.
    pub open spec fn can_grow(self) -> bool {
        self.input.len() + 1 < usize::MAX
    }
}

// ---------------------------------------------------------------------------
// The "go to" overlay
// ---------------------------------------------------------------------------

pub enum GoToDestination {
    /// A directory to open.
    Path(String),
    /// The destination does not exist; the message to show instead.
    Missing(String),
}

pub enum DestView {
    Path(Seq<char>),
    Missing(Seq<char>),
}

impl View for GoToDestination {
    type V = DestView;

    open spec fn view(&self) -> DestView {
        match self {
            GoToDestination::Path(p) => DestView::Path(p@),
            GoToDestination::Missing(m) => DestView::Missing(m@),
        }
    }
}

pub struct GoToOverlayRow {
    pub shortcut: char,
    pub label: String,
    pub destination: GoToDestination,
}

pub struct RowView {
    pub shortcut: char,
    pub label: Seq<char>,
    pub destination: DestView,
}

impl View for GoToOverlayRow {
    type V = RowView;

    open spec fn view(&self) -> RowView {
        RowView { shortcut: self.shortcut, label: self.label@, destination: self.destination@ }
    }
}

pub struct GoToOverlay {
    pub title: String,
    pub rows: Vec<GoToOverlayRow>,
}

pub struct GoToView {
    pub title: Seq<char>,
    pub rows: Seq<RowView>,
}

impl View for GoToOverlay {
    type V = GoToView;

    open spec fn view(&self) -> GoToView {
        GoToView { title: self.title@, rows: self.rows@.map_values(|r: GoToOverlayRow| r@) }
    }
}

// ---------------------------------------------------------------------------
// Places
// ---------------------------------------------------------------------------

/// A named directory.
pub struct EntryView {
    pub title: Seq<char>,
    pub path: Seq<char>,
}

/// An entry of the "Places" sidebar.
pub struct SidebarItem {
    pub title: String,
    pub path: String,
}

impl View for SidebarItem {
    type V = EntryView;

    open spec fn view(&self) -> EntryView {
        EntryView { title: self.title@, path: self.path@ }
    }
}

/// A row of the "Places" sidebar: a section heading or an entry.
pub enum SidebarRow {
    Section(String),
    Item(SidebarItem),
}

pub enum SidebarRowView {
    Section(Seq<char>),
    Item(EntryView),
}

impl View for SidebarRow {
    type V = SidebarRowView;

    open spec fn view(&self) -> SidebarRowView {
        match self {
            SidebarRow::Section(s) => SidebarRowView::Section(s@),
            SidebarRow::Item(i) => SidebarRowView::Item(i@),
        }
    }
}

impl SidebarRow {
    /// The entry of an item row.
    pub fn item(&self) -> (r: Option<&SidebarItem>)
        ensures
            match self@ {
                SidebarRowView::Item(e) => r is Some && r->0@ == e,
                SidebarRowView::Section(_) => r is None,
            },
    {
        match self {
            SidebarRow::Item(i) => Some(i),
            SidebarRow::Section(_) => None,
        }
    }
}

// ---------------------------------------------------------------------------
// The application state the overlays work on
// ---------------------------------------------------------------------------

/// Which overlays are open. The search, create, trash, restore and rename
/// overlays appear only by whether they are open.
pub struct OverlayState {
    pub help: bool,
    pub search: bool,
    pub create: bool,
    pub trash: bool,
    pub restore: bool,
    pub rename: bool,
    pub cd: Option<CdOverlay>,
    pub goto: Option<GoToOverlay>,
}

pub struct NavigationState {
    /// The directory the program was started in.
    pub start_dir: String,
    pub sidebar: Vec<SidebarRow>,
}

/// A clickable row of the "go to" overlay, as last drawn.
#[derive(Clone, Copy, Debug, PartialEq, Eq)]
pub struct GoToHit {
    pub rect: Rect,
    pub index: usize,
}

/// Where the overlays were last drawn.
pub struct FrameState {
    pub cd_panel: Option<Rect>,
    pub goto_panel: Option<Rect>,
    pub goto_hits: Vec<GoToHit>,
}

pub struct InputState {
    pub frame_state: FrameState,
}

pub struct App {
    pub overlays: OverlayState,
    pub navigation: NavigationState,
    pub input: InputState,
    /// The status line.
    pub status: String,
}

pub struct AppView {
    pub help: bool,
    pub search: bool,
    pub create: bool,
    pub trash: bool,
    pub restore: bool,
    pub rename: bool,
    pub cd: Option<CdView>,
    pub goto: Option<GoToView>,
    pub status: Seq<char>,
    pub start_dir: Seq<char>,
    pub sidebar: Seq<SidebarRowView>,
    pub cd_panel: Option<Rect>,
    pub goto_panel: Option<Rect>,
    pub goto_hits: Seq<GoToHit>,
}

pub open spec fn cd_opt_view(o: Option<CdOverlay>) -> Option<CdView> {
    match o {
        Some(c) => Some(c@),
        None => None,
    }
}

pub open spec fn goto_opt_view(o: Option<GoToOverlay>) -> Option<GoToView> {
    match o {
        Some(g) => Some(g@),
        None => None,
    }
}

impl View for App {
    type V = AppView;

    open spec fn view(&self) -> AppView {
        AppView {
            help: self.overlays.help,
            search: self.overlays.search,
            create: self.overlays.create,
            trash: self.overlays.trash,
            restore: self.overlays.restore,
            rename: self.overlays.rename,
            cd: cd_opt_view(self.overlays.cd),
            goto: goto_opt_view(self.overlays.goto),
            status: self.status@,
            start_dir: self.navigation.start_dir@,
            sidebar: self.navigation.sidebar@.map_values(|r: SidebarRow| r@),
            cd_panel: self.input.frame_state.cd_panel,
            goto_panel: self.input.frame_state.goto_panel,
            goto_hits: self.input.frame_state.goto_hits@,
        }
    }
}

impl AppView {
    pub open spec fn wf(self) -> bool {
        self.cd matches Some(c) ==> c.wf()
    }
}

/// Work that the state machine hands to its caller.
pub enum Effect {
    Nothing,
    /// Open this directory.
    SetDir(String),
}

pub enum EffectView {
    Nothing,
    SetDir(Seq<char>),
}

impl View for Effect {
    type V = EffectView;

    open spec fn view(&self) -> EffectView {
        match self {
            Effect::Nothing => EffectView::Nothing,
            Effect::SetDir(p) => EffectView::SetDir(p@),
        }
    }
}

impl App {
    /// A program state with no overlay open, started in `start_dir`.
    pub fn new(start_dir: String, sidebar: Vec<SidebarRow>) -> (app: App)
        ensures
            app@ == (AppView {
                help: false,
                search: false,
                create: false,
                trash: false,
                restore: false,
                rename: false,
                cd: None,
                goto: None,
                status: Seq::empty(),
                start_dir: start_dir@,
                sidebar: sidebar@.map_values(|r: SidebarRow| r@),
                cd_panel: None,
                goto_panel: None,
                goto_hits: Seq::empty(),
            }),
            app@.wf(),
    {
        App {
            overlays: OverlayState {
                help: false,
                search: false,
                create: false,
                trash: false,
                restore: false,
                rename: false,
                cd: None,
                goto: None,
            },
            navigation: NavigationState { start_dir, sidebar },
            input: InputState {
                frame_state: FrameState { cd_panel: None, goto_panel: None, goto_hits: Vec::new() },
            },
            status: String::new(),
        }
    }
}

} // verus!
