use vstd::prelude::*;
use crate::input::{
    is_ctrl_c, is_left_click, key_is_ctrl_c, mouse_is_left_click, rect_contains,
    rect_contains_spec, KeyCode, KeyEvent, KeyModifiers, MouseEvent,
};
use crate::paths::{
    cd_target, cd_target_spec, expand_tilde, expand_tilde_spec, has_tilde_slash, is_bare_tilde,
    opt_view, path_is_file,
};
use crate::state::{App, AppView, CdOverlay, CdView, Effect, EffectView};
use crate::text::{
    char_count, insert_char, next_delete_end, next_delete_end_spec, next_word_start,
    next_word_start_spec, previous_delete_start, previous_delete_start_spec, previous_word_start,
    previous_word_start_spec, remove_char_range, trim, trim_spec, lemma_scan_left_bounds,
    lemma_scan_right_bounds, scan_left, scan_right, all_space, law_trim_ignores_surrounding_space,
};

verus! {

// ---------------------------------------------------------------------------
// The editing rules of the input line
// ---------------------------------------------------------------------------

/// Ctrl+Backspace, Ctrl+H, Ctrl+W: remove the word before the cursor (down to
/// the previous space or `/`), when the cursor is not at the start.
pub open spec fn delete_word_back(c: CdView) -> CdView {
    let cur = c.cursor as int;
    if cur > 0 {
        let start = previous_delete_start_spec(c.input, cur);
        CdView { input: c.input.take(start) + c.input.skip(cur), cursor: start as nat, error: None }
    } else {
        c
    }
}

/// Ctrl+Delete, Alt+D: remove the word after the cursor.
pub open spec fn delete_word_forward(c: CdView) -> CdView {
    let cur = c.cursor as int;
    let end = next_delete_end_spec(c.input, cur);
    CdView { input: c.input.take(cur) + c.input.skip(end), cursor: c.cursor, error: None }
}

/// What a key does to the overlay, for every key but Ctrl+C, Esc and a bare
/// Enter (which close or confirm it). A typed character is inserted only
/// while the input is below the machine limit of `CdView::can_grow`.
pub open spec fn cd_edit(c: CdView, key: KeyEvent) -> CdView {
    let m = key.modifiers;
    let len = c.input.len() as int;
    let cur = c.cursor as int;
    match key.code {
        KeyCode::Left => if m.control_only() {
            CdView { cursor: previous_word_start_spec(c.input, cur) as nat, ..c }
        } else if m.is_none() {
            CdView { cursor: if cur > 0 { (cur - 1) as nat } else { 0 }, ..c }
        } else {
            c
        },
        KeyCode::Right => if m.control_only() {
            CdView { cursor: next_word_start_spec(c.input, cur) as nat, ..c }
        } else if m.is_none() {
            CdView { cursor: if cur < len { (cur + 1) as nat } else { c.cursor }, ..c }
        } else {
            c
        },
        KeyCode::Home => if m.is_none() {
            CdView { cursor: 0, ..c }
        } else {
            c
        },
        KeyCode::End => if m.is_none() {
            CdView { cursor: len as nat, ..c }
        } else {
            c
        },
        KeyCode::Backspace => if m.control_only() {
            delete_word_back(c)
        } else if m.is_none() && cur > 0 {
            CdView {
                input: c.input.take(cur - 1) + c.input.skip(cur),
                cursor: (cur - 1) as nat,
                error: None,
            }
        } else {
            c
        },
        KeyCode::Delete => if m.control_only() {
            delete_word_forward(c)
        } else if m.is_none() && cur < len {
            CdView { input: c.input.take(cur) + c.input.skip(cur + 1), cursor: c.cursor, error: None }
        } else {
            c
        },
        KeyCode::Char(ch) => if (ch == 'h' || ch == 'w') && m.control_only() {
            delete_word_back(c)
        } else if ch == 'd' && m.alt_only() {
            delete_word_forward(c)
        } else if m.plain() && c.can_grow() {
            CdView {
                input: c.input.take(cur) + seq![ch] + c.input.skip(cur),
                cursor: (cur + 1) as nat,
                error: None,
            }
        } else {
            c
        },
        _ => c,
    }
}

/// Keys that close the overlay: Ctrl+C (with any other modifiers) and Esc.
pub open spec fn closes_cd(key: KeyEvent) -> bool {
    is_ctrl_c(key) || key.code == KeyCode::Esc
}

/// Enter with no modifier confirms the typed path.
pub open spec fn confirms_cd(key: KeyEvent) -> bool {
    !closes_cd(key) && key.code == KeyCode::Enter && key.modifiers.is_none()
}

/// A target that confirming `raw` may lead to: `raw` after tilde expansion
/// with some home directory, replaced by its parent if it names a file.
pub open spec fn confirm_target(raw: Seq<char>, t: Seq<char>) -> bool {
    exists|h: Option<Seq<char>>, f: bool| t == cd_target_spec(expand_tilde_spec(raw, h), f)
}

/// The typed path, with surrounding whitespace removed.
pub open spec fn typed_path(c: CdView) -> Seq<char> {
    trim_spec(c.input)
}

fn view_opt_string(o: &Option<String>) -> (r: Option<String>)
    ensures
        opt_view(r) == opt_view(*o),
{
    match o {
        Some(s) => Some(s.clone()),
        None => None,
    }
}

fn cd_edit_exec(c: &CdOverlay, key: KeyEvent) -> (r: CdOverlay)
    requires
        c@.wf(),
    ensures
        r@ == cd_edit(c@, key),
        r@.wf(),
{
    let m = key.modifiers;
    let ctrl_only = m.control && !m.alt;
    let alt_only = m.alt && !m.control;
    let plain = !m.control && !m.alt;
    let none = m.is_empty();
    let len = char_count(c.input.as_str());
    let cur = c.cursor_col;
    let input = c.input.as_str();
    match key.code {
        KeyCode::Left => {
            if ctrl_only {
                CdOverlay {
                    input: c.input.clone(),
                    cursor_col: previous_word_start(input, cur),
                    error: view_opt_string(&c.error),
                }
            } else if none {
                CdOverlay {
                    input: c.input.clone(),
                    cursor_col: if cur > 0 { cur - 1 } else { 0 },
                    error: view_opt_string(&c.error),
                }
            } else {
                CdOverlay { input: c.input.clone(), cursor_col: cur, error: view_opt_string(&c.error) }
            }
        },
        KeyCode::Right => {
            if ctrl_only {
                CdOverlay {
                    input: c.input.clone(),
                    cursor_col: next_word_start(input, cur),
                    error: view_opt_string(&c.error),
                }
            } else if none {
                CdOverlay {
                    input: c.input.clone(),
                    cursor_col: if cur < len { cur + 1 } else { cur },
                    error: view_opt_string(&c.error),
                }
            } else {
                CdOverlay { input: c.input.clone(), cursor_col: cur, error: view_opt_string(&c.error) }
            }
        },
        KeyCode::Home => {
            CdOverlay {
                input: c.input.clone(),
                cursor_col: if none { 0 } else { cur },
                error: view_opt_string(&c.error),
            }
        },
        KeyCode::End => {
            CdOverlay {
                input: c.input.clone(),
                cursor_col: if none { len } else { cur },
                error: view_opt_string(&c.error),
            }
        },
        KeyCode::Backspace => {
            if ctrl_only {
                delete_word_back_exec(c)
            } else if none && cur > 0 {
                CdOverlay {
                    input: remove_char_range(input, cur - 1, cur),
                    cursor_col: cur - 1,
                    error: None,
                }
            } else {
                CdOverlay { input: c.input.clone(), cursor_col: cur, error: view_opt_string(&c.error) }
            }
        },
        KeyCode::Delete => {
            if ctrl_only {
                delete_word_forward_exec(c)
            } else if none && cur < len {
                CdOverlay {
                    input: remove_char_range(input, cur, cur + 1),
                    cursor_col: cur,
                    error: None,
                }
            } else {
                CdOverlay { input: c.input.clone(), cursor_col: cur, error: view_opt_string(&c.error) }
            }
        },
        KeyCode::Char(ch) => {
            if (ch == 'h' || ch == 'w') && ctrl_only {
                delete_word_back_exec(c)
            } else if ch == 'd' && alt_only {
                delete_word_forward_exec(c)
            } else if plain && len < usize::MAX - 1 {
                CdOverlay { input: insert_char(input, cur, ch), cursor_col: cur + 1, error: None }
            } else {
                CdOverlay { input: c.input.clone(), cursor_col: cur, error: view_opt_string(&c.error) }
            }
        },
        _ => CdOverlay { input: c.input.clone(), cursor_col: cur, error: view_opt_string(&c.error) },
    }
}

fn delete_word_back_exec(c: &CdOverlay) -> (r: CdOverlay)
    requires
        c@.wf(),
    ensures
        r@ == delete_word_back(c@),
        r@.wf(),
{
    let cur = c.cursor_col;
    if cur > 0 {
        let start = previous_delete_start(c.input.as_str(), cur);
        CdOverlay {
            input: remove_char_range(c.input.as_str(), start, cur),
            cursor_col: start,
            error: None,
        }
    } else {
        CdOverlay { input: c.input.clone(), cursor_col: cur, error: view_opt_string(&c.error) }
    }
}

fn delete_word_forward_exec(c: &CdOverlay) -> (r: CdOverlay)
    requires
        c@.wf(),
    ensures
        r@ == delete_word_forward(c@),
        r@.wf(),
{
    let cur = c.cursor_col;
    let end = next_delete_end(c.input.as_str(), cur);
    CdOverlay { input: remove_char_range(c.input.as_str(), cur, end), cursor_col: cur, error: None }
}

impl App {
    /// Opens the "cd" overlay with an empty input, closing the help, search,
    /// create, trash, restore and rename overlays.
    pub fn open_cd_overlay(&mut self)
        ensures
            final(self)@ == (AppView {
                help: false,
                search: false,
                create: false,
                trash: false,
                restore: false,
                rename: false,
                cd: Some(CdView { input: Seq::empty(), cursor: 0, error: None }),
                ..old(self)@
            }),
    {
        self.overlays.help = false;
        self.overlays.search = false;
        self.overlays.create = false;
        self.overlays.trash = false;
        self.overlays.restore = false;
        self.overlays.rename = false;
        self.overlays.cd = Some(CdOverlay { input: String::new(), cursor_col: 0, error: None });
    }

    pub fn cd_is_open(&self) -> (r: bool)
        ensures
            r == self@.cd is Some,
    {
        self.overlays.cd.is_some()
    }

    /// The typed path, or the empty string when the overlay is closed.
    pub fn cd_input(&self) -> (r: &str)
        ensures
            r@ == match self@.cd {
                Some(c) => c.input,
                None => Seq::<char>::empty(),
            },
    {
        match &self.overlays.cd {
            Some(c) => c.input.as_str(),
            None => {
                proof {
                    reveal_strlit("");
                }
                ""
            },
        }
    }

    /// The cursor position (in characters), or 0 when the overlay is closed.
    pub fn cd_cursor_col(&self) -> (r: usize)
        ensures
            r == match self@.cd {
                Some(c) => c.cursor,
                None => 0,
            },
    {
        match &self.overlays.cd {
            Some(c) => c.cursor_col,
            None => 0,
        }
    }

    /// The error shown under the input, if the overlay is open and has one.
    pub fn cd_error(&self) -> (r: Option<&str>)
        ensures
            match self@.cd {
                Some(c) => match c.error {
                    Some(e) => r is Some && r->0@ == e,
                    None => r is None,
                },
                None => r is None,
            },
    {
        match &self.overlays.cd {
            Some(c) => match &c.error {
                Some(e) => Some(e.as_str()),
                None => None,
            },
            None => None,
        }
    }

    /// Handles a key while the "cd" overlay is open. Ctrl+C and Esc close it;
    /// a bare Enter confirms the typed path (see `confirm_cd`); every other
    /// key edits the input or moves the cursor as `cd_edit` says.
    pub fn handle_cd_key(&mut self, key: KeyEvent) -> (e: Effect)
        requires
            old(self)@.wf(),
        ensures
            final(self)@.wf(),
            match old(self)@.cd {
                None => final(self)@ == old(self)@ && e@ == EffectView::Nothing,
                Some(c) => if closes_cd(key) {
                    final(self)@ == (AppView { cd: None, ..old(self)@ }) && e@ == EffectView::Nothing
                } else if confirms_cd(key) {
                    if typed_path(c).len() == 0 {
                        final(self)@ == (AppView { cd: None, ..old(self)@ }) && e@
                            == EffectView::Nothing
                    } else {
                        final(self)@ == old(self)@ && e@ is SetDir && confirm_target(
                            typed_path(c),
                            e@->SetDir_0,
                        )
                    }
                } else {
                    final(self)@ == (AppView { cd: Some(cd_edit(c, key)), ..old(self)@ }) && e@
                        == EffectView::Nothing
                },
            },
    {
        if self.overlays.cd.is_none() {
            return Effect::Nothing;
        }
        let is_esc = match key.code {
            KeyCode::Esc => true,
            _ => false,
        };
        if key_is_ctrl_c(&key) || is_esc {
            self.overlays.cd = None;
            return Effect::Nothing;
        }
        let is_enter = match key.code {
            KeyCode::Enter => true,
            _ => false,
        };
        if is_enter && key.modifiers.is_empty() {
            return self.confirm_cd();
        }
        let edited = match &self.overlays.cd {
            Some(c) => cd_edit_exec(c, key),
            None => {
                return Effect::Nothing;
            },
        };
        self.overlays.cd = Some(edited);
        Effect::Nothing
    }

    /// Handles a mouse event while the "cd" overlay is open: a left click
    /// outside the overlay's panel closes it.
    pub fn handle_cd_mouse(&mut self, mouse: MouseEvent)
        requires
            old(self)@.wf(),
        ensures
            final(self)@.wf(),
            if is_left_click(mouse) && !(old(self)@.cd_panel matches Some(p) && rect_contains_spec(
                p,
                mouse.column,
                mouse.row,
            )) {
                final(self)@ == (AppView { cd: None, ..old(self)@ })
            } else {
                final(self)@ == old(self)@
            },
    {
        if mouse_is_left_click(&mouse) {
            let inside = match self.input.frame_state.cd_panel {
                Some(panel) => rect_contains(panel, mouse.column, mouse.row),
                None => false,
            };
            if !inside {
                self.overlays.cd = None;
            }
        }
    }

    /// Confirms the typed path. An empty (or all-blank) input closes the
    /// overlay. Otherwise the path, trimmed and tilde-expanded, is replaced by
    /// its parent if it names a file, and handed back to be opened; the
    /// overlay stays open until `finish_cd` reports how that went.
    pub fn confirm_cd(&mut self) -> (e: Effect)
        requires
            old(self)@.wf(),
        ensures
            final(self)@.wf(),
            match old(self)@.cd {
                None => final(self)@ == old(self)@ && e@ == EffectView::Nothing,
                Some(c) => if typed_path(c).len() == 0 {
                    final(self)@ == (AppView { cd: None, ..old(self)@ }) && e@ == EffectView::Nothing
                } else {
                    &&& final(self)@ == old(self)@
                    &&& e@ is SetDir
                    &&& confirm_target(typed_path(c), e@->SetDir_0)
                    &&& !has_tilde_slash(typed_path(c)) && !is_bare_tilde(typed_path(c))
                        ==> e@->SetDir_0 == cd_target_spec(typed_path(c), true)
                        || e@->SetDir_0 == cd_target_spec(typed_path(c), false)
                },
            },
    {
        let raw = match &self.overlays.cd {
            Some(c) => trim(c.input.as_str()),
            None => {
                return Effect::Nothing;
            },
        };
        if char_count(raw.as_str()) == 0 {
            self.overlays.cd = None;
            return Effect::Nothing;
        }
        let path = expand_tilde(raw.as_str());
        let is_file = path_is_file(path.as_str());
        let target = cd_target(path, is_file);
        proof {
            let h = choose|h: Option<Seq<char>>| path@ == expand_tilde_spec(raw@, h);
            assert(target@ == cd_target_spec(expand_tilde_spec(raw@, h), is_file));
        }
        Effect::SetDir(target)
    }

    /// Reports how opening the directory handed back by `confirm_cd` went:
    /// on success the overlay closes; on failure it stays open and shows the
    /// error.
    pub fn finish_cd(&mut self, result: Result<(), String>)
        requires
            old(self)@.wf(),
        ensures
            final(self)@.wf(),
            match result {
                Ok(()) => final(self)@ == (AppView { cd: None, ..old(self)@ }),
                Err(m) => match old(self)@.cd {
                    Some(c) => final(self)@ == (AppView {
                        cd: Some(CdView { error: Some(m@), ..c }),
                        ..old(self)@
                    }),
                    None => final(self)@ == old(self)@,
                },
            },
    {
        match result {
            Ok(()) => {
                self.overlays.cd = None;
            },
            Err(m) => {
                let updated = match &self.overlays.cd {
                    Some(c) => CdOverlay {
                        input: c.input.clone(),
                        cursor_col: c.cursor_col,
                        error: Some(m),
                    },
                    None => {
                        return ;
                    },
                };
                self.overlays.cd = Some(updated);
            },
        }
    }
}

} // verus!

verus! {

// ---------------------------------------------------------------------------
// Laws of the input line
// ---------------------------------------------------------------------------

/// A key pressed with no modifier.
pub open spec fn bare_key(code: KeyCode) -> KeyEvent {
    KeyEvent {
        code,
        modifiers: KeyModifiers {
            shift: false,
            control: false,
            alt: false,
            super_key: false,
            hyper: false,
            meta: false,
        },
    }
}

/// The word scans stay within the input and move the way they point.
pub proof fn lemma_word_bounds(s: Seq<char>, cur: int)
    requires
        0 <= cur <= s.len(),
    ensures
        0 <= previous_word_start_spec(s, cur) <= cur,
        cur <= next_word_start_spec(s, cur) <= s.len(),
        0 <= previous_delete_start_spec(s, cur) <= cur,
        cur <= next_delete_end_spec(s, cur) <= s.len(),
{
    lemma_scan_left_bounds(s, cur, false, true);
    lemma_scan_left_bounds(s, scan_left(s, cur, false, true), false, false);
    lemma_scan_right_bounds(s, cur, false, false);
    lemma_scan_right_bounds(s, scan_right(s, cur, false, false), false, true);
    lemma_scan_left_bounds(s, cur, true, true);
    lemma_scan_left_bounds(s, scan_left(s, cur, true, true), true, false);
    lemma_scan_right_bounds(s, cur, true, true);
    lemma_scan_right_bounds(s, scan_right(s, cur, true, true), true, false);
}

/// Every key keeps the cursor within the input.
pub proof fn law_cd_edit_keeps_cursor_in_input(c: CdView, key: KeyEvent)
    requires
        c.wf(),
    ensures
        cd_edit(c, key).wf(),
{
    lemma_word_bounds(c.input, c.cursor as int);
}

/// Keys that only move the cursor leave the text and the error as they were,
/// and word movement goes the way it points.
pub proof fn law_cursor_keys_keep_text(c: CdView, key: KeyEvent)
    requires
        c.wf(),
        key.code == KeyCode::Left || key.code == KeyCode::Right || key.code == KeyCode::Home
            || key.code == KeyCode::End,
    ensures
        cd_edit(c, key).input == c.input,
        cd_edit(c, key).error == c.error,
        key.code == KeyCode::Left ==> cd_edit(c, key).cursor <= c.cursor,
        key.code == KeyCode::Right ==> cd_edit(c, key).cursor >= c.cursor,
{
    lemma_word_bounds(c.input, c.cursor as int);
}

/// Typing a character and then pressing Backspace gives back the input and
/// the cursor (and clears the error).
pub proof fn law_type_then_backspace(c: CdView, ch: char)
    requires
        c.wf(),
        c.can_grow(),
    ensures
        cd_edit(cd_edit(c, bare_key(KeyCode::Char(ch))), bare_key(KeyCode::Backspace)) == (CdView {
            error: None,
            ..c
        }),
{
    let cur = c.cursor as int;
    let typed = cd_edit(c, bare_key(KeyCode::Char(ch)));
    assert(typed.input == c.input.take(cur) + seq![ch] + c.input.skip(cur));
    assert(typed.input.take(cur) + typed.input.skip(cur + 1) =~= c.input);
}

/// Moving left and then right gives back the cursor when it was not at the
/// start.
pub proof fn law_left_then_right(c: CdView)
    requires
        c.wf(),
        c.cursor > 0,
    ensures
        cd_edit(cd_edit(c, bare_key(KeyCode::Left)), bare_key(KeyCode::Right)) == c,
{
}

/// Delete with no modifier removes the one character at the cursor, when
/// there is one: the text before the cursor stays, the text after it moves
/// back by one, the cursor stays and the error is cleared. At the end of the
/// input it changes nothing.
pub proof fn law_delete_removes_the_character_at_the_cursor(c: CdView, key: KeyEvent)
    requires
        c.wf(),
        key.code == KeyCode::Delete,
        key.modifiers.is_none(),
    ensures
        c.cursor < c.input.len() ==> {
            let r = cd_edit(c, key);
            &&& r.input.len() + 1 == c.input.len()
            &&& forall|i: int| 0 <= i < c.cursor ==> r.input[i] == c.input[i]
            &&& forall|i: int| c.cursor <= i < r.input.len() ==> r.input[i] == c.input[i + 1]
            &&& r.cursor == c.cursor
            &&& r.error is None
        },
        c.cursor == c.input.len() ==> cd_edit(c, key) == c,
{
}

/// Backspace with no modifier removes the one character before the cursor,
/// when there is one: the text before it stays, the text from the cursor on
/// moves back by one, the cursor moves back by one and the error is cleared.
/// At the start of the input it changes nothing.
pub proof fn law_backspace_removes_the_character_before_the_cursor(c: CdView, key: KeyEvent)
    requires
        c.wf(),
        key.code == KeyCode::Backspace,
        key.modifiers.is_none(),
    ensures
        c.cursor > 0 ==> {
            let r = cd_edit(c, key);
            &&& r.input.len() + 1 == c.input.len()
            &&& forall|i: int| 0 <= i < c.cursor - 1 ==> r.input[i] == c.input[i]
            &&& forall|i: int| c.cursor - 1 <= i < r.input.len() ==> r.input[i] == c.input[i + 1]
            &&& r.cursor + 1 == c.cursor
            &&& r.error is None
        },
        c.cursor == 0 ==> cd_edit(c, key) == c,
{
}

/// A character typed without Control or Alt goes in at the cursor: the text
/// before the cursor stays, the typed character follows it, then the rest of
/// the text; the cursor moves past it and the error is cleared.
pub proof fn law_typing_inserts_at_the_cursor(c: CdView, key: KeyEvent, ch: char)
    requires
        c.wf(),
        c.can_grow(),
        key.code == KeyCode::Char(ch),
        key.modifiers.plain(),
    ensures
        ({
            let r = cd_edit(c, key);
            &&& r.input.len() == c.input.len() + 1
            &&& forall|i: int| 0 <= i < c.cursor ==> r.input[i] == c.input[i]
            &&& r.input[c.cursor as int] == ch
            &&& forall|i: int| c.cursor < i < r.input.len() ==> r.input[i] == c.input[i - 1]
            &&& r.cursor == c.cursor + 1
            &&& r.error is None
        }),
{
}

/// Left, Right, Home and End with no modifier put the cursor one place to
/// the left (not past the start), one place to the right (not past the end),
/// at the start and at the end.
pub proof fn law_cursor_keys_move_by_one_or_to_an_end(c: CdView, key: KeyEvent)
    requires
        c.wf(),
        key.modifiers.is_none(),
    ensures
        key.code == KeyCode::Left ==> cd_edit(c, key).cursor == if c.cursor > 0 {
            c.cursor - 1
        } else {
            0int
        },
        key.code == KeyCode::Right ==> cd_edit(c, key).cursor == if c.cursor < c.input.len() {
            c.cursor + 1
        } else {
            c.cursor
        },
        key.code == KeyCode::Home ==> cd_edit(c, key).cursor == 0,
        key.code == KeyCode::End ==> cd_edit(c, key).cursor == c.input.len(),
{
}

/// Deleting a word backward removes exactly the characters between where the
/// deletion starts and the cursor, and leaves the cursor where they began.
pub proof fn law_delete_word_back(c: CdView)
    requires
        c.wf(),
        c.cursor > 0,
    ensures
        ({
            let start = previous_delete_start_spec(c.input, c.cursor as int);
            let d = delete_word_back(c);
            &&& d.cursor == start
            &&& d.input.take(start) == c.input.take(start)
            &&& d.input.skip(start) == c.input.skip(c.cursor as int)
        }),
{
    let start = previous_delete_start_spec(c.input, c.cursor as int);
    lemma_word_bounds(c.input, c.cursor as int);
    let d = delete_word_back(c);
    assert(d.input.take(start) =~= c.input.take(start));
    assert(d.input.skip(start) =~= c.input.skip(c.cursor as int));
}

} // verus!

verus! {

/// Whitespace typed before or after the path changes nothing of what
/// confirming it does: the path looked at is the same, so are the targets it
/// may lead to, and a blank input stays blank.
pub proof fn law_surrounding_space_is_ignored(c: CdView, w1: Seq<char>, w2: Seq<char>)
    requires
        all_space(w1),
        all_space(w2),
    ensures
        typed_path(CdView { input: w1 + c.input + w2, ..c }) == typed_path(c),
        forall|t: Seq<char>|
            confirm_target(typed_path(CdView { input: w1 + c.input + w2, ..c }), t)
                == confirm_target(typed_path(c), t),
{
    law_trim_ignores_surrounding_space(w1, c.input, w2);
}

} // verus!
