//! The setup form as a state machine: keys and mouse events change the
//! fields, the focus and the status line, and ask the caller to save, to
//! save and test a login, or to toggle autostart.
use vstd::prelude::*;

use crate::config::AppConfig;
use crate::portal::{LoginOutcome, LoginStatus};
use crate::text;
use crate::tui::form::{FormError, build_config};
use crate::tui::input;
use crate::tui::input::{FieldView, InputField};
use crate::tui::status::{StatusKind, StatusMessage};

verus! {

pub const FIELD_COUNT: usize = 8;

pub const BUTTON_COUNT: usize = 4;

/// Every field and every button takes the focus in turn.
pub const FOCUS_STOPS: usize = FIELD_COUNT + BUTTON_COUNT;

pub const LABEL_WIDTH: usize = 24;

pub const FIELD_USERNAME: usize = 0;

pub const FIELD_PASSWORD: usize = 1;

pub const FIELD_PORTAL_URL: usize = 2;

pub const FIELD_PROBE_URL: usize = 3;

pub const FIELD_ONLINE_INTERVAL: usize = 4;

pub const FIELD_REQUEST_TIMEOUT: usize = 5;

pub const FIELD_CAMPUS_CIDRS: usize = 6;

pub const FIELD_GATEWAYS: usize = 7;

pub const BUTTON_SAVE: usize = 0;

pub const BUTTON_TEST: usize = 1;

pub const BUTTON_AUTOSTART: usize = 2;

pub const BUTTON_QUIT: usize = 3;

/// Which field or button has the focus.
#[derive(Debug, Clone, Copy, PartialEq, Eq, Structural)]
pub enum Focus {
    Field(usize),
    Button(usize),
}

/// A screen rectangle, in terminal cells.
#[derive(Debug, Clone, Copy, PartialEq, Eq, Structural)]
pub struct Rect {
    pub x: u16,
    pub y: u16,
    pub width: u16,
    pub height: u16,
}

#[derive(Debug, Clone, Copy, PartialEq, Eq, Structural)]
pub struct ButtonHitbox {
    pub index: usize,
    pub rect: Rect,
}

/// Where the last drawing put the field rows and the buttons.
pub struct UiState {
    pub field_rows: Vec<Rect>,
    pub button_hitboxes: Vec<ButtonHitbox>,
    pub value_start_x: u16,
}

/// A mouse drag in progress: the field and where it started.
#[derive(Debug, Clone, Copy, PartialEq, Eq, Structural)]
pub struct DragState {
    pub field_index: usize,
    pub anchor: usize,
}

/// What the caller is asked to do after an event.
#[derive(Debug, Clone, Copy, PartialEq, Eq, Structural)]
pub enum AppCommand {
    Nothing,
    Save,
    SaveAndTest,
    ToggleAutostart,
}

/// A key, as far as the form tells keys apart.
#[derive(Debug, Clone, Copy, PartialEq, Eq, Structural)]
pub enum KeyCode {
    Esc,
    Tab,
    BackTab,
    Up,
    Down,
    Left,
    Right,
    Home,
    End,
    Backspace,
    Delete,
    Enter,
    F(u8),
    Char(char),
    Other,
}

/// The modifiers held with a key: Control, Alt, and whether any other
/// (Shift, Super, Hyper, Meta) is held too.
#[derive(Debug, Clone, Copy, PartialEq, Eq, Structural)]
pub struct KeyModifiers {
    pub control: bool,
    pub alt: bool,
    pub other: bool,
}

/// A key press.
#[derive(Debug, Clone, Copy, PartialEq, Eq, Structural)]
pub struct KeyInput {
    pub code: KeyCode,
    pub modifiers: KeyModifiers,
}

#[derive(Debug, Clone, Copy, PartialEq, Eq, Structural)]
pub enum MouseKind {
    ScrollDown,
    ScrollUp,
    LeftDown,
    LeftDrag,
    LeftUp,
    Other,
}

/// A mouse event at a terminal cell.
#[derive(Debug, Clone, Copy, PartialEq, Eq, Structural)]
pub struct MouseInput {
    pub kind: MouseKind,
    pub column: u16,
    pub row: u16,
}

/// The whole form.
pub struct SetupApp {
    pub fields: Vec<InputField>,
    pub focus: Focus,
    pub show_password: bool,
    pub show_shortcuts: bool,
    pub status: StatusMessage,
    pub should_quit: bool,
    pub ui_state: UiState,
    pub drag_state: Option<DragState>,
    /// The offline check interval of the configuration the form was opened
    /// on; the form has no field for it and keeps it as it is.
    pub offline_check_interval_secs: u64,
}

/// The form as a mathematical value.
pub struct AppView {
    pub fields: Seq<FieldView>,
    pub focus: Focus,
    pub show_password: bool,
    pub show_shortcuts: bool,
    pub status_kind: StatusKind,
    pub status_message: Seq<char>,
    pub should_quit: bool,
    pub field_rows: Seq<Rect>,
    pub button_hitboxes: Seq<ButtonHitbox>,
    pub value_start_x: u16,
    pub drag: Option<DragState>,
    pub offline_check_interval_secs: u64,
}

pub open spec fn fields_view(fields: Seq<InputField>) -> Seq<FieldView> {
    fields.map_values(|f: InputField| f@)
}

impl View for SetupApp {
    type V = AppView;

    open spec fn view(&self) -> AppView {
        AppView {
            fields: fields_view(self.fields@),
            focus: self.focus,
            show_password: self.show_password,
            show_shortcuts: self.show_shortcuts,
            status_kind: self.status.kind,
            status_message: self.status.message@,
            should_quit: self.should_quit,
            field_rows: self.ui_state.field_rows@,
            button_hitboxes: self.ui_state.button_hitboxes@,
            value_start_x: self.ui_state.value_start_x,
            drag: self.drag_state,
            offline_check_interval_secs: self.offline_check_interval_secs,
        }
    }
}

pub open spec fn focus_valid(f: Focus) -> bool {
    match f {
        Focus::Field(i) => i < FIELD_COUNT,
        Focus::Button(i) => i < BUTTON_COUNT,
    }
}

/// Eight well-formed fields, a focus on one of them or of the four
/// buttons, at most eight field rows, and hitboxes only for the buttons.
pub open spec fn app_wf(v: AppView) -> bool {
    &&& v.fields.len() == FIELD_COUNT
    &&& forall|i: int| 0 <= i < v.fields.len() ==> input::field_wf(#[trigger] v.fields[i])
    &&& focus_valid(v.focus)
    &&& v.field_rows.len() <= FIELD_COUNT
    &&& forall|i: int|
        0 <= i < v.button_hitboxes.len() ==> (#[trigger] v.button_hitboxes[i]).index < BUTTON_COUNT
}

// ---------------------------------------------------------------------------
// Focus
// ---------------------------------------------------------------------------

/// Fields come first in the focus order, then the buttons.
pub open spec fn focus_order(f: Focus) -> nat {
    match f {
        Focus::Field(i) => i as nat,
        Focus::Button(i) => (FIELD_COUNT + i) as nat,
    }
}

pub open spec fn focus_at(order: nat) -> Focus {
    if order < FIELD_COUNT {
        Focus::Field(order as usize)
    } else {
        Focus::Button((order - FIELD_COUNT) as usize)
    }
}

pub open spec fn next_order(order: nat) -> nat {
    ((order + 1) % (FOCUS_STOPS as nat)) as nat
}

proof fn lemma_next_order(o: nat)
    requires
        o < FOCUS_STOPS,
    ensures
        next_order(o) == (if o == FOCUS_STOPS - 1 {
            0
        } else {
            o + 1
        }),
{
    let n = FOCUS_STOPS as int;
    assert(((o + 1) as int % n) == (if o == n - 1 {
        0
    } else {
        o + 1
    })) by (nonlinear_arith)
        requires
            o < n,
    ;
}

pub open spec fn previous_order(order: nat) -> nat {
    if order == 0 {
        (FOCUS_STOPS - 1) as nat
    } else {
        (order - 1) as nat
    }
}

/// Selections survive only in the focused field.
pub open spec fn clear_unfocused(fields: Seq<FieldView>, focus: Focus) -> Seq<FieldView> {
    Seq::new(
        fields.len(),
        |i: int|
            if focus == Focus::Field(i as usize) {
                fields[i]
            } else {
                input::cleared(fields[i])
            },
    )
}

/// Moving the focus ends any drag and drops selections elsewhere.
pub open spec fn set_focus_spec(v: AppView, focus: Focus) -> AppView {
    AppView { focus, drag: None, fields: clear_unfocused(v.fields, focus), ..v }
}

pub open spec fn next_focus_spec(v: AppView) -> AppView {
    set_focus_spec(v, focus_at(next_order(focus_order(v.focus))))
}

pub open spec fn previous_focus_spec(v: AppView) -> AppView {
    set_focus_spec(v, focus_at(previous_order(focus_order(v.focus))))
}

/// Going forward then back returns the focus where it was.
pub proof fn lemma_previous_undoes_next(f: Focus)
    requires
        focus_valid(f),
    ensures
        focus_at(previous_order(next_order(focus_order(f)))) == f,
        focus_at(next_order(previous_order(focus_order(f)))) == f,
        focus_valid(focus_at(next_order(focus_order(f)))),
        focus_valid(focus_at(previous_order(focus_order(f)))),
{
    let o = focus_order(f);
    lemma_next_order(o);
    lemma_next_order((FOCUS_STOPS - 1) as nat);
    if o > 0 {
        lemma_next_order((o - 1) as nat);
    }
}

/// The focus order after `k` steps forward.
pub open spec fn advance_order(order: nat, k: nat) -> nat
    decreases k,
{
    if k == 0 {
        order
    } else {
        next_order(advance_order(order, (k - 1) as nat))
    }
}

proof fn lemma_advance_is_mod(order: nat, k: nat)
    requires
        order < FOCUS_STOPS,
    ensures
        advance_order(order, k) == (order + k) % (FOCUS_STOPS as nat),
    decreases k,
{
    if k > 0 {
        lemma_advance_is_mod(order, (k - 1) as nat);
        let a = (order + k - 1) as int;
        let n = FOCUS_STOPS as int;
        assert(((a % n) + 1) % n == (a + 1) % n) by (nonlinear_arith)
            requires
                a >= 0,
                n > 0,
        ;
    }
}

/// Moving the focus forward once per field and button visits every one of
/// them once and comes back to where it started.
pub proof fn lemma_focus_cycles(order: nat)
    requires
        order < FOCUS_STOPS,
    ensures
        advance_order(order, FOCUS_STOPS as nat) == order,
        forall|k: nat| 0 < k < FOCUS_STOPS ==> advance_order(order, k) != order,
{
    lemma_advance_is_mod(order, FOCUS_STOPS as nat);
    assert((order + FOCUS_STOPS as nat) % (FOCUS_STOPS as nat) == order) by (nonlinear_arith)
        requires
            order < FOCUS_STOPS,
    ;
    assert forall|k: nat| 0 < k < FOCUS_STOPS implies advance_order(order, k) != order by {
        lemma_advance_is_mod(order, k);
        assert((order + k) % (FOCUS_STOPS as nat) != order) by (nonlinear_arith)
            requires
                order < FOCUS_STOPS,
                0 < k < FOCUS_STOPS,
        ;
    }
}

// ---------------------------------------------------------------------------
// Keys
// ---------------------------------------------------------------------------

/// What a key press means in the form, given the focus. The first rule
/// that matches wins, in the order listed.
#[derive(Debug, Clone, Copy, PartialEq, Eq, Structural)]
pub enum KeyIntent {
    Quit,
    NextFocus,
    PreviousFocus,
    TogglePassword,
    ToggleShortcuts,
    Save,
    SaveAndTest,
    ToggleAutostart,
    Enter,
    Left,
    Right,
    Home,
    End,
    Backspace,
    Delete,
    Insert(char),
    Ignore,
}

pub open spec fn exactly_control(m: KeyModifiers) -> bool {
    m.control && !m.alt && !m.other
}

pub open spec fn key_intent_spec(key: KeyInput, focus: Focus) -> KeyIntent {
    let code = key.code;
    let m = key.modifiers;
    if code == KeyCode::Esc || (code == KeyCode::Char('c') && exactly_control(m)) {
        KeyIntent::Quit
    } else if code == KeyCode::Tab || code == KeyCode::Down {
        KeyIntent::NextFocus
    } else if code == KeyCode::BackTab || code == KeyCode::Up {
        KeyIntent::PreviousFocus
    } else if code == KeyCode::F(2) {
        KeyIntent::TogglePassword
    } else if code == KeyCode::Char('?') {
        KeyIntent::ToggleShortcuts
    } else if code == KeyCode::Char('s') && m.control {
        KeyIntent::Save
    } else if code == KeyCode::Char('t') && m.control {
        KeyIntent::SaveAndTest
    } else if code == KeyCode::Char('a') && m.control {
        KeyIntent::ToggleAutostart
    } else if code == KeyCode::Char(' ') && focus == Focus::Button(BUTTON_AUTOSTART) {
        KeyIntent::ToggleAutostart
    } else if code == KeyCode::Enter {
        KeyIntent::Enter
    } else if code == KeyCode::Left {
        KeyIntent::Left
    } else if code == KeyCode::Right {
        KeyIntent::Right
    } else if code == KeyCode::Home {
        KeyIntent::Home
    } else if code == KeyCode::End {
        KeyIntent::End
    } else if code == KeyCode::Backspace {
        KeyIntent::Backspace
    } else if code == KeyCode::Delete {
        KeyIntent::Delete
    } else if code is Char && focus is Field && !m.control && !m.alt {
        KeyIntent::Insert(code->Char_0)
    } else {
        KeyIntent::Ignore
    }
}

/// What a key press means in the form.
pub fn key_intent(key: KeyInput, focus: Focus) -> (r: KeyIntent)
    ensures
        r == key_intent_spec(key, focus),
{
    let m = key.modifiers;
    match key.code {
        KeyCode::Esc => KeyIntent::Quit,
        KeyCode::Char('c') if m.control && !m.alt && !m.other => KeyIntent::Quit,
        KeyCode::Tab | KeyCode::Down => KeyIntent::NextFocus,
        KeyCode::BackTab | KeyCode::Up => KeyIntent::PreviousFocus,
        KeyCode::F(2) => KeyIntent::TogglePassword,
        KeyCode::Char('?') => KeyIntent::ToggleShortcuts,
        KeyCode::Char('s') if m.control => KeyIntent::Save,
        KeyCode::Char('t') if m.control => KeyIntent::SaveAndTest,
        KeyCode::Char('a') if m.control => KeyIntent::ToggleAutostart,
        KeyCode::Char(' ') if focus == Focus::Button(BUTTON_AUTOSTART) => KeyIntent::ToggleAutostart,
        KeyCode::Enter => KeyIntent::Enter,
        KeyCode::Left => KeyIntent::Left,
        KeyCode::Right => KeyIntent::Right,
        KeyCode::Home => KeyIntent::Home,
        KeyCode::End => KeyIntent::End,
        KeyCode::Backspace => KeyIntent::Backspace,
        KeyCode::Delete => KeyIntent::Delete,
        KeyCode::Char(ch) => {
            let on_field = match focus {
                Focus::Field(_) => true,
                Focus::Button(_) => false,
            };
            if on_field && !m.control && !m.alt {
                KeyIntent::Insert(ch)
            } else {
                KeyIntent::Ignore
            }
        },
        _ => KeyIntent::Ignore,
    }
}

/// The focused field edited by `edit`; nothing when a button is focused.
pub open spec fn edit_focused(v: AppView, edit: spec_fn(FieldView) -> FieldView) -> AppView {
    match v.focus {
        Focus::Field(i) => AppView { fields: v.fields.update(i as int, edit(v.fields[i as int])), ..v },
        Focus::Button(_) => v,
    }
}

pub open spec fn with_status(v: AppView, kind: StatusKind, message: Seq<char>) -> AppView {
    AppView { status_kind: kind, status_message: message, ..v }
}

/// Pressing a button: the first two ask for a save (and test), the third
/// for an autostart toggle, the fourth quits.
pub open spec fn activate_spec(v: AppView, button: usize) -> (AppView, AppCommand) {
    if button == BUTTON_SAVE {
        (v, AppCommand::Save)
    } else if button == BUTTON_TEST {
        (v, AppCommand::SaveAndTest)
    } else if button == BUTTON_AUTOSTART {
        (v, AppCommand::ToggleAutostart)
    } else if button == BUTTON_QUIT {
        (AppView { should_quit: true, ..v }, AppCommand::Nothing)
    } else {
        (v, AppCommand::Nothing)
    }
}

/// The effect of a key press with the given meaning.
pub open spec fn apply_intent(v: AppView, intent: KeyIntent) -> (AppView, AppCommand) {
    match intent {
        KeyIntent::Quit => (AppView { should_quit: true, ..v }, AppCommand::Nothing),
        KeyIntent::NextFocus => (next_focus_spec(v), AppCommand::Nothing),
        KeyIntent::PreviousFocus => (previous_focus_spec(v), AppCommand::Nothing),
        KeyIntent::TogglePassword => (
            with_status(
                AppView { show_password: !v.show_password, ..v },
                StatusKind::Info,
                if !v.show_password {
                    "Password is now visible."@
                } else {
                    "Password is now hidden."@
                },
            ),
            AppCommand::Nothing,
        ),
        KeyIntent::ToggleShortcuts => (
            with_status(
                AppView { show_shortcuts: !v.show_shortcuts, ..v },
                StatusKind::Info,
                if !v.show_shortcuts {
                    "Shortcuts are now visible."@
                } else {
                    "Shortcuts hidden. Press ? to show them."@
                },
            ),
            AppCommand::Nothing,
        ),
        KeyIntent::Save => (v, AppCommand::Save),
        KeyIntent::SaveAndTest => (v, AppCommand::SaveAndTest),
        KeyIntent::ToggleAutostart => (v, AppCommand::ToggleAutostart),
        KeyIntent::Enter => match v.focus {
            Focus::Field(_) => (next_focus_spec(v), AppCommand::Nothing),
            Focus::Button(i) => activate_spec(v, i),
        },
        KeyIntent::Left => match v.focus {
            Focus::Field(_) => (edit_focused(v, |f: FieldView| input::move_left_spec(f)), AppCommand::Nothing),
            Focus::Button(i) => (
                if i > 0 {
                    set_focus_spec(v, Focus::Button((i - 1) as usize))
                } else {
                    v
                },
                AppCommand::Nothing,
            ),
        },
        KeyIntent::Right => match v.focus {
            Focus::Field(_) => (edit_focused(v, |f: FieldView| input::move_right_spec(f)), AppCommand::Nothing),
            Focus::Button(i) => (
                if i + 1 < BUTTON_COUNT {
                    set_focus_spec(v, Focus::Button((i + 1) as usize))
                } else {
                    v
                },
                AppCommand::Nothing,
            ),
        },
        KeyIntent::Home => (
            edit_focused(v, |f: FieldView| FieldView { cursor: 0, anchor: None, ..f }),
            AppCommand::Nothing,
        ),
        KeyIntent::End => (
            edit_focused(v, |f: FieldView| FieldView { cursor: f.value.len(), anchor: None, ..f }),
            AppCommand::Nothing,
        ),
        KeyIntent::Backspace => (edit_focused(v, |f: FieldView| input::backspace_spec(f)), AppCommand::Nothing),
        KeyIntent::Delete => (edit_focused(v, |f: FieldView| input::delete_spec(f)), AppCommand::Nothing),
        KeyIntent::Insert(ch) => (edit_focused(v, |f: FieldView| input::insert_spec(f, ch)), AppCommand::Nothing),
        KeyIntent::Ignore => (v, AppCommand::Nothing),
    }
}

// ---------------------------------------------------------------------------
// Mouse
// ---------------------------------------------------------------------------

pub open spec fn saturating_add_u16(a: u16, b: u16) -> int {
    if a + b > u16::MAX {
        u16::MAX as int
    } else {
        a + b
    }
}

/// A cell lies inside a rectangle (whose far edges saturate at the
/// screen's limit).
pub open spec fn rect_contains(r: Rect, column: u16, row: u16) -> bool {
    &&& column >= r.x
    &&& column < saturating_add_u16(r.x, r.width)
    &&& row >= r.y
    &&& row < saturating_add_u16(r.y, r.height)
}

/// Whether a cell lies inside a rectangle.
pub fn contains_point(r: Rect, column: u16, row: u16) -> (b: bool)
    ensures
        b == rect_contains(r, column, row),
{
    column >= r.x && column < r.x.saturating_add(r.width) && row >= r.y && row < r.y.saturating_add(
        r.height,
    )
}

/// The first field row, from `k` on, that contains the cell.
pub open spec fn field_at_from(rows: Seq<Rect>, column: u16, row: u16, k: int) -> Option<nat>
    decreases rows.len() - k,
{
    if k < 0 || k >= rows.len() {
        None
    } else if rect_contains(rows[k], column, row) {
        Some(k as nat)
    } else {
        field_at_from(rows, column, row, k + 1)
    }
}

/// The first button hitbox, from `k` on, that contains the cell.
pub open spec fn button_at_from(boxes: Seq<ButtonHitbox>, column: u16, row: u16, k: int) -> Option<
    usize,
>
    decreases boxes.len() - k,
{
    if k < 0 || k >= boxes.len() {
        None
    } else if rect_contains(boxes[k].rect, column, row) {
        Some(boxes[k].index)
    } else {
        button_at_from(boxes, column, row, k + 1)
    }
}

proof fn lemma_field_at_from_bound(rows: Seq<Rect>, column: u16, row: u16, k: int)
    requires
        k >= 0,
    ensures
        field_at_from(rows, column, row, k) matches Some(i) ==> i < rows.len(),
    decreases rows.len() - k,
{
    if k < rows.len() && !rect_contains(rows[k], column, row) {
        lemma_field_at_from_bound(rows, column, row, k + 1);
    }
}

proof fn lemma_button_at_from_bound(boxes: Seq<ButtonHitbox>, column: u16, row: u16, k: int)
    requires
        k >= 0,
        forall|i: int| 0 <= i < boxes.len() ==> (#[trigger] boxes[i]).index < BUTTON_COUNT,
    ensures
        button_at_from(boxes, column, row, k) matches Some(i) ==> i < BUTTON_COUNT,
    decreases boxes.len() - k,
{
    if k < boxes.len() && !rect_contains(boxes[k].rect, column, row) {
        lemma_button_at_from_bound(boxes, column, row, k + 1);
    }
}

/// The cursor position a click at `column` means in a field: nothing
/// before the value's first cell, else the offset, but not past the end.
pub open spec fn cursor_from_column(v: AppView, field: int, column: u16) -> nat {
    if column <= v.value_start_x {
        0
    } else {
        crate::tui::input::min_nat(
            (column - v.value_start_x) as nat,
            crate::tui::input::display_text(v.fields[field], v.show_password).len(),
        )
    }
}

/// A left click: on a button, focus and press it; on a field, focus it,
/// put the cursor under the pointer and start a drag there; elsewhere,
/// end any drag.
pub open spec fn left_down_spec(v: AppView, column: u16, row: u16) -> (AppView, AppCommand) {
    match button_at_from(v.button_hitboxes, column, row, 0) {
        Some(b) => activate_spec(set_focus_spec(v, Focus::Button(b)), b),
        None => match field_at_from(v.field_rows, column, row, 0) {
            Some(fi) => {
                let v1 = set_focus_spec(v, Focus::Field(fi as usize));
                let c = cursor_from_column(v1, fi as int, column);
                (
                    AppView {
                        fields: v1.fields.update(fi as int, input::set_cursor_spec(v1.fields[fi as int], c)),
                        drag: Some(DragState { field_index: fi as usize, anchor: c as usize }),
                        ..v1
                    },
                    AppCommand::Nothing,
                )
            },
            None => (AppView { drag: None, ..v }, AppCommand::Nothing),
        },
    }
}

/// A drag with the left button: select from where the drag started to the
/// pointer, in the field the drag started in.
pub open spec fn left_drag_spec(v: AppView, column: u16) -> AppView {
    match v.drag {
        None => v,
        Some(d) => if d.field_index >= FIELD_COUNT {
            v
        } else {
            let fi = d.field_index as int;
            let v1 = set_focus_spec(v, Focus::Field(d.field_index));
            let c = cursor_from_column(v1, fi, column);
            AppView {
                fields: v1.fields.update(
                    fi,
                    input::set_cursor_with_anchor_spec(v1.fields[fi], d.anchor as nat, c),
                ),
                ..v1
            }
        },
    }
}

pub open spec fn mouse_spec(v: AppView, m: MouseInput) -> (AppView, AppCommand) {
    match m.kind {
        MouseKind::ScrollDown => (next_focus_spec(v), AppCommand::Nothing),
        MouseKind::ScrollUp => (previous_focus_spec(v), AppCommand::Nothing),
        MouseKind::LeftDown => left_down_spec(v, m.column, m.row),
        MouseKind::LeftDrag => (left_drag_spec(v, m.column), AppCommand::Nothing),
        MouseKind::LeftUp => (AppView { drag: None, ..v }, AppCommand::Nothing),
        MouseKind::Other => (v, AppCommand::Nothing),
    }
}

// ---------------------------------------------------------------------------
// The form's layout
// ---------------------------------------------------------------------------

/// Where the form's parts go inside the setup box.
pub struct FormLayout {
    /// One row per field, in order.
    pub field_rows: Vec<Rect>,
    /// Three lines under the fields: the config path, the autostart state
    /// and a hint on the mouse.
    pub notes_area: Rect,
    /// The row of buttons under the notes.
    pub button_row: Rect,
    /// The first column of the fields' values, after the labels.
    pub value_start_x: u16,
}

/// The first column of the values: after a marker, a space, the label
/// padded to its width and a space.
pub open spec fn value_column(inner: Rect) -> int {
    inner.x + LABEL_WIDTH + 3
}

/// The row of the `i`-th field.
pub open spec fn field_row(inner: Rect, i: int) -> Rect {
    Rect { x: inner.x, y: (inner.y + i) as u16, width: inner.width, height: 1 }
}

/// The layout fits the screen's coordinates: the value column and the
/// button row are on screen cells.
pub open spec fn layout_fits(inner: Rect) -> bool {
    &&& value_column(inner) <= u16::MAX
    &&& inner.y + FIELD_COUNT + 3 <= u16::MAX
}

/// The form's layout inside the setup box `inner`.
pub fn form_layout(inner: Rect) -> (r: FormLayout)
    requires
        layout_fits(inner),
    ensures
        r.value_start_x == value_column(inner),
        r.field_rows@.len() == FIELD_COUNT,
        forall|i: int| 0 <= i < FIELD_COUNT ==> #[trigger] r.field_rows@[i] == field_row(inner, i),
        r.notes_area == (Rect {
            x: inner.x,
            y: (inner.y + FIELD_COUNT) as u16,
            width: inner.width,
            height: 3,
        }),
        r.button_row == (Rect {
            x: inner.x,
            y: (inner.y + FIELD_COUNT + 3) as u16,
            width: inner.width,
            height: 1,
        }),
{
    let mut field_rows: Vec<Rect> = Vec::new();
    let mut i: usize = 0;
    while i < FIELD_COUNT
        invariant
            layout_fits(inner),
            i <= FIELD_COUNT,
            field_rows@.len() == i,
            forall|k: int| 0 <= k < i ==> #[trigger] field_rows@[k] == field_row(inner, k),
        decreases FIELD_COUNT - i,
    {
        field_rows.push(Rect { x: inner.x, y: inner.y + i as u16, width: inner.width, height: 1 });
        i = i + 1;
    }
    FormLayout {
        field_rows,
        notes_area: Rect {
            x: inner.x,
            y: inner.y + FIELD_COUNT as u16,
            width: inner.width,
            height: 3,
        },
        button_row: Rect {
            x: inner.x,
            y: inner.y + FIELD_COUNT as u16 + 3,
            width: inner.width,
            height: 1,
        },
        value_start_x: inner.x + (LABEL_WIDTH + 3) as u16,
    }
}

/// The column of the terminal cursor in a field: under the cursor's
/// character (both counted as `u16`, as the screen counts them), after the
/// value column, but not past the box's last column.
pub open spec fn cursor_column(inner: Rect, f: FieldView, show_secret: bool) -> u16 {
    let len = input::display_text(f, show_secret).len() as u16;
    let cursor = f.cursor as u16;
    let visible = if cursor <= len {
        cursor
    } else {
        len
    };
    let wanted = saturating_add_u16(value_column(inner) as u16, visible);
    let last = inner.x + (if inner.width == 0 {
        0
    } else {
        inner.width - 1
    });
    (if wanted <= last {
        wanted
    } else {
        last
    }) as u16
}

// ---------------------------------------------------------------------------
// Buttons' layout
// ---------------------------------------------------------------------------

/// The width of a button: `[ label ]`.
pub open spec fn button_width(label: Seq<char>) -> u16 {
    (label.len() + 4) as u16
}

/// Where the `i`-th button starts: after each earlier button and a gap of
/// two cells, saturating at the screen's limit.
pub open spec fn button_x(labels: Seq<Seq<char>>, x0: u16, i: nat) -> u16
    decreases i,
{
    if i == 0 {
        x0
    } else {
        saturating_add_u16(
            button_x(labels, x0, (i - 1) as nat),
            (button_width(labels[i - 1]) + 2) as u16,
        ) as u16
    }
}

pub open spec fn button_hitboxes_spec(labels: Seq<Seq<char>>, row: Rect) -> Seq<ButtonHitbox> {
    Seq::new(
        labels.len(),
        |i: int|
            ButtonHitbox {
                index: i as usize,
                rect: Rect {
                    x: button_x(labels, row.x, i as nat),
                    y: row.y,
                    width: button_width(labels[i]),
                    height: 1,
                },
            },
    )
}

/// The hitboxes of buttons drawn as `[ label ]` side by side on `row`.
pub fn button_hitboxes(labels: &Vec<String>, row: Rect) -> (r: Vec<ButtonHitbox>)
    requires
        forall|i: int| 0 <= i < labels@.len() ==> (#[trigger] labels@[i])@.len() + 6 <= u16::MAX,
    ensures
        r@ == button_hitboxes_spec(text::strings_view(labels@), row),
{
    let ghost lv = text::strings_view(labels@);
    let mut out: Vec<ButtonHitbox> = Vec::new();
    let mut x: u16 = row.x;
    let mut i: usize = 0;
    while i < labels.len()
        invariant
            i <= labels@.len(),
            lv == text::strings_view(labels@),
            forall|k: int| 0 <= k < labels@.len() ==> (#[trigger] labels@[k])@.len() + 6 <= u16::MAX,
            x == button_x(lv, row.x, i as nat),
            out@ == button_hitboxes_spec(lv, row).subrange(0, i as int),
        decreases labels@.len() - i,
    {
        let n = labels[i].as_str().unicode_len();
        assert(lv[i as int] == labels@[i as int]@);
        let width: u16 = (n + 4) as u16;
        out.push(ButtonHitbox { index: i, rect: Rect { x, y: row.y, width, height: 1 } });
        x = x.saturating_add(width + 2);
        i = i + 1;
        assert(out@ =~= button_hitboxes_spec(lv, row).subrange(0, i as int));
    }
    assert(button_hitboxes_spec(lv, row).subrange(0, labels@.len() as int) =~= button_hitboxes_spec(lv, row));
    out
}

/// The four button captions; the autostart one shows whether autostart is
/// on, off, or unknown.
pub fn button_labels(autostart: Option<bool>) -> (r: Vec<String>)
    ensures
        text::strings_view(r@) == seq![
            "Save"@,
            "Save & Test"@,
            match autostart {
                Some(true) => "Autostart: ON"@,
                Some(false) => "Autostart: OFF"@,
                None => "Autostart: N/A"@,
            },
            "Quit"@,
        ],
{
    let middle = match autostart {
        Some(true) => String::from_str("Autostart: ON"),
        Some(false) => String::from_str("Autostart: OFF"),
        None => String::from_str("Autostart: N/A"),
    };
    let mut r: Vec<String> = Vec::new();
    r.push(String::from_str("Save"));
    r.push(String::from_str("Save & Test"));
    r.push(middle);
    r.push(String::from_str("Quit"));
    assert(text::strings_view(r@) =~= seq![
        "Save"@,
        "Save & Test"@,
        match autostart {
            Some(true) => "Autostart: ON"@,
            Some(false) => "Autostart: OFF"@,
            None => "Autostart: N/A"@,
        },
        "Quit"@,
    ]);
    r
}

// ---------------------------------------------------------------------------
// The form
// ---------------------------------------------------------------------------

pub const WELCOME_MESSAGE: &'static str = "Edit fields, then Save or Save & Test. Mouse wheel/click/drag is enabled. Press ? for shortcuts.";

/// The outcome of toggling autostart.
pub enum AutostartReport {
    Enabled(String),
    Disabled(String),
    Failed(String),
}

fn clear_selections_except(fields: &mut Vec<InputField>, focus: Focus)
    requires
        old(fields)@.len() == FIELD_COUNT,
        forall|k: int| 0 <= k < FIELD_COUNT ==> input::field_wf(#[trigger] old(fields)@[k]@),
    ensures
        final(fields)@.len() == FIELD_COUNT,
        fields_view(final(fields)@) == clear_unfocused(fields_view(old(fields)@), focus),
        forall|k: int| 0 <= k < FIELD_COUNT ==> input::field_wf(#[trigger] final(fields)@[k]@),
{
    let ghost before = fields_view(fields@);
    let mut i: usize = 0;
    while i < fields.len()
        invariant
            fields@.len() == FIELD_COUNT,
            before.len() == FIELD_COUNT,
            before == fields_view(old(fields)@),
            forall|k: int| 0 <= k < FIELD_COUNT ==> input::field_wf(#[trigger] before[k]),
            i <= FIELD_COUNT,
            forall|k: int|
                0 <= k < FIELD_COUNT ==> #[trigger] fields@[k]@ == (if k < i {
                    clear_unfocused(before, focus)[k]
                } else {
                    before[k]
                }),
        decreases FIELD_COUNT - i,
    {
        let keep = match focus {
            Focus::Field(active) => active == i,
            Focus::Button(_) => false,
        };
        assert(fields@[i as int]@ == before[i as int]);
        if !keep {
            fields[i].clear_selection();
        }
        i = i + 1;
    }
    assert(fields_view(fields@) =~= clear_unfocused(before, focus));
}

impl SetupApp {
    pub open spec fn wf(&self) -> bool {
        app_wf(self@)
    }

    /// The form for a configuration: its eight texts, the focus on the
    /// user name, the password hidden, and a welcome message.
    pub fn new(config: &AppConfig) -> (r: SetupApp)
        ensures
            r.wf(),
            r@.fields.len() == FIELD_COUNT,
            r@.fields[0].value == config@.username,
            r@.fields[1].value == config@.password,
            r@.fields[1].secret,
            r@.fields[2].value == config@.portal_url,
            r@.fields[3].value == config@.probe_url,
            r@.fields[4].value == text::decimal(config@.online_check_interval_secs as nat),
            r@.fields[5].value == text::decimal(config@.request_timeout_secs as nat),
            r@.fields[6].value == text::join(config@.ipv4_cidrs, ", "@),
            r@.fields[7].value == text::join(config@.gateway_hosts, ", "@),
            Seq::new(FIELD_COUNT as nat, |i: int| r@.fields[i].value)
                == crate::tui::form::form_texts(config@),
            forall|i: int|
                0 <= i < FIELD_COUNT ==> (#[trigger] r@.fields[i]).cursor == r@.fields[i].value.len()
                    && r@.fields[i].anchor is None,
            r@.focus == Focus::Field(FIELD_USERNAME),
            !r@.show_password,
            !r@.show_shortcuts,
            r@.status_kind == StatusKind::Info,
            r@.status_message == WELCOME_MESSAGE@,
            !r@.should_quit,
            r@.drag is None,
            r@.offline_check_interval_secs == config@.offline_check_interval_secs,
            r@.field_rows.len() == 0,
            r@.button_hitboxes.len() == 0,
    {
        let online = text::string_of(&text::decimal_chars(config.daemon.online_check_interval_secs));
        let timeout = text::string_of(&text::decimal_chars(config.detect.request_timeout_secs));
        let cidrs = text::string_of(&text::join_strings(&config.campus.ipv4_cidrs, ", "));
        let gateways = text::string_of(&text::join_strings(&config.campus.gateway_hosts, ", "));
        let mut fields: Vec<InputField> = Vec::new();
        fields.push(InputField::new("Username", config.auth.username.as_str(), false));
        fields.push(InputField::new("Password", config.auth.password.as_str(), true));
        fields.push(InputField::new("Portal URL", config.auth.portal_url.as_str(), false));
        fields.push(InputField::new("Probe URL", config.detect.probe_url.as_str(), false));
        fields.push(InputField::new("Online check interval", online.as_str(), false));
        fields.push(InputField::new("Request timeout", timeout.as_str(), false));
        fields.push(InputField::new("Campus IPv4 CIDRs", cidrs.as_str(), false));
        fields.push(InputField::new("Campus gateways", gateways.as_str(), false));
        let r = SetupApp {
            fields,
            focus: Focus::Field(FIELD_USERNAME),
            show_password: false,
            show_shortcuts: false,
            status: StatusMessage::info(String::from_str(WELCOME_MESSAGE)),
            should_quit: false,
            ui_state: UiState { field_rows: Vec::new(), button_hitboxes: Vec::new(), value_start_x: 0 },
            drag_state: None,
            offline_check_interval_secs: config.daemon.offline_check_interval_secs,
        };
        assert(forall|i: int| 0 <= i < FIELD_COUNT ==> #[trigger] r@.fields[i] == r.fields@[i]@);
        assert(Seq::new(FIELD_COUNT as nat, |i: int| r@.fields[i].value)
            =~= crate::tui::form::form_texts(config@));
        r
    }

    /// The eight texts of the form, in order.
    pub fn texts(&self) -> (r: Vec<String>)
        requires
            self.wf(),
        ensures
            r@.len() == FIELD_COUNT,
            forall|i: int| 0 <= i < FIELD_COUNT ==> (#[trigger] r@[i])@ == self@.fields[i].value,
    {
        let mut r: Vec<String> = Vec::new();
        let mut i: usize = 0;
        while i < self.fields.len()
            invariant
                self.wf(),
                i <= FIELD_COUNT,
                r@.len() == i,
                forall|k: int| 0 <= k < i ==> (#[trigger] r@[k])@ == self@.fields[k].value,
            decreases FIELD_COUNT - i,
        {
            r.push(self.fields[i].value());
            assert(self@.fields[i as int] == self.fields@[i as int]@);
            i = i + 1;
        }
        r
    }

    /// The configuration the form describes, checked.
    pub fn try_build_config(&self) -> (r: Result<AppConfig, FormError>)
        requires
            self.wf(),
        ensures
            crate::tui::form::form_result_view(r) == crate::tui::form::form_result(
                Seq::new(FIELD_COUNT as nat, |i: int| self@.fields[i].value),
                self@.offline_check_interval_secs,
            ),
    {
        let texts = self.texts();
        assert(text::strings_view(texts@) =~= Seq::new(
            FIELD_COUNT as nat,
            |i: int| self@.fields[i].value,
        ));
        build_config(&texts, self.offline_check_interval_secs)
    }

    fn set_status(&mut self, kind: StatusKind, message: String)
        ensures
            final(self)@ == with_status(old(self)@, kind, message@),
    {
        self.status = StatusMessage { kind, message };
    }

    /// Moves the focus; ends any drag and drops selections outside the
    /// newly focused field.
    pub fn set_focus(&mut self, focus: Focus)
        requires
            old(self).wf(),
            focus_valid(focus),
        ensures
            final(self).wf(),
            final(self)@ == set_focus_spec(old(self)@, focus),
    {
        proof {
            assert forall|k: int| 0 <= k < FIELD_COUNT implies input::field_wf(
                #[trigger] self.fields@[k]@,
            ) by {
                assert(self@.fields[k] == self.fields@[k]@);
            }
        }
        self.focus = focus;
        self.drag_state = None;
        clear_selections_except(&mut self.fields, focus);
    }

    /// The position in the focus order.
    pub fn focus_order(&self) -> (r: usize)
        requires
            self.wf(),
        ensures
            r as nat == focus_order(self@.focus),
    {
        match self.focus {
            Focus::Field(i) => i,
            Focus::Button(i) => FIELD_COUNT + i,
        }
    }

    fn set_focus_by_order(&mut self, order: usize)
        requires
            old(self).wf(),
            order < FOCUS_STOPS,
        ensures
            final(self).wf(),
            final(self)@ == set_focus_spec(old(self)@, focus_at(order as nat)),
    {
        if order < FIELD_COUNT {
            self.set_focus(Focus::Field(order));
        } else {
            self.set_focus(Focus::Button(order - FIELD_COUNT));
        }
    }

    /// The next field or button, wrapping around.
    pub fn next_focus(&mut self)
        requires
            old(self).wf(),
        ensures
            final(self).wf(),
            final(self)@ == next_focus_spec(old(self)@),
    {
        let next = (self.focus_order() + 1) % FOCUS_STOPS;
        self.set_focus_by_order(next);
    }

    /// The previous field or button, wrapping around.
    pub fn previous_focus(&mut self)
        requires
            old(self).wf(),
        ensures
            final(self).wf(),
            final(self)@ == previous_focus_spec(old(self)@),
    {
        let current = self.focus_order();
        let previous = if current == 0 {
            FOCUS_STOPS - 1
        } else {
            current - 1
        };
        self.set_focus_by_order(previous);
    }

    fn edit_left(&mut self)
        requires
            old(self).wf(),
        ensures
            final(self).wf(),
            (final(self)@, AppCommand::Nothing) == apply_intent(old(self)@, KeyIntent::Left),
    {
        match self.focus {
            Focus::Field(i) => {
                assert(self@.fields[i as int] == self.fields@[i as int]@);
                self.fields[i].move_left();
                assert(fields_view(self.fields@) =~= fields_view(old(self).fields@).update(
                    i as int,
                    input::move_left_spec(old(self)@.fields[i as int]),
                ));
            },
            Focus::Button(i) => {
                if i > 0 {
                    self.set_focus(Focus::Button(i - 1));
                }
            },
        }
    }

    fn edit_right(&mut self)
        requires
            old(self).wf(),
        ensures
            final(self).wf(),
            (final(self)@, AppCommand::Nothing) == apply_intent(old(self)@, KeyIntent::Right),
    {
        match self.focus {
            Focus::Field(i) => {
                assert(self@.fields[i as int] == self.fields@[i as int]@);
                self.fields[i].move_right();
                assert(fields_view(self.fields@) =~= fields_view(old(self).fields@).update(
                    i as int,
                    input::move_right_spec(old(self)@.fields[i as int]),
                ));
            },
            Focus::Button(i) => {
                if i + 1 < BUTTON_COUNT {
                    self.set_focus(Focus::Button(i + 1));
                }
            },
        }
    }

    fn edit_field(&mut self, intent: KeyIntent)
        requires
            old(self).wf(),
            intent is Home || intent is End || intent is Backspace || intent is Delete
                || intent is Insert,
        ensures
            final(self).wf(),
            (final(self)@, AppCommand::Nothing) == apply_intent(old(self)@, intent),
    {
        match self.focus {
            Focus::Field(i) => {
                let ghost f0 = old(self)@.fields[i as int];
                assert(self@.fields[i as int] == self.fields@[i as int]@);
                match intent {
                    KeyIntent::Home => self.fields[i].move_home(),
                    KeyIntent::End => self.fields[i].move_end(),
                    KeyIntent::Backspace => self.fields[i].backspace(),
                    KeyIntent::Delete => self.fields[i].delete(),
                    KeyIntent::Insert(ch) => self.fields[i].insert(ch),
                    _ => {},
                }
                let ghost f1 = self.fields@[i as int]@;
                assert(fields_view(self.fields@) =~= fields_view(old(self).fields@).update(
                    i as int,
                    f1,
                ));
            },
            Focus::Button(_) => {},
        }
    }

    fn activate_button(&mut self, button: usize) -> (cmd: AppCommand)
        requires
            old(self).wf(),
        ensures
            final(self).wf(),
            (final(self)@, cmd) == activate_spec(old(self)@, button),
    {
        let cmd = if button == BUTTON_SAVE {
            AppCommand::Save
        } else if button == BUTTON_TEST {
            AppCommand::SaveAndTest
        } else if button == BUTTON_AUTOSTART {
            AppCommand::ToggleAutostart
        } else if button == BUTTON_QUIT {
            self.should_quit = true;
            AppCommand::Nothing
        } else {
            AppCommand::Nothing
        };
        assert(self@.button_hitboxes == old(self)@.button_hitboxes);
        cmd
    }

    /// Handles a key press; says what, if anything, the caller must do.
    pub fn handle_key(&mut self, key: KeyInput) -> (cmd: AppCommand)
        requires
            old(self).wf(),
        ensures
            final(self).wf(),
            (final(self)@, cmd) == apply_intent(old(self)@, key_intent_spec(key, old(self)@.focus)),
    {
        let intent = key_intent(key, self.focus);
        match intent {
            KeyIntent::Quit => {
                self.should_quit = true;
                AppCommand::Nothing
            },
            KeyIntent::NextFocus => {
                self.next_focus();
                AppCommand::Nothing
            },
            KeyIntent::PreviousFocus => {
                self.previous_focus();
                AppCommand::Nothing
            },
            KeyIntent::TogglePassword => {
                self.show_password = !self.show_password;
                let message = if self.show_password {
                    String::from_str("Password is now visible.")
                } else {
                    String::from_str("Password is now hidden.")
                };
                self.set_status(StatusKind::Info, message);
                AppCommand::Nothing
            },
            KeyIntent::ToggleShortcuts => {
                self.show_shortcuts = !self.show_shortcuts;
                let message = if self.show_shortcuts {
                    String::from_str("Shortcuts are now visible.")
                } else {
                    String::from_str("Shortcuts hidden. Press ? to show them.")
                };
                self.set_status(StatusKind::Info, message);
                AppCommand::Nothing
            },
            KeyIntent::Save => AppCommand::Save,
            KeyIntent::SaveAndTest => AppCommand::SaveAndTest,
            KeyIntent::ToggleAutostart => AppCommand::ToggleAutostart,
            KeyIntent::Enter => match self.focus {
                Focus::Field(_) => {
                    self.next_focus();
                    AppCommand::Nothing
                },
                Focus::Button(i) => self.activate_button(i),
            },
            KeyIntent::Left => {
                self.edit_left();
                AppCommand::Nothing
            },
            KeyIntent::Right => {
                self.edit_right();
                AppCommand::Nothing
            },
            KeyIntent::Ignore => AppCommand::Nothing,
            _ => {
                self.edit_field(intent);
                AppCommand::Nothing
            },
        }
    }

    /// Where the last drawing put the field rows, the buttons and the
    /// first cell of the values.
    pub fn set_layout(
        &mut self,
        field_rows: Vec<Rect>,
        button_hitboxes: Vec<ButtonHitbox>,
        value_start_x: u16,
    )
        requires
            old(self).wf(),
            field_rows@.len() <= FIELD_COUNT,
            forall|i: int|
                0 <= i < button_hitboxes@.len() ==> (#[trigger] button_hitboxes@[i]).index
                    < BUTTON_COUNT,
        ensures
            final(self).wf(),
            final(self)@ == (AppView {
                field_rows: field_rows@,
                button_hitboxes: button_hitboxes@,
                value_start_x,
                ..old(self)@
            }),
    {
        self.ui_state = UiState { field_rows, button_hitboxes, value_start_x };
    }

    fn field_at(&self, column: u16, row: u16) -> (r: Option<usize>)
        requires
            self.wf(),
        ensures
            match r {
                Some(i) => field_at_from(self@.field_rows, column, row, 0) == Some(i as nat)
                    && i < FIELD_COUNT,
                None => field_at_from(self@.field_rows, column, row, 0) is None,
            },
    {
        let rows = &self.ui_state.field_rows;
        let mut k: usize = 0;
        while k < rows.len()
            invariant
                self.wf(),
                rows@ == self@.field_rows,
                k <= rows@.len(),
                field_at_from(rows@, column, row, 0) == field_at_from(rows@, column, row, k as int),
            decreases rows@.len() - k,
        {
            if contains_point(rows[k], column, row) {
                return Some(k);
            }
            k = k + 1;
        }
        None
    }

    fn button_at(&self, column: u16, row: u16) -> (r: Option<usize>)
        requires
            self.wf(),
        ensures
            r == button_at_from(self@.button_hitboxes, column, row, 0),
            r matches Some(i) ==> i < BUTTON_COUNT,
    {
        let boxes = &self.ui_state.button_hitboxes;
        let mut k: usize = 0;
        while k < boxes.len()
            invariant
                self.wf(),
                boxes@ == self@.button_hitboxes,
                k <= boxes@.len(),
                button_at_from(boxes@, column, row, 0) == button_at_from(
                    boxes@,
                    column,
                    row,
                    k as int,
                ),
            decreases boxes@.len() - k,
        {
            if contains_point(boxes[k].rect, column, row) {
                proof {
                    lemma_button_at_from_bound(self@.button_hitboxes, column, row, 0);
                }
                return Some(boxes[k].index);
            }
            k = k + 1;
        }
        None
    }

    /// Where the terminal cursor goes inside the setup box `inner`: in the
    /// focused field's row, at `cursor_column`; nowhere when a button has
    /// the focus.
    pub fn cursor_cell(&self, inner: Rect) -> (r: Option<(u16, u16)>)
        requires
            self.wf(),
            layout_fits(inner),
            inner.x + inner.width <= u16::MAX,
        ensures
            match self@.focus {
                Focus::Field(i) => r == Some(
                    (
                        cursor_column(inner, self@.fields[i as int], self@.show_password),
                        (inner.y + i) as u16,
                    ),
                ),
                Focus::Button(_) => r is None,
            },
    {
        match self.focus {
            Focus::Field(i) => {
                let field = &self.fields[i];
                assert(self@.fields[i as int] == field@);
                #[verifier::truncate]
                let len = field.display_char_width(self.show_password) as u16;
                #[verifier::truncate]
                let cursor = field.cursor as u16;
                let visible = if cursor <= len {
                    cursor
                } else {
                    len
                };
                let start = inner.x + (LABEL_WIDTH + 3) as u16;
                let wanted = start.saturating_add(visible);
                let last = inner.x + inner.width.saturating_sub(1);
                let column = if wanted <= last {
                    wanted
                } else {
                    last
                };
                Some((column, inner.y + i as u16))
            },
            Focus::Button(_) => None,
        }
    }

    /// The cursor position a click at `column` means in a field.
    pub fn cursor_from_mouse_column(&self, field: usize, column: u16) -> (r: usize)
        requires
            self.wf(),
            field < FIELD_COUNT,
        ensures
            r as nat == cursor_from_column(self@, field as int, column),
    {
        let value_start_x = self.ui_state.value_start_x;
        if column <= value_start_x {
            return 0;
        }
        let offset = (column - value_start_x) as usize;
        let width = self.fields[field].display_char_width(self.show_password);
        assert(self@.fields[field as int] == self.fields@[field as int]@);
        if offset <= width {
            offset
        } else {
            width
        }
    }

    fn handle_left_down(&mut self, column: u16, row: u16) -> (cmd: AppCommand)
        requires
            old(self).wf(),
        ensures
            final(self).wf(),
            (final(self)@, cmd) == left_down_spec(old(self)@, column, row),
    {
        if let Some(b) = self.button_at(column, row) {
            self.set_focus(Focus::Button(b));
            return self.activate_button(b);
        }
        match self.field_at(column, row) {
            Some(fi) => {
                self.set_focus(Focus::Field(fi));
                let cursor = self.cursor_from_mouse_column(fi, column);
                assert(self@.fields[fi as int] == self.fields@[fi as int]@);
                self.fields[fi].set_cursor(cursor);
                self.drag_state = Some(DragState { field_index: fi, anchor: cursor });
                proof {
                    let v1 = set_focus_spec(old(self)@, Focus::Field(fi));
                    assert(fields_view(self.fields@) =~= v1.fields.update(
                        fi as int,
                        input::set_cursor_spec(v1.fields[fi as int], cursor as nat),
                    ));
                }
                AppCommand::Nothing
            },
            None => {
                self.drag_state = None;
                AppCommand::Nothing
            },
        }
    }

    fn handle_left_drag(&mut self, column: u16)
        requires
            old(self).wf(),
        ensures
            final(self).wf(),
            final(self)@ == left_drag_spec(old(self)@, column),
    {
        let drag = match self.drag_state {
            Some(d) => d,
            None => {
                return;
            },
        };
        if drag.field_index >= FIELD_COUNT {
            return;
        }
        let fi = drag.field_index;
        self.set_focus(Focus::Field(fi));
        let cursor = self.cursor_from_mouse_column(fi, column);
        assert(self@.fields[fi as int] == self.fields@[fi as int]@);
        let ghost v1 = self@;
        self.fields[fi].set_cursor_with_anchor(drag.anchor, cursor);
        proof {
            assert(fields_view(self.fields@) =~= v1.fields.update(
                fi as int,
                input::set_cursor_with_anchor_spec(v1.fields[fi as int], drag.anchor as nat, cursor as nat),
            ));
        }
    }

    /// Handles a mouse event; says what, if anything, the caller must do.
    pub fn handle_mouse(&mut self, mouse: MouseInput) -> (cmd: AppCommand)
        requires
            old(self).wf(),
        ensures
            final(self).wf(),
            (final(self)@, cmd) == mouse_spec(old(self)@, mouse),
    {
        let cmd = match mouse.kind {
            MouseKind::ScrollDown => {
                self.next_focus();
                AppCommand::Nothing
            },
            MouseKind::ScrollUp => {
                self.previous_focus();
                AppCommand::Nothing
            },
            MouseKind::LeftDown => self.handle_left_down(mouse.column, mouse.row),
            MouseKind::LeftDrag => {
                self.handle_left_drag(mouse.column);
                AppCommand::Nothing
            },
            MouseKind::LeftUp => {
                self.drag_state = None;
                AppCommand::Nothing
            },
            MouseKind::Other => AppCommand::Nothing,
        };
        proof {
            if mouse.kind == MouseKind::LeftUp || mouse.kind == MouseKind::Other {
                assert(self@.button_hitboxes == old(self)@.button_hitboxes);
            }
        }
        cmd
    }

    // -----------------------------------------------------------------------
    // Reports from the caller
    // -----------------------------------------------------------------------

    /// After a save: the path written, or why its path could not be shown.
    pub fn report_saved(&mut self, path: Result<String, String>)
        ensures
            final(self)@ == match path {
                Ok(p) => with_status(old(self)@, StatusKind::Success, "Saved config to "@ + p@),
                Err(e) => with_status(
                    old(self)@,
                    StatusKind::Success,
                    "Saved config, but path lookup failed: "@ + e@,
                ),
            },
    {
        match path {
            Ok(p) => {
                let mut m = String::from_str("Saved config to ");
                m.append(p.as_str());
                self.set_status(StatusKind::Success, m);
            },
            Err(e) => {
                let mut m = String::from_str("Saved config, but path lookup failed: ");
                m.append(e.as_str());
                self.set_status(StatusKind::Success, m);
            },
        }
    }

    /// An error, shown as it is.
    pub fn report_error(&mut self, message: String)
        ensures
            final(self)@ == with_status(old(self)@, StatusKind::Error, message@),
    {
        self.set_status(StatusKind::Error, message);
    }

    /// A form that does not make a valid configuration.
    pub fn report_form_error(&mut self, error: &FormError)
        ensures
            final(self)@ == with_status(
                old(self)@,
                StatusKind::Error,
                crate::tui::form::form_fault_message(error@),
            ),
    {
        let m = error.message();
        self.set_status(StatusKind::Error, m);
    }

    /// Off campus when a test was asked for.
    pub fn report_off_campus(&mut self, reason: &str)
        ensures
            final(self)@ == with_status(
                old(self)@,
                StatusKind::Error,
                "campus network not detected: "@ + reason@,
            ),
    {
        let mut m = String::from_str("campus network not detected: ");
        m.append(reason);
        self.set_status(StatusKind::Error, m);
    }

    /// The outcome of a test login.
    pub fn report_login(&mut self, outcome: &LoginOutcome)
        ensures
            final(self)@ == match outcome.status {
                LoginStatus::Success => with_status(
                    old(self)@,
                    StatusKind::Success,
                    "Login successful: "@ + outcome.detail@,
                ),
                LoginStatus::Failed => with_status(
                    old(self)@,
                    StatusKind::Error,
                    "Login failed: "@ + outcome.detail@,
                ),
            },
    {
        match outcome.status {
            LoginStatus::Success => {
                let mut m = String::from_str("Login successful: ");
                m.append(outcome.detail.as_str());
                self.set_status(StatusKind::Success, m);
            },
            LoginStatus::Failed => {
                let mut m = String::from_str("Login failed: ");
                m.append(outcome.detail.as_str());
                self.set_status(StatusKind::Error, m);
            },
        }
    }

    /// The outcome of toggling autostart.
    pub fn report_autostart(&mut self, report: AutostartReport)
        ensures
            final(self)@ == match report {
                AutostartReport::Enabled(p) => with_status(
                    old(self)@,
                    StatusKind::Success,
                    "Autostart enabled: "@ + p@,
                ),
                AutostartReport::Disabled(p) => with_status(
                    old(self)@,
                    StatusKind::Success,
                    "Autostart disabled: "@ + p@,
                ),
                AutostartReport::Failed(e) => with_status(old(self)@, StatusKind::Error, e@),
            },
    {
        match report {
            AutostartReport::Enabled(p) => {
                let mut m = String::from_str("Autostart enabled: ");
                m.append(p.as_str());
                self.set_status(StatusKind::Success, m);
            },
            AutostartReport::Disabled(p) => {
                let mut m = String::from_str("Autostart disabled: ");
                m.append(p.as_str());
                self.set_status(StatusKind::Success, m);
            },
            AutostartReport::Failed(e) => {
                self.set_status(StatusKind::Error, e);
            },
        }
    }
}


/// Any character typed without Control or Alt goes into the focused field,
/// whatever other modifier (such as Shift) is held; only `?` is kept for
/// the shortcuts. With no selection it lands at the cursor, which moves on
/// past it, and nothing else is asked of the caller.
pub proof fn lemma_plain_characters_are_typed(v: AppView, ch: char, m: KeyModifiers, i: usize)
    requires
        app_wf(v),
        v.focus == Focus::Field(i),
        ch != '?',
        !m.control,
        !m.alt,
    ensures
        key_intent_spec(KeyInput { code: KeyCode::Char(ch), modifiers: m }, Focus::Field(i))
            == KeyIntent::Insert(ch),
        v.fields[i as int].anchor is None ==> ({
            let (w, cmd) = apply_intent(
                v,
                key_intent_spec(KeyInput { code: KeyCode::Char(ch), modifiers: m }, v.focus),
            );
            &&& cmd == AppCommand::Nothing
            &&& w.fields[i as int].value == v.fields[i as int].value.insert(
                v.fields[i as int].cursor as int,
                ch,
            )
            &&& w.fields[i as int].cursor == v.fields[i as int].cursor + 1
        }),
{
}


/// The form's fixed keys, whatever has the focus: Esc and Control+C alone
/// quit, Tab and Down move forward, Shift+Tab and Up move back, F2 shows or
/// hides the password, `?` shows or hides the shortcuts, Control with S, T
/// or A saves, saves and tests, or toggles autostart, and Enter goes on.
pub proof fn lemma_fixed_keys(focus: Focus, m: KeyModifiers)
    ensures
        key_intent_spec(KeyInput { code: KeyCode::Esc, modifiers: m }, focus) == KeyIntent::Quit,
        (m.control && !m.alt && !m.other) ==> key_intent_spec(
            KeyInput { code: KeyCode::Char('c'), modifiers: m },
            focus,
        ) == KeyIntent::Quit,
        key_intent_spec(KeyInput { code: KeyCode::Tab, modifiers: m }, focus)
            == KeyIntent::NextFocus,
        key_intent_spec(KeyInput { code: KeyCode::Down, modifiers: m }, focus)
            == KeyIntent::NextFocus,
        key_intent_spec(KeyInput { code: KeyCode::BackTab, modifiers: m }, focus)
            == KeyIntent::PreviousFocus,
        key_intent_spec(KeyInput { code: KeyCode::Up, modifiers: m }, focus)
            == KeyIntent::PreviousFocus,
        key_intent_spec(KeyInput { code: KeyCode::F(2), modifiers: m }, focus)
            == KeyIntent::TogglePassword,
        key_intent_spec(KeyInput { code: KeyCode::Char('?'), modifiers: m }, focus)
            == KeyIntent::ToggleShortcuts,
        m.control ==> key_intent_spec(KeyInput { code: KeyCode::Char('s'), modifiers: m }, focus)
            == KeyIntent::Save,
        m.control ==> key_intent_spec(KeyInput { code: KeyCode::Char('t'), modifiers: m }, focus)
            == KeyIntent::SaveAndTest,
        m.control ==> key_intent_spec(KeyInput { code: KeyCode::Char('a'), modifiers: m }, focus)
            == KeyIntent::ToggleAutostart,
        key_intent_spec(KeyInput { code: KeyCode::Enter, modifiers: m }, focus)
            == KeyIntent::Enter,
        focus is Button ==> key_intent_spec(KeyInput { code: KeyCode::Char('x'), modifiers: m }, focus)
            == KeyIntent::Ignore,
{
}

} // verus!
