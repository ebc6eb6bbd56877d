//! One editable line of the setup form: its text, cursor and selection,
//! edited by character position.
use vstd::prelude::*;

use crate::text::string_of;

verus! {

/// An editable text field.
pub struct InputField {
    pub label: String,
    pub value: Vec<char>,
    /// Cursor position, in characters.
    pub cursor: usize,
    /// The value is a password, shown masked unless asked otherwise.
    pub secret: bool,
    /// Where a mouse selection started, when one is active.
    pub selection_anchor: Option<usize>,
}

/// A field as a mathematical value.
pub struct FieldView {
    pub label: Seq<char>,
    pub value: Seq<char>,
    pub cursor: nat,
    pub secret: bool,
    pub anchor: Option<nat>,
}

pub open spec fn anchor_view(a: Option<usize>) -> Option<nat> {
    match a {
        Some(x) => Some(x as nat),
        None => None,
    }
}

impl View for InputField {
    type V = FieldView;

    open spec fn view(&self) -> FieldView {
        FieldView {
            label: self.label@,
            value: self.value@,
            cursor: self.cursor as nat,
            secret: self.secret,
            anchor: anchor_view(self.selection_anchor),
        }
    }
}

/// The cursor and any selection anchor lie within the text.
pub open spec fn field_wf(f: FieldView) -> bool {
    &&& f.cursor <= f.value.len()
    &&& f.anchor matches Some(a) ==> a <= f.value.len()
}

pub open spec fn min_nat(a: nat, b: nat) -> nat {
    if a <= b {
        a
    } else {
        b
    }
}

/// The selected range, ordered.
pub open spec fn selection(f: FieldView) -> Option<(nat, nat)> {
    match f.anchor {
        Some(a) => if a <= f.cursor {
            Some((a, f.cursor))
        } else {
            Some((f.cursor, a))
        },
        None => None,
    }
}

pub open spec fn cleared(f: FieldView) -> FieldView {
    FieldView { anchor: None, ..f }
}

/// Deleting the selection: an empty one is just dropped; a non-empty one
/// is cut out and the cursor lands where it began. The flag tells whether
/// text was cut.
pub open spec fn delete_selection_spec(f: FieldView) -> (FieldView, bool) {
    match selection(f) {
        None => (f, false),
        Some((s, e)) => if s == e {
            (cleared(f), false)
        } else {
            (
                FieldView {
                    value: f.value.subrange(0, s as int) + f.value.subrange(e as int, f.value.len() as int),
                    cursor: s,
                    anchor: None,
                    ..f
                },
                true,
            )
        },
    }
}

/// Typing a character replaces the selection and inserts at the cursor.
pub open spec fn insert_spec(f: FieldView, ch: char) -> FieldView {
    let g = delete_selection_spec(f).0;
    FieldView { value: g.value.insert(g.cursor as int, ch), cursor: g.cursor + 1, anchor: None, ..g }
}

/// Backspace deletes the selection, or else the character before the cursor.
pub open spec fn backspace_spec(f: FieldView) -> FieldView {
    let (g, cut) = delete_selection_spec(f);
    if cut || g.cursor == 0 {
        g
    } else {
        FieldView {
            value: g.value.remove(g.cursor - 1),
            cursor: (g.cursor - 1) as nat,
            anchor: None,
            ..g
        }
    }
}

/// Delete removes the selection, or else the character at the cursor.
pub open spec fn delete_spec(f: FieldView) -> FieldView {
    let (g, cut) = delete_selection_spec(f);
    if cut || g.cursor >= g.value.len() {
        g
    } else {
        FieldView { value: g.value.remove(g.cursor as int), anchor: None, ..g }
    }
}

/// Left collapses a selection to its start, else moves back one.
pub open spec fn move_left_spec(f: FieldView) -> FieldView {
    match selection(f) {
        Some((s, _)) => FieldView { cursor: s, anchor: None, ..f },
        None => FieldView {
            cursor: if f.cursor == 0 {
                0
            } else {
                (f.cursor - 1) as nat
            },
            anchor: None,
            ..f
        },
    }
}

/// Right collapses a selection to its end, else moves on one.
pub open spec fn move_right_spec(f: FieldView) -> FieldView {
    match selection(f) {
        Some((_, e)) => FieldView { cursor: e, anchor: None, ..f },
        None => FieldView { cursor: min_nat(f.cursor + 1, f.value.len()), anchor: None, ..f },
    }
}

pub open spec fn set_cursor_spec(f: FieldView, cursor: nat) -> FieldView {
    FieldView { cursor: min_nat(cursor, f.value.len()), anchor: None, ..f }
}

/// A drag from `anchor` to `cursor`, both kept within the text; an empty
/// drag selects nothing.
pub open spec fn set_cursor_with_anchor_spec(f: FieldView, anchor: nat, cursor: nat) -> FieldView {
    let a = min_nat(anchor, f.value.len());
    let c = min_nat(cursor, f.value.len());
    FieldView {
        cursor: c,
        anchor: if a != c {
            Some(a)
        } else {
            None
        },
        ..f
    }
}

/// What the field shows: the text, or one `*` per character when it is a
/// secret not asked to be shown.
pub open spec fn display_text(f: FieldView, show_secret: bool) -> Seq<char> {
    if f.secret && !show_secret {
        Seq::new(f.value.len(), |i: int| '*')
    } else {
        f.value
    }
}

/// `value.chars().skip(start).take(end - start)` (with `end - start`
/// saturating at zero).
pub open spec fn char_slice_spec(value: Seq<char>, start: nat, end: nat) -> Seq<char> {
    if end <= start || start >= value.len() {
        Seq::empty()
    } else {
        value.subrange(start as int, min_nat(end, value.len()) as int)
    }
}

/// The shown text cut into styled pieces: the unselected text before the
/// selection, the selection, and the text after it, each only if
/// non-empty; or the whole text as one plain piece.
pub open spec fn display_segments_spec(f: FieldView, show_secret: bool) -> Seq<(Seq<char>, bool)> {
    let rendered = display_text(f, show_secret);
    let n = rendered.len();
    match selection(f) {
        None => seq![(rendered, false)],
        Some((s0, e0)) => {
            let s = min_nat(s0, n);
            let e = min_nat(e0, n);
            if s == e {
                seq![(rendered, false)]
            } else {
                let pre = char_slice_spec(rendered, 0, s);
                let mid = char_slice_spec(rendered, s, e);
                let post = char_slice_spec(rendered, e, n);
                let a: Seq<(Seq<char>, bool)> = if pre.len() > 0 {
                    seq![(pre, false)]
                } else {
                    Seq::empty()
                };
                let b: Seq<(Seq<char>, bool)> = if mid.len() > 0 {
                    a.push((mid, true))
                } else {
                    a
                };
                let c: Seq<(Seq<char>, bool)> = if post.len() > 0 {
                    b.push((post, false))
                } else {
                    b
                };
                if c.len() == 0 {
                    seq![(Seq::empty(), false)]
                } else {
                    c
                }
            }
        },
    }
}

pub open spec fn segments_view(v: Seq<(String, bool)>) -> Seq<(Seq<char>, bool)> {
    v.map_values(|p: (String, bool)| (p.0@, p.1))
}

fn min_usize(a: usize, b: usize) -> (r: usize)
    ensures
        r as nat == min_nat(a as nat, b as nat),
{
    if a <= b {
        a
    } else {
        b
    }
}

/// `value.chars().skip(start).take(end.saturating_sub(start))`.
pub fn char_slice(value: &Vec<char>, start: usize, end: usize) -> (r: Vec<char>)
    ensures
        r@ == char_slice_spec(value@, start as nat, end as nat),
{
    if end <= start || start >= value.len() {
        return Vec::new();
    }
    let stop = min_usize(end, value.len());
    crate::text::slice_chars(value, start, stop)
}

impl InputField {
    pub open spec fn wf(&self) -> bool {
        field_wf(self@)
    }

    /// A field holding `value`, with the cursor at its end and nothing
    /// selected.
    pub fn new(label: &str, value: &str, secret: bool) -> (r: InputField)
        ensures
            r.wf(),
            r@ == (FieldView {
                label: label@,
                value: value@,
                cursor: value@.len(),
                secret,
                anchor: None,
            }),
    {
        let v = crate::text::chars_of(value);
        let cursor = v.len();
        InputField {
            label: String::from_str(label),
            value: v,
            cursor,
            secret,
            selection_anchor: None,
        }
    }

    pub fn label(&self) -> (r: String)
        ensures
            r@ == self@.label,
    {
        self.label.clone()
    }

    pub fn value(&self) -> (r: String)
        ensures
            r@ == self@.value,
    {
        string_of(&self.value)
    }

    pub fn cursor(&self) -> (r: usize)
        ensures
            r as nat == self@.cursor,
    {
        self.cursor
    }

    /// The text length in characters.
    pub fn value_len(&self) -> (r: usize)
        ensures
            r as nat == self@.value.len(),
    {
        self.value.len()
    }

    /// The width of what is shown, in characters: masked or not, one per
    /// character of the value.
    pub fn display_char_width(&self, show_secret: bool) -> (r: usize)
        ensures
            r as nat == display_text(self@, show_secret).len(),
    {
        self.value.len()
    }

    pub fn clear_selection(&mut self)
        requires
            old(self).wf(),
        ensures
            final(self).wf(),
            final(self)@ == cleared(old(self)@),
    {
        self.selection_anchor = None;
    }

    pub fn selection_range(&self) -> (r: Option<(usize, usize)>)
        ensures
            match r {
                Some((s, e)) => selection(self@) == Some((s as nat, e as nat)),
                None => selection(self@) is None,
            },
    {
        match self.selection_anchor {
            Some(anchor) => if anchor <= self.cursor {
                Some((anchor, self.cursor))
            } else {
                Some((self.cursor, anchor))
            },
            None => None,
        }
    }

    pub fn set_cursor(&mut self, cursor: usize)
        requires
            old(self).wf(),
        ensures
            final(self).wf(),
            final(self)@ == set_cursor_spec(old(self)@, cursor as nat),
    {
        self.cursor = min_usize(cursor, self.value.len());
        self.selection_anchor = None;
    }

    pub fn set_cursor_with_anchor(&mut self, anchor: usize, cursor: usize)
        requires
            old(self).wf(),
        ensures
            final(self).wf(),
            final(self)@ == set_cursor_with_anchor_spec(old(self)@, anchor as nat, cursor as nat),
    {
        let len = self.value.len();
        let a = min_usize(anchor, len);
        let c = min_usize(cursor, len);
        self.cursor = c;
        self.selection_anchor = if a != c {
            Some(a)
        } else {
            None
        };
    }

    /// Removes the selected text, if any; tells whether text was cut.
    pub fn delete_selection(&mut self) -> (cut: bool)
        requires
            old(self).wf(),
        ensures
            final(self).wf(),
            (final(self)@, cut) == delete_selection_spec(old(self)@),
    {
        match self.selection_range() {
            None => false,
            Some((start, end)) => {
                if start == end {
                    self.selection_anchor = None;
                    return false;
                }
                let mut v = crate::text::slice_chars(&self.value, 0, start);
                let tail = crate::text::suffix_from(&self.value, end);
                crate::text::extend_chars(&mut v, &tail);
                self.value = v;
                self.cursor = start;
                self.selection_anchor = None;
                true
            },
        }
    }

    pub fn insert(&mut self, ch: char)
        requires
            old(self).wf(),
        ensures
            final(self).wf(),
            final(self)@ == insert_spec(old(self)@, ch),
    {
        self.delete_selection();
        self.value.insert(self.cursor, ch);
        let n = self.value.len();
        assert(self.cursor < n);
        self.cursor = self.cursor + 1;
        self.selection_anchor = None;
    }

    pub fn backspace(&mut self)
        requires
            old(self).wf(),
        ensures
            final(self).wf(),
            final(self)@ == backspace_spec(old(self)@),
    {
        if self.delete_selection() || self.cursor == 0 {
            return;
        }
        self.value.remove(self.cursor - 1);
        self.cursor = self.cursor - 1;
        self.selection_anchor = None;
    }

    pub fn delete(&mut self)
        requires
            old(self).wf(),
        ensures
            final(self).wf(),
            final(self)@ == delete_spec(old(self)@),
    {
        if self.delete_selection() || self.cursor >= self.value.len() {
            return;
        }
        self.value.remove(self.cursor);
        self.selection_anchor = None;
    }

    pub fn move_left(&mut self)
        requires
            old(self).wf(),
        ensures
            final(self).wf(),
            final(self)@ == move_left_spec(old(self)@),
    {
        if let Some((start, _)) = self.selection_range() {
            self.cursor = start;
            self.selection_anchor = None;
            return;
        }
        self.cursor = if self.cursor == 0 {
            0
        } else {
            self.cursor - 1
        };
        self.selection_anchor = None;
    }

    pub fn move_right(&mut self)
        requires
            old(self).wf(),
        ensures
            final(self).wf(),
            final(self)@ == move_right_spec(old(self)@),
    {
        if let Some((_, end)) = self.selection_range() {
            self.cursor = end;
            self.selection_anchor = None;
            return;
        }
        self.cursor = if self.cursor < self.value.len() {
            self.cursor + 1
        } else {
            self.value.len()
        };
        self.selection_anchor = None;
    }

    pub fn move_home(&mut self)
        requires
            old(self).wf(),
        ensures
            final(self).wf(),
            final(self)@ == (FieldView { cursor: 0, anchor: None, ..old(self)@ }),
    {
        self.cursor = 0;
        self.selection_anchor = None;
    }

    pub fn move_end(&mut self)
        requires
            old(self).wf(),
        ensures
            final(self).wf(),
            final(self)@ == (FieldView {
                cursor: old(self)@.value.len(),
                anchor: None,
                ..old(self)@
            }),
    {
        self.cursor = self.value.len();
        self.selection_anchor = None;
    }

    /// What the field shows.
    pub fn display_value(&self, show_secret: bool) -> (r: String)
        ensures
            r@ == display_text(self@, show_secret),
    {
        if self.secret && !show_secret {
            let mut v: Vec<char> = Vec::new();
            let mut i: usize = 0;
            while i < self.value.len()
                invariant
                    i <= self.value@.len(),
                    v@ == Seq::new(i as nat, |k: int| '*'),
                decreases self.value@.len() - i,
            {
                v.push('*');
                i = i + 1;
                assert(v@ =~= Seq::new(i as nat, |k: int| '*'));
            }
            string_of(&v)
        } else {
            string_of(&self.value)
        }
    }

    /// What the field shows, cut into pieces that are selected or not.
    pub fn display_segments(&self, show_secret: bool) -> (r: Vec<(String, bool)>)
        requires
            self.wf(),
        ensures
            segments_view(r@) == display_segments_spec(self@, show_secret),
    {
        let rendered_text = self.display_value(show_secret);
        let rendered = crate::text::chars_of(rendered_text.as_str());
        let mut out: Vec<(String, bool)> = Vec::new();
        let (s0, e0) = match self.selection_range() {
            None => {
                out.push((rendered_text, false));
                assert(segments_view(out@) =~= display_segments_spec(self@, show_secret));
                return out;
            },
            Some(r) => r,
        };
        let n = rendered.len();
        let s = min_usize(s0, n);
        let e = min_usize(e0, n);
        if s == e {
            out.push((rendered_text, false));
            assert(segments_view(out@) =~= display_segments_spec(self@, show_secret));
            return out;
        }
        let pre = char_slice(&rendered, 0, s);
        let mid = char_slice(&rendered, s, e);
        let post = char_slice(&rendered, e, n);
        if pre.len() > 0 {
            out.push((string_of(&pre), false));
        }
        if mid.len() > 0 {
            out.push((string_of(&mid), true));
        }
        if post.len() > 0 {
            out.push((string_of(&post), false));
        }
        if out.len() == 0 {
            out.push((String::new(), false));
        }
        assert(segments_view(out@) =~= display_segments_spec(self@, show_secret));
        out
    }
}

// ---------------------------------------------------------------------------
// Laws of editing
// ---------------------------------------------------------------------------

/// Every edit keeps the cursor and the selection within the text.
pub proof fn lemma_edits_keep_field_wf(f: FieldView, ch: char, a: nat, c: nat)
    requires
        field_wf(f),
    ensures
        field_wf(delete_selection_spec(f).0),
        field_wf(insert_spec(f, ch)),
        field_wf(backspace_spec(f)),
        field_wf(delete_spec(f)),
        field_wf(move_left_spec(f)),
        field_wf(move_right_spec(f)),
        field_wf(set_cursor_spec(f, c)),
        field_wf(set_cursor_with_anchor_spec(f, a, c)),
{
}

/// Without a selection, typing a character and pressing backspace leaves
/// the field as it was.
pub proof fn lemma_backspace_undoes_insert(f: FieldView, ch: char)
    requires
        field_wf(f),
        f.anchor is None,
    ensures
        backspace_spec(insert_spec(f, ch)) == f,
{
    let g = insert_spec(f, ch);
    assert(g.value.remove(f.cursor as int) =~= f.value);
}

/// Without a selection, typing a character puts it at the cursor, moves
/// the cursor past it and keeps the text around it.
pub proof fn lemma_insert_places_char(f: FieldView, ch: char)
    requires
        field_wf(f),
        f.anchor is None,
    ensures
        insert_spec(f, ch).value.len() == f.value.len() + 1,
        insert_spec(f, ch).value[f.cursor as int] == ch,
        insert_spec(f, ch).cursor == f.cursor + 1,
        insert_spec(f, ch).value.subrange(0, f.cursor as int) == f.value.subrange(
            0,
            f.cursor as int,
        ),
{
    assert(insert_spec(f, ch).value.subrange(0, f.cursor as int) =~= f.value.subrange(
        0,
        f.cursor as int,
    ));
}

/// Typing over a selection replaces exactly the selected text.
pub proof fn lemma_insert_replaces_selection(f: FieldView, ch: char)
    requires
        field_wf(f),
        selection(f) matches Some((s, e)) && s < e,
    ensures
        ({
            let (s, e) = selection(f)->0;
            insert_spec(f, ch).value == f.value.subrange(0, s as int) + seq![ch]
                + f.value.subrange(e as int, f.value.len() as int)
        }),
{
    let (s, e) = selection(f)->0;
    assert(insert_spec(f, ch).value =~= f.value.subrange(0, s as int) + seq![ch]
        + f.value.subrange(e as int, f.value.len() as int));
}

/// A masked secret shows one `*` per character and nothing of the text.
pub proof fn lemma_secret_is_masked(f: FieldView)
    requires
        f.secret,
    ensures
        display_text(f, false).len() == f.value.len(),
        forall|i: int| 0 <= i < f.value.len() ==> #[trigger] display_text(f, false)[i] == '*',
{
}


/// With a non-empty selection, Delete and Backspace both cut exactly the
/// selected text (between the anchor and the cursor, whichever comes
/// first), leave the cursor where it began, and end the selection.
pub proof fn lemma_delete_keys_cut_selection(f: FieldView, a: nat)
    requires
        field_wf(f),
        f.anchor == Some(a),
        a != f.cursor,
    ensures
        ({
            let s = if a < f.cursor {
                a
            } else {
                f.cursor
            };
            let e = if a < f.cursor {
                f.cursor
            } else {
                a
            };
            let cut = f.value.subrange(0, s as int) + f.value.subrange(e as int, f.value.len() as int);
            &&& delete_spec(f).value == cut
            &&& delete_spec(f).cursor == s
            &&& delete_spec(f).anchor is None
            &&& backspace_spec(f).value == cut
            &&& backspace_spec(f).cursor == s
            &&& backspace_spec(f).anchor is None
        }),
{
}

/// Without a selection, Delete removes the character under the cursor and
/// keeps the cursor; Backspace removes the one before it and moves back.
pub proof fn lemma_delete_keys_remove_one(f: FieldView)
    requires
        field_wf(f),
        f.anchor is None,
    ensures
        f.cursor < f.value.len() ==> delete_spec(f).value == f.value.remove(f.cursor as int)
            && delete_spec(f).cursor == f.cursor,
        f.cursor == f.value.len() ==> delete_spec(f) == f,
        f.cursor > 0 ==> backspace_spec(f).value == f.value.remove(f.cursor - 1)
            && backspace_spec(f).cursor == f.cursor - 1,
        f.cursor == 0 ==> backspace_spec(f) == f,
{
}

} // verus!
