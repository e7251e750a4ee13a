//! The editing model of a single-line text field: its text, the cursor and
//! the anchor of the selection, both as UTF-8 byte offsets into the text.

use vstd::prelude::*;
use crate::text;

verus! {

/// What an edit operation reads and changes of a text field.
pub ghost struct EditModel {
    pub text: Seq<char>,
    pub cursor: nat,
    pub anchor: Option<nat>,
}

/// The selected byte range, lower end first, when an anchor is set.
pub open spec fn sel_range(m: EditModel) -> Option<(nat, nat)> {
    match m.anchor {
        Some(a) => if a <= m.cursor {
            Some((a, m.cursor))
        } else {
            Some((m.cursor, a))
        },
        None => None,
    }
}

/// Some text is selected: the anchor is set and differs from the cursor.
pub open spec fn has_sel(m: EditModel) -> bool {
    m.anchor matches Some(a) && a != m.cursor
}

/// Both the cursor and the anchor (if any) fall on character boundaries.
pub open spec fn valid(m: EditModel) -> bool {
    &&& text::is_boundary(m.text, m.cursor as int)
    &&& m.anchor matches Some(a) ==> text::is_boundary(m.text, a as int)
}

/// The selection, if any, can be removed: both of its ends are boundaries.
pub open spec fn sel_removable(m: EditModel) -> bool {
    m.anchor matches Some(a) ==> text::is_boundary(m.text, a as int) && text::is_boundary(
        m.text,
        m.cursor as int,
    )
}

/// Removes the selected range and puts the cursor where it started.
pub open spec fn delete_sel(m: EditModel) -> EditModel {
    match sel_range(m) {
        Some((a, b)) => EditModel {
            text: text::splice(m.text, a as int, b as int, Seq::empty()),
            cursor: a,
            anchor: None,
        },
        None => m,
    }
}

/// Replaces the selection (if any) by `t` and puts the cursor after `t`.
pub open spec fn insert(m: EditModel, t: Seq<char>) -> EditModel {
    let d = delete_sel(m);
    EditModel {
        text: text::splice(d.text, d.cursor as int, d.cursor as int, t),
        cursor: d.cursor + text::byte_len(t),
        anchor: None,
    }
}

/// Selects the whole text, with the cursor at its end.
pub open spec fn select_all(m: EditModel) -> EditModel {
    EditModel { text: m.text, cursor: text::byte_len(m.text), anchor: Some(0) }
}

/// The Backspace key: removes the selection, or else the character before
/// the cursor.
pub open spec fn backspace(m: EditModel) -> EditModel {
    if has_sel(m) {
        delete_sel(m)
    } else if m.cursor > 0 {
        let p = text::prev_boundary(m.text, m.cursor as int);
        EditModel {
            text: text::splice(m.text, p, m.cursor as int, Seq::empty()),
            cursor: p as nat,
            anchor: m.anchor,
        }
    } else {
        m
    }
}

/// The Delete key: removes the selection, or else the character after the
/// cursor.
pub open spec fn delete_forward(m: EditModel) -> EditModel {
    if has_sel(m) {
        delete_sel(m)
    } else if m.cursor < text::byte_len(m.text) {
        let n = text::next_boundary(m.text, m.cursor as int);
        EditModel {
            text: text::splice(m.text, m.cursor as int, n, Seq::empty()),
            cursor: m.cursor,
            anchor: m.anchor,
        }
    } else {
        m
    }
}

/// The anchor after a cursor motion: kept (or set at the cursor) when the
/// selection is being extended, dropped otherwise.
pub open spec fn moved_anchor(m: EditModel, extend: bool) -> Option<nat> {
    if extend {
        if m.anchor is None {
            Some(m.cursor)
        } else {
            m.anchor
        }
    } else {
        None
    }
}

/// The left arrow: one character back.
pub open spec fn move_left(m: EditModel, extend: bool) -> EditModel {
    EditModel {
        text: m.text,
        cursor: if m.cursor > 0 {
            text::prev_boundary(m.text, m.cursor as int) as nat
        } else {
            m.cursor
        },
        anchor: moved_anchor(m, extend),
    }
}

/// The right arrow: one character forward.
pub open spec fn move_right(m: EditModel, extend: bool) -> EditModel {
    EditModel {
        text: m.text,
        cursor: if m.cursor < text::byte_len(m.text) {
            text::next_boundary(m.text, m.cursor as int) as nat
        } else {
            m.cursor
        },
        anchor: moved_anchor(m, extend),
    }
}

/// The Home key: cursor to the start; the anchor stays only when extending.
pub open spec fn move_home(m: EditModel, extend: bool) -> EditModel {
    EditModel { text: m.text, cursor: 0, anchor: if extend { m.anchor } else { None } }
}

/// The End key: cursor to the end; the anchor stays only when extending.
pub open spec fn move_end(m: EditModel, extend: bool) -> EditModel {
    EditModel {
        text: m.text,
        cursor: text::byte_len(m.text),
        anchor: if extend { m.anchor } else { None },
    }
}

/// Facts about the text and boundaries of a splice.
pub proof fn lemma_splice(s: Seq<char>, from: int, to: int, ins: Seq<char>)
    requires
        text::is_boundary(s, from),
        text::is_boundary(s, to),
        from <= to,
    ensures
        text::byte_len(text::splice(s, from, to, ins)) == from + text::byte_len(ins) + (text::byte_len(s) - to),
        text::is_boundary(text::splice(s, from, to, ins), from),
        text::is_boundary(text::splice(s, from, to, ins), from + text::byte_len(ins)),
        text::index_at(text::splice(s, from, to, ins), from) == text::index_at(s, from),
        text::index_at(text::splice(s, from, to, ins), from + text::byte_len(ins)) == text::index_at(s, from) + ins.len(),
        text::head(text::splice(s, from, to, ins), from) == text::head(s, from),
        text::rest(text::splice(s, from, to, ins), from + text::byte_len(ins)) == text::rest(s, to),
        to <= text::byte_len(s),
{
    let i = text::index_at(s, from);
    let j = text::index_at(s, to);
    text::lemma_boundary(s, from);
    text::lemma_boundary(s, to);
    let r = text::splice(s, from, to, ins);
    let h = s.take(i);
    let t = s.skip(j);
    assert(r == h + ins + t);
    text::lemma_byte_len_concat(h, ins);
    text::lemma_byte_len_concat(h + ins, t);
    assert(s =~= s.take(j) + t);
    text::lemma_byte_len_concat(s.take(j), t);
    assert(r.take(i) =~= h);
    assert(r.take(i + ins.len()) =~= h + ins);
    text::lemma_index_at(r, i);
    text::lemma_index_at(r, i + ins.len());
    assert(r.skip(i + ins.len()) =~= t);
}

/// Every boundary of a text is either its start, or lies after a character.
pub proof fn lemma_boundary_zero_end(s: Seq<char>)
    ensures
        text::is_boundary(s, 0),
        text::is_boundary(s, text::byte_len(s) as int),
        text::index_at(s, 0) == 0,
        text::index_at(s, text::byte_len(s) as int) == s.len(),
{
    text::lemma_offset_zero_end(s);
    text::lemma_index_at(s, 0);
    text::lemma_index_at(s, s.len() as int);
}

/// The selected range runs from its lower to its upper end, and text is
/// selected exactly when that range is not empty.
pub proof fn law_selection_range(m: EditModel)
    ensures
        sel_range(m) matches Some((a, b)) ==> a <= b,
        sel_range(m) matches Some((a, b)) ==> (m.anchor == Some(a) && m.cursor == b) || (m.anchor
            == Some(b) && m.cursor == a),
        sel_range(m) is Some <==> m.anchor is Some,
        has_sel(m) <==> (sel_range(m) matches Some((a, b)) && a < b),
{
}

/// Every edit and motion keeps the cursor and the anchor on character
/// boundaries, except Backspace when the anchor sits at the cursor: the
/// anchor then stays where the cursor was, possibly past the new end.
pub proof fn law_edits_keep_valid(m: EditModel, t: Seq<char>, extend: bool)
    requires
        valid(m),
    ensures
        valid(delete_sel(m)),
        valid(insert(m, t)),
        valid(select_all(m)),
        valid(delete_forward(m)),
        valid(move_left(m, extend)),
        valid(move_right(m, extend)),
        valid(move_home(m, extend)),
        valid(move_end(m, extend)),
        !(m.anchor == Some(m.cursor) && m.cursor > 0) ==> valid(backspace(m)),
{
    let e = Seq::<char>::empty();
    text::lemma_byte_len_concat(e, e);
    assert(e + e =~= e);
    lemma_boundary_zero_end(m.text);
    if let Some((a, b)) = sel_range(m) {
        lemma_splice(m.text, a as int, b as int, e);
    }
    let d = delete_sel(m);
    lemma_splice(d.text, d.cursor as int, d.cursor as int, t);
    let n = text::splice(d.text, d.cursor as int, d.cursor as int, t);
    lemma_boundary_zero_end(n);
    if m.cursor > 0 {
        text::lemma_prev_boundary(m.text, m.cursor as int);
        let p = text::prev_boundary(m.text, m.cursor as int);
        lemma_splice(m.text, p, m.cursor as int, e);
    }
    text::lemma_boundary(m.text, m.cursor as int);
    if m.cursor < text::byte_len(m.text) {
        text::lemma_next_boundary(m.text, m.cursor as int);
        let q = text::next_boundary(m.text, m.cursor as int);
        lemma_splice(m.text, m.cursor as int, q, e);
    }
}

/// With the whole text selected, typing replaces all of it.
pub proof fn law_typing_replaces_selected_all(m: EditModel, t: Seq<char>)
    ensures
        insert(select_all(m), t).text == t,
        insert(select_all(m), t).cursor == text::byte_len(t),
        insert(select_all(m), t).anchor is None,
{
    let s = select_all(m);
    let e = Seq::<char>::empty();
    lemma_boundary_zero_end(m.text);
    lemma_splice(m.text, 0, text::byte_len(m.text) as int, e);
    let d = delete_sel(s);
    assert(text::head(m.text, 0) =~= e);
    assert(text::rest(m.text, text::byte_len(m.text) as int) =~= e);
    assert(d.text =~= e);
    lemma_boundary_zero_end(e);
    assert(text::byte_len(e) == 0);
    assert(text::head(e, 0) =~= e);
    assert(text::rest(e, 0) =~= e);
    assert(e + t + e =~= t);
}

/// Backspace right after typing a character, with nothing selected, gives
/// back the text and cursor as they were.
pub proof fn law_backspace_undoes_typing(m: EditModel, c: char)
    requires
        valid(m),
        m.anchor is None,
    ensures
        backspace(insert(m, seq![c])) == m,
{
    let t = seq![c];
    text::lemma_byte_len_single(c);
    lemma_splice(m.text, m.cursor as int, m.cursor as int, t);
    let i = insert(m, t);
    let n = i.text;
    let k = text::index_at(m.text, m.cursor as int);
    text::lemma_prev_boundary(n, i.cursor as int);
    let p = text::prev_boundary(n, i.cursor as int);
    assert(p == m.cursor);
    lemma_splice(n, p, i.cursor as int, Seq::empty());
    assert(text::head(n, p) =~= text::head(m.text, m.cursor as int));
    assert(text::rest(n, i.cursor as int) =~= text::rest(m.text, m.cursor as int));
    assert(m.text =~= text::head(m.text, m.cursor as int) + text::rest(m.text, m.cursor as int));
    assert(text::splice(n, p, i.cursor as int, Seq::empty()) =~= m.text);
}

/// Typing a character, stepping back over it and pressing Delete gives back
/// the text and cursor as they were.
pub proof fn law_delete_undoes_typing(m: EditModel, c: char)
    requires
        valid(m),
        m.anchor is None,
    ensures
        delete_forward(move_left(insert(m, seq![c]), false)) == m,
{
    let t = seq![c];
    text::lemma_byte_len_single(c);
    lemma_splice(m.text, m.cursor as int, m.cursor as int, t);
    let i = insert(m, t);
    let n = i.text;
    text::lemma_prev_boundary(n, i.cursor as int);
    let l = move_left(i, false);
    assert(l.cursor == m.cursor);
    text::lemma_boundary(n, i.cursor as int);
    text::lemma_next_boundary(n, l.cursor as int);
    assert(text::next_boundary(n, l.cursor as int) == i.cursor);
    lemma_splice(n, m.cursor as int, i.cursor as int, Seq::empty());
    assert(text::head(n, m.cursor as int) =~= text::head(m.text, m.cursor as int));
    assert(text::rest(n, i.cursor as int) =~= text::rest(m.text, m.cursor as int));
    assert(m.text =~= text::head(m.text, m.cursor as int) + text::rest(m.text, m.cursor as int));
    assert(text::splice(n, m.cursor as int, i.cursor as int, Seq::empty()) =~= m.text);
}

/// Moving left then right, without extending, comes back to the same cursor.
pub proof fn law_left_then_right(m: EditModel)
    requires
        valid(m),
        m.cursor > 0,
    ensures
        move_right(move_left(m, false), false).cursor == m.cursor,
        move_right(move_left(m, false), false).text == m.text,
        move_right(move_left(m, false), false).anchor is None,
{
    text::lemma_prev_boundary(m.text, m.cursor as int);
    let p = text::prev_boundary(m.text, m.cursor as int);
    text::lemma_boundary(m.text, m.cursor as int);
    text::lemma_next_boundary(m.text, p);
}

/// Backspace with nothing selected removes exactly the character before the
/// cursor and puts the cursor where that character started; Delete removes
/// exactly the character after the cursor and leaves the cursor in place.
pub proof fn law_backspace_delete_remove_one(m: EditModel)
    requires
        valid(m),
        !has_sel(m),
    ensures
        m.cursor > 0 ==> {
            let k = text::index_at(m.text, m.cursor as int);
            &&& backspace(m).text == m.text.remove(k - 1)
            &&& backspace(m).cursor + text::char_width(m.text[k - 1]) == m.cursor
            &&& backspace(m).anchor == m.anchor
        },
        m.cursor < text::byte_len(m.text) ==> {
            let k = text::index_at(m.text, m.cursor as int);
            &&& delete_forward(m).text == m.text.remove(k)
            &&& delete_forward(m).cursor == m.cursor
            &&& delete_forward(m).anchor == m.anchor
        },
{
    let s = m.text;
    let b = m.cursor as int;
    let k = text::index_at(s, b);
    text::lemma_boundary(s, b);
    if m.cursor > 0 {
        text::lemma_prev_boundary(s, b);
        let p = text::prev_boundary(s, b);
        assert(text::splice(s, p, b, Seq::empty()) =~= s.remove(k - 1));
    }
    if m.cursor < text::byte_len(s) {
        text::lemma_next_boundary(s, b);
        let n = text::next_boundary(s, b);
        assert(text::splice(s, b, n, Seq::empty()) =~= s.remove(k));
    }
}

/// Typing a character with nothing selected inserts it into the text at the
/// cursor and moves the cursor past its bytes.
pub proof fn law_typing_inserts(m: EditModel, c: char)
    requires
        valid(m),
        m.anchor is None,
    ensures
        insert(m, seq![c]).text == m.text.insert(text::index_at(m.text, m.cursor as int), c),
        insert(m, seq![c]).cursor == m.cursor + text::char_width(c),
        insert(m, seq![c]).anchor is None,
{
    let s = m.text;
    let b = m.cursor as int;
    let k = text::index_at(s, b);
    text::lemma_boundary(s, b);
    text::lemma_byte_len_single(c);
    assert(delete_sel(m) == m);
    assert(text::splice(s, b, b, seq![c]) =~= s.insert(k, c));
}

/// The arrow keys step over exactly one character when there is one, Home
/// and End go to the two ends, and no motion changes the text. Holding
/// Shift moves the cursor the same way and extends the selection: an arrow
/// sets a missing anchor at the old cursor and keeps an existing one, Home
/// and End keep the anchor as it is; without Shift the selection is dropped.
/// Select-all puts the anchor at the start and the cursor at the end.
pub proof fn law_motions(m: EditModel)
    requires
        valid(m),
    ensures
        move_left(m, true).cursor == move_left(m, false).cursor,
        move_right(m, true).cursor == move_right(m, false).cursor,
        move_left(m, true).text == m.text && move_left(m, false).text == m.text,
        move_right(m, true).text == m.text && move_right(m, false).text == m.text,
        move_home(m, true).text == m.text && move_home(m, false).text == m.text,
        move_end(m, true).text == m.text && move_end(m, false).text == m.text,
        m.cursor > 0 ==> {
            let c = move_left(m, false).cursor as int;
            &&& text::is_boundary(m.text, c)
            &&& text::index_at(m.text, c) == text::index_at(m.text, m.cursor as int) - 1
        },
        m.cursor == 0 ==> move_left(m, false).cursor == 0,
        m.cursor < text::byte_len(m.text) ==> {
            let c = move_right(m, false).cursor as int;
            &&& text::is_boundary(m.text, c)
            &&& text::index_at(m.text, c) == text::index_at(m.text, m.cursor as int) + 1
        },
        m.cursor >= text::byte_len(m.text) ==> move_right(m, false).cursor == m.cursor,
        move_left(m, true).anchor == (if m.anchor is None {
            Some(m.cursor)
        } else {
            m.anchor
        }),
        move_right(m, true).anchor == (if m.anchor is None {
            Some(m.cursor)
        } else {
            m.anchor
        }),
        move_left(m, false).anchor is None,
        move_right(m, false).anchor is None,
        move_home(m, true).cursor == 0 && move_home(m, false).cursor == 0,
        move_end(m, true).cursor == text::byte_len(m.text) && move_end(m, false).cursor
            == text::byte_len(m.text),
        move_home(m, true).anchor == m.anchor && move_home(m, false).anchor is None,
        move_end(m, true).anchor == m.anchor && move_end(m, false).anchor is None,
        select_all(m).text == m.text,
        select_all(m).cursor == text::byte_len(m.text),
        select_all(m).anchor == Some(0nat),
{
    let b = m.cursor as int;
    text::lemma_boundary(m.text, b);
    if m.cursor > 0 {
        text::lemma_prev_boundary(m.text, b);
    }
    if m.cursor < text::byte_len(m.text) {
        text::lemma_next_boundary(m.text, b);
    }
}

/// With a selection whose ends are character boundaries, removing it cuts
/// out exactly the characters between its ends and puts the cursor at its
/// lower end; typing replaces exactly those characters by the typed text and
/// puts the cursor after it.
pub proof fn law_selection_edits(m: EditModel, t: Seq<char>)
    requires
        m.anchor is Some,
        sel_removable(m),
    ensures
        ({
            let (lo, hi) = sel_range(m)->0;
            let i = text::index_at(m.text, lo as int);
            let j = text::index_at(m.text, hi as int);
            &&& delete_sel(m).text == m.text.take(i) + m.text.skip(j)
            &&& delete_sel(m).cursor == lo
            &&& delete_sel(m).anchor is None
            &&& insert(m, t).text == m.text.take(i) + t + m.text.skip(j)
            &&& insert(m, t).cursor == lo + text::byte_len(t)
            &&& insert(m, t).anchor is None
        }),
{
    let (lo, hi) = sel_range(m)->0;
    let e = Seq::<char>::empty();
    lemma_splice(m.text, lo as int, hi as int, e);
    let d = delete_sel(m);
    let i = text::index_at(m.text, lo as int);
    let j = text::index_at(m.text, hi as int);
    assert(d.text =~= m.text.take(i) + m.text.skip(j));
    lemma_splice(d.text, lo as int, lo as int, t);
    text::lemma_boundary(m.text, lo as int);
    text::lemma_boundary(d.text, lo as int);
    assert(text::index_at(d.text, lo as int) == i);
    assert(d.text.take(i) =~= m.text.take(i));
    assert(d.text.skip(i) =~= m.text.skip(j));
}

} // verus!
