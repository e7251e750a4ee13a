//! The address-bar text field: text, cursor, selection and IME composition,
//! and what Enter turns the typed text into.

use vstd::prelude::*;
use vstd::string::*;
use vstd::utf8::{encode_scalar, encode_utf8, is_ascii_chars, is_ascii_chars_encode_utf8};
use crate::editing;
use crate::keys::{KeyCode, KeyModifiers};
use crate::text;

verus! {

/// Actions that can result from URL input interaction.
#[derive(Debug, Clone)]
pub enum UrlInputAction {
    /// No action needed.
    NoAction,
    /// Navigate to the given URL.
    Navigate(String),
    /// The URL bar lost focus.
    Blur,
    /// The URL bar gained focus, select all text.
    FocusSelectAll,
}

/// State of the URL text input field. Positions are UTF-8 byte offsets.
#[derive(Debug, Clone)]
pub struct UrlInputState {
    /// Current text content.
    pub text: String,
    /// Cursor position (byte offset).
    pub cursor_pos: usize,
    /// Start of selection (byte offset), if any.
    pub selection_start: Option<usize>,
    /// Whether the input is currently focused.
    pub is_focused: bool,
    /// IME composition text (if composing).
    pub composition_text: Option<String>,
    /// Placeholder text when empty.
    pub placeholder: String,
}

/// The placeholder shown in an empty address bar.
pub open spec fn default_placeholder() -> Seq<char> {
    "Search or enter URL"@
}

/// A key `handle_key` reads only when the field is focused does not make it
/// panic: the text it slices or removes is cut at character boundaries.
pub open spec fn key_safe(m: editing::EditModel, key: KeyCode) -> bool {
    match key {
        KeyCode::Backspace => if editing::has_sel(m) {
            editing::sel_removable(m)
        } else {
            m.cursor > 0 ==> text::is_boundary(m.text, m.cursor as int)
        },
        KeyCode::Delete => if editing::has_sel(m) {
            editing::sel_removable(m)
        } else {
            m.cursor < text::byte_len(m.text) ==> text::is_boundary(m.text, m.cursor as int)
        },
        KeyCode::ArrowLeft => m.cursor > 0 ==> text::is_boundary(m.text, m.cursor as int),
        KeyCode::ArrowRight => m.cursor < text::byte_len(m.text) ==> text::is_boundary(
            m.text,
            m.cursor as int,
        ),
        _ => true,
    }
}

/// The keys that edit the text or move the cursor, and what they do.
pub open spec fn key_edit(m: editing::EditModel, key: KeyCode, mods: KeyModifiers) -> Option<
    editing::EditModel,
> {
    match key {
        KeyCode::Backspace => Some(editing::backspace(m)),
        KeyCode::Delete => Some(editing::delete_forward(m)),
        KeyCode::ArrowLeft => Some(editing::move_left(m, mods.shift)),
        KeyCode::ArrowRight => Some(editing::move_right(m, mods.shift)),
        KeyCode::Home => Some(editing::move_home(m, mods.shift)),
        KeyCode::End => Some(editing::move_end(m, mods.shift)),
        KeyCode::KeyA => if mods.control {
            Some(editing::select_all(m))
        } else {
            None
        },
        _ => None,
    }
}

impl UrlInputState {
    /// The text, cursor and selection anchor of the field.
    pub open spec fn edit(&self) -> editing::EditModel {
        editing::EditModel {
            text: self.text@,
            cursor: self.cursor_pos as nat,
            anchor: match self.selection_start {
                Some(s) => Some(s as nat),
                None => None,
            },
        }
    }

    /// Focus, composition and placeholder are the same in `self` and `other`.
    pub open spec fn same_extras(&self, other: &Self) -> bool {
        &&& self.is_focused == other.is_focused
        &&& self.composition_text == other.composition_text
        &&& self.placeholder == other.placeholder
    }

    /// `self` is `old` after losing focus: no selection, no composition.
    pub open spec fn blurred_from(&self, old: &Self) -> bool {
        &&& !self.is_focused
        &&& self.selection_start is None
        &&& self.composition_text is None
        &&& self.text == old.text
        &&& self.cursor_pos == old.cursor_pos
        &&& self.placeholder == old.placeholder
    }

    /// What `display_text` shows: the text with the composition put in place
    /// of the span from the anchor to the cursor, or at the cursor.
    pub open spec fn displayed(&self) -> Seq<char> {
        match self.composition_text {
            Some(comp) => match self.selection_start {
                Some(s) => text::splice(self.text@, s as int, self.cursor_pos as int, comp@),
                None => text::splice(
                    self.text@,
                    self.cursor_pos as int,
                    self.cursor_pos as int,
                    comp@,
                ),
            },
            None => self.text@,
        }
    }

    /// `display_text` does not panic: the composed span is well ordered and
    /// its ends are character boundaries.
    pub open spec fn can_display(&self) -> bool {
        self.composition_text is Some ==> match self.selection_start {
            Some(s) => s <= self.cursor_pos && text::is_boundary(self.text@, s as int)
                && text::is_boundary(self.text@, self.cursor_pos as int),
            None => text::is_boundary(self.text@, self.cursor_pos as int),
        }
    }

    /// Whether `handle_key` can take `key` in the field's present state
    /// without cutting the text inside a character (`key_safe`).
    pub fn key_is_safe(&self, key: KeyCode) -> (b: bool)
        ensures
            b == key_safe(self.edit(), key),
    {
        let t = self.text.as_str();
        let c = self.cursor_pos;
        let has_sel = self.has_selection();
        let sel_ok = match self.selection_start {
            Some(a) => text::boundary_at(t, a) && text::boundary_at(t, c),
            None => true,
        };
        match key {
            KeyCode::Backspace => if has_sel {
                sel_ok
            } else {
                c == 0 || text::boundary_at(t, c)
            },
            KeyCode::Delete => if has_sel {
                sel_ok
            } else {
                c >= text::byte_length(t) || text::boundary_at(t, c)
            },
            KeyCode::ArrowLeft => c == 0 || text::boundary_at(t, c),
            KeyCode::ArrowRight => c >= text::byte_length(t) || text::boundary_at(t, c),
            _ => true,
        }
    }

    /// Whether `display_text` can splice the composition in without cutting
    /// the text inside a character (`can_display`).
    pub fn display_is_safe(&self) -> (b: bool)
        ensures
            b == self.can_display(),
    {
        if self.composition_text.is_none() {
            return true;
        }
        let t = self.text.as_str();
        match self.selection_start {
            Some(s) => s <= self.cursor_pos && text::boundary_at(t, s) && text::boundary_at(
                t,
                self.cursor_pos,
            ),
            None => text::boundary_at(t, self.cursor_pos),
        }
    }

    /// Create a new URL input state.
    pub fn new() -> (s: Self)
        ensures
            s.text@ == Seq::<char>::empty(),
            s.cursor_pos == 0,
            s.selection_start is None,
            !s.is_focused,
            s.composition_text is None,
            s.placeholder@ == default_placeholder(),
    {
        Self::default()
    }

    /// Set the URL text (e.g., when navigating to a new page).
    pub fn set_url(&mut self, url: &str)
        ensures
            final(self).text@ == url@,
            final(self).cursor_pos == text::byte_len(url@),
            final(self).selection_start is None,
            final(self).same_extras(old(self)),
    {
        self.text = String::from_str(url);
        self.cursor_pos = text::byte_length(self.text.as_str());
        self.selection_start = None;
    }

    /// Focus the URL input and select all text.
    pub fn focus(&mut self)
        ensures
            final(self).is_focused,
            final(self).edit() == editing::select_all(old(self).edit()),
            final(self).composition_text == old(self).composition_text,
            final(self).placeholder == old(self).placeholder,
    {
        self.is_focused = true;
        self.selection_start = Some(0);
        self.cursor_pos = text::byte_length(self.text.as_str());
    }

    /// Blur the URL input.
    pub fn blur(&mut self)
        ensures
            final(self).blurred_from(old(self)),
    {
        self.is_focused = false;
        self.selection_start = None;
        self.composition_text = None;
    }

    /// Get the display text (shows composition text if composing).
    pub fn display_text(&self) -> (r: String)
        requires
            self.can_display(),
        ensures
            r@ == self.displayed(),
    {
        match &self.composition_text {
            Some(comp) => match self.selection_start {
                Some(sel_start) => text::splice_string(
                    self.text.as_str(),
                    sel_start,
                    self.cursor_pos,
                    comp.as_str(),
                ),
                None => text::splice_string(
                    self.text.as_str(),
                    self.cursor_pos,
                    self.cursor_pos,
                    comp.as_str(),
                ),
            },
            None => self.text.clone(),
        }
    }

    /// Handle a character input: when focused, the character replaces the
    /// selection, or is inserted at the cursor.
    pub fn handle_char(&mut self, ch: char) -> (r: UrlInputAction)
        requires
            old(self).is_focused ==> editing::valid(old(self).edit()),
        ensures
            r is NoAction,
            !old(self).is_focused ==> *final(self) == *old(self),
            old(self).is_focused ==> final(self).edit() == editing::insert(
                old(self).edit(),
                seq![ch],
            ),
            final(self).same_extras(old(self)),
    {
        if !self.is_focused {
            return UrlInputAction::NoAction;
        }
        proof {
            text::lemma_byte_len_single(ch);
        }
        let v = vec![ch];
        let s = text::string_of(&v);
        assert(v@ =~= seq![ch]);
        self.insert_text(s.as_str());
        UrlInputAction::NoAction
    }

    /// Replaces the selection (if any) by `ins` and puts the cursor after it.
    fn insert_text(&mut self, ins: &str)
        requires
            editing::valid(old(self).edit()),
        ensures
            final(self).edit() == editing::insert(old(self).edit(), ins@),
            final(self).same_extras(old(self)),
    {
        let ghost m = self.edit();
        self.delete_selection();
        let ghost d = self.edit();
        proof {
            if m.anchor is None {
                assert(d == m);
            } else {
                let (a, b) = editing::sel_range(m)->0;
                editing::lemma_splice(m.text, a as int, b as int, Seq::empty());
                assert(Seq::<char>::empty() + Seq::<char>::empty() =~= Seq::<char>::empty());
            }
        }
        let t = text::splice_string(self.text.as_str(), self.cursor_pos, self.cursor_pos, ins);
        let n = text::byte_length(ins);
        let total = text::byte_length(t.as_str());
        proof {
            editing::lemma_splice(d.text, d.cursor as int, d.cursor as int, ins@);
        }
        self.text = t;
        self.cursor_pos = self.cursor_pos + n;
        self.selection_start = None;
    }

    /// Handle a key event (for special keys): Enter submits the trimmed
    /// text, Escape gives up focus, and the editing keys change the text,
    /// the cursor or the selection.
    pub fn handle_key(&mut self, key_code: KeyCode, modifiers: KeyModifiers) -> (r: UrlInputAction)
        requires
            old(self).is_focused ==> key_safe(old(self).edit(), key_code),
        ensures
            !old(self).is_focused ==> r is NoAction && *final(self) == *old(self),
            old(self).is_focused ==> match key_code {
                KeyCode::Enter | KeyCode::NumpadEnter => if text::trim(old(self).text@).len() > 0 {
                    &&& r matches UrlInputAction::Navigate(u) && u@ == normalized(
                        text::trim(old(self).text@),
                    )
                    &&& final(self).blurred_from(old(self))
                } else {
                    r is NoAction && *final(self) == *old(self)
                },
                KeyCode::Escape => r is Blur && final(self).blurred_from(old(self)),
                _ => r is NoAction && match key_edit(old(self).edit(), key_code, modifiers) {
                    Some(m) => final(self).edit() == m && final(self).same_extras(old(self)),
                    None => *final(self) == *old(self),
                },
            },
    {
        if !self.is_focused {
            return UrlInputAction::NoAction;
        }
        match key_code {
            KeyCode::Enter | KeyCode::NumpadEnter => self.submit(),
            KeyCode::Escape => {
                self.blur();
                UrlInputAction::Blur
            },
            KeyCode::Backspace => {
                if self.has_selection() {
                    self.delete_selection();
                } else if self.cursor_pos > 0 {
                    let prev = text::prev_boundary_of(self.text.as_str(), self.cursor_pos);
                    self.text = text::remove_bytes(self.text.as_str(), prev, self.cursor_pos);
                    self.cursor_pos = prev;
                }
                UrlInputAction::NoAction
            },
            KeyCode::Delete => {
                if self.has_selection() {
                    self.delete_selection();
                } else if self.cursor_pos < text::byte_length(self.text.as_str()) {
                    let next = text::next_boundary_of(self.text.as_str(), self.cursor_pos);
                    self.text = text::remove_bytes(self.text.as_str(), self.cursor_pos, next);
                }
                UrlInputAction::NoAction
            },
            KeyCode::ArrowLeft => {
                if modifiers.shift {
                    if self.selection_start.is_none() {
                        self.selection_start = Some(self.cursor_pos);
                    }
                } else {
                    self.selection_start = None;
                }
                if self.cursor_pos > 0 {
                    self.cursor_pos = text::prev_boundary_of(self.text.as_str(), self.cursor_pos);
                }
                UrlInputAction::NoAction
            },
            KeyCode::ArrowRight => {
                if modifiers.shift {
                    if self.selection_start.is_none() {
                        self.selection_start = Some(self.cursor_pos);
                    }
                } else {
                    self.selection_start = None;
                }
                if self.cursor_pos < text::byte_length(self.text.as_str()) {
                    self.cursor_pos = text::next_boundary_of(self.text.as_str(), self.cursor_pos);
                }
                UrlInputAction::NoAction
            },
            KeyCode::Home => {
                if !modifiers.shift {
                    self.selection_start = None;
                }
                self.cursor_pos = 0;
                UrlInputAction::NoAction
            },
            KeyCode::End => {
                if !modifiers.shift {
                    self.selection_start = None;
                }
                self.cursor_pos = text::byte_length(self.text.as_str());
                UrlInputAction::NoAction
            },
            KeyCode::KeyA => {
                if modifiers.control {
                    self.selection_start = Some(0);
                    self.cursor_pos = text::byte_length(self.text.as_str());
                }
                UrlInputAction::NoAction
            },
            _ => UrlInputAction::NoAction,
        }
    }

    /// Enter: submits the trimmed text, if any, and gives up focus.
    fn submit(&mut self) -> (r: UrlInputAction)
        ensures
            if text::trim(old(self).text@).len() > 0 {
                &&& r matches UrlInputAction::Navigate(u) && u@ == normalized(
                    text::trim(old(self).text@),
                )
                &&& final(self).blurred_from(old(self))
            } else {
                r is NoAction && *final(self) == *old(self)
            },
    {
        let url_text = text::trimmed(self.text.as_str());
        if !url_text.as_str().is_empty() {
            let url = self.normalize_url(url_text.as_str());
            self.blur();
            UrlInputAction::Navigate(url)
        } else {
            UrlInputAction::NoAction
        }
    }

    /// Handle IME composition start.
    pub fn handle_ime_composition(&mut self, text: String)
        ensures
            final(self).composition_text == Some(text),
            final(self).text == old(self).text,
            final(self).cursor_pos == old(self).cursor_pos,
            final(self).selection_start == old(self).selection_start,
            final(self).is_focused == old(self).is_focused,
            final(self).placeholder == old(self).placeholder,
    {
        self.composition_text = Some(text);
    }

    /// Handle IME composition end (commit): the composed text replaces the
    /// selection, or is inserted at the cursor.
    pub fn handle_ime_commit(&mut self, text: String)
        requires
            editing::valid(old(self).edit()),
        ensures
            final(self).edit() == editing::insert(old(self).edit(), text@),
            final(self).composition_text is None,
            final(self).is_focused == old(self).is_focused,
            final(self).placeholder == old(self).placeholder,
    {
        self.composition_text = None;
        self.insert_text(text.as_str());
    }

    /// Check if there is a text selection.
    pub fn has_selection(&self) -> (b: bool)
        ensures
            b == editing::has_sel(self.edit()),
    {
        match self.selection_start {
            Some(start) => start != self.cursor_pos,
            None => false,
        }
    }

    /// Get the selected text range, lower end first.
    pub fn selection_range(&self) -> (r: Option<(usize, usize)>)
        ensures
            match r {
                Some((a, b)) => editing::sel_range(self.edit()) == Some((a as nat, b as nat)),
                None => editing::sel_range(self.edit()) is None,
            },
    {
        match self.selection_start {
            Some(start) => if start <= self.cursor_pos {
                Some((start, self.cursor_pos))
            } else {
                Some((self.cursor_pos, start))
            },
            None => None,
        }
    }

    /// Delete the current selection.
    pub fn delete_selection(&mut self)
        requires
            editing::sel_removable(old(self).edit()),
        ensures
            final(self).edit() == editing::delete_sel(old(self).edit()),
            final(self).same_extras(old(self)),
    {
        match self.selection_range() {
            Some((start, end)) => {
                self.text = text::remove_bytes(self.text.as_str(), start, end);
                self.cursor_pos = start;
                self.selection_start = None;
            },
            None => {},
        }
    }

    /// Normalize a URL string (add scheme if missing).
    pub fn normalize_url(&self, input: &str) -> (r: String)
        ensures
            r@ == normalized(input@),
    {
        if text::has_prefix(input, "http://") || text::has_prefix(input, "https://")
            || text::has_prefix(input, "eesha://") {
            String::from_str(input)
        } else if text::has_prefix(input, "://") {
            String::from_str("https").concat(input)
        } else if text::has_char(input, '.') && !text::has_char(input, ' ') {
            String::from_str("https://").concat(input)
        } else {
            let q = encode(input);
            String::from_str("https://duckduckgo.com/?q=").concat(q.as_str())
        }
    }
}

/// `c` is kept as it is by `encode`: an ASCII letter or digit, or one of
/// `-`, `_`, `.`, `~`.
pub open spec fn is_unreserved(c: char) -> bool {
    ||| 'a' <= c <= 'z'
    ||| 'A' <= c <= 'Z'
    ||| '0' <= c <= '9'
    ||| c == '-'
    ||| c == '_'
    ||| c == '.'
    ||| c == '~'
}

/// Upper-case hexadecimal digit for `d < 16`.
pub open spec fn hex_digit(d: nat) -> char {
    if d < 10 {
        (48 + d) as char
    } else {
        (55 + d) as char
    }
}

/// `c` is an upper-case hexadecimal digit.
pub open spec fn is_hex_digit(c: char) -> bool {
    ('0' <= c <= '9') || ('A' <= c <= 'F')
}

/// The value of the hexadecimal digit `c`.
pub open spec fn hex_value(c: char) -> int {
    if '0' <= c <= '9' {
        (c as u32) - 48
    } else {
        (c as u32) - 55
    }
}

/// `%` and the two upper-case hexadecimal digits of the byte `b`.
pub open spec fn byte_escape(b: u8) -> Seq<char> {
    seq!['%', hex_digit((b / 16) as nat), hex_digit((b % 16) as nat)]
}

/// Every byte of `bs` written as `%` and two hexadecimal digits, in order.
pub open spec fn escape_bytes(bs: Seq<u8>) -> Seq<char>
    decreases bs.len(),
{
    if bs.len() == 0 {
        Seq::empty()
    } else {
        byte_escape(bs[0]) + escape_bytes(bs.drop_first())
    }
}

/// The escape of a character that `encode` does not keep: `%HH` for each
/// byte of its UTF-8 encoding.
pub open spec fn percent_escape(c: char) -> Seq<char> {
    escape_bytes(encode_utf8(seq![c]))
}

/// The encoding of one character.
pub open spec fn encode_char(c: char) -> Seq<char> {
    if is_unreserved(c) {
        seq![c]
    } else {
        percent_escape(c)
    }
}

/// The encoding of a string: each character encoded in turn.
pub open spec fn encoded(s: Seq<char>) -> Seq<char>
    decreases s.len(),
{
    if s.len() == 0 {
        Seq::empty()
    } else {
        encoded(s.drop_last()) + encode_char(s.last())
    }
}

/// Percent-decoding to bytes: `%` and two hexadecimal digits give the byte
/// they spell; any other character gives its code as a byte.
pub open spec fn decoded(r: Seq<char>) -> Seq<u8>
    decreases r.len(),
{
    if r.len() == 0 {
        Seq::empty()
    } else if r[0] == '%' && r.len() >= 3 && is_hex_digit(r[1]) && is_hex_digit(r[2]) {
        seq![(hex_value(r[1]) * 16 + hex_value(r[2])) as u8] + decoded(r.skip(3))
    } else {
        seq![(r[0] as u32) as u8] + decoded(r.skip(1))
    }
}

fn unreserved(c: char) -> (b: bool)
    ensures
        b == is_unreserved(c),
{
    ('a' <= c && c <= 'z') || ('A' <= c && c <= 'Z') || ('0' <= c && c <= '9') || c == '-' || c
        == '_' || c == '.' || c == '~'
}

fn hex_digit_char(d: u8) -> (c: char)
    requires
        d < 16,
    ensures
        c == hex_digit(d as nat),
{
    if d < 10 {
        (48u8 + d) as char
    } else {
        (55u8 + d) as char
    }
}

proof fn lemma_escape_bytes_concat(a: Seq<u8>, b: Seq<u8>)
    ensures
        escape_bytes(a + b) == escape_bytes(a) + escape_bytes(b),
    decreases a.len(),
{
    if a.len() == 0 {
        assert(a + b =~= b);
        assert(escape_bytes(a) + escape_bytes(b) =~= escape_bytes(b));
    } else {
        assert((a + b).drop_first() =~= a.drop_first() + b);
        assert((a + b)[0] == a[0]);
        lemma_escape_bytes_concat(a.drop_first(), b);
        assert(byte_escape(a[0]) + (escape_bytes(a.drop_first()) + escape_bytes(b)) =~= (
        byte_escape(a[0]) + escape_bytes(a.drop_first())) + escape_bytes(b));
    }
}

/// Appends `%HH` for each byte of `bytes`.
fn push_escaped(out: &mut String, bytes: &[u8])
    ensures
        final(out)@ == old(out)@ + escape_bytes(bytes@),
{
    let ghost start = out@;
    let mut j: usize = 0;
    assert(start + escape_bytes(bytes@.take(0)) =~= start) by {
        assert(bytes@.take(0) =~= Seq::<u8>::empty());
    }
    while j < bytes.len()
        invariant
            j <= bytes.len(),
            out@ == start + escape_bytes(bytes@.take(j as int)),
        decreases bytes.len() - j,
    {
        let b = bytes[j];
        text::push_char(out, '%');
        text::push_char(out, hex_digit_char(b / 16));
        text::push_char(out, hex_digit_char(b % 16));
        proof {
            assert(bytes@.take(j + 1) =~= bytes@.take(j as int) + seq![b]);
            lemma_escape_bytes_concat(bytes@.take(j as int), seq![b]);
            let one = seq![b];
            assert(one.drop_first() =~= Seq::<u8>::empty());
            assert(one[0] == b);
            assert(escape_bytes(Seq::<u8>::empty()) =~= Seq::<char>::empty());
            assert(escape_bytes(one) =~= byte_escape(b));
        }
        j = j + 1;
    }
    assert(bytes@.take(bytes.len() as int) =~= bytes@);
}

/// Simple URL encoding for search queries: unreserved characters are kept,
/// every other character becomes `%HH` for each byte of its UTF-8 encoding.
pub fn encode(s: &str) -> (r: String)
    ensures
        r@ == encoded(s@),
{
    let v = text::chars_of(s);
    let mut out = String::new();
    let mut i: usize = 0;
    while i < v.len()
        invariant
            i <= v.len(),
            out@ == encoded(v@.take(i as int)),
        decreases v.len() - i,
    {
        let c = v[i];
        let ghost before = out@;
        if unreserved(c) {
            text::push_char(&mut out, c);
        } else {
            let mut one = String::new();
            text::push_char(&mut one, c);
            assert(one@ =~= seq![c]);
            let bytes = one.as_str().as_bytes();
            push_escaped(&mut out, bytes);
        }
        proof {
            let t = v@.take(i + 1);
            assert(t.drop_last() =~= v@.take(i as int));
            assert(t.last() == c);
            assert(out@ =~= before + encode_char(c));
        }
        i = i + 1;
    }
    assert(v@.take(v.len() as int) =~= s@);
    out
}


/// What `normalize_url` makes of the typed text: kept when it names an
/// `http`, `https` or `eesha` URL, given the `https` scheme when it starts
/// with `://` or looks like a host name, and otherwise turned into a search.
pub open spec fn normalized(s: Seq<char>) -> Seq<char> {
    if text::starts_with(s, "http://"@) || text::starts_with(s, "https://"@) || text::starts_with(
        s,
        "eesha://"@,
    ) {
        s
    } else if text::starts_with(s, "://"@) {
        "https"@ + s
    } else if s.contains('.') && !s.contains(' ') {
        "https://"@ + s
    } else {
        "https://duckduckgo.com/?q="@ + encoded(s)
    }
}

/// A string made only of unreserved characters is encoded as itself.
pub proof fn law_encode_keeps_unreserved(s: Seq<char>)
    requires
        forall|i: int| 0 <= i < s.len() ==> is_unreserved(#[trigger] s[i]),
    ensures
        encoded(s) == s,
    decreases s.len(),
{
    if s.len() > 0 {
        let t = s.drop_last();
        assert forall|i: int| 0 <= i < t.len() implies is_unreserved(#[trigger] t[i]) by {
            assert(t[i] == s[i]);
        }
        law_encode_keeps_unreserved(t);
        assert(is_unreserved(s[s.len() - 1]));
        assert(s =~= t.push(s.last()));
    }
}

proof fn lemma_hex_digit(d: nat)
    requires
        d < 16,
    ensures
        is_hex_digit(hex_digit(d)),
        hex_value(hex_digit(d)) == d,
        is_unreserved(hex_digit(d)),
{
    if d < 10 {
        assert(((48 + d) as char) as u32 == 48 + d);
    } else {
        assert(((55 + d) as char) as u32 == 55 + d);
    }
}

/// The UTF-8 encoding of a single character is that of its scalar value.
proof fn lemma_utf8_single(c: char)
    ensures
        encode_utf8(seq![c]) == encode_scalar(c as u32),
        1 <= encode_utf8(seq![c]).len() <= 4,
{
    assert(seq![c].drop_first() =~= Seq::<char>::empty());
    assert(encode_utf8(Seq::<char>::empty()) =~= Seq::<u8>::empty());
    assert(encode_scalar(c as u32) + Seq::<u8>::empty() =~= encode_scalar(c as u32));
}

/// An unreserved character is ASCII: its UTF-8 encoding is its own code.
proof fn lemma_unreserved_byte(c: char)
    requires
        is_unreserved(c),
    ensures
        encode_utf8(seq![c]) == seq![(c as u32) as u8],
{
    lemma_utf8_single(c);
    let u = c as u32;
    assert(u <= 0x7f);
    assert(u <= 0x7f ==> (u & 0x7f) as u8 == u as u8) by (bit_vector);
}

/// Escaped bytes come in `%HH` triples.
proof fn lemma_escape_shape(bs: Seq<u8>)
    ensures
        escape_bytes(bs).len() == 3 * bs.len(),
        forall|i: int|
            0 <= i < escape_bytes(bs).len() ==> if i % 3 == 0 {
                #[trigger] escape_bytes(bs)[i] == '%'
            } else {
                is_hex_digit(escape_bytes(bs)[i]) && is_unreserved(escape_bytes(bs)[i])
            },
    decreases bs.len(),
{
    if bs.len() > 0 {
        let b = bs[0];
        let rest = escape_bytes(bs.drop_first());
        lemma_escape_shape(bs.drop_first());
        lemma_hex_digit((b / 16) as nat);
        lemma_hex_digit((b % 16) as nat);
        let e = escape_bytes(bs);
        assert(e == byte_escape(b) + rest);
        assert forall|i: int| 0 <= i < e.len() implies if i % 3 == 0 {
            #[trigger] e[i] == '%'
        } else {
            is_hex_digit(e[i]) && is_unreserved(e[i])
        } by {
            if i >= 3 {
                assert(e[i] == rest[i - 3]);
                assert((i - 3) % 3 == i % 3);
            }
        }
    }
}

proof fn lemma_encoded_concat(a: Seq<char>, b: Seq<char>)
    ensures
        encoded(a + b) == encoded(a) + encoded(b),
    decreases b.len(),
{
    if b.len() == 0 {
        assert(a + b =~= a);
        assert(encoded(a) + encoded(b) =~= encoded(a));
    } else {
        assert((a + b).drop_last() =~= a + b.drop_last());
        assert((a + b).last() == b.last());
        lemma_encoded_concat(a, b.drop_last());
        assert(encoded(a) + encoded(b.drop_last()) + encode_char(b.last()) =~= encoded(a) + (
        encoded(b.drop_last()) + encode_char(b.last())));
    }
}

proof fn lemma_encoded_single(c: char)
    ensures
        encoded(seq![c]) == encode_char(c),
{
    let one = seq![c];
    assert(one.drop_last() =~= Seq::<char>::empty());
    assert(one.last() == c);
    assert(encoded(Seq::<char>::empty()) =~= Seq::<char>::empty());
    assert(Seq::<char>::empty() + encode_char(c) =~= encode_char(c));
}

/// The output of `encode` is made of unreserved characters and `%HH`
/// triples: every character is unreserved or `%`, and every `%` is followed
/// by two upper-case hexadecimal digits.
pub proof fn law_encode_shape(s: Seq<char>)
    ensures
        forall|i: int|
            0 <= i < encoded(s).len() ==> is_unreserved(#[trigger] encoded(s)[i]) || encoded(s)[i]
                == '%',
        forall|i: int|
            0 <= i < encoded(s).len() && #[trigger] encoded(s)[i] == '%' ==> i + 2 < encoded(
                s,
            ).len() && is_hex_digit(encoded(s)[i + 1]) && is_hex_digit(encoded(s)[i + 2]),
    decreases s.len(),
{
    if s.len() > 0 {
        let t = s.drop_last();
        let c = s.last();
        law_encode_shape(t);
        let p = encoded(t);
        let e = encode_char(c);
        let r = encoded(s);
        assert(r == p + e);
        if !is_unreserved(c) {
            lemma_escape_shape(encode_utf8(seq![c]));
        }
        assert forall|i: int| 0 <= i < r.len() implies is_unreserved(#[trigger] r[i]) || r[i]
            == '%' by {
            if i < p.len() {
                assert(r[i] == p[i]);
            } else {
                assert(r[i] == e[i - p.len()]);
            }
        }
        assert forall|i: int| 0 <= i < r.len() && #[trigger] r[i] == '%' implies i + 2 < r.len()
            && is_hex_digit(r[i + 1]) && is_hex_digit(r[i + 2]) by {
            if i < p.len() {
                assert(r[i] == p[i]);
                assert(r[i + 1] == p[i + 1]);
                assert(r[i + 2] == p[i + 2]);
            } else {
                let j = i - p.len();
                assert(r[i] == e[j]);
                assert(!is_unreserved(c));
                let k = j + 1;
                let l = j + 2;
                assert(e[j] == '%');
                if j % 3 != 0 {
                    assert(is_hex_digit(e[j]));
                }
                assert(r[i + 1] == e[k]);
                assert(r[i + 2] == e[l]);
                assert(k % 3 != 0 && l % 3 != 0);
            }
        }
    }
}

proof fn lemma_decode_escapes(bs: Seq<u8>, rest: Seq<char>)
    ensures
        decoded(escape_bytes(bs) + rest) == bs + decoded(rest),
    decreases bs.len(),
{
    if bs.len() == 0 {
        assert(escape_bytes(bs) + rest =~= rest);
        assert(bs + decoded(rest) =~= decoded(rest));
    } else {
        let b = bs[0];
        let x = escape_bytes(bs.drop_first()) + rest;
        let r = escape_bytes(bs) + rest;
        assert(r =~= byte_escape(b) + x);
        lemma_hex_digit((b / 16) as nat);
        lemma_hex_digit((b % 16) as nat);
        assert(r[0] == '%');
        assert(r[1] == hex_digit((b / 16) as nat));
        assert(r[2] == hex_digit((b % 16) as nat));
        assert(r.skip(3) =~= x);
        assert(hex_value(r[1]) * 16 + hex_value(r[2]) == b);
        lemma_decode_escapes(bs.drop_first(), rest);
        assert(decoded(r) == seq![b] + decoded(x));
        assert(bs =~= seq![b] + bs.drop_first());
        assert(seq![b] + (bs.drop_first() + decoded(rest)) =~= bs + decoded(rest));
    }
}

proof fn lemma_decode_char(c: char, rest: Seq<char>)
    ensures
        decoded(encode_char(c) + rest) == encode_utf8(seq![c]) + decoded(rest),
{
    if is_unreserved(c) {
        lemma_unreserved_byte(c);
        let r = seq![c] + rest;
        assert(r[0] == c);
        assert(r.skip(1) =~= rest);
        assert(decoded(r) == seq![(c as u32) as u8] + decoded(rest));
    } else {
        lemma_decode_escapes(encode_utf8(seq![c]), rest);
    }
}

/// Percent-decoding the output of `encode` gives back the UTF-8 bytes of
/// its input; for ASCII input, those are the input's own character codes.
pub proof fn law_encode_decodes(s: Seq<char>)
    ensures
        decoded(encoded(s)) == encode_utf8(s),
        is_ascii_chars(s) ==> decoded(encoded(s)) == Seq::new(s.len(), |i: int| s[i] as u8),
    decreases s.len(),
{
    if s.len() == 0 {
        assert(decoded(encoded(s)) =~= encode_utf8(s));
    } else {
        let c = s[0];
        let t = s.drop_first();
        assert(s =~= seq![c] + t);
        lemma_encoded_concat(seq![c], t);
        lemma_encoded_single(c);
        lemma_decode_char(c, encoded(t));
        law_encode_decodes(t);
        lemma_utf8_single(c);
        assert(encode_utf8(s) == encode_scalar(c as u32) + encode_utf8(t));
    }
    if is_ascii_chars(s) {
        is_ascii_chars_encode_utf8(s);
        assert(encode_utf8(s) =~= Seq::new(s.len(), |i: int| s[i] as u8));
    }
}

proof fn lemma_encoded_len(s: Seq<char>)
    ensures
        encoded(s).len() >= s.len(),
        (exists|i: int| 0 <= i < s.len() && !is_unreserved(#[trigger] s[i])) ==> encoded(s).len()
            > s.len(),
    decreases s.len(),
{
    if s.len() > 0 {
        let t = s.drop_last();
        let c = s.last();
        lemma_encoded_len(t);
        if !is_unreserved(c) {
            lemma_utf8_single(c);
            lemma_escape_shape(encode_utf8(seq![c]));
        }
        if exists|i: int| 0 <= i < s.len() && !is_unreserved(#[trigger] s[i]) {
            let i = choose|i: int| 0 <= i < s.len() && !is_unreserved(#[trigger] s[i]);
            if i < t.len() {
                assert(t[i] == s[i]);
            }
        }
    }
}

/// `encode` leaves a string as it is exactly when every character of it is
/// unreserved; any other character makes the output longer.
pub proof fn law_encode_identity(s: Seq<char>)
    ensures
        encoded(s) == s <==> forall|i: int| 0 <= i < s.len() ==> is_unreserved(#[trigger] s[i]),
        encoded(s).len() >= s.len(),
{
    lemma_encoded_len(s);
    if forall|i: int| 0 <= i < s.len() ==> is_unreserved(#[trigger] s[i]) {
        law_encode_keeps_unreserved(s);
    }
}


/// The text starts with one of the schemes that `normalize_url` keeps.
pub open spec fn has_known_scheme(s: Seq<char>) -> bool {
    text::starts_with(s, "http://"@) || text::starts_with(s, "https://"@) || text::starts_with(
        s,
        "eesha://"@,
    )
}

proof fn lemma_starts_with_concat(p: Seq<char>, x: Seq<char>)
    ensures
        text::starts_with(p + x, p),
{
    assert((p + x).take(p.len() as int) =~= p);
}

/// Whatever is typed, the normalized URL carries an `http`, `https` or
/// `eesha` scheme, so normalizing it again leaves it as it is.
pub proof fn law_normalize_idempotent(s: Seq<char>)
    ensures
        has_known_scheme(normalized(s)),
        normalized(normalized(s)) == normalized(s),
{
    reveal_strlit("http://");
    reveal_strlit("https://");
    reveal_strlit("eesha://");
    reveal_strlit("://");
    reveal_strlit("https");
    reveal_strlit("https://duckduckgo.com/?q=");
    let https = "https://"@;
    if has_known_scheme(s) {
    } else if text::starts_with(s, "://"@) {
        let r = "https"@ + s;
        assert(r.take(8) =~= https) by {
            assert(s.take(3) =~= "://"@);
            assert(r.take(8) =~= "https"@ + s.take(3));
        }
    } else if s.contains('.') && !s.contains(' ') {
        lemma_starts_with_concat(https, s);
    } else {
        let g = "https://duckduckgo.com/?q="@;
        let r = g + encoded(s);
        assert(r.take(8) =~= https) by {
            assert(r.take(8) =~= g.take(8));
        }
    }
}

/// `normalize_url` never sends typed text to `http://` unless the text
/// itself starts with it: every scheme it adds is `https`.
pub proof fn law_normalize_never_downgrades(s: Seq<char>)
    ensures
        text::starts_with(normalized(s), "http://"@) ==> text::starts_with(s, "http://"@),
{
    reveal_strlit("http://");
    reveal_strlit("https://");
    reveal_strlit("eesha://");
    reveal_strlit("://");
    reveal_strlit("https");
    reveal_strlit("https://duckduckgo.com/?q=");
    let r = normalized(s);
    if !has_known_scheme(s) && text::starts_with(r, "http://"@) {
        assert(r[4] == "http://"@[4]);
    }
}

/// The editing keys of `handle_key`: the arrows, Home and End are the
/// field's motions, extending the selection exactly when Shift is held
/// (an arrow sets a missing anchor at the old cursor and keeps an existing
/// one), Backspace and Delete are the field's deletions, Ctrl+A selects
/// everything and A without Ctrl does nothing; no motion changes the text.
pub proof fn law_key_edits(m: editing::EditModel, mods: KeyModifiers)
    ensures
        key_edit(m, KeyCode::ArrowLeft, mods) == Some(editing::move_left(m, mods.shift)),
        key_edit(m, KeyCode::ArrowRight, mods) == Some(editing::move_right(m, mods.shift)),
        key_edit(m, KeyCode::Home, mods) == Some(editing::move_home(m, mods.shift)),
        key_edit(m, KeyCode::End, mods) == Some(editing::move_end(m, mods.shift)),
        key_edit(m, KeyCode::Backspace, mods) == Some(editing::backspace(m)),
        key_edit(m, KeyCode::Delete, mods) == Some(editing::delete_forward(m)),
        mods.control ==> key_edit(m, KeyCode::KeyA, mods) == Some(editing::select_all(m)),
        !mods.control ==> key_edit(m, KeyCode::KeyA, mods) is None,
        key_edit(m, KeyCode::Tab, mods) is None,
        key_edit(m, KeyCode::Other, mods) is None,
        key_edit(m, KeyCode::ArrowRight, mods) matches Some(r) && r.text == m.text && r.anchor == (
        if mods.shift {
            if m.anchor is None {
                Some(m.cursor)
            } else {
                m.anchor
            }
        } else {
            None
        }),
        key_edit(m, KeyCode::ArrowLeft, mods) matches Some(r) && r.text == m.text && r.anchor == (
        if mods.shift {
            if m.anchor is None {
                Some(m.cursor)
            } else {
                m.anchor
            }
        } else {
            None
        }),
{
}

/// What `normalize_url` does with each kind of typed text: text with an
/// `http`, `https` or `eesha` scheme is kept, text starting with `://` gets
/// `https` in front, any other text holding a dot and no space (whatever
/// else it holds, such as `/`) gets `https://` in front, and the rest becomes
/// a DuckDuckGo search for the encoded text.
pub proof fn law_normalize_cases(s: Seq<char>)
    ensures
        ({
            let kept = text::starts_with(s, "http://"@) || text::starts_with(s, "https://"@)
                || text::starts_with(s, "eesha://"@);
            let colon = text::starts_with(s, "://"@);
            let host = s.contains('.') && !s.contains(' ');
            &&& kept ==> normalized(s) == s
            &&& !kept && colon ==> normalized(s) == "https"@ + s
            &&& !kept && !colon && host ==> normalized(s) == "https://"@ + s
            &&& !kept && !colon && !host ==> normalized(s) == "https://duckduckgo.com/?q="@
                + encoded(s)
        }),
{
}

/// While composing, the field shows its text with the composition put in
/// place of the characters from the anchor to the cursor (or inserted at the
/// cursor when there is no anchor); otherwise it shows its text.
pub proof fn law_displayed(st: UrlInputState)
    requires
        st.can_display(),
    ensures
        st.composition_text is None ==> st.displayed() == st.text@,
        st.composition_text matches Some(comp) ==> {
            let t = st.text@;
            let start = match st.selection_start {
                Some(a) => a,
                None => st.cursor_pos,
            };
            st.displayed() == t.take(text::index_at(t, start as int)) + comp@ + t.skip(
                text::index_at(t, st.cursor_pos as int),
            )
        },
{
}

impl Default for UrlInputState {
    fn default() -> (s: Self)
        ensures
            s.text@ == Seq::<char>::empty(),
            s.cursor_pos == 0,
            s.selection_start is None,
            !s.is_focused,
            s.composition_text is None,
            s.placeholder@ == default_placeholder(),
    {
        Self {
            text: String::new(),
            cursor_pos: 0,
            selection_start: None,
            is_focused: false,
            composition_text: None,
            placeholder: String::from_str("Search or enter URL"),
        }
    }
}

/// Losing focus clears the selection and any composition and keeps the
/// text, the cursor and the placeholder; the extras of the field are its
/// focus, composition and placeholder.
pub proof fn law_field_relations(a: UrlInputState, b: UrlInputState)
    ensures
        a.blurred_from(&b) <==> (!a.is_focused && a.selection_start is None && a.composition_text
            is None && a.text == b.text && a.cursor_pos == b.cursor_pos && a.placeholder
            == b.placeholder),
        a.same_extras(&b) <==> (a.is_focused == b.is_focused && a.composition_text
            == b.composition_text && a.placeholder == b.placeholder),
        a.edit().text == a.text@ && a.edit().cursor == a.cursor_pos,
        default_placeholder() == "Search or enter URL"@,
        a.edit().anchor == (match a.selection_start {
            Some(s) => Some(s as nat),
            None => None,
        }),
{
}

} // verus!
