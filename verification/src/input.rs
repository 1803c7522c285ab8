//! Turning the bytes a client's terminal sends into key presses.
//!
//! The bytes of one key press may arrive split across several bytes of a read,
//! and an escape sequence starts with the byte of the Esc key. Bytes are
//! gathered until they parse as a whole event; an Esc is only taken as the
//! Esc key when nothing follows it in the same read. Pasted text is a run of
//! such events, one key press per character.
use vstd::prelude::*;
use ratatui::crossterm::event::Event;
use ratatui::crossterm::event::KeyCode::{
    BackTab as CtBackTab, Backspace as CtBackspace, CapsLock, Char as CtChar, Delete, Down as CtDown, End,
    Enter as CtEnter, Esc as CtEsc, Home, Insert, KeypadBegin, Left as CtLeft, Media, Menu, Modifier, Null,
    NumLock, PageDown, PageUp, Pause, PrintScreen, Right as CtRight, ScrollLock, Tab as CtTab, Up as CtUp, F,
};
use crate::keys::KeyCode::{BackTab, Backspace, Char, Down, Enter, Esc, Left, Other, Right, Tab, Up};
use crate::keys::{is_quit_key, modifiers_of, KeyCode, KeyModifiers};

verus! {

/// A complete event parsed from the gathered bytes.
#[derive(Clone, Copy, Debug, PartialEq, Eq, Structural)]
pub enum TermEvent {
    /// A key press: its key, and the bits of the terminal's modifier set
    /// (see `modifiers_of`).
    Key { code: KeyCode, modifier_bits: u8 },
    /// Any other event (mouse, focus, paste, resize).
    NonKey,
}

/// The gathered bytes are no event the terminal could have sent, or an
/// event the key handling cannot take.
#[derive(Clone, Copy, Debug, PartialEq, Eq, Structural)]
pub struct ParseFailure;

/// What `terminput::Event::parse_from` followed by
/// `terminput_crossterm::to_crossterm` makes of `bytes`: `Ok(None)` while
/// they are the beginning of an event, `Ok(Some(e))` for a complete event,
/// `Err` when they cannot be an event or the event has no crossterm form.
/// It is a function of the bytes alone.
pub uninterp spec fn parsed_event(bytes: Seq<u8>) -> Result<Option<TermEvent>, ParseFailure>;

/// Calls `terminput::Event::parse_from(bytes)` and hands a complete event to
/// `terminput_crossterm::to_crossterm`, which turns it into the crossterm
/// form the key handling reads; the key code is copied variant by variant
/// (the keys the screens do not read, each named, become `Other`) and the
/// modifiers as their bits.
///
/// The parser subtracts 1 from the column and row of an rxvt or SGR mouse
/// report without a check, so it does not return on a report whose column or
/// row is 0; `requires` leaves those bytes out. On every other input both
/// calls return.
#[verifier::external_body]
pub fn parse_event(bytes: &[u8]) -> (r: Result<Option<TermEvent>, ParseFailure>)
    requires
        !zero_mouse_report(bytes@),
    ensures
        r == parsed_event(bytes@),
{
    let Some(ev) = terminput::Event::parse_from(bytes).map_err(|_| ParseFailure)? else { return Ok(None) };
    let Event::Key(k) = terminput_crossterm::to_crossterm(ev).map_err(|_| ParseFailure)? else {
        return Ok(Some(TermEvent::NonKey));
    };
    let code = match k.code {
        CtChar(c) => Char(c), CtEnter => Enter, CtEsc => Esc, CtTab => Tab, CtBackTab => BackTab,
        CtUp => Up, CtDown => Down, CtLeft => Left, CtRight => Right, CtBackspace => Backspace,
        Home | End | PageUp | PageDown | Delete | Insert | F(_) | Null | CapsLock | ScrollLock | NumLock
            | PrintScreen | Pause | Menu | KeypadBegin | Media(_) | Modifier(_) => Other,
    };
    Ok(Some(TermEvent::Key { code, modifier_bits: k.modifiers.bits() }))
}

/// The `;`-separated fields of `s` (one more than there are `;` bytes).
pub open spec fn fields(s: Seq<u8>) -> Seq<Seq<u8>>
    decreases s.len(),
{
    if s.len() == 0 {
        seq![Seq::<u8>::empty()]
    } else {
        let p = fields(s.drop_last());
        if s.last() == 59u8 {
            p.push(Seq::empty())
        } else {
            p.update(p.len() - 1, p.last().push(s.last()))
        }
    }
}

proof fn lemma_fields_len(s: Seq<u8>)
    ensures
        fields(s).len() >= 1,
    decreases s.len(),
{
    if s.len() > 0 {
        lemma_fields_len(s.drop_last());
    }
}

/// The text of a number that reads as 0 (an optional `+`, then only `0`
/// digits), as `u16::from_str` reads it.
pub open spec fn zero_text(t: Seq<u8>) -> bool {
    ||| t.len() > 0 && forall|i: int| 0 <= i < t.len() ==> t[i] == 48u8
    ||| t.len() > 1 && t[0] == 43u8 && forall|i: int| 1 <= i < t.len() ==> t[i] == 48u8
}

/// The second or the third field of `s` (a mouse report's column and row)
/// reads as 0.
pub open spec fn zero_coordinates(s: Seq<u8>) -> bool {
    let f = fields(s);
    ||| f.len() > 1 && zero_text(f[1])
    ||| f.len() > 2 && zero_text(f[2])
}

/// The bytes begin a bracketed paste (`ESC [ 2 0 0 ~`).
pub open spec fn paste_start(b: Seq<u8>) -> bool {
    b.len() >= 6 && b[0] == 27u8 && b[1] == 91u8 && b[2] == 50u8 && b[3] == 48u8 && b[4] == 48u8 && b[5] == 126u8
}

/// The bytes are a complete mouse report with a column or a row of 0: in the
/// rxvt encoding (`ESC [ Cb ; Cx ; Cy M`) or the SGR one
/// (`ESC [ < Cb ; Cx ; Cy` then `M` or `m`). Both count columns and rows
/// from 1, and the parser subtracts 1 from them without a check, so such a
/// report is refused as bytes that cannot be parsed.
pub open spec fn zero_mouse_report(b: Seq<u8>) -> bool {
    &&& b.len() >= 4
    &&& b[0] == 27u8
    &&& b[1] == 91u8
    &&& {
        ||| 48u8 <= b[2] <= 57u8 && b.last() == 77u8 && !paste_start(b)
            && zero_coordinates(b.subrange(2, b.len() - 1))
        ||| b[2] == 60u8 && (b.last() == 77u8 || b.last() == 109u8)
            && zero_coordinates(b.subrange(3, b.len() - 1))
    }
}

/// The parse of the gathered bytes, with a mouse report of a zero column or
/// row refused.
pub open spec fn screened_parse(b: Seq<u8>) -> Result<Option<TermEvent>, ParseFailure> {
    if zero_mouse_report(b) {
        Err(ParseFailure)
    } else {
        parsed_event(b)
    }
}

/// The fields of `b[start..end]`.
fn split_fields(b: &[u8], start: usize, end: usize) -> (r: Vec<Vec<u8>>)
    requires
        start <= end <= b@.len(),
    ensures
        r@.len() == fields(b@.subrange(start as int, end as int)).len(),
        forall|k: int| 0 <= k < r@.len() ==> (#[trigger] r@[k])@ == fields(b@.subrange(start as int, end as int))[k],
{
    let mut done: Vec<Vec<u8>> = Vec::new();
    let mut cur: Vec<u8> = Vec::new();
    let mut i: usize = start;
    assert(b@.subrange(start as int, start as int) =~= Seq::<u8>::empty());
    while i < end
        invariant
            start <= i <= end <= b@.len(),
            ({
                let f = fields(b@.subrange(start as int, i as int));
                &&& f.len() == done@.len() + 1
                &&& forall|k: int| 0 <= k < done@.len() ==> (#[trigger] done@[k])@ == f[k]
                &&& cur@ == f[f.len() - 1]
            }),
        decreases end - i,
    {
        let ghost p = b@.subrange(start as int, i as int);
        let ghost q = b@.subrange(start as int, i + 1);
        proof {
            assert(q.drop_last() =~= p);
            assert(q.last() == b@[i as int]);
            lemma_fields_len(p);
        }
        let c = b[i];
        if c == 59u8 {
            let finished = cur;
            cur = Vec::new();
            done.push(finished);
            proof {
                assert(fields(q) == fields(p).push(Seq::<u8>::empty()));
                assert(cur@ =~= Seq::<u8>::empty());
            }
        } else {
            cur.push(c);
        }
        i = i + 1;
    }
    let ghost f = fields(b@.subrange(start as int, end as int));
    done.push(cur);
    proof {
        assert forall|k: int| 0 <= k < done@.len() implies (#[trigger] done@[k])@ == f[k] by {}
    }
    done
}

fn is_zero_text(t: &Vec<u8>) -> (r: bool)
    ensures
        r == zero_text(t@),
{
    if t.len() == 0 {
        return false;
    }
    let first: usize = if t[0] == 43u8 { 1 } else { 0 };
    if first == 1 && t.len() == 1 {
        return false;
    }
    let mut i: usize = first;
    while i < t.len()
        invariant
            first <= i <= t@.len(),
            first == 1 ==> t@[0] == 43u8 && t@.len() > 1,
            first == 0 ==> t@.len() > 0 && t@[0] != 43u8,
            forall|k: int| first <= k < i ==> t@[k] == 48u8,
        decreases t.len() - i,
    {
        if t[i] != 48u8 {
            return false;
        }
        i = i + 1;
    }
    true
}

fn has_zero_coordinate(b: &[u8], start: usize, end: usize) -> (r: bool)
    requires
        start <= end <= b@.len(),
    ensures
        r == zero_coordinates(b@.subrange(start as int, end as int)),
{
    let f = split_fields(b, start, end);
    (f.len() > 1 && is_zero_text(&f[1])) || (f.len() > 2 && is_zero_text(&f[2]))
}

/// Whether the gathered bytes are a mouse report with a column or a row of 0.
pub fn is_zero_mouse_report(b: &[u8]) -> (r: bool)
    ensures
        r == zero_mouse_report(b@),
{
    if b.len() < 4 || b[0] != 27u8 || b[1] != 91u8 {
        return false;
    }
    let last = b[b.len() - 1];
    if 48u8 <= b[2] && b[2] <= 57u8 && last == 77u8 {
        let paste = b.len() >= 6 && b[2] == 50u8 && b[3] == 48u8 && b[4] == 48u8 && b[5] == 126u8;
        if !paste && has_zero_coordinate(b, 2, b.len() - 1) {
            return true;
        }
        false
    } else if b[2] == 60u8 && (last == 77u8 || last == 109u8) {
        has_zero_coordinate(b, 3, b.len() - 1)
    } else {
        false
    }
}

/// What to do after a byte was added.
#[derive(Clone, Copy, Debug, PartialEq, Eq)]
pub enum InputAction {
    /// The bytes do not form an event yet: read on.
    KeepReading,
    /// An event that is not a key press: dropped.
    Skip,
    /// Ctrl+Q: close the session.
    Quit,
    /// Hand the key press to the session.
    Dispatch((KeyCode, KeyModifiers)),
}

/// The bytes gathered towards the next event.
pub struct InputBuffer {
    pending: Vec<u8>,
}

/// What a parse outcome leads to, given whether more bytes follow in the read.
pub open spec fn action_for(parsed: Option<TermEvent>, more_follows: bool) -> InputAction {
    match parsed {
        None => InputAction::KeepReading,
        Some(TermEvent::Key { code, modifier_bits }) => {
            let key = (code, modifiers_of(modifier_bits));
            if code == KeyCode::Esc && more_follows {
                InputAction::KeepReading
            } else if is_quit_key(key) {
                InputAction::Quit
            } else {
                InputAction::Dispatch(key)
            }
        },
        Some(TermEvent::NonKey) => InputAction::Skip,
    }
}

/// The gathered bytes are kept exactly when the outcome says to read on.
pub open spec fn keeps_bytes(a: InputAction) -> bool {
    a is KeepReading
}

/// Feeding the bytes `data` of a read, one at a time, to a buffer holding
/// `pending`: the key presses handed to the session in order (ended by `Quit`
/// when Ctrl+Q comes, after which the rest of the read is dropped), the
/// failure that stopped the read if the bytes could not be parsed (a mouse
/// report with a column or row of 0 counts as such), and the bytes left in
/// the buffer.
pub open spec fn fed(pending: Seq<u8>, data: Seq<u8>) -> (Seq<InputAction>, Option<ParseFailure>, Seq<u8>)
    decreases data.len(),
{
    if data.len() == 0 {
        (Seq::empty(), None, pending)
    } else {
        let buf = pending.push(data[0]);
        match screened_parse(buf) {
            Err(e) => (Seq::empty(), Some(e), buf),
            Ok(p) => match action_for(p, data.len() > 1) {
                InputAction::KeepReading => fed(buf, data.drop_first()),
                InputAction::Skip => fed(Seq::empty(), data.drop_first()),
                InputAction::Quit => (seq![InputAction::Quit], None, Seq::empty()),
                InputAction::Dispatch(k) => {
                    let rest = fed(Seq::empty(), data.drop_first());
                    (seq![InputAction::Dispatch(k)] + rest.0, rest.1, rest.2)
                },
            },
        }
    }
}

impl InputBuffer {
    pub closed spec fn view_bytes(&self) -> Seq<u8> {
        self.pending@
    }

    pub fn new() -> (b: InputBuffer)
        ensures
            b.view_bytes().len() == 0,
    {
        InputBuffer { pending: Vec::new() }
    }

    /// Adds a received byte.
    pub fn push(&mut self, byte: u8)
        ensures
            final(self).view_bytes() == old(self).view_bytes().push(byte),
    {
        self.pending.push(byte);
    }

    /// The bytes gathered so far.
    pub fn bytes(&self) -> (r: &[u8])
        ensures
            r@ == self.view_bytes(),
    {
        self.pending.as_slice()
    }

    /// Decides what the parse of the gathered bytes leads to (`parsed` is
    /// `None` while they are an incomplete event). Unless reading on, the
    /// bytes are dropped, ready for the next event.
    pub fn step(&mut self, parsed: Option<TermEvent>, more_follows: bool) -> (r: InputAction)
        ensures
            r == action_for(parsed, more_follows),
            keeps_bytes(r) ==> final(self).view_bytes() == old(self).view_bytes(),
            !keeps_bytes(r) ==> final(self).view_bytes().len() == 0,
    {
        let action = match parsed {
            None => InputAction::KeepReading,
            Some(TermEvent::Key { code, modifier_bits }) => {
                let key = (code, crate::keys::key_modifiers(modifier_bits));
                if code == KeyCode::Esc && more_follows {
                    InputAction::KeepReading
                } else {
                    match key {
                        (KeyCode::Char('q'), KeyModifiers::Control) => InputAction::Quit,
                        _ => InputAction::Dispatch(key),
                    }
                }
            },
            Some(TermEvent::NonKey) => InputAction::Skip,
        };
        match action {
            InputAction::KeepReading => (),
            _ => self.pending.clear(),
        }
        action
    }

    /// Feeds the bytes of one read: each byte is added and the gathered bytes
    /// parsed; key presses are collected in order, the read stops at Ctrl+Q
    /// or at bytes that cannot be parsed.
    pub fn feed(&mut self, data: &[u8]) -> (r: (Vec<InputAction>, Option<ParseFailure>))
        ensures
            ({
                let f = fed(old(self).view_bytes(), data@);
                &&& r.0@ == f.0
                &&& r.1 == f.1
                &&& final(self).view_bytes() == f.2
            }),
    {
        let mut out: Vec<InputAction> = Vec::new();
        let mut i: usize = 0;
        let ghost whole = fed(self.view_bytes(), data@);
        assert(data@.skip(0) =~= data@);
        while i < data.len()
            invariant
                i <= data@.len(),
                whole == fed(old(self).view_bytes(), data@),
                ({
                    let rest = fed(self.view_bytes(), data@.skip(i as int));
                    &&& whole.0 == out@ + rest.0
                    &&& whole.1 == rest.1
                    &&& whole.2 == rest.2
                }),
            decreases data.len() - i,
        {
            let ghost before = self.view_bytes();
            let ghost tail = data@.skip(i as int);
            proof {
                assert(tail[0] == data@[i as int]);
                assert(tail.drop_first() =~= data@.skip(i + 1));
            }
            self.push(data[i]);
            i = i + 1;
            if is_zero_mouse_report(self.bytes()) {
                assert(out@ + Seq::<InputAction>::empty() =~= out@);
                return (out, Some(ParseFailure));
            }
            let parsed = match parse_event(self.bytes()) {
                Ok(p) => p,
                Err(e) => {
                    assert(out@ + Seq::<InputAction>::empty() =~= out@);
                    return (out, Some(e));
                },
            };
            let ghost buf = self.view_bytes();
            assert(buf == before.push(tail[0]));
            let action = self.step(parsed, i < data.len());
            proof {
                if !keeps_bytes(action) {
                    assert(self.view_bytes() =~= Seq::<u8>::empty());
                }
                assert(fed(before, tail) == match action {
                    InputAction::KeepReading => fed(buf, tail.drop_first()),
                    InputAction::Skip => fed(Seq::empty(), tail.drop_first()),
                    InputAction::Quit => (seq![InputAction::Quit], None, Seq::empty()),
                    InputAction::Dispatch(k) => {
                        let rest = fed(Seq::empty(), tail.drop_first());
                        (seq![InputAction::Dispatch(k)] + rest.0, rest.1, rest.2)
                    },
                });
            }
            match action {
                InputAction::Quit => {
                    out.push(InputAction::Quit);
                    return (out, None);
                },
                InputAction::Dispatch(k) => {
                    let ghost o = out@;
                    out.push(InputAction::Dispatch(k));
                    proof {
                        let rest = fed(Seq::empty(), data@.skip(i as int));
                        assert(o + (seq![InputAction::Dispatch(k)] + rest.0) =~= out@ + rest.0);
                    }
                },
                _ => (),
            }
        }
        proof {
            assert(data@.skip(i as int) =~= Seq::<u8>::empty());
            assert(out@ + Seq::<InputAction>::empty() =~= out@);
        }
        (out, None)
    }
}

} // verus!
