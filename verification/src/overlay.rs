//! Decisions of the overlay loop: whether the game window is in front,
//! where its client area is, and what to draw each tick.

use vstd::prelude::*;

use crate::settings::{TARGET_PROCESS, TARGET_WINDOW_TITLE};
use crate::text::{
    ascii_lower, ascii_lowercase, decimal, decimal_string, eq_ignore_ascii_case, eq_ignore_case,
    from_chars, starts_with, str_eq, to_chars, trim, trimmed_starts_with,
};

verus! {

/// Path separators.
pub open spec fn is_separator(c: char) -> bool {
    c == '\\' || c == '/'
}

/// The part of `path` after its last separator (all of it when there is none).
pub open spec fn basename(path: Seq<char>) -> Seq<char>
    decreases path.len(),
{
    if path.len() == 0 {
        path
    } else if is_separator(path.last()) {
        Seq::empty()
    } else {
        basename(path.drop_last()).push(path.last())
    }
}

/// Lower-case file name of an executable's full path (either separator).
pub fn exe_basename(path: &str) -> (name: String)
    ensures
        name@ == ascii_lower(basename(path@)),
{
    let v = to_chars(path);
    let mut start: usize = v.len();
    assert(basename(path@) == basename(path@.subrange(0, start as int)) + path@.subrange(
        start as int,
        path@.len() as int,
    )) by {
        assert(path@.subrange(0, start as int) =~= path@);
        assert(path@.subrange(start as int, path@.len() as int) =~= Seq::<char>::empty());
    }
    while start > 0 && !(v[start - 1] == '\\' || v[start - 1] == '/')
        invariant
            v@ == path@,
            start <= v.len(),
            basename(path@) == basename(path@.subrange(0, start as int)) + path@.subrange(
                start as int,
                path@.len() as int,
            ),
        decreases start,
    {
        let ghost pre = path@.subrange(0, start as int);
        assert(pre.drop_last() =~= path@.subrange(0, start - 1));
        assert(path@.subrange(start - 1, path@.len() as int) =~= seq![pre.last()] + path@.subrange(
            start as int,
            path@.len() as int,
        ));
        start -= 1;
    }
    proof {
        if start == 0 {
            assert(path@.subrange(0, 0) =~= Seq::<char>::empty());
        }
    }
    let mut tail: Vec<char> = Vec::new();
    let mut i: usize = start;
    while i < v.len()
        invariant
            v@ == path@,
            start <= i <= v.len(),
            tail@ == path@.subrange(start as int, i as int),
        decreases v.len() - i,
    {
        tail.push(v[i]);
        i += 1;
        assert(tail@ =~= path@.subrange(start as int, i as int));
    }
    let tail_str = from_chars(&tail);
    ascii_lowercase(tail_str.as_str())
}

/// The foreground window is the game's: its process runs the game's
/// executable (any case), or its trimmed title starts with the game's title.
pub open spec fn game_window_spec(exe: Seq<char>, title: Seq<char>) -> bool {
    eq_ignore_case(exe, TARGET_PROCESS@) || starts_with(trim(title), TARGET_WINDOW_TITLE@)
}

/// Whether a window whose process runs `exe` and whose title is `title` is
/// the game's window.
pub fn is_game_window(exe: &str, title: &str) -> (b: bool)
    ensures
        b == game_window_spec(exe@, title@),
{
    if eq_ignore_ascii_case(exe, TARGET_PROCESS) {
        return true;
    }
    trimmed_starts_with(title, TARGET_WINDOW_TITLE)
}

/// Client area `(x, y, w, h)` from the client rectangle and the screen
/// position of its top-left corner; `None` when it is empty.
pub fn client_rect(left: i32, top: i32, right: i32, bottom: i32, origin_x: i32, origin_y: i32) -> (r:
    Option<(i32, i32, i32, i32)>)
    requires
        i32::MIN <= right - left <= i32::MAX,
        i32::MIN <= bottom - top <= i32::MAX,
    ensures
        (right - left <= 0 || bottom - top <= 0) ==> r is None,
        !(right - left <= 0 || bottom - top <= 0) ==> r == Some(
            (origin_x, origin_y, (right - left) as i32, (bottom - top) as i32),
        ),
{
    let w = right - left;
    let h = bottom - top;
    if w <= 0 || h <= 0 {
        return None;
    }
    Some((origin_x, origin_y, w, h))
}

/// What the overlay does in one tick.
pub enum Frame {
    /// Hide the overlay.
    Hide,
    /// Draw `text` in colors derived from `rgb` over the client area
    /// `rect`, faded in for `fade_elapsed_ms` since the text last changed
    /// (`None`: no fade).
    Draw { text: String, rgb: (u8, u8, u8), rect: (i32, i32, i32, i32), fade_elapsed_ms: Option<u64> },
}

/// The overlay loop's memory: the text last drawn, and when it changed.
pub struct OverlayState {
    pub last_text: String,
    pub fade_start_ms: Option<u64>,
}

impl OverlayState {
    pub fn new() -> (s: Self)
        ensures
            s.last_text@ == Seq::<char>::empty(),
            s.fade_start_ms is None,
    {
        OverlayState { last_text: String::new(), fade_start_ms: None }
    }

    /// One tick at `now_ms`: `snapshot` is the published state
    /// `(visible, value, rgb, connected)`, `window` the client area of the
    /// game window when the game is in front. Hidden unless the timer is
    /// visible, the worker connected and the game window known; a new text
    /// restarts the fade.
    pub fn tick(
        &mut self,
        snapshot: (bool, u32, (u8, u8, u8), bool),
        window: Option<(i32, i32, i32, i32)>,
        now_ms: u64,
    ) -> (f: Frame)
        ensures
            !(snapshot.0 && snapshot.3 && window is Some) ==> {
                &&& f is Hide
                &&& final(self).last_text@ == Seq::<char>::empty()
                &&& final(self).fade_start_ms is None
            },
            (snapshot.0 && snapshot.3 && window is Some) ==> {
                let text = decimal(snapshot.1 as nat);
                let start = if text != old(self).last_text@ {
                    Some(now_ms)
                } else {
                    old(self).fade_start_ms
                };
                &&& final(self).last_text@ == text
                &&& final(self).fade_start_ms == start
                &&& f matches Frame::Draw { text: t, rgb, rect, fade_elapsed_ms } && t@ == text
                    && rgb == snapshot.2 && rect == window.unwrap() && fade_elapsed_ms == match start {
                    Some(s0) => Some(
                        (if now_ms >= s0 {
                            now_ms - s0
                        } else {
                            0
                        }) as u64,
                    ),
                    None => None,
                }
            },
    {
        let (visible, value, rgb, connected) = snapshot;
        if !visible || !connected || window.is_none() {
            self.last_text = String::new();
            self.fade_start_ms = None;
            return Frame::Hide;
        }
        let rect = match window {
            Some(r) => r,
            None => {
                return Frame::Hide;
            },
        };
        let text = decimal_string(value as u64);
        if !str_eq(text.as_str(), self.last_text.as_str()) {
            self.fade_start_ms = Some(now_ms);
            self.last_text = text.clone();
        }
        let fade = match self.fade_start_ms {
            Some(s0) => Some(
                if now_ms >= s0 {
                    now_ms - s0
                } else {
                    0
                },
            ),
            None => None,
        };
        Frame::Draw { text, rgb, rect, fade_elapsed_ms: fade }
    }
}

} // verus!
