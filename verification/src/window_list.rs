//! The list of windows that can be mirrored: which top-level windows are
//! candidates, their process names, the selected window's process, and the
//! filter of the window list.

use crate::text::{blank, contains_text, is_blank, occurs_in};
use std::collections::HashMap;
use vstd::prelude::*;

verus! {

broadcast use vstd::std_specs::hash::group_hash_axioms;

/// A visible top-level window.
#[derive(Clone, Debug)]
pub struct WindowInfo {
    pub hwnd: isize,
    pub pid: u32,
    pub title: String,
    pub process: String,
}

/// The extended window style bit of tool windows (`WS_EX_TOOLWINDOW`).
pub const TOOL_WINDOW_STYLE: i32 = 0x80;

/// A leading (high) surrogate unit.
pub open spec fn high_surrogate(u: u16) -> bool {
    0xD800 <= u <= 0xDBFF
}

/// A trailing (low) surrogate unit.
pub open spec fn low_surrogate(u: u16) -> bool {
    0xDC00 <= u <= 0xDFFF
}

/// UTF-16 decoding with replacement: a leading surrogate followed by a
/// trailing one is the character they encode, any other surrogate unit is
/// U+FFFD (the unit after it is decoded on its own), and every other unit is
/// the character with that code point.
pub open spec fn utf16_lossy(units: Seq<u16>) -> Seq<char>
    decreases units.len(),
{
    if units.len() == 0 {
        Seq::empty()
    } else if units.len() >= 2 && high_surrogate(units[0]) && low_surrogate(units[1]) {
        let c = 0x10000 + (units[0] - 0xD800) * 0x400 + (units[1] - 0xDC00);
        seq![c as char] + utf16_lossy(units.skip(2))
    } else if high_surrogate(units[0]) || low_surrogate(units[0]) {
        seq!['\u{FFFD}'] + utf16_lossy(units.skip(1))
    } else {
        seq![units[0] as char] + utf16_lossy(units.skip(1))
    }
}

/// Calls `String::from_utf16_lossy`, which decodes UTF-16 and puts U+FFFD in
/// place of invalid data (unpaired surrogates), see `utf16_lossy`.
#[verifier::external_body]
fn decode_utf16_lossy(units: &[u16]) -> (r: String)
    ensures
        r@ == utf16_lossy(units@),
{
    String::from_utf16_lossy(units)
}

/// What `str::to_lowercase` returns for `s`.
pub uninterp spec fn lowercase(s: Seq<char>) -> Seq<char>;

/// Calls `str::to_lowercase` (Unicode lower case mapping). Its result is only
/// named here (`lowercase`), not described.
#[verifier::external_body]
fn to_lower(s: &str) -> (r: String)
    ensures
        r@ == lowercase(s@),
{
    s.to_lowercase()
}

/// `out` is `s` up to (not including) position `n`, which is the position of
/// the first NUL in `s`, or the end of `s` when it has none.
pub open spec fn cut_at_first_nul(s: Seq<char>, n: int, out: Seq<char>) -> bool {
    &&& 0 <= n <= s.len()
    &&& out == s.take(n)
    &&& n < s.len() ==> s[n] == '\0'
    &&& forall|j: int| 0 <= j < n ==> s[j] != '\0'
}

/// The executable name stored in a NUL-padded UTF-16 buffer: the buffer
/// decoded (unpaired surrogates replaced) and cut at the first NUL.
pub fn exe_name(raw: &[u16]) -> (r: String)
    ensures
        exists|n: int| #[trigger] cut_at_first_nul(utf16_lossy(raw@), n, r@),
{
    let decoded = decode_utf16_lossy(raw);
    let cs = crate::text::chars_of(decoded.as_str());
    let mut n: usize = 0;
    while n < cs.len() && cs[n] != '\0'
        invariant
            cs@ == decoded@,
            n <= cs.len(),
            forall|j: int| 0 <= j < n ==> cs@[j] != '\0',
        decreases cs.len() - n,
    {
        n += 1;
    }
    let head = decoded.as_str().substring_char(0, n);
    let r = String::from_str(head);
    proof {
        let s = utf16_lossy(raw@);
        assert(r@ == s.take(n as int));
        assert(n < s.len() ==> s[n as int] == '\0');
        assert(forall|j: int| 0 <= j < n ==> s[j] != '\0');
        assert(cut_at_first_nul(s, n as int, r@));
    }
    r
}

/// The window of a top-level window enumeration that is offered for
/// mirroring: it is visible, its title is not blank, and it is no tool window.
pub open spec fn is_candidate(visible: bool, title: Seq<char>, ex_style: i32) -> bool {
    visible && !blank(title) && (ex_style & TOOL_WINDOW_STYLE) == 0
}

/// Tool windows are never offered: whatever the other bits of the extended
/// style, a set tool-window bit (0x80) rules the window out. Hidden windows are
/// never offered either, and a visible window with a non-blank title and no
/// tool-window bit always is.
pub proof fn law_tool_windows_are_not_offered(visible: bool, title: Seq<char>, ex_style: i32)
    ensures
        (ex_style & 0x80i32) != 0 ==> !is_candidate(visible, title, ex_style),
        !visible ==> !is_candidate(visible, title, ex_style),
        visible && !blank(title) && (ex_style & 0x80i32) == 0 ==> is_candidate(visible, title, ex_style),
{
}

/// The list entry for an enumerated window, from its visibility, the UTF-16
/// units of its title, its extended style and its process id; `None` when the
/// window is not offered (see `is_candidate`). The process name is filled in later.
pub fn window_entry(hwnd: isize, pid: u32, visible: bool, title_units: &[u16], ex_style: i32) -> (r: Option<WindowInfo>)
    ensures
        r is Some <==> is_candidate(visible, utf16_lossy(title_units@), ex_style),
        !visible ==> r is None,
        (ex_style & 0x80i32) != 0 ==> r is None,
        r matches Some(w) ==> w.hwnd == hwnd && w.pid == pid && w.title@ == utf16_lossy(title_units@)
            && w.process@ == Seq::<char>::empty(),
{
    if !visible {
        return None;
    }
    let title = decode_utf16_lossy(title_units);
    if is_blank(title.as_str()) {
        return None;
    }
    if (ex_style & TOOL_WINDOW_STYLE) != 0 {
        return None;
    }
    Some(WindowInfo { hwnd, pid, title, process: String::new() })
}

/// `w` with its process name looked up in `names` (unchanged when absent).
pub open spec fn named(w: WindowInfo, names: Map<u32, String>, out: WindowInfo) -> bool {
    &&& out.hwnd == w.hwnd
    &&& out.pid == w.pid
    &&& out.title@ == w.title@
    &&& out.process@ == (if names.contains_key(w.pid) { names[w.pid]@ } else { w.process@ })
}

/// Fills in the process name of each window from `names` (pid to executable name).
pub fn attach_process_names(list: &Vec<WindowInfo>, names: &HashMap<u32, String>) -> (r: Vec<WindowInfo>)
    ensures
        r.len() == list.len(),
        forall|i: int| 0 <= i < list.len() ==> named(list@[i], names@, #[trigger] r@[i]),
{
    let mut out: Vec<WindowInfo> = Vec::new();
    let mut i: usize = 0;
    while i < list.len()
        invariant
            i <= list.len(),
            out.len() == i,
            forall|j: int| 0 <= j < i ==> named(list@[j], names@, #[trigger] out@[j]),
        decreases list.len() - i,
    {
        let w = &list[i];
        let process = match names.get(&w.pid) {
            Some(n) => n.clone(),
            None => w.process.clone(),
        };
        out.push(WindowInfo { hwnd: w.hwnd, pid: w.pid, title: w.title.clone(), process });
        i += 1;
    }
    out
}

/// The process of the selected window: that of the first listed window with
/// the selected handle; `None` when nothing is selected or it is not listed.
pub fn selected_window_pid(list: &Vec<WindowInfo>, selected: Option<isize>) -> (r: Option<u32>)
    ensures
        selected is None ==> r is None,
        selected matches Some(h) ==> (r is None <==> forall|i: int| 0 <= i < list.len() ==> list@[i].hwnd != h),
        selected matches Some(h) ==> (r matches Some(pid) ==> exists|i: int|
            0 <= i < list.len() && list@[i].hwnd == h && list@[i].pid == pid && forall|j: int|
                0 <= j < i ==> list@[j].hwnd != h),
{
    let hwnd = match selected {
        Some(h) => h,
        None => return None,
    };
    let mut i: usize = 0;
    while i < list.len()
        invariant
            selected == Some(hwnd),
            i <= list.len(),
            forall|j: int| 0 <= j < i ==> list@[j].hwnd != hwnd,
        decreases list.len() - i,
    {
        if list[i].hwnd == hwnd {
            assert(list@[i as int].hwnd == hwnd);
            return Some(list[i].pid);
        }
        i += 1;
    }
    None
}

/// A window is listed for selection when it is not one of this program's own
/// and the (lower-cased) filter is empty or occurs in its lower-cased title or
/// process name.
pub open spec fn listed(w: WindowInfo, own_pid: u32, filter: Seq<char>) -> bool {
    let f = lowercase(filter);
    w.pid != own_pid && (f.len() == 0 || occurs_in(lowercase(w.title@), f) || occurs_in(lowercase(w.process@), f))
}

/// This program's own windows are never listed, whatever the filter; any other
/// window whose lower-cased title or process name holds the lower-cased
/// filter is listed.
pub proof fn law_own_windows_never_listed(w: WindowInfo, own_pid: u32, filter: Seq<char>)
    ensures
        w.pid == own_pid ==> !listed(w, own_pid, filter),
        w.pid != own_pid && occurs_in(lowercase(w.title@), lowercase(filter)) ==> listed(w, own_pid, filter),
        w.pid != own_pid && occurs_in(lowercase(w.process@), lowercase(filter)) ==> listed(w, own_pid, filter),
{
}

/// The positions, in order, of the windows listed for selection (see `listed`).
pub fn listed_windows(list: &Vec<WindowInfo>, own_pid: u32, filter: &str) -> (r: Vec<usize>)
    ensures
        forall|j: int| 0 <= j < r.len() ==> r@[j] < list.len() && listed(list@[r@[j] as int], own_pid, filter@),
        forall|j: int| 0 <= j < r.len() ==> #[trigger] list@[r@[j] as int].pid != own_pid,
        forall|j: int, k: int| 0 <= j < k < r.len() ==> r@[j] < r@[k],
        forall|i: int| 0 <= i < list.len() && listed(list@[i], own_pid, filter@) ==> r@.contains(i as usize),
{
    let f = to_lower(filter);
    let empty = f.as_str().is_empty();
    proof {
        assert(empty == (lowercase(filter@).len() == 0)) by {
            if !empty {
                assert(f@.len() != 0);
            }
        }
    }
    let mut out: Vec<usize> = Vec::new();
    let mut i: usize = 0;
    while i < list.len()
        invariant
            i <= list.len(),
            f@ == lowercase(filter@),
            empty == (f@.len() == 0),
            forall|j: int| 0 <= j < out.len() ==> out@[j] < i && listed(list@[out@[j] as int], own_pid, filter@),
            forall|j: int, k: int| 0 <= j < k < out.len() ==> out@[j] < out@[k],
            forall|m: int| 0 <= m < i && listed(list@[m], own_pid, filter@) ==> out@.contains(m as usize),
        decreases list.len() - i,
    {
        let w = &list[i];
        let show = w.pid != own_pid && (empty || contains_text(to_lower(w.title.as_str()).as_str(), f.as_str())
            || contains_text(to_lower(w.process.as_str()).as_str(), f.as_str()));
        let ghost old_out = out@;
        assert(show == listed(list@[i as int], own_pid, filter@));
        if show {
            out.push(i);
            proof {
                assert(out@[out.len() - 1] == i);
            }
        }
        proof {
            assert forall|m: int| 0 <= m < i + 1 && listed(list@[m], own_pid, filter@) implies out@.contains(m as usize) by {
                if m < i {
                    let j = choose|j: int| 0 <= j < old_out.len() && old_out[j] == m as usize;
                    assert(out@[j] == m as usize);
                }
            }
        }
        i += 1;
    }
    proof {
        assert forall|j: int| 0 <= j < out.len() implies #[trigger] list@[out@[j] as int].pid != own_pid by {
            law_own_windows_never_listed(list@[out@[j] as int], own_pid, filter@);
        }
    }
    out
}

} // verus!
