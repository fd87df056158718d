//! The settings file: one `key=value` per line. The settings kept across
//! restarts are the HDR correction, the crop options, VSync, output rate,
//! volume, which audio is sent, and the relay output device. Numbers with a
//! fraction (HDR brightness, aspect terms, output rate, volume) are kept here as
//! their text; reading and writing those numbers is left to the caller.

use crate::text::{
    find_char, first_of, i32_string, i32_text, lemma_first_of, lemma_i32_text_parses, lemma_trim_clean, parse_i32,
    parse_i32_range, range_is, trim, trim_range, untrimmed_ends,
};
use vstd::prelude::*;

verus! {

/// A setting that holds a number with a fraction.
#[derive(Clone, Copy, Debug, PartialEq, Eq, Structural)]
pub enum NumberKey {
    HdrNits,
    CropAspectW,
    CropAspectH,
    OutputFps,
    Volume,
}

/// The text of a number setting as it stood in the file.
#[derive(Debug)]
pub struct NumberEntry {
    pub key: NumberKey,
    pub text: String,
}

/// The settings other than the numbers with a fraction.
#[derive(Debug)]
pub struct Settings {
    pub hdr_fix: bool,
    pub crop_titlebar: bool,
    pub crop_16_9: bool,
    pub crop_align_x: i32,
    pub crop_align_y: i32,
    pub vsync: bool,
    pub tidal_audio: bool,
    pub game_audio: bool,
    pub relay_device_id: Option<String>,
}

/// The texts of the number settings to write, in the file's order.
#[derive(Debug)]
pub struct NumberTexts {
    pub hdr_nits: String,
    pub crop_aspect_w: String,
    pub crop_aspect_h: String,
    pub output_fps: String,
    pub volume: String,
}

/// The settings as values: the flags and alignments, the relay device, and the
/// number entries met while reading, in order.
pub struct SettingsModel {
    pub hdr_fix: bool,
    pub crop_titlebar: bool,
    pub crop_16_9: bool,
    pub crop_align_x: i32,
    pub crop_align_y: i32,
    pub vsync: bool,
    pub tidal_audio: bool,
    pub game_audio: bool,
    pub relay_device_id: Option<Seq<char>>,
    pub numbers: Seq<(NumberKey, Seq<char>)>,
}

pub open spec fn opt_text(o: Option<String>) -> Option<Seq<char>> {
    match o {
        Some(s) => Some(s@),
        None => None,
    }
}

pub open spec fn entries_model(numbers: Seq<NumberEntry>) -> Seq<(NumberKey, Seq<char>)> {
    numbers.map_values(|e: NumberEntry| (e.key, e.text@))
}

/// The model of `s` with the number entries `numbers`.
pub open spec fn model_of(s: Settings, numbers: Seq<NumberEntry>) -> SettingsModel {
    SettingsModel {
        hdr_fix: s.hdr_fix,
        crop_titlebar: s.crop_titlebar,
        crop_16_9: s.crop_16_9,
        crop_align_x: s.crop_align_x,
        crop_align_y: s.crop_align_y,
        vsync: s.vsync,
        tidal_audio: s.tidal_audio,
        game_audio: s.game_audio,
        relay_device_id: opt_text(s.relay_device_id),
        numbers: entries_model(numbers),
    }
}

/// The defaults: no HDR correction, title bar cut, aspect crop on and
/// centred, VSync on, TIDAL audio sent, game audio not sent, default device.
pub open spec fn default_model() -> SettingsModel {
    SettingsModel {
        hdr_fix: false,
        crop_titlebar: true,
        crop_16_9: true,
        crop_align_x: 1,
        crop_align_y: 1,
        vsync: true,
        tidal_audio: true,
        game_audio: false,
        relay_device_id: None,
        numbers: Seq::empty(),
    }
}

pub open spec fn clamp_align(n: i32) -> i32 {
    if n < 0 {
        0
    } else if n > 2 {
        2
    } else {
        n
    }
}

/// An alignment code read from `v`: the parsed number clamped to 0..=2, or
/// `old` when `v` is no number.
pub open spec fn align_from(v: Seq<char>, old: i32) -> i32 {
    match parse_i32(v) {
        Some(n) => clamp_align(n),
        None => old,
    }
}

pub open spec fn push_number(m: SettingsModel, key: NumberKey, v: Seq<char>) -> SettingsModel {
    SettingsModel { numbers: m.numbers.push((key, v)), ..m }
}

/// The effect of the entry `k = v` (both trimmed). Flags are true exactly for
/// the value `true`; unknown keys are ignored.
pub open spec fn apply_entry(m: SettingsModel, k: Seq<char>, v: Seq<char>) -> SettingsModel {
    if k == "hdr_fix"@ {
        SettingsModel { hdr_fix: v == "true"@, ..m }
    } else if k == "hdr_nits"@ {
        push_number(m, NumberKey::HdrNits, v)
    } else if k == "crop"@ {
        SettingsModel { crop_titlebar: v == "true"@, ..m }
    } else if k == "crop_16_9"@ {
        SettingsModel { crop_16_9: v == "true"@, ..m }
    } else if k == "crop_aspect_w"@ {
        push_number(m, NumberKey::CropAspectW, v)
    } else if k == "crop_aspect_h"@ {
        push_number(m, NumberKey::CropAspectH, v)
    } else if k == "crop_align"@ || k == "crop_align_x"@ {
        SettingsModel { crop_align_x: align_from(v, m.crop_align_x), ..m }
    } else if k == "crop_align_y"@ {
        SettingsModel { crop_align_y: align_from(v, m.crop_align_y), ..m }
    } else if k == "vsync"@ {
        SettingsModel { vsync: v == "true"@, ..m }
    } else if k == "output_fps"@ {
        push_number(m, NumberKey::OutputFps, v)
    } else if k == "volume"@ {
        push_number(m, NumberKey::Volume, v)
    } else if k == "tidal_audio"@ {
        SettingsModel { tidal_audio: v == "true"@, ..m }
    } else if k == "game_audio"@ {
        SettingsModel { game_audio: v == "true"@, ..m }
    } else if k == "relay_device"@ {
        SettingsModel { relay_device_id: if v.len() == 0 { None } else { Some(v) }, ..m }
    } else {
        m
    }
}

/// The effect of one line: split at its first `=` into a trimmed key and a
/// trimmed value; a line without `=` is ignored.
pub open spec fn apply_line(m: SettingsModel, line: Seq<char>) -> SettingsModel {
    let e = first_of(line, '=') as int;
    if e >= line.len() {
        m
    } else {
        apply_entry(m, trim(line.take(e)), trim(line.skip(e + 1)))
    }
}

/// A line without its terminator; a line ended by `\r\n` loses the `\r`.
pub open spec fn line_of(raw: Seq<char>, terminated: bool) -> Seq<char> {
    if terminated && raw.len() > 0 && raw.last() == '\r' {
        raw.drop_last()
    } else {
        raw
    }
}

/// The settings after reading the lines of `t` (as `str::lines` splits them) in
/// order, starting from `m`.
pub open spec fn parse_text(t: Seq<char>, m: SettingsModel) -> SettingsModel
    decreases t.len(),
{
    if t.len() == 0 {
        m
    } else {
        let j = first_of(t, '\n') as int;
        if j < t.len() {
            parse_text(t.skip(j + 1), apply_line(m, line_of(t.take(j), true)))
        } else {
            apply_line(m, line_of(t, false))
        }
    }
}

impl Settings {
    /// The defaults, see `default_model`.
    pub fn defaults() -> (r: Settings)
        ensures
            model_of(r, Seq::empty()) == default_model(),
    {
        let r = Settings {
            hdr_fix: false,
            crop_titlebar: true,
            crop_16_9: true,
            crop_align_x: 1,
            crop_align_y: 1,
            vsync: true,
            tidal_audio: true,
            game_audio: false,
            relay_device_id: None,
        };
        proof {
            assert(entries_model(Seq::<NumberEntry>::empty()) =~= Seq::empty());
        }
        r
    }
}

fn push_entry(numbers: &mut Vec<NumberEntry>, key: NumberKey, text: String)
    ensures
        entries_model(final(numbers)@) == entries_model(old(numbers)@).push((key, text@)),
{
    numbers.push(NumberEntry { key, text });
    proof {
        assert(entries_model(final(numbers)@) =~= entries_model(old(numbers)@).push((key, text@)));
    }
}

impl Settings {
    /// Applies the entry whose trimmed key is `cs[k.0..k.1]` and trimmed value
    /// `cs[v.0..v.1]`, where `cs` holds the characters of `text`.
    fn apply_entry_at(
        &mut self,
        numbers: &mut Vec<NumberEntry>,
        text: &str,
        cs: &Vec<char>,
        k: (usize, usize),
        v: (usize, usize),
    )
        requires
            cs@ == text@,
            k.0 <= k.1 <= cs.len(),
            v.0 <= v.1 <= cs.len(),
        ensures
            model_of(*final(self), final(numbers)@) == apply_entry(
                model_of(*old(self), old(numbers)@),
                cs@.subrange(k.0 as int, k.1 as int),
                cs@.subrange(v.0 as int, v.1 as int),
            ),
    {
        let ghost key = cs@.subrange(k.0 as int, k.1 as int);
        let ghost value = cs@.subrange(v.0 as int, v.1 as int);
        let is_true = range_is(cs, v.0, v.1, "true");
        if range_is(cs, k.0, k.1, "hdr_fix") {
            self.hdr_fix = is_true;
        } else if range_is(cs, k.0, k.1, "hdr_nits") {
            push_entry(numbers, NumberKey::HdrNits, String::from_str(text.substring_char(v.0, v.1)));
        } else if range_is(cs, k.0, k.1, "crop") {
            self.crop_titlebar = is_true;
        } else if range_is(cs, k.0, k.1, "crop_16_9") {
            self.crop_16_9 = is_true;
        } else if range_is(cs, k.0, k.1, "crop_aspect_w") {
            push_entry(numbers, NumberKey::CropAspectW, String::from_str(text.substring_char(v.0, v.1)));
        } else if range_is(cs, k.0, k.1, "crop_aspect_h") {
            push_entry(numbers, NumberKey::CropAspectH, String::from_str(text.substring_char(v.0, v.1)));
        } else if range_is(cs, k.0, k.1, "crop_align") || range_is(cs, k.0, k.1, "crop_align_x") {
            if let Some(n) = parse_i32_range(cs, v.0, v.1) {
                self.crop_align_x = if n < 0 { 0 } else if n > 2 { 2 } else { n };
            }
        } else if range_is(cs, k.0, k.1, "crop_align_y") {
            if let Some(n) = parse_i32_range(cs, v.0, v.1) {
                self.crop_align_y = if n < 0 { 0 } else if n > 2 { 2 } else { n };
            }
        } else if range_is(cs, k.0, k.1, "vsync") {
            self.vsync = is_true;
        } else if range_is(cs, k.0, k.1, "output_fps") {
            push_entry(numbers, NumberKey::OutputFps, String::from_str(text.substring_char(v.0, v.1)));
        } else if range_is(cs, k.0, k.1, "volume") {
            push_entry(numbers, NumberKey::Volume, String::from_str(text.substring_char(v.0, v.1)));
        } else if range_is(cs, k.0, k.1, "tidal_audio") {
            self.tidal_audio = is_true;
        } else if range_is(cs, k.0, k.1, "game_audio") {
            self.game_audio = is_true;
        } else if range_is(cs, k.0, k.1, "relay_device") {
            self.relay_device_id = if v.0 == v.1 {
                None
            } else {
                Some(String::from_str(text.substring_char(v.0, v.1)))
            };
        }
    }

    /// Applies one line, `cs[lo..hi]` without its terminator.
    fn apply_line_at(&mut self, numbers: &mut Vec<NumberEntry>, text: &str, cs: &Vec<char>, lo: usize, hi: usize)
        requires
            cs@ == text@,
            lo <= hi <= cs.len(),
        ensures
            model_of(*final(self), final(numbers)@) == apply_line(
                model_of(*old(self), old(numbers)@),
                cs@.subrange(lo as int, hi as int),
            ),
    {
        let ghost line = cs@.subrange(lo as int, hi as int);
        let e = find_char(cs, lo, hi, '=');
        if e == hi {
            return;
        }
        let k = trim_range(cs, lo, e);
        let v = trim_range(cs, e + 1, hi);
        proof {
            assert(line.take(e - lo) =~= cs@.subrange(lo as int, e as int));
            assert(line.skip(e - lo + 1) =~= cs@.subrange(e + 1, hi as int));
        }
        self.apply_entry_at(numbers, text, cs, k, v);
    }

    /// Reads the settings file `text`: the defaults, then every line in order.
    /// Returns the settings and the number entries met, in order.
    pub fn parse(text: &str) -> (r: (Settings, Vec<NumberEntry>))
        ensures
            model_of(r.0, r.1@) == parse_text(text@, default_model()),
    {
        let cs = crate::text::chars_of(text);
        let mut s = Settings::defaults();
        let mut numbers: Vec<NumberEntry> = Vec::new();
        proof {
            assert(entries_model(numbers@) =~= Seq::empty());
            assert(cs@.skip(0) =~= cs@);
        }
        let mut pos: usize = 0;
        while pos < cs.len()
            invariant
                cs@ == text@,
                pos <= cs.len(),
                parse_text(cs@.skip(pos as int), model_of(s, numbers@)) == parse_text(text@, default_model()),
            decreases cs.len() - pos,
        {
            let ghost rest = cs@.skip(pos as int);
            let j = find_char(&cs, pos, cs.len(), '\n');
            proof {
                assert(rest =~= cs@.subrange(pos as int, cs.len() as int));
            }
            if j < cs.len() {
                let end = if j > pos && cs[j - 1] == '\r' { j - 1 } else { j };
                proof {
                    let raw = rest.take(j - pos);
                    assert(raw =~= cs@.subrange(pos as int, j as int));
                    assert(line_of(raw, true) =~= cs@.subrange(pos as int, end as int));
                    assert(rest.skip(j - pos + 1) =~= cs@.skip(j + 1));
                }
                s.apply_line_at(&mut numbers, text, &cs, pos, end);
                pos = j + 1;
            } else {
                proof {
                    assert(line_of(rest, false) =~= cs@.subrange(pos as int, cs.len() as int));
                }
                s.apply_line_at(&mut numbers, text, &cs, pos, cs.len());
                pos = cs.len();
                proof {
                    assert(cs@.skip(pos as int) =~= Seq::<char>::empty());
                }
            }
        }
        proof {
            assert(cs@.skip(pos as int) =~= Seq::<char>::empty());
        }
        (s, numbers)
    }
}

pub open spec fn bool_text(b: bool) -> Seq<char> {
    if b { "true"@ } else { "false"@ }
}

/// One line of the settings file: `key=value` and a line feed.
pub open spec fn entry_line(key: Seq<char>, value: Seq<char>) -> Seq<char> {
    key + "="@ + value + "\n"@
}

pub open spec fn relay_text(s: Settings) -> Seq<char> {
    match s.relay_device_id {
        Some(d) => d@,
        None => Seq::empty(),
    }
}

/// The lines for the entries `e`, in order.
pub open spec fn lines_text(e: Seq<(Seq<char>, Seq<char>)>) -> Seq<char>
    decreases e.len(),
{
    if e.len() == 0 {
        Seq::empty()
    } else {
        entry_line(e[0].0, e[0].1) + lines_text(e.drop_first())
    }
}

/// The entries written for the settings `s` with the number texts `n`, in the
/// file's order.
pub open spec fn written_entries(s: Settings, n: NumberTexts) -> Seq<(Seq<char>, Seq<char>)> {
    seq![
        ("hdr_fix"@, bool_text(s.hdr_fix)),
        ("hdr_nits"@, n.hdr_nits@),
        ("crop"@, bool_text(s.crop_titlebar)),
        ("crop_16_9"@, bool_text(s.crop_16_9)),
        ("crop_aspect_w"@, n.crop_aspect_w@),
        ("crop_aspect_h"@, n.crop_aspect_h@),
        ("crop_align_x"@, i32_text(s.crop_align_x)),
        ("crop_align_y"@, i32_text(s.crop_align_y)),
        ("vsync"@, bool_text(s.vsync)),
        ("output_fps"@, n.output_fps@),
        ("volume"@, n.volume@),
        ("tidal_audio"@, bool_text(s.tidal_audio)),
        ("game_audio"@, bool_text(s.game_audio)),
        ("relay_device"@, relay_text(s)),
    ]
}

/// The text written for the settings `s` with the number texts `n`: one
/// `key=value` line per setting, in a fixed order.
pub open spec fn settings_text(s: Settings, n: NumberTexts) -> Seq<char> {
    lines_text(written_entries(s, n))
}

proof fn lemma_lines_text_step(e: Seq<(Seq<char>, Seq<char>)>, i: int)
    requires
        0 <= i < e.len(),
    ensures
        lines_text(e.skip(i)) == entry_line(e[i].0, e[i].1) + lines_text(e.skip(i + 1)),
{
    assert(e.skip(i).drop_first() =~= e.skip(i + 1));
}

fn bool_str(b: bool) -> (r: &'static str)
    ensures
        r@ == bool_text(b),
{
    if b { "true" } else { "false" }
}

fn append_entry(out: &mut String, key: &str, value: &str)
    ensures
        final(out)@ == old(out)@ + entry_line(key@, value@),
{
    out.append(key);
    out.append("=");
    out.append(value);
    out.append("\n");
    proof {
        assert(final(out)@ =~= old(out)@ + entry_line(key@, value@));
    }
}

impl Settings {
    /// The settings file text for these settings with the number texts
    /// `numbers`, see `settings_text`.
    pub fn to_text(&self, numbers: &NumberTexts) -> (r: String)
        ensures
            r@ == settings_text(*self, *numbers),
    {
        let relay: &str = match &self.relay_device_id {
            Some(d) => d.as_str(),
            None => "",
        };
        proof {
            reveal_strlit("");
        }
        let align_x = i32_string(self.crop_align_x);
        let align_y = i32_string(self.crop_align_y);
        let entries: Vec<(&str, &str)> = vec![
            ("hdr_fix", bool_str(self.hdr_fix)),
            ("hdr_nits", numbers.hdr_nits.as_str()),
            ("crop", bool_str(self.crop_titlebar)),
            ("crop_16_9", bool_str(self.crop_16_9)),
            ("crop_aspect_w", numbers.crop_aspect_w.as_str()),
            ("crop_aspect_h", numbers.crop_aspect_h.as_str()),
            ("crop_align_x", align_x.as_str()),
            ("crop_align_y", align_y.as_str()),
            ("vsync", bool_str(self.vsync)),
            ("output_fps", numbers.output_fps.as_str()),
            ("volume", numbers.volume.as_str()),
            ("tidal_audio", bool_str(self.tidal_audio)),
            ("game_audio", bool_str(self.game_audio)),
            ("relay_device", relay),
        ];
        let ghost want = written_entries(*self, *numbers);
        proof {
            assert(relay@ == relay_text(*self));
            assert(entries@.len() == want.len());
            assert forall|i: int| 0 <= i < want.len() implies (#[trigger] entries@[i]).0@ == want[i].0
                && entries@[i].1@ == want[i].1 by {}
            assert(want.skip(0) =~= want);
        }
        let mut out = String::new();
        let mut i: usize = 0;
        while i < entries.len()
            invariant
                i <= entries.len(),
                entries@.len() == want.len(),
                forall|k: int| 0 <= k < want.len() ==> (#[trigger] entries@[k]).0@ == want[k].0
                    && entries@[k].1@ == want[k].1,
                out@ + lines_text(want.skip(i as int)) == lines_text(want),
            decreases entries.len() - i,
        {
            let (key, value) = entries[i];
            let ghost before = out@;
            append_entry(&mut out, key, value);
            proof {
                lemma_lines_text_step(want, i as int);
                assert(before + lines_text(want.skip(i as int)) =~= out@ + lines_text(want.skip(i + 1)));
            }
            i += 1;
        }
        proof {
            assert(want.skip(i as int) =~= Seq::<(Seq<char>, Seq<char>)>::empty());
            assert(out@ + Seq::<char>::empty() =~= out@);
        }
        out
    }
}

/// A key or value that can be written on a line and read back unchanged: no
/// line feed in it and no white space at its ends.
pub open spec fn storable(v: Seq<char>) -> bool {
    &&& untrimmed_ends(v)
    &&& forall|k: int| 0 <= k < v.len() ==> v[k] != '\n'
}

/// Reading a written line `key=value` applies exactly that entry.
proof fn lemma_read_entry_line(key: Seq<char>, value: Seq<char>, rest: Seq<char>, m: SettingsModel)
    requires
        key.len() > 0,
        storable(key),
        storable(value),
        forall|k: int| 0 <= k < key.len() ==> key[k] != '=',
    ensures
        parse_text(entry_line(key, value) + rest, m) == parse_text(rest, apply_entry(m, key, value)),
{
    reveal_strlit("=");
    reveal_strlit("\n");
    let t = entry_line(key, value) + rest;
    let line = key + "="@ + value;
    let n = line.len();
    assert(t[n as int] == '\n');
    assert forall|k: int| 0 <= k < n implies t[k] != '\n' by {
        if k < key.len() {
            assert(t[k] == key[k]);
        } else if k > key.len() {
            assert(t[k] == value[k - key.len() - 1]);
        }
    }
    lemma_first_of(t, '\n', n as int);
    assert(t.take(n as int) =~= line);
    assert(t.skip(n as int + 1) =~= rest);
    if value.len() > 0 {
        assert(line.last() == value.last());
    }
    assert(line_of(line, true) == line);
    assert forall|k: int| 0 <= k < key.len() implies line[k] != '=' by {
        assert(line[k] == key[k]);
    }
    lemma_first_of(line, '=', key.len() as int);
    assert(line.take(key.len() as int) =~= key);
    assert(line.skip(key.len() as int + 1) =~= value);
    lemma_trim_clean(key);
    lemma_trim_clean(value);
}

/// The model read back from the text written for `s` and `n`: the same flags,
/// alignments and device, and the five number texts in the file's order.
pub open spec fn written_model(s: Settings, n: NumberTexts) -> SettingsModel {
    SettingsModel {
        hdr_fix: s.hdr_fix,
        crop_titlebar: s.crop_titlebar,
        crop_16_9: s.crop_16_9,
        crop_align_x: s.crop_align_x,
        crop_align_y: s.crop_align_y,
        vsync: s.vsync,
        tidal_audio: s.tidal_audio,
        game_audio: s.game_audio,
        relay_device_id: opt_text(s.relay_device_id),
        numbers: seq![
            (NumberKey::HdrNits, n.hdr_nits@),
            (NumberKey::CropAspectW, n.crop_aspect_w@),
            (NumberKey::CropAspectH, n.crop_aspect_h@),
            (NumberKey::OutputFps, n.output_fps@),
            (NumberKey::Volume, n.volume@),
        ],
    }
}

proof fn lemma_bool_text_storable(b: bool)
    ensures
        storable(bool_text(b)),
        (bool_text(b) == "true"@) == b,
{
    reveal_strlit("true");
    reveal_strlit("false");
    assert("false"@ != "true"@) by {
        assert("false"@.len() != "true"@.len());
    }
}

proof fn lemma_i32_text_storable(n: i32)
    ensures
        storable(i32_text(n)),
{
    let t = i32_text(n);
    if n < 0 {
        crate::text::lemma_decimal_text((-n) as nat);
        let d = crate::text::decimal_text((-n) as nat);
        assert(t.last() == d.last());
        assert(crate::text::is_digit(d[d.len() - 1]));
        assert forall|k: int| 0 <= k < t.len() implies t[k] != '\n' by {
            if k > 0 {
                assert(t[k] == d[k - 1]);
                assert(crate::text::is_digit(d[k - 1]));
            }
        }
    } else {
        crate::text::lemma_decimal_text(n as nat);
        assert(crate::text::is_digit(t[0]));
        assert(crate::text::is_digit(t[t.len() - 1]));
        assert forall|k: int| 0 <= k < t.len() implies t[k] != '\n' by {
            assert(crate::text::is_digit(t[k]));
        }
    }
}

proof fn lemma_keys_storable()
    ensures
        storable("hdr_fix"@),
        storable("hdr_nits"@),
        storable("crop"@),
        storable("crop_16_9"@),
        storable("crop_aspect_w"@),
        storable("crop_aspect_h"@),
        storable("crop_align_x"@),
        storable("crop_align_y"@),
        storable("vsync"@),
        storable("output_fps"@),
        storable("volume"@),
        storable("tidal_audio"@),
        storable("game_audio"@),
        storable("relay_device"@),
        forall|k: int| 0 <= k < "hdr_fix"@.len() ==> "hdr_fix"@[k] != '=',
        forall|k: int| 0 <= k < "hdr_nits"@.len() ==> "hdr_nits"@[k] != '=',
        forall|k: int| 0 <= k < "crop"@.len() ==> "crop"@[k] != '=',
        forall|k: int| 0 <= k < "crop_16_9"@.len() ==> "crop_16_9"@[k] != '=',
        forall|k: int| 0 <= k < "crop_aspect_w"@.len() ==> "crop_aspect_w"@[k] != '=',
        forall|k: int| 0 <= k < "crop_aspect_h"@.len() ==> "crop_aspect_h"@[k] != '=',
        forall|k: int| 0 <= k < "crop_align_x"@.len() ==> "crop_align_x"@[k] != '=',
        forall|k: int| 0 <= k < "crop_align_y"@.len() ==> "crop_align_y"@[k] != '=',
        forall|k: int| 0 <= k < "vsync"@.len() ==> "vsync"@[k] != '=',
        forall|k: int| 0 <= k < "output_fps"@.len() ==> "output_fps"@[k] != '=',
        forall|k: int| 0 <= k < "volume"@.len() ==> "volume"@[k] != '=',
        forall|k: int| 0 <= k < "tidal_audio"@.len() ==> "tidal_audio"@[k] != '=',
        forall|k: int| 0 <= k < "game_audio"@.len() ==> "game_audio"@[k] != '=',
        forall|k: int| 0 <= k < "relay_device"@.len() ==> "relay_device"@[k] != '=',
        "hdr_fix"@.len() > 0,
        "hdr_nits"@.len() > 0,
        "crop"@.len() > 0,
        "crop_16_9"@.len() > 0,
        "crop_aspect_w"@.len() > 0,
        "crop_aspect_h"@.len() > 0,
        "crop_align_x"@.len() > 0,
        "crop_align_y"@.len() > 0,
        "vsync"@.len() > 0,
        "output_fps"@.len() > 0,
        "volume"@.len() > 0,
        "tidal_audio"@.len() > 0,
        "game_audio"@.len() > 0,
        "relay_device"@.len() > 0,
{
    reveal_strlit("hdr_fix");
    reveal_strlit("hdr_nits");
    reveal_strlit("crop");
    reveal_strlit("crop_16_9");
    reveal_strlit("crop_aspect_w");
    reveal_strlit("crop_aspect_h");
    reveal_strlit("crop_align_x");
    reveal_strlit("crop_align_y");
    reveal_strlit("vsync");
    reveal_strlit("output_fps");
    reveal_strlit("volume");
    reveal_strlit("tidal_audio");
    reveal_strlit("game_audio");
    reveal_strlit("relay_device");
}

/// The keys of the settings file differ from one another.
proof fn lemma_keys_distinct()
    ensures
        "hdr_nits"@ != "hdr_fix"@,
        "crop"@ != "hdr_fix"@ && "crop"@ != "hdr_nits"@,
        "crop_16_9"@ != "hdr_fix"@ && "crop_16_9"@ != "hdr_nits"@ && "crop_16_9"@ != "crop"@,
        "crop_aspect_w"@ != "hdr_fix"@ && "crop_aspect_w"@ != "hdr_nits"@ && "crop_aspect_w"@ != "crop"@
            && "crop_aspect_w"@ != "crop_16_9"@,
        "crop_aspect_h"@ != "hdr_fix"@ && "crop_aspect_h"@ != "hdr_nits"@ && "crop_aspect_h"@ != "crop"@
            && "crop_aspect_h"@ != "crop_16_9"@ && "crop_aspect_h"@ != "crop_aspect_w"@,
        "crop_align_x"@ != "hdr_fix"@ && "crop_align_x"@ != "hdr_nits"@ && "crop_align_x"@ != "crop"@
            && "crop_align_x"@ != "crop_16_9"@ && "crop_align_x"@ != "crop_aspect_w"@ && "crop_align_x"@
            != "crop_aspect_h"@,
        "crop_align_y"@ != "hdr_fix"@ && "crop_align_y"@ != "hdr_nits"@ && "crop_align_y"@ != "crop"@
            && "crop_align_y"@ != "crop_16_9"@ && "crop_align_y"@ != "crop_aspect_w"@ && "crop_align_y"@
            != "crop_aspect_h"@ && "crop_align_y"@ != "crop_align"@ && "crop_align_y"@ != "crop_align_x"@,
        "vsync"@ != "hdr_fix"@ && "vsync"@ != "hdr_nits"@ && "vsync"@ != "crop"@ && "vsync"@ != "crop_16_9"@
            && "vsync"@ != "crop_aspect_w"@ && "vsync"@ != "crop_aspect_h"@ && "vsync"@ != "crop_align"@
            && "vsync"@ != "crop_align_x"@ && "vsync"@ != "crop_align_y"@,
        "output_fps"@ != "hdr_fix"@ && "output_fps"@ != "hdr_nits"@ && "output_fps"@ != "crop"@ && "output_fps"@
            != "crop_16_9"@ && "output_fps"@ != "crop_aspect_w"@ && "output_fps"@ != "crop_aspect_h"@
            && "output_fps"@ != "crop_align"@ && "output_fps"@ != "crop_align_x"@ && "output_fps"@
            != "crop_align_y"@ && "output_fps"@ != "vsync"@,
        "volume"@ != "hdr_fix"@ && "volume"@ != "hdr_nits"@ && "volume"@ != "crop"@ && "volume"@ != "crop_16_9"@
            && "volume"@ != "crop_aspect_w"@ && "volume"@ != "crop_aspect_h"@ && "volume"@ != "crop_align"@
            && "volume"@ != "crop_align_x"@ && "volume"@ != "crop_align_y"@ && "volume"@ != "vsync"@
            && "volume"@ != "output_fps"@,
        "tidal_audio"@ != "hdr_fix"@ && "tidal_audio"@ != "hdr_nits"@ && "tidal_audio"@ != "crop"@
            && "tidal_audio"@ != "crop_16_9"@ && "tidal_audio"@ != "crop_aspect_w"@ && "tidal_audio"@
            != "crop_aspect_h"@ && "tidal_audio"@ != "crop_align"@ && "tidal_audio"@ != "crop_align_x"@
            && "tidal_audio"@ != "crop_align_y"@ && "tidal_audio"@ != "vsync"@ && "tidal_audio"@
            != "output_fps"@ && "tidal_audio"@ != "volume"@,
        "game_audio"@ != "hdr_fix"@ && "game_audio"@ != "hdr_nits"@ && "game_audio"@ != "crop"@
            && "game_audio"@ != "crop_16_9"@ && "game_audio"@ != "crop_aspect_w"@ && "game_audio"@
            != "crop_aspect_h"@ && "game_audio"@ != "crop_align"@ && "game_audio"@ != "crop_align_x"@
            && "game_audio"@ != "crop_align_y"@ && "game_audio"@ != "vsync"@ && "game_audio"@
            != "output_fps"@ && "game_audio"@ != "volume"@ && "game_audio"@ != "tidal_audio"@,
        "relay_device"@ != "hdr_fix"@ && "relay_device"@ != "hdr_nits"@ && "relay_device"@ != "crop"@
            && "relay_device"@ != "crop_16_9"@ && "relay_device"@ != "crop_aspect_w"@ && "relay_device"@
            != "crop_aspect_h"@ && "relay_device"@ != "crop_align"@ && "relay_device"@ != "crop_align_x"@
            && "relay_device"@ != "crop_align_y"@ && "relay_device"@ != "vsync"@ && "relay_device"@
            != "output_fps"@ && "relay_device"@ != "volume"@ && "relay_device"@ != "tidal_audio"@
            && "relay_device"@ != "game_audio"@,
{
    reveal_strlit("hdr_fix");
    reveal_strlit("hdr_nits");
    reveal_strlit("crop");
    reveal_strlit("crop_16_9");
    reveal_strlit("crop_aspect_w");
    reveal_strlit("crop_aspect_h");
    reveal_strlit("crop_align");
    reveal_strlit("crop_align_x");
    reveal_strlit("crop_align_y");
    reveal_strlit("vsync");
    reveal_strlit("output_fps");
    reveal_strlit("volume");
    reveal_strlit("tidal_audio");
    reveal_strlit("game_audio");
    reveal_strlit("relay_device");
    assert("hdr_fix"@.len() == 7);
    assert("hdr_nits"@.len() == 8);
    assert("crop"@.len() == 4);
    assert("crop_16_9"@.len() == 9);
    assert("crop_aspect_w"@.len() == 13);
    assert("crop_aspect_h"@.len() == 13);
    assert("crop_align"@.len() == 10);
    assert("crop_align_x"@.len() == 12);
    assert("crop_align_y"@.len() == 12);
    assert("vsync"@.len() == 5);
    assert("output_fps"@.len() == 10);
    assert("volume"@.len() == 6);
    assert("tidal_audio"@.len() == 11);
    assert("game_audio"@.len() == 10);
    assert("relay_device"@.len() == 12);
    assert("hdr_nits"@[4] != "hdr_fix"@[4]);
    assert("crop_aspect_h"@[12] != "crop_aspect_w"@[12]);
    assert("crop_align_y"@[11] != "crop_align_x"@[11]);
    assert("crop_align_x"@[7] != "crop_aspect_w"@[7]);
    assert("crop_align_x"@[7] != "crop_aspect_h"@[7]);
    assert("crop_align_y"@[7] != "crop_aspect_w"@[7]);
    assert("crop_align_y"@[7] != "crop_aspect_h"@[7]);
    assert("game_audio"@[0] != "output_fps"@[0]);
    assert("relay_device"@[0] != "crop_align_x"@[0]);
    assert("relay_device"@[0] != "crop_align_y"@[0]);
    assert("tidal_audio"@[0] != "crop_align"@[0]);
    assert("volume"@[0] != "hdr_fix"@[0]);
    assert("volume"@[0] != "crop"@[0]);
    assert("vsync"@[0] != "crop"@[0]);
    assert("crop_16_9"@[5] != "crop_align"@[5]);
}

/// The settings after applying the entries `e` in order to `m`.
pub open spec fn apply_entries(e: Seq<(Seq<char>, Seq<char>)>, m: SettingsModel) -> SettingsModel
    decreases e.len(),
{
    if e.len() == 0 {
        m
    } else {
        apply_entries(e.drop_first(), apply_entry(m, e[0].0, e[0].1))
    }
}

/// Reading written lines applies their entries in order.
proof fn lemma_read_lines(e: Seq<(Seq<char>, Seq<char>)>, m: SettingsModel)
    requires
        forall|i: int| 0 <= i < e.len() ==> (#[trigger] e[i]).0.len() > 0 && storable(e[i].0) && storable(e[i].1)
            && forall|k: int| 0 <= k < e[i].0.len() ==> e[i].0[k] != '=',
    ensures
        parse_text(lines_text(e), m) == apply_entries(e, m),
    decreases e.len(),
{
    if e.len() > 0 {
        let first = e[0];
        lemma_read_entry_line(first.0, first.1, lines_text(e.drop_first()), m);
        assert forall|i: int| 0 <= i < e.drop_first().len() implies (#[trigger] e.drop_first()[i]).0.len() > 0
            && storable(e.drop_first()[i].0) && storable(e.drop_first()[i].1) && forall|k: int|
            0 <= k < e.drop_first()[i].0.len() ==> e.drop_first()[i].0[k] != '=' by {
            assert(e.drop_first()[i] == e[i + 1]);
        }
        lemma_read_lines(e.drop_first(), apply_entry(m, first.0, first.1));
    }
}

/// Settings survive a restart: reading the text written for `s` and the number
/// texts `n` gives back the same settings and the same number texts, provided
/// each stored text is one line without white space at its ends, the
/// alignments are within 0..=2 and a chosen device id is not empty.
pub proof fn lemma_settings_round_trip(s: Settings, n: NumberTexts)
    requires
        0 <= s.crop_align_x <= 2,
        0 <= s.crop_align_y <= 2,
        s.relay_device_id matches Some(d) ==> d@.len() > 0 && storable(d@),
        storable(n.hdr_nits@),
        storable(n.crop_aspect_w@),
        storable(n.crop_aspect_h@),
        storable(n.output_fps@),
        storable(n.volume@),
    ensures
        parse_text(settings_text(s, n), default_model()) == written_model(s, n),
{
    let e = written_entries(s, n);
    lemma_keys_storable();
    lemma_bool_text_storable(s.hdr_fix);
    lemma_bool_text_storable(s.crop_titlebar);
    lemma_bool_text_storable(s.crop_16_9);
    lemma_bool_text_storable(s.vsync);
    lemma_bool_text_storable(s.tidal_audio);
    lemma_bool_text_storable(s.game_audio);
    lemma_i32_text_storable(s.crop_align_x);
    lemma_i32_text_storable(s.crop_align_y);
    assert(storable(relay_text(s))) by {
        if s.relay_device_id is None {
            assert(relay_text(s).len() == 0);
        }
    }
    assert forall|i: int| 0 <= i < e.len() implies (#[trigger] e[i]).0.len() > 0 && storable(e[i].0)
        && storable(e[i].1) && forall|k: int| 0 <= k < e[i].0.len() ==> e[i].0[k] != '=' by {}
    lemma_read_lines(e, default_model());
    lemma_apply_written_entries(s, n);
}

proof fn lemma_entry_hdr_fix(m: SettingsModel, v: Seq<char>)
    ensures
        apply_entry(m, "hdr_fix"@, v) == (SettingsModel { hdr_fix: v == "true"@, ..m }),
{
    lemma_keys_distinct();
}

proof fn lemma_entry_hdr_nits(m: SettingsModel, v: Seq<char>)
    ensures
        apply_entry(m, "hdr_nits"@, v) == push_number(m, NumberKey::HdrNits, v),
{
    lemma_keys_distinct();
}

proof fn lemma_entry_crop(m: SettingsModel, v: Seq<char>)
    ensures
        apply_entry(m, "crop"@, v) == (SettingsModel { crop_titlebar: v == "true"@, ..m }),
{
    lemma_keys_distinct();
}

proof fn lemma_entry_crop_16_9(m: SettingsModel, v: Seq<char>)
    ensures
        apply_entry(m, "crop_16_9"@, v) == (SettingsModel { crop_16_9: v == "true"@, ..m }),
{
    lemma_keys_distinct();
}

proof fn lemma_entry_crop_aspect_w(m: SettingsModel, v: Seq<char>)
    ensures
        apply_entry(m, "crop_aspect_w"@, v) == push_number(m, NumberKey::CropAspectW, v),
{
    lemma_keys_distinct();
}

proof fn lemma_entry_crop_aspect_h(m: SettingsModel, v: Seq<char>)
    ensures
        apply_entry(m, "crop_aspect_h"@, v) == push_number(m, NumberKey::CropAspectH, v),
{
    lemma_keys_distinct();
}

proof fn lemma_entry_crop_align_x(m: SettingsModel, v: Seq<char>)
    ensures
        apply_entry(m, "crop_align_x"@, v) == (SettingsModel { crop_align_x: align_from(v, m.crop_align_x), ..m }),
{
    lemma_keys_distinct();
}

proof fn lemma_entry_crop_align_y(m: SettingsModel, v: Seq<char>)
    ensures
        apply_entry(m, "crop_align_y"@, v) == (SettingsModel { crop_align_y: align_from(v, m.crop_align_y), ..m }),
{
    lemma_keys_distinct();
}

proof fn lemma_entry_vsync(m: SettingsModel, v: Seq<char>)
    ensures
        apply_entry(m, "vsync"@, v) == (SettingsModel { vsync: v == "true"@, ..m }),
{
    lemma_keys_distinct();
}

proof fn lemma_entry_output_fps(m: SettingsModel, v: Seq<char>)
    ensures
        apply_entry(m, "output_fps"@, v) == push_number(m, NumberKey::OutputFps, v),
{
    lemma_keys_distinct();
}

proof fn lemma_entry_volume(m: SettingsModel, v: Seq<char>)
    ensures
        apply_entry(m, "volume"@, v) == push_number(m, NumberKey::Volume, v),
{
    lemma_keys_distinct();
}

proof fn lemma_entry_tidal_audio(m: SettingsModel, v: Seq<char>)
    ensures
        apply_entry(m, "tidal_audio"@, v) == (SettingsModel { tidal_audio: v == "true"@, ..m }),
{
    lemma_keys_distinct();
}

proof fn lemma_entry_game_audio(m: SettingsModel, v: Seq<char>)
    ensures
        apply_entry(m, "game_audio"@, v) == (SettingsModel { game_audio: v == "true"@, ..m }),
{
    lemma_keys_distinct();
}

proof fn lemma_entry_relay_device(m: SettingsModel, v: Seq<char>)
    ensures
        apply_entry(m, "relay_device"@, v) == (SettingsModel { relay_device_id: if v.len() == 0 { None } else { Some(v) }, ..m }),
{
    lemma_keys_distinct();
}

proof fn lemma_apply_entries_step(e: Seq<(Seq<char>, Seq<char>)>, i: int, m: SettingsModel)
    requires
        0 <= i < e.len(),
    ensures
        apply_entries(e.skip(i), m) == apply_entries(e.skip(i + 1), apply_entry(m, e[i].0, e[i].1)),
{
    assert(e.skip(i).drop_first() =~= e.skip(i + 1));
}

/// Applying the written entries to the defaults gives the written model.
proof fn lemma_apply_written_entries(s: Settings, n: NumberTexts)
    requires
        0 <= s.crop_align_x <= 2,
        0 <= s.crop_align_y <= 2,
        s.relay_device_id matches Some(d) ==> d@.len() > 0,
    ensures
        apply_entries(written_entries(s, n), default_model()) == written_model(s, n),
{
    let e = written_entries(s, n);
    lemma_bool_text_storable(s.hdr_fix);
    lemma_bool_text_storable(s.crop_titlebar);
    lemma_bool_text_storable(s.crop_16_9);
    lemma_bool_text_storable(s.vsync);
    lemma_bool_text_storable(s.tidal_audio);
    lemma_bool_text_storable(s.game_audio);
    lemma_i32_text_parses(s.crop_align_x);
    lemma_i32_text_parses(s.crop_align_y);
    let m0 = default_model();
    assert(e.skip(0) =~= e);
    lemma_apply_entries_step(e, 0, m0);
    lemma_entry_hdr_fix(m0, bool_text(s.hdr_fix));
    let m1 = apply_entry(m0, "hdr_fix"@, bool_text(s.hdr_fix));
    lemma_apply_entries_step(e, 1, m1);
    lemma_entry_hdr_nits(m1, n.hdr_nits@);
    let m2 = apply_entry(m1, "hdr_nits"@, n.hdr_nits@);
    lemma_apply_entries_step(e, 2, m2);
    lemma_entry_crop(m2, bool_text(s.crop_titlebar));
    let m3 = apply_entry(m2, "crop"@, bool_text(s.crop_titlebar));
    lemma_apply_entries_step(e, 3, m3);
    lemma_entry_crop_16_9(m3, bool_text(s.crop_16_9));
    let m4 = apply_entry(m3, "crop_16_9"@, bool_text(s.crop_16_9));
    lemma_apply_entries_step(e, 4, m4);
    lemma_entry_crop_aspect_w(m4, n.crop_aspect_w@);
    let m5 = apply_entry(m4, "crop_aspect_w"@, n.crop_aspect_w@);
    lemma_apply_entries_step(e, 5, m5);
    lemma_entry_crop_aspect_h(m5, n.crop_aspect_h@);
    let m6 = apply_entry(m5, "crop_aspect_h"@, n.crop_aspect_h@);
    lemma_apply_entries_step(e, 6, m6);
    lemma_entry_crop_align_x(m6, i32_text(s.crop_align_x));
    let m7 = apply_entry(m6, "crop_align_x"@, i32_text(s.crop_align_x));
    lemma_apply_entries_step(e, 7, m7);
    lemma_entry_crop_align_y(m7, i32_text(s.crop_align_y));
    let m8 = apply_entry(m7, "crop_align_y"@, i32_text(s.crop_align_y));
    lemma_apply_entries_step(e, 8, m8);
    lemma_entry_vsync(m8, bool_text(s.vsync));
    let m9 = apply_entry(m8, "vsync"@, bool_text(s.vsync));
    lemma_apply_entries_step(e, 9, m9);
    lemma_entry_output_fps(m9, n.output_fps@);
    let m10 = apply_entry(m9, "output_fps"@, n.output_fps@);
    lemma_apply_entries_step(e, 10, m10);
    lemma_entry_volume(m10, n.volume@);
    let m11 = apply_entry(m10, "volume"@, n.volume@);
    lemma_apply_entries_step(e, 11, m11);
    lemma_entry_tidal_audio(m11, bool_text(s.tidal_audio));
    let m12 = apply_entry(m11, "tidal_audio"@, bool_text(s.tidal_audio));
    lemma_apply_entries_step(e, 12, m12);
    lemma_entry_game_audio(m12, bool_text(s.game_audio));
    let m13 = apply_entry(m12, "game_audio"@, bool_text(s.game_audio));
    lemma_apply_entries_step(e, 13, m13);
    lemma_entry_relay_device(m13, relay_text(s));
    let m14 = apply_entry(m13, "relay_device"@, relay_text(s));
    assert(e.skip(14) =~= Seq::<(Seq<char>, Seq<char>)>::empty());
    assert(m14.numbers =~= written_model(s, n).numbers);
}

} // verus!
