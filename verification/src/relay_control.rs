//! The decisions of the game audio relay: which game process to relay and to
//! which output device, when to (re)open the relay, how much of a captured
//! packet fits the output buffer, and which audio sessions get the volume.

use std::collections::HashSet;
use vstd::prelude::*;

verus! {

broadcast use vstd::std_specs::hash::group_hash_axioms;

/// An active audio output device.
#[derive(Debug)]
pub struct OutputDevice {
    pub id: String,
    pub name: String,
}

/// A command to the relay worker.
#[derive(Debug)]
pub enum RelayCmd {
    Start { pid: u32 },
    Stop,
    SetDevice(Option<String>),
    Quit,
}

/// What the relay worker does with its open relay after a command.
#[derive(Clone, Copy, Debug, PartialEq, Eq, Structural)]
pub enum RelayEffect {
    /// End the worker.
    Quit,
    /// Close the relay now.
    Close,
    /// Close the relay and open it again right away.
    Reopen,
    Nothing,
}

/// What the relay should be doing: relay `want_pid` (if any) to `device_id`
/// (the default output device when `None`).
#[derive(Debug)]
pub struct RelayControl {
    pub device_id: Option<String>,
    pub want_pid: Option<u32>,
}

/// Milliseconds to wait before opening again after opening failed.
pub const OPEN_RETRY_MS: u64 = 1000;

/// Milliseconds to wait before opening again after relaying failed.
pub const PUMP_RETRY_MS: u64 = 500;

/// The name shown for a device whose name cannot be read.
pub open spec fn unknown_device_name() -> Seq<char> {
    "(알 수 없음)"@
}

/// The name shown for the default output device.
pub open spec fn default_device_name() -> Seq<char> {
    "기본 출력 장치"@
}

pub open spec fn opt_view(o: Option<String>) -> Option<Seq<char>> {
    match o {
        Some(s) => Some(s@),
        None => None,
    }
}

impl RelayControl {
    pub fn new() -> (r: RelayControl)
        ensures
            r.device_id is None,
            r.want_pid is None,
    {
        RelayControl { device_id: None, want_pid: None }
    }

    /// Applies a command: `Start` chooses the game and reopens, `Stop` forgets
    /// it and closes, a device change reopens only while a game is chosen.
    pub fn apply(&mut self, cmd: RelayCmd) -> (effect: RelayEffect)
        ensures
            match cmd {
                RelayCmd::Quit => effect == RelayEffect::Quit && final(self).want_pid == old(self).want_pid
                    && opt_view(final(self).device_id) == opt_view(old(self).device_id),
                RelayCmd::Start { pid } => effect == RelayEffect::Reopen && final(self).want_pid == Some(pid)
                    && opt_view(final(self).device_id) == opt_view(old(self).device_id),
                RelayCmd::Stop => effect == RelayEffect::Close && final(self).want_pid is None && opt_view(
                    final(self).device_id,
                ) == opt_view(old(self).device_id),
                RelayCmd::SetDevice(id) => effect == (if old(self).want_pid is Some {
                    RelayEffect::Reopen
                } else {
                    RelayEffect::Nothing
                }) && final(self).want_pid == old(self).want_pid && opt_view(final(self).device_id) == opt_view(id),
            },
    {
        match cmd {
            RelayCmd::Quit => RelayEffect::Quit,
            RelayCmd::Start { pid } => {
                self.want_pid = Some(pid);
                RelayEffect::Reopen
            },
            RelayCmd::Stop => {
                self.want_pid = None;
                RelayEffect::Close
            },
            RelayCmd::SetDevice(id) => {
                self.device_id = id;
                if self.want_pid.is_some() {
                    RelayEffect::Reopen
                } else {
                    RelayEffect::Nothing
                }
            },
        }
    }

    /// The game process to open a relay for now: the chosen one, when no relay
    /// is open and the retry time has come.
    pub fn process_to_open(&self, relay_open: bool, retry_due: bool) -> (r: Option<u32>)
        ensures
            r == (if !relay_open && retry_due { self.want_pid } else { None }),
    {
        if !relay_open && retry_due {
            self.want_pid
        } else {
            None
        }
    }
}

/// Milliseconds the relay worker sleeps between rounds: 5 while relaying, else 30.
pub fn relay_sleep_ms(relay_open: bool) -> (r: u64)
    ensures
        r == (if relay_open { 5u64 } else { 30u64 }),
{
    if relay_open {
        5
    } else {
        30
    }
}

/// The buffer flag of a silent packet (`AUDCLNT_BUFFERFLAGS_SILENT`).
pub const SILENT_FLAG: u32 = 0x2;

/// How a captured packet is passed to the output buffer.
#[derive(Clone, Copy, Debug, PartialEq, Eq, Structural)]
pub struct RelayWrite {
    /// Frames written: the packet's frames, at most the free room of the buffer.
    pub frames: u32,
    /// Bytes copied for those frames.
    pub bytes: u32,
    /// The packet is silence: nothing is copied and the output is marked silent.
    pub silent: bool,
}

pub open spec fn free_frames(buffer_frames: u32, padding: u32) -> int {
    if buffer_frames >= padding { buffer_frames - padding } else { 0 }
}

pub open spec fn write_frames(packet_frames: u32, buffer_frames: u32, padding: u32) -> int {
    if packet_frames <= free_frames(buffer_frames, padding) {
        packet_frames as int
    } else {
        free_frames(buffer_frames, padding)
    }
}

/// Whether the bytes of the frames that `plan_relay_write` would write fit in a `u32`.
pub fn relay_write_fits(packet_frames: u32, buffer_frames: u32, padding: u32, frame_bytes: u32) -> (r: bool)
    ensures
        r == (write_frames(packet_frames, buffer_frames, padding) * frame_bytes <= u32::MAX),
{
    let free = if buffer_frames >= padding { buffer_frames - padding } else { 0 };
    let frames = if packet_frames <= free { packet_frames } else { free };
    proof {
        crate::geometry::lemma_mul_le(frames as int, frame_bytes as int, u32::MAX as int, u32::MAX as int);
    }
    (frames as u64) * (frame_bytes as u64) <= u32::MAX as u64
}

/// How much of a captured packet of `packet_frames` frames fits into an output
/// buffer of `buffer_frames` frames of which `padding` are still queued.
pub fn plan_relay_write(packet_frames: u32, buffer_frames: u32, padding: u32, frame_bytes: u32, flags: u32) -> (r:
    RelayWrite)
    requires
        write_frames(packet_frames, buffer_frames, padding) * frame_bytes <= u32::MAX,
    ensures
        r.frames == write_frames(packet_frames, buffer_frames, padding),
        r.bytes == r.frames * frame_bytes,
        r.silent == (flags & SILENT_FLAG != 0),
{
    let free = if buffer_frames >= padding { buffer_frames - padding } else { 0 };
    let frames = if packet_frames <= free { packet_frames } else { free };
    RelayWrite { frames, bytes: frames * frame_bytes, silent: flags & SILENT_FLAG != 0 }
}

/// The game process to relay: the selected game's, when game audio is sent.
pub fn relay_target(game_audio: bool, selected_pid: Option<u32>) -> (r: Option<u32>)
    ensures
        r == (if game_audio { selected_pid } else { None }),
{
    if game_audio {
        selected_pid
    } else {
        None
    }
}

/// The output device entry for an enumerated device: none without an id; the
/// name of an unreadable name is `unknown_device_name`.
pub fn device_entry(id: String, name: Option<String>) -> (r: Option<OutputDevice>)
    ensures
        id@.len() == 0 ==> r is None,
        id@.len() > 0 ==> (r matches Some(d) && d.id@ == id@ && d.name@ == (match name {
            Some(n) => n@,
            None => unknown_device_name(),
        })),
{
    if id.as_str().is_empty() {
        return None;
    }
    let name = match name {
        Some(n) => n,
        None => String::from_str("(알 수 없음)"),
    };
    Some(OutputDevice { id, name })
}

/// The chosen device, kept only while it is still among `devices`.
pub fn keep_known_device(id: Option<String>, devices: &Vec<OutputDevice>) -> (r: Option<String>)
    ensures
        match id {
            Some(i) => if exists|k: int| 0 <= k < devices.len() && devices@[k].id@ == i@ {
                (r matches Some(j) && j@ == i@)
            } else {
                r is None
            },
            None => r is None,
        },
{
    let wanted = match &id {
        Some(i) => i.clone(),
        None => return None,
    };
    let mut k: usize = 0;
    while k < devices.len()
        invariant
            id matches Some(w) && w@ == wanted@,
            k <= devices.len(),
            forall|j: int| 0 <= j < k ==> devices@[j].id@ != wanted@,
        decreases devices.len() - k,
    {
        if devices[k].id == wanted {
            assert(devices@[k as int].id@ == wanted@);
            return Some(wanted);
        }
        k += 1;
    }
    None
}

/// The name shown for the chosen device: the name of the first listed device
/// with that id, else `default_device_name`.
pub fn device_label(id: &Option<String>, devices: &Vec<OutputDevice>) -> (r: String)
    ensures
        match id {
            Some(i) => if exists|k: int| 0 <= k < devices.len() && devices@[k].id@ == i@ {
                exists|k: int|
                    0 <= k < devices.len() && devices@[k].id@ == i@ && r@ == devices@[k].name@ && forall|j: int|
                        0 <= j < k ==> devices@[j].id@ != i@
            } else {
                r@ == default_device_name()
            },
            None => r@ == default_device_name(),
        },
{
    if let Some(wanted) = id {
        let mut k: usize = 0;
        while k < devices.len()
            invariant
                id matches Some(w) && w@ == wanted@,
                k <= devices.len(),
                forall|j: int| 0 <= j < k ==> devices@[j].id@ != wanted@,
            decreases devices.len() - k,
        {
            if devices[k].id == *wanted {
                assert(devices@[k as int].id@ == wanted@);
                return devices[k].name.clone();
            }
            k += 1;
        }
    }
    String::from_str("기본 출력 장치")
}

/// The volume is set for an audio session of process `pid` when the process
/// is known (`pid != 0`), is not `skip_pid` (this program, which plays the game
/// relay), and belongs to the process tree `tree`.
pub fn applies_tree_volume(pid: u32, skip_pid: u32, tree: &HashSet<u32>) -> (r: bool)
    ensures
        r == (pid != 0 && pid != skip_pid && tree@.contains(pid)),
{
    pid != 0 && pid != skip_pid && tree.contains(&pid)
}

} // verus!
