//! The audio sessions a controller keeps: application streams and devices.
//!
//! A session records what the sound server last acknowledged for it.  The
//! volume is a 32-bit float; the library carries its IEEE-754 bit pattern
//! (`f32::to_bits`) and never interprets it.

use vstd::prelude::*;

verus! {

/// What a session stands for on the sound server.
#[derive(Debug, Clone, Copy, PartialEq, Eq, Structural)]
pub enum SessionKind {
    /// The playback stream of one application.
    Application,
    /// A playback device (a sink).
    OutputDevice,
    /// A capture device (a source).
    InputDevice,
}

/// The server object a volume or mute request for a session goes to.
#[derive(Debug, Clone, Copy, PartialEq, Eq, Structural)]
pub enum SessionTarget {
    /// The sink input (application stream) with this index.
    SinkInput(u32),
    /// The sink with this index.
    Sink(u32),
    /// The source with this index.
    Source(u32),
}

/// The mathematical content of a session.
pub struct SessionView {
    pub kind: SessionKind,
    pub index: u32,
    pub name: Seq<char>,
    pub channels: u8,
    pub volume_bits: u32,
    pub muted: bool,
}

/// The kind of a device session.
pub open spec fn device_kind(is_output: bool) -> SessionKind {
    if is_output {
        SessionKind::OutputDevice
    } else {
        SessionKind::InputDevice
    }
}

/// The server object behind a session of the given kind and index.
pub open spec fn target_of(kind: SessionKind, index: u32) -> SessionTarget {
    match kind {
        SessionKind::Application => SessionTarget::SinkInput(index),
        SessionKind::OutputDevice => SessionTarget::Sink(index),
        SessionKind::InputDevice => SessionTarget::Source(index),
    }
}

/// The number of channels a volume request is made for: the session's
/// channel count, and at least one.
pub open spec fn request_channels(channels: u8) -> u8 {
    if channels == 0 {
        1
    } else {
        channels
    }
}

/// The playback stream of one application.
pub struct LinuxApplicationSession {
    pub index: u32,
    pub name: String,
    pub channels: u8,
    pub volume_bits: u32,
    pub muted: bool,
}

impl View for LinuxApplicationSession {
    type V = SessionView;

    open spec fn view(&self) -> SessionView {
        SessionView {
            kind: SessionKind::Application,
            index: self.index,
            name: self.name@,
            channels: self.channels,
            volume_bits: self.volume_bits,
            muted: self.muted,
        }
    }
}

impl LinuxApplicationSession {
    pub fn new(index: u32, name: String, channels: u8, volume_bits: u32, muted: bool) -> (r: Self)
        ensures
            r@ == (SessionView {
                kind: SessionKind::Application,
                index,
                name: name@,
                channels,
                volume_bits,
                muted,
            }),
    {
        LinuxApplicationSession { index, name, channels, volume_bits, muted }
    }

    pub fn get_name(&self) -> (r: String)
        ensures
            r@ == self@.name,
    {
        self.name.clone()
    }

    pub fn get_mute(&self) -> (r: bool)
        ensures
            r == self@.muted,
    {
        self.muted
    }

    /// Records the mute state that the server acknowledged.
    pub fn set_mute(&mut self, mute: bool)
        ensures
            final(self)@ == (SessionView { muted: mute, ..old(self)@ }),
    {
        self.muted = mute;
    }

    pub fn get_volume_bits(&self) -> (r: u32)
        ensures
            r == self@.volume_bits,
    {
        self.volume_bits
    }

    /// Records the volume that the server acknowledged.
    pub fn set_volume_bits(&mut self, volume_bits: u32)
        ensures
            final(self)@ == (SessionView { volume_bits, ..old(self)@ }),
    {
        self.volume_bits = volume_bits;
    }

    pub fn target(&self) -> (r: SessionTarget)
        ensures
            r == target_of(self@.kind, self@.index),
    {
        SessionTarget::SinkInput(self.index)
    }

    pub fn volume_channels(&self) -> (r: u8)
        ensures
            r == request_channels(self@.channels),
    {
        if self.channels == 0 {
            1
        } else {
            self.channels
        }
    }
}

/// A playback or capture device.
pub struct LinuxDeviceSession {
    pub index: u32,
    pub is_output: bool,
    pub name: String,
    pub channels: u8,
    pub volume_bits: u32,
    pub muted: bool,
}

impl View for LinuxDeviceSession {
    type V = SessionView;

    open spec fn view(&self) -> SessionView {
        SessionView {
            kind: device_kind(self.is_output),
            index: self.index,
            name: self.name@,
            channels: self.channels,
            volume_bits: self.volume_bits,
            muted: self.muted,
        }
    }
}

impl LinuxDeviceSession {
    pub fn new(
        index: u32,
        is_output: bool,
        name: String,
        channels: u8,
        volume_bits: u32,
        muted: bool,
    ) -> (r: Self)
        ensures
            r@ == (SessionView {
                kind: device_kind(is_output),
                index,
                name: name@,
                channels,
                volume_bits,
                muted,
            }),
    {
        LinuxDeviceSession { index, is_output, name, channels, volume_bits, muted }
    }

    pub fn get_name(&self) -> (r: String)
        ensures
            r@ == self@.name,
    {
        self.name.clone()
    }

    pub fn get_mute(&self) -> (r: bool)
        ensures
            r == self@.muted,
    {
        self.muted
    }

    /// Records the mute state that the server acknowledged.
    pub fn set_mute(&mut self, mute: bool)
        ensures
            final(self)@ == (SessionView { muted: mute, ..old(self)@ }),
    {
        self.muted = mute;
    }

    pub fn get_volume_bits(&self) -> (r: u32)
        ensures
            r == self@.volume_bits,
    {
        self.volume_bits
    }

    /// Records the volume that the server acknowledged.
    pub fn set_volume_bits(&mut self, volume_bits: u32)
        ensures
            final(self)@ == (SessionView { volume_bits, ..old(self)@ }),
    {
        self.volume_bits = volume_bits;
    }

    pub fn target(&self) -> (r: SessionTarget)
        ensures
            r == target_of(self@.kind, self@.index),
    {
        if self.is_output {
            SessionTarget::Sink(self.index)
        } else {
            SessionTarget::Source(self.index)
        }
    }

    pub fn volume_channels(&self) -> (r: u8)
        ensures
            r == request_channels(self@.channels),
    {
        if self.channels == 0 {
            1
        } else {
            self.channels
        }
    }
}

/// Either kind of session, as a controller holds them.
pub enum LinuxSession {
    Application(LinuxApplicationSession),
    Device(LinuxDeviceSession),
}

impl View for LinuxSession {
    type V = SessionView;

    open spec fn view(&self) -> SessionView {
        match self {
            LinuxSession::Application(s) => s@,
            LinuxSession::Device(s) => s@,
        }
    }
}

impl LinuxSession {
    pub fn get_name(&self) -> (r: String)
        ensures
            r@ == self@.name,
    {
        match self {
            LinuxSession::Application(s) => s.get_name(),
            LinuxSession::Device(s) => s.get_name(),
        }
    }

    /// The session's name, borrowed.
    pub fn name(&self) -> (r: &str)
        ensures
            r@ == self@.name,
    {
        match self {
            LinuxSession::Application(s) => s.name.as_str(),
            LinuxSession::Device(s) => s.name.as_str(),
        }
    }

    pub fn get_mute(&self) -> (r: bool)
        ensures
            r == self@.muted,
    {
        match self {
            LinuxSession::Application(s) => s.get_mute(),
            LinuxSession::Device(s) => s.get_mute(),
        }
    }

    /// Records the mute state that the server acknowledged.
    pub fn set_mute(&mut self, mute: bool)
        ensures
            final(self)@ == (SessionView { muted: mute, ..old(self)@ }),
    {
        match self {
            LinuxSession::Application(s) => s.set_mute(mute),
            LinuxSession::Device(s) => s.set_mute(mute),
        }
    }

    pub fn get_volume_bits(&self) -> (r: u32)
        ensures
            r == self@.volume_bits,
    {
        match self {
            LinuxSession::Application(s) => s.get_volume_bits(),
            LinuxSession::Device(s) => s.get_volume_bits(),
        }
    }

    /// Records the volume that the server acknowledged.
    pub fn set_volume_bits(&mut self, volume_bits: u32)
        ensures
            final(self)@ == (SessionView { volume_bits, ..old(self)@ }),
    {
        match self {
            LinuxSession::Application(s) => s.set_volume_bits(volume_bits),
            LinuxSession::Device(s) => s.set_volume_bits(volume_bits),
        }
    }

    pub fn target(&self) -> (r: SessionTarget)
        ensures
            r == target_of(self@.kind, self@.index),
    {
        match self {
            LinuxSession::Application(s) => s.target(),
            LinuxSession::Device(s) => s.target(),
        }
    }

    pub fn volume_channels(&self) -> (r: u8)
        ensures
            r == request_channels(self@.channels),
    {
        match self {
            LinuxSession::Application(s) => s.volume_channels(),
            LinuxSession::Device(s) => s.volume_channels(),
        }
    }
}


/// A volume request is made for every channel a session has, and for one
/// channel when it reports none.
pub proof fn lemma_request_channels(channels: u8)
    ensures
        channels > 0 ==> request_channels(channels) == channels,
        channels == 0 ==> request_channels(channels) == 1,
        request_channels(channels) >= 1,
{
}

/// Sessions of different kinds, or of different indices, stand for
/// different server objects; an output device is a sink, an input device a
/// source, and an application stream a sink input, each under its own index.
pub proof fn lemma_targets_distinct(k1: SessionKind, i1: u32, k2: SessionKind, i2: u32)
    ensures
        target_of(k1, i1) == target_of(k2, i2) ==> k1 == k2 && i1 == i2,
        target_of(device_kind(true), i1) == SessionTarget::Sink(i1),
        target_of(device_kind(false), i1) == SessionTarget::Source(i1),
        target_of(SessionKind::Application, i1) == SessionTarget::SinkInput(i1),
{
}

} // verus!
