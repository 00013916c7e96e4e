//! The session list of a volume controller and the rules by which it is
//! filled from what the sound server reports.

use vstd::prelude::*;
use crate::listing::{
    device_names_in, first_position_of, input_device_names_in, lemma_filter_step,
    lemma_name_positions_step, name_positions, name_positions_below, output_device_names_in,
    positions_of, string_views,
};
use crate::naming::{
    application_session_name, application_session_name_of, default_alias, default_alias_of,
    default_device_session_name, default_device_session_name_of, default_fallback,
    default_fallback_of, description_or, description_or_fallback, device_label,
    device_session_name, device_session_name_of, is_device_name, is_input_device_name,
    is_monitor_source, is_monitor_source_of, is_output_device_name, lemma_default_names,
    lemma_application_name_used_whole, lemma_default_name_keeps_description, lemma_device_name_classes, lemma_listed_name_keeps_description,
    lemma_listed_names, lemma_monitor_by_suffix, listed_fallback, listed_fallback_of, opt_view,
};
use crate::session::{
    device_kind, LinuxApplicationSession, LinuxDeviceSession, LinuxSession, SessionKind,
    SessionView,
};
use crate::text::string_eq;
use crate::CoinitMode;

verus! {

/// A playback or capture device as the sound server describes it.
pub struct DeviceReport {
    /// The server's index of the device.
    pub index: u32,
    /// The server-side name of the device.
    pub name: Option<String>,
    /// The human-readable description of the device.
    pub description: Option<String>,
    pub channels: u8,
    /// The device's volume, as the bit pattern of an `f32`.
    pub volume_bits: u32,
    pub muted: bool,
}

/// The mathematical content of a `DeviceReport`.
pub struct DeviceReportView {
    pub index: u32,
    pub name: Option<Seq<char>>,
    pub description: Option<Seq<char>>,
    pub channels: u8,
    pub volume_bits: u32,
    pub muted: bool,
}

impl View for DeviceReport {
    type V = DeviceReportView;

    open spec fn view(&self) -> DeviceReportView {
        DeviceReportView {
            index: self.index,
            name: opt_view(self.name),
            description: opt_view(self.description),
            channels: self.channels,
            volume_bits: self.volume_bits,
            muted: self.muted,
        }
    }
}

/// An application's playback stream as the sound server describes it.
pub struct StreamReport {
    /// The server's index of the stream.
    pub index: u32,
    /// Whether the stream belongs to a client (loopback and other system
    /// streams do not).
    pub has_client: bool,
    /// The stream's `application.name` property.
    pub application_name: Option<String>,
    /// The name of the stream's process as read from the system, when it
    /// was looked up (see `needs_process_lookup`).
    pub process_name: Option<String>,
    pub channels: u8,
    /// The stream's volume, as the bit pattern of an `f32`.
    pub volume_bits: u32,
    pub muted: bool,
}

/// The mathematical content of a `StreamReport`.
pub struct StreamReportView {
    pub index: u32,
    pub has_client: bool,
    pub application_name: Option<Seq<char>>,
    pub process_name: Option<Seq<char>>,
    pub channels: u8,
    pub volume_bits: u32,
    pub muted: bool,
}

impl View for StreamReport {
    type V = StreamReportView;

    open spec fn view(&self) -> StreamReportView {
        StreamReportView {
            index: self.index,
            has_client: self.has_client,
            application_name: opt_view(self.application_name),
            process_name: opt_view(self.process_name),
            channels: self.channels,
            volume_bits: self.volume_bits,
            muted: self.muted,
        }
    }
}

/// The view of an optional device report.
pub open spec fn opt_report(r: Option<DeviceReport>) -> Option<DeviceReportView> {
    match r {
        Some(r) => Some(r@),
        None => None,
    }
}

/// The mathematical content of an `AudioController`.
pub struct ControllerView {
    pub sessions: Seq<SessionView>,
    pub default_output_index: Option<u32>,
    pub default_input_index: Option<u32>,
}

/// The session of a device, under the given name.
pub open spec fn device_session(r: DeviceReportView, is_output: bool, name: Seq<char>) -> SessionView {
    SessionView {
        kind: device_kind(is_output),
        index: r.index,
        name,
        channels: r.channels,
        volume_bits: r.volume_bits,
        muted: r.muted,
    }
}

/// The sessions added for the default device: one under its labelled name,
/// one under its short alias; none when the server reported no default.
pub open spec fn default_device_sessions(r: Option<DeviceReportView>, is_output: bool) -> Seq<
    SessionView,
> {
    match r {
        Some(r) => seq![
            device_session(
                r,
                is_output,
                default_device_session_name(
                    is_output,
                    description_or(r.description, default_fallback(is_output)),
                ),
            ),
            device_session(r, is_output, default_alias(is_output)),
        ],
        None => Seq::empty(),
    }
}

/// The default index after the default device was queried.
pub open spec fn new_default_index(r: Option<DeviceReportView>, old: Option<u32>) -> Option<u32> {
    match r {
        Some(r) => Some(r.index),
        None => old,
    }
}

/// The session of a listed (non-default) device.
pub open spec fn listed_device_session(r: DeviceReportView, is_output: bool) -> SessionView {
    device_session(
        r,
        is_output,
        device_session_name(is_output, description_or(r.description, listed_fallback(is_output))),
    )
}

/// Whether a listed device gets a session: it is not the default device of
/// its direction, and, for a source, not a monitor of a sink.
pub open spec fn kept_device(r: DeviceReportView, default_index: Option<u32>, is_output: bool) -> bool {
    Some(r.index) != default_index && (is_output || !is_monitor_source(r.name))
}

/// The sessions added for the listed devices of one direction, in the
/// server's order.
pub open spec fn listed_device_sessions(
    reports: Seq<DeviceReportView>,
    default_index: Option<u32>,
    is_output: bool,
) -> Seq<SessionView> {
    reports.filter(|r: DeviceReportView| kept_device(r, default_index, is_output)).map_values(
        |r: DeviceReportView| listed_device_session(r, is_output),
    )
}

/// Whether an application stream gets a session: it belongs to a client.
pub open spec fn kept_stream(s: StreamReportView) -> bool {
    s.has_client
}

/// The session of an application stream.
pub open spec fn stream_session(s: StreamReportView) -> SessionView {
    SessionView {
        kind: SessionKind::Application,
        index: s.index,
        name: application_session_name(s.application_name, s.process_name),
        channels: s.channels,
        volume_bits: s.volume_bits,
        muted: s.muted,
    }
}

/// The sessions added for the application streams, in the server's order.
pub open spec fn stream_sessions(streams: Seq<StreamReportView>) -> Seq<SessionView> {
    streams.filter(|s: StreamReportView| kept_stream(s)).map_values(
        |s: StreamReportView| stream_session(s),
    )
}

/// The names of the sessions, in order.
pub open spec fn session_names(sessions: Seq<SessionView>) -> Seq<Seq<char>> {
    sessions.map_values(|s: SessionView| s.name)
}

/// The sessions that carry the given name, in order.
pub open spec fn sessions_named(sessions: Seq<SessionView>, name: Seq<char>) -> Seq<SessionView> {
    sessions.filter(|s: SessionView| s.name == name)
}

/// `i` is the first position of a session with the given name.
pub open spec fn is_first_named(sessions: Seq<SessionView>, name: Seq<char>, i: int) -> bool {
    &&& 0 <= i < sessions.len()
    &&& sessions[i].name == name
    &&& forall|j: int| 0 <= j < i ==> sessions[j].name != name
}

/// No session has the given name.
pub open spec fn none_named(sessions: Seq<SessionView>, name: Seq<char>) -> bool {
    forall|j: int| 0 <= j < sessions.len() ==> sessions[j].name != name
}

/// One more element of a sequence, filtered and mapped.
pub proof fn lemma_filter_map_step<A, B>(
    s: Seq<A>,
    p: spec_fn(A) -> bool,
    f: spec_fn(A) -> B,
    i: int,
)
    requires
        0 <= i < s.len(),
    ensures
        s.take(i + 1).filter(p).map_values(f) == (if p(s[i]) {
            s.take(i).filter(p).map_values(f).push(f(s[i]))
        } else {
            s.take(i).filter(p).map_values(f)
        }),
{
    reveal(Seq::filter);
    assert(s.take(i + 1).drop_last() =~= s.take(i));
    assert(s.take(i + 1).last() == s[i]);
    if p(s[i]) {
        assert(s.take(i + 1).filter(p).map_values(f) =~= s.take(i).filter(p).map_values(f).push(
            f(s[i]),
        ));
    }
}

/// The positions of the sessions that carry the given name, in order.
pub open spec fn positions_named(sessions: Seq<SessionView>, name: Seq<char>) -> Seq<int> {
    name_positions(session_names(sessions), name)
}

/// The session list of a volume controller.
pub struct AudioController {
    sessions: Vec<LinuxSession>,
    default_output_index: Option<u32>,
    default_input_index: Option<u32>,
}

impl View for AudioController {
    type V = ControllerView;

    closed spec fn view(&self) -> ControllerView {
        ControllerView {
            sessions: self.sessions@.map_values(|s: LinuxSession| s@),
            default_output_index: self.default_output_index,
            default_input_index: self.default_input_index,
        }
    }
}

impl AudioController {
    /// A controller with no sessions and no known default devices.  The
    /// COM initialisation mode matters only to the Windows backend.
    pub fn init(coinit_mode: Option<CoinitMode>) -> (r: Self)
        ensures
            r@.sessions == Seq::<SessionView>::empty(),
            r@.default_output_index is None,
            r@.default_input_index is None,
    {
        let r = AudioController {
            sessions: Vec::new(),
            default_output_index: None,
            default_input_index: None,
        };
        assert(r@.sessions =~= Seq::<SessionView>::empty());
        r
    }

    /// The number of sessions.
    pub fn session_count(&self) -> (r: usize)
        ensures
            r == self@.sessions.len(),
    {
        self.sessions.len()
    }

    fn push_session(&mut self, s: LinuxSession)
        ensures
            final(self)@ == (ControllerView { sessions: old(self)@.sessions.push(s@), ..old(self)@ }),
    {
        self.sessions.push(s);
        assert(self@.sessions =~= old(self)@.sessions.push(s@));
    }

    /// Adds the sessions of the default device of one direction and
    /// remembers its index.
    fn record_default_device(&mut self, report: Option<DeviceReport>, is_output: bool)
        ensures
            final(self)@.sessions == old(self)@.sessions + default_device_sessions(
                opt_report(report),
                is_output,
            ),
            final(self)@.default_output_index == (if is_output {
                new_default_index(opt_report(report), old(self)@.default_output_index)
            } else {
                old(self)@.default_output_index
            }),
            final(self)@.default_input_index == (if is_output {
                old(self)@.default_input_index
            } else {
                new_default_index(opt_report(report), old(self)@.default_input_index)
            }),
    {
        match report {
            Some(r) => {
                if is_output {
                    self.default_output_index = Some(r.index);
                } else {
                    self.default_input_index = Some(r.index);
                }
                let description = description_or_fallback(&r.description, default_fallback_of(is_output));
                let name = default_device_session_name_of(is_output, description.as_str());
                let ghost before = self@.sessions;
                let main = LinuxDeviceSession::new(
                    r.index,
                    is_output,
                    name,
                    r.channels,
                    r.volume_bits,
                    r.muted,
                );
                self.push_session(LinuxSession::Device(main));
                let alias = LinuxDeviceSession::new(
                    r.index,
                    is_output,
                    default_alias_of(is_output),
                    r.channels,
                    r.volume_bits,
                    r.muted,
                );
                self.push_session(LinuxSession::Device(alias));
                assert(self@.sessions =~= before + default_device_sessions(Some(r@), is_output));
            },
            None => {
                assert(self@.sessions =~= old(self)@.sessions + Seq::<SessionView>::empty());
            },
        }
    }

    /// Adds a session for each application stream that belongs to a client,
    /// in the server's order, named by `application_session_name`.
    pub fn get_all_process_sessions(&mut self, streams: Vec<StreamReport>)
        ensures
            final(self)@.sessions == old(self)@.sessions + stream_sessions(
                streams@.map_values(|s: StreamReport| s@),
            ),
            final(self)@.default_output_index == old(self)@.default_output_index,
            final(self)@.default_input_index == old(self)@.default_input_index,
    {
        let ghost base = self@.sessions;
        let ghost sv = streams@.map_values(|s: StreamReport| s@);
        let n = streams.len();
        assert(sv.take(0).filter(|s: StreamReportView| kept_stream(s)) =~= Seq::<StreamReportView>::empty()) by {
            reveal(Seq::filter);
        }
        assert(self@.sessions =~= base + stream_sessions(sv.take(0)));
        for i in 0..n
            invariant
                n == streams.len(),
                sv == streams@.map_values(|s: StreamReport| s@),
                self@.sessions == base + stream_sessions(sv.take(i as int)),
                self@.default_output_index == old(self)@.default_output_index,
                self@.default_input_index == old(self)@.default_input_index,
        {
            let s = &streams[i];
            proof {
                lemma_filter_map_step(
                    sv,
                    |s: StreamReportView| kept_stream(s),
                    |s: StreamReportView| stream_session(s),
                    i as int,
                );
            }
            if s.has_client {
                let name = application_session_name_of(&s.application_name, &s.process_name);
                let session = LinuxApplicationSession::new(
                    s.index,
                    name,
                    s.channels,
                    s.volume_bits,
                    s.muted,
                );
                self.push_session(LinuxSession::Application(session));
                assert(self@.sessions =~= base + stream_sessions(sv.take(i + 1)));
            }
        }
        assert(sv.take(n as int) =~= sv);
    }

    /// Adds a session for each listed device of one direction that is kept
    /// (see `kept_device`), in the server's order.
    fn record_listed_devices(&mut self, reports: Vec<DeviceReport>, is_output: bool)
        ensures
            final(self)@.sessions == old(self)@.sessions + listed_device_sessions(
                reports@.map_values(|r: DeviceReport| r@),
                if is_output {
                    old(self)@.default_output_index
                } else {
                    old(self)@.default_input_index
                },
                is_output,
            ),
            final(self)@.default_output_index == old(self)@.default_output_index,
            final(self)@.default_input_index == old(self)@.default_input_index,
    {
        let default_index = if is_output {
            self.default_output_index
        } else {
            self.default_input_index
        };
        let ghost base = self@.sessions;
        let ghost rv = reports@.map_values(|r: DeviceReport| r@);
        let n = reports.len();
        assert(rv.take(0).filter(|r: DeviceReportView| kept_device(r, default_index, is_output))
            =~= Seq::<DeviceReportView>::empty()) by {
            reveal(Seq::filter);
        }
        assert(self@.sessions =~= base + listed_device_sessions(rv.take(0), default_index, is_output));
        for i in 0..n
            invariant
                n == reports.len(),
                rv == reports@.map_values(|r: DeviceReport| r@),
                self@.sessions == base + listed_device_sessions(
                    rv.take(i as int),
                    default_index,
                    is_output,
                ),
                self@.default_output_index == old(self)@.default_output_index,
                self@.default_input_index == old(self)@.default_input_index,
        {
            let r = &reports[i];
            proof {
                lemma_filter_map_step(
                    rv,
                    |r: DeviceReportView| kept_device(r, default_index, is_output),
                    |r: DeviceReportView| listed_device_session(r, is_output),
                    i as int,
                );
            }
            let is_default = match default_index {
                Some(d) => d == r.index,
                None => false,
            };
            if !is_default && (is_output || !is_monitor_source_of(&r.name)) {
                let description = description_or_fallback(&r.description, listed_fallback_of(is_output));
                let name = device_session_name_of(is_output, description.as_str());
                let session = LinuxDeviceSession::new(
                    r.index,
                    is_output,
                    name,
                    r.channels,
                    r.volume_bits,
                    r.muted,
                );
                self.push_session(LinuxSession::Device(session));
                assert(self@.sessions =~= base + listed_device_sessions(
                    rv.take(i + 1),
                    default_index,
                    is_output,
                ));
            }
        }
        assert(rv.take(n as int) =~= rv);
    }

    /// Adds a session for each listed sink that is not the default output,
    /// then for each listed source that is neither the default input nor a
    /// monitor, each in the server's order.
    pub fn get_all_audio_devices(&mut self, sinks: Vec<DeviceReport>, sources: Vec<DeviceReport>)
        ensures
            final(self)@.sessions == old(self)@.sessions + listed_device_sessions(
                sinks@.map_values(|r: DeviceReport| r@),
                old(self)@.default_output_index,
                true,
            ) + listed_device_sessions(
                sources@.map_values(|r: DeviceReport| r@),
                old(self)@.default_input_index,
                false,
            ),
            final(self)@.default_output_index == old(self)@.default_output_index,
            final(self)@.default_input_index == old(self)@.default_input_index,
    {
        self.record_listed_devices(sinks, true);
        self.record_listed_devices(sources, false);
    }

    /// The names of all sessions, in order.
    pub fn get_all_session_names(&self) -> (r: Vec<String>)
        ensures
            string_views(r@) == session_names(self@.sessions),
    {
        let mut r: Vec<String> = Vec::new();
        let n = self.sessions.len();
        for i in 0..n
            invariant
                n == self.sessions@.len(),
                string_views(r@) == session_names(self@.sessions).take(i as int),
        {
            let name = self.sessions[i].get_name();
            assert(session_names(self@.sessions)[i as int] == name@);
            let ghost old_r = r@;
            r.push(name);
            assert(string_views(r@) =~= string_views(old_r).push(name@));
            assert(session_names(self@.sessions).take(i + 1) =~= session_names(self@.sessions).take(
                i as int,
            ).push(name@));
            assert(string_views(r@) =~= session_names(self@.sessions).take(i + 1));
        }
        assert(session_names(self@.sessions).take(n as int) =~= session_names(self@.sessions));
        r
    }

    /// The names of the device sessions, in order: those that begin with
    /// `"input: "` or `"output: "`.
    pub fn get_all_device_names(&self) -> (r: Vec<String>)
        ensures
            string_views(r@) == session_names(self@.sessions).filter(
                |n: Seq<char>| is_device_name(n),
            ),
    {
        device_names_in(&self.get_all_session_names())
    }

    /// The names of the output device sessions, in order: those that begin
    /// with `"output: "`.
    pub fn get_output_device_names(&self) -> (r: Vec<String>)
        ensures
            string_views(r@) == session_names(self@.sessions).filter(
                |n: Seq<char>| is_output_device_name(n),
            ),
    {
        output_device_names_in(&self.get_all_session_names())
    }

    /// The names of the input device sessions, in order: those that begin
    /// with `"input: "`.
    pub fn get_input_device_names(&self) -> (r: Vec<String>)
        ensures
            string_views(r@) == session_names(self@.sessions).filter(
                |n: Seq<char>| is_input_device_name(n),
            ),
    {
        input_device_names_in(&self.get_all_session_names())
    }

    /// The sessions named `name`, in order.
    pub fn get_sessions_by_name(&self, name: String) -> (r: Vec<&LinuxSession>)
        ensures
            r@.map_values(|s: &LinuxSession| s@) == sessions_named(self@.sessions, name@),
    {
        let mut r: Vec<&LinuxSession> = Vec::new();
        let n = self.sessions.len();
        let ghost all = self@.sessions;
        assert(all.take(0).filter(|s: SessionView| s.name == name@) =~= Seq::<SessionView>::empty()) by {
            reveal(Seq::filter);
        }
        for i in 0..n
            invariant
                n == self.sessions@.len(),
                all == self@.sessions,
                r@.map_values(|s: &LinuxSession| s@) == all.take(i as int).filter(
                    |s: SessionView| s.name == name@,
                ),
        {
            proof {
                lemma_filter_step(all, |s: SessionView| s.name == name@, i as int);
            }
            let s = &self.sessions[i];
            assert(all[i as int] == s@);
            if string_eq(s.name(), name.as_str()) {
                let ghost old_r = r@;
                r.push(s);
                assert(r@.map_values(|s: &LinuxSession| s@) =~= old_r.map_values(
                    |s: &LinuxSession| s@,
                ).push(s@));
            }
        }
        assert(all.take(n as int) =~= all);
        r
    }

    /// The position of the first session named `name`, if any.
    pub fn position_of_session(&self, name: &str) -> (r: Option<usize>)
        ensures
            match r {
                Some(i) => is_first_named(self@.sessions, name@, i as int),
                None => none_named(self@.sessions, name@),
            },
    {
        let names = self.get_all_session_names();
        let r = first_position_of(&names, name);
        proof {
            let sv = self@.sessions;
            let nv = string_views(names@);
            assert(nv == session_names(sv));
            assert forall|j: int| 0 <= j < sv.len() implies #[trigger] sv[j].name == nv[j] by {
                assert(session_names(sv)[j] == sv[j].name);
            }
        }
        r
    }

    /// The first session named `name`, if any.
    pub fn get_session_by_name(&self, name: String) -> (r: Option<&LinuxSession>)
        ensures
            match r {
                Some(s) => exists|i: int|
                    is_first_named(self@.sessions, name@, i) && s@ == self@.sessions[i],
                None => none_named(self@.sessions, name@),
            },
    {
        match self.position_of_session(name.as_str()) {
            Some(i) => {
                assert(self@.sessions[i as int] == self.sessions@[i as int]@);
                Some(&self.sessions[i])
            },
            None => None,
        }
    }

    /// The positions of the sessions named `name`, in order.
    pub fn session_positions(&self, name: &str) -> (r: Vec<usize>)
        ensures
            r@.map_values(|i: usize| i as int) == positions_named(self@.sessions, name@),
    {
        let names = self.get_all_session_names();
        positions_of(&names, name)
    }

    /// The session at a position.
    pub fn session_at(&self, position: usize) -> (r: &LinuxSession)
        requires
            position < self@.sessions.len(),
        ensures
            r@ == self@.sessions[position as int],
    {
        &self.sessions[position]
    }

    /// Records the mute state that the server acknowledged for the session
    /// at a position.
    pub fn set_session_mute(&mut self, position: usize, mute: bool)
        requires
            position < old(self)@.sessions.len(),
        ensures
            final(self)@.sessions == old(self)@.sessions.update(
                position as int,
                SessionView { muted: mute, ..old(self)@.sessions[position as int] },
            ),
            final(self)@.default_output_index == old(self)@.default_output_index,
            final(self)@.default_input_index == old(self)@.default_input_index,
    {
        self.sessions[position].set_mute(mute);
        assert(self@.sessions =~= old(self)@.sessions.update(
            position as int,
            SessionView { muted: mute, ..old(self)@.sessions[position as int] },
        ));
    }

    /// Records the volume that the server acknowledged for the session at a
    /// position.
    pub fn set_session_volume_bits(&mut self, position: usize, volume_bits: u32)
        requires
            position < old(self)@.sessions.len(),
        ensures
            final(self)@.sessions == old(self)@.sessions.update(
                position as int,
                SessionView { volume_bits, ..old(self)@.sessions[position as int] },
            ),
            final(self)@.default_output_index == old(self)@.default_output_index,
            final(self)@.default_input_index == old(self)@.default_input_index,
    {
        self.sessions[position].set_volume_bits(volume_bits);
        assert(self@.sessions =~= old(self)@.sessions.update(
            position as int,
            SessionView { volume_bits, ..old(self)@.sessions[position as int] },
        ));
    }

    /// Does nothing: the sound server connection is ready once the
    /// controller exists.
    pub fn get_sessions(&mut self)
        ensures
            final(self)@ == old(self)@,
    {
    }

    /// Adds the sessions of the default output and input devices, as the
    /// server reported them (`None` when it reported none), and remembers
    /// their indices.  Each default device gets two sessions: one under its
    /// labelled name and one under its alias (`"master"`, `"mic"`).
    pub fn get_default_audio_endpoint_volume_control(
        &mut self,
        default_sink: Option<DeviceReport>,
        default_source: Option<DeviceReport>,
    )
        ensures
            final(self)@.sessions == old(self)@.sessions + default_device_sessions(
                opt_report(default_sink),
                true,
            ) + default_device_sessions(opt_report(default_source), false),
            final(self)@.default_output_index == new_default_index(
                opt_report(default_sink),
                old(self)@.default_output_index,
            ),
            final(self)@.default_input_index == new_default_index(
                opt_report(default_source),
                old(self)@.default_input_index,
            ),
    {
        self.record_default_device(default_sink, true);
        self.record_default_device(default_source, false);
    }
}


proof fn lemma_named_empty(sessions: Seq<SessionView>, name: Seq<char>)
    ensures
        none_named(sessions, name) <==> sessions_named(sessions, name).len() == 0,
    decreases sessions.len(),
{
    reveal(Seq::filter);
    if sessions.len() > 0 {
        let init = sessions.drop_last();
        lemma_named_empty(init, name);
        assert(forall|j: int| 0 <= j < init.len() ==> init[j] == sessions[j]);
        if none_named(sessions, name) {
            assert(sessions[sessions.len() - 1].name != name);
        }
    }
}

proof fn lemma_first_named_head(sessions: Seq<SessionView>, name: Seq<char>, i: int)
    requires
        is_first_named(sessions, name, i),
    ensures
        sessions_named(sessions, name).len() > 0,
        sessions_named(sessions, name)[0] == sessions[i],
    decreases sessions.len(),
{
    reveal(Seq::filter);
    let init = sessions.drop_last();
    assert(forall|j: int| 0 <= j < init.len() ==> init[j] == sessions[j]);
    if i < sessions.len() - 1 {
        assert(is_first_named(init, name, i));
        lemma_first_named_head(init, name, i);
    } else {
        assert(none_named(init, name));
        lemma_named_empty(init, name);
    }
}

/// Looking a session up by name agrees with listing the sessions of that
/// name: there is none exactly when the list is empty, and the first
/// session of that name heads the list.
pub proof fn lemma_lookup_agrees(sessions: Seq<SessionView>, name: Seq<char>)
    ensures
        none_named(sessions, name) <==> sessions_named(sessions, name).len() == 0,
        forall|i: int|
            is_first_named(sessions, name, i) ==> sessions_named(sessions, name)[0]
                == sessions[i],
{
    lemma_named_empty(sessions, name);
    assert forall|i: int| is_first_named(sessions, name, i) implies sessions_named(
        sessions,
        name,
    )[0] == sessions[i] by {
        lemma_first_named_head(sessions, name, i);
    }
}

proof fn lemma_positions_prefix(sessions: Seq<SessionView>, name: Seq<char>, k: int)
    requires
        0 <= k <= sessions.len(),
    ensures
        name_positions_below(session_names(sessions), name, k).map_values(|i: int| sessions[i])
            == sessions.take(k).filter(|s: SessionView| s.name == name),
        forall|j: int|
            0 <= j < name_positions_below(session_names(sessions), name, k).len() ==> 0
                <= #[trigger] name_positions_below(session_names(sessions), name, k)[j] < k,
    decreases k,
{
    reveal(Seq::filter);
    if k > 0 {
        lemma_positions_prefix(sessions, name, k - 1);
        assert(sessions.take(k).drop_last() =~= sessions.take(k - 1));
        let names = session_names(sessions);
        let pf = name_positions_below(names, name, k - 1);
        assert(names[k - 1] == sessions[k - 1].name);
        lemma_name_positions_step(names, name, k);
        if sessions[k - 1].name == name {
            assert(pf.push(k - 1).map_values(|i: int| sessions[i]) =~= pf.map_values(
                |i: int| sessions[i],
            ).push(sessions[k - 1]));
        }
    }
}

/// The positions of the sessions of a name are valid positions, and the
/// sessions there are exactly the sessions of that name, in order.
pub proof fn lemma_positions_name_sessions(sessions: Seq<SessionView>, name: Seq<char>)
    ensures
        positions_named(sessions, name).map_values(|i: int| sessions[i]) == sessions_named(
            sessions,
            name,
        ),
        forall|j: int|
            0 <= j < positions_named(sessions, name).len() ==> 0 <= #[trigger] positions_named(
                sessions,
                name,
            )[j] < sessions.len(),
{
    lemma_positions_prefix(sessions, name, sessions.len() as int);
    assert(sessions.take(sessions.len() as int) =~= sessions);
}

/// A default device gets two sessions that stand for the same server object
/// and state: the first under a device name of its direction, the second
/// under an alias that is no device name.
pub proof fn lemma_default_device_sessions(r: DeviceReportView, is_output: bool)
    ensures
        default_device_sessions(Some(r), is_output).len() == 2,
        forall|k: int|
            0 <= k < 2 ==> {
                let s = #[trigger] default_device_sessions(Some(r), is_output)[k];
                &&& s.kind == device_kind(is_output)
                &&& s.index == r.index
                &&& s.channels == r.channels
                &&& s.volume_bits == r.volume_bits
                &&& s.muted == r.muted
            },
        device_label(is_output).is_prefix_of(default_device_sessions(Some(r), is_output)[0].name),
        !is_device_name(default_device_sessions(Some(r), is_output)[1].name),
{
    lemma_default_names(is_output, description_or(r.description, default_fallback(is_output)));
}

/// Every session added for listed devices stands for a device of the given
/// direction that is not the default one, under a device name of that
/// direction.
pub proof fn lemma_listed_device_sessions(
    reports: Seq<DeviceReportView>,
    default_index: Option<u32>,
    is_output: bool,
)
    ensures
        forall|k: int|
            0 <= k < listed_device_sessions(reports, default_index, is_output).len() ==> {
                let s = #[trigger] listed_device_sessions(reports, default_index, is_output)[k];
                &&& Some(s.index) != default_index
                &&& s.kind == device_kind(is_output)
                &&& device_label(is_output).is_prefix_of(s.name)
            },
{
    let kept = reports.filter(|r: DeviceReportView| kept_device(r, default_index, is_output));
    assert forall|k: int|
        0 <= k < listed_device_sessions(reports, default_index, is_output).len() implies {
        let s = #[trigger] listed_device_sessions(reports, default_index, is_output)[k];
        &&& Some(s.index) != default_index
        &&& s.kind == device_kind(is_output)
        &&& device_label(is_output).is_prefix_of(s.name)
    } by {
        reports.lemma_filter_pred(|r: DeviceReportView| kept_device(r, default_index, is_output), k);
        let r = kept[k];
        lemma_listed_names(is_output, description_or(r.description, listed_fallback(is_output)));
    }
}


/// Once the default devices are recorded, a session can be found under the
/// alias of each default device that the server reported (`"master"` for
/// the output, `"mic"` for the input), whatever sessions came before.
pub proof fn lemma_default_aliases_found(
    before: Seq<SessionView>,
    default_sink: Option<DeviceReportView>,
    default_source: Option<DeviceReportView>,
)
    ensures
        default_sink is Some ==> !none_named(
            before + default_device_sessions(default_sink, true) + default_device_sessions(
                default_source,
                false,
            ),
            default_alias(true),
        ),
        default_source is Some ==> !none_named(
            before + default_device_sessions(default_sink, true) + default_device_sessions(
                default_source,
                false,
            ),
            default_alias(false),
        ),
{
    let out = default_device_sessions(default_sink, true);
    let inp = default_device_sessions(default_source, false);
    let all = before + out + inp;
    if default_sink is Some {
        let k: int = before.len() as int + 1;
        assert(all[k] == out[1]);
    }
    if default_source is Some {
        let k: int = before.len() as int + out.len() as int + 1;
        assert(all[k] == inp[1]);
    }
}


/// The sessions that carry a device name of the given direction and stand
/// for the server object with index `k`.
pub open spec fn device_sessions_at(sessions: Seq<SessionView>, is_output: bool, k: u32) -> Seq<
    SessionView,
> {
    sessions.filter(|s: SessionView| device_label(is_output).is_prefix_of(s.name) && s.index == k)
}

/// No two reports carry the same index.
pub open spec fn distinct_indices(reports: Seq<DeviceReportView>) -> bool {
    forall|i: int, j: int|
        0 <= i < reports.len() && 0 <= j < reports.len() && i != j ==> reports[i].index
            != reports[j].index
}

/// The session list of a new controller after the default devices were
/// recorded and then all devices listed, as the contracts of `init`,
/// `get_default_audio_endpoint_volume_control` and `get_all_audio_devices`
/// give it.
pub open spec fn sessions_after_listing(
    default_sink: Option<DeviceReportView>,
    default_source: Option<DeviceReportView>,
    sinks: Seq<DeviceReportView>,
    sources: Seq<DeviceReportView>,
) -> Seq<SessionView> {
    Seq::<SessionView>::empty() + default_device_sessions(default_sink, true)
        + default_device_sessions(default_source, false) + listed_device_sessions(
        sinks,
        new_default_index(default_sink, None),
        true,
    ) + listed_device_sessions(sources, new_default_index(default_source, None), false)
}

/// How many listed reports are kept and carry index `k`.
spec fn kept_count_at(
    reports: Seq<DeviceReportView>,
    default_index: Option<u32>,
    is_output: bool,
    k: u32,
) -> nat
    decreases reports.len(),
{
    if reports.len() == 0 {
        0
    } else {
        kept_count_at(reports.drop_last(), default_index, is_output, k) + (if kept_device(
            reports.last(),
            default_index,
            is_output,
        ) && reports.last().index == k {
            1nat
        } else {
            0nat
        })
    }
}

/// A name labelled for one direction is not labelled for the other.
proof fn lemma_label_exclusive(n: Seq<char>, x: bool)
    requires
        device_label(x).is_prefix_of(n),
    ensures
        !device_label(!x).is_prefix_of(n),
{
    lemma_device_name_classes(n);
}

proof fn lemma_default_class(dx: Option<DeviceReportView>, x: bool, o: bool, k: u32)
    ensures
        device_sessions_at(default_device_sessions(dx, x), o, k) == (if x == o && dx is Some
            && dx->0.index == k {
            seq![default_device_sessions(dx, x)[0]]
        } else {
            Seq::<SessionView>::empty()
        }),
{
    reveal_with_fuel(Seq::filter, 3);
    let d = default_device_sessions(dx, x);
    match dx {
        Some(r) => {
            lemma_default_names(x, description_or(r.description, default_fallback(x)));
            lemma_device_name_classes(d[1].name);
            if x != o {
                lemma_label_exclusive(d[0].name, x);
                assert(!device_label(o).is_prefix_of(d[0].name));
            }
            assert(!device_label(o).is_prefix_of(d[1].name));
            assert(d.drop_last().drop_last() =~= Seq::<SessionView>::empty());
            assert(d.drop_last() =~= seq![d[0]]);
            assert(device_sessions_at(d, o, k) =~= (if x == o && r.index == k {
                seq![d[0]]
            } else {
                Seq::<SessionView>::empty()
            }));
        },
        None => {
            assert(device_sessions_at(d, o, k) =~= Seq::<SessionView>::empty());
        },
    }
}

proof fn lemma_listed_class(
    reports: Seq<DeviceReportView>,
    default_index: Option<u32>,
    x: bool,
    o: bool,
    k: u32,
)
    ensures
        device_sessions_at(listed_device_sessions(reports, default_index, x), o, k).len() == (if x
            == o {
            kept_count_at(reports, default_index, x, k)
        } else {
            0
        }),
    decreases reports.len(),
{
    reveal(Seq::filter);
    if reports.len() > 0 {
        let init = reports.drop_last();
        let r = reports.last();
        lemma_listed_class(init, default_index, x, o, k);
        let kept = |r: DeviceReportView| kept_device(r, default_index, x);
        let f = |r: DeviceReportView| listed_device_session(r, x);
        let prev = listed_device_sessions(init, default_index, x);
        if kept_device(r, default_index, x) {
            assert(reports.filter(kept) == init.filter(kept).push(r));
            assert(listed_device_sessions(reports, default_index, x) =~= prev.push(
                listed_device_session(r, x),
            ));
            let s = listed_device_session(r, x);
            lemma_listed_names(x, description_or(r.description, listed_fallback(x)));
            if x != o {
                lemma_label_exclusive(s.name, x);
            }
            assert(prev.push(s).drop_last() =~= prev);
        } else {
            assert(reports.filter(kept) == init.filter(kept));
            assert(listed_device_sessions(reports, default_index, x) =~= prev);
        }
    } else {
        assert(listed_device_sessions(reports, default_index, x) =~= Seq::<SessionView>::empty());
    }
}

proof fn lemma_kept_count_distinct(
    reports: Seq<DeviceReportView>,
    default_index: Option<u32>,
    x: bool,
    k: u32,
)
    requires
        distinct_indices(reports),
    ensures
        kept_count_at(reports, default_index, x, k) <= 1,
        forall|i: int|
            0 <= i < reports.len() && kept_device(reports[i], default_index, x)
                && reports[i].index == k ==> kept_count_at(reports, default_index, x, k) == 1,
        (forall|i: int|
            0 <= i < reports.len() ==> !(kept_device(reports[i], default_index, x)
                && reports[i].index == k)) ==> kept_count_at(reports, default_index, x, k) == 0,
    decreases reports.len(),
{
    if reports.len() > 0 {
        let init = reports.drop_last();
        let n = reports.len() - 1;
        assert(forall|i: int| 0 <= i < init.len() ==> init[i] == reports[i]);
        assert(distinct_indices(init));
        lemma_kept_count_distinct(init, default_index, x, k);
        if reports[n].index == k {
            assert(forall|i: int| 0 <= i < init.len() ==> init[i].index != k);
        }
    }
}

/// After the default devices are recorded and all devices listed, each
/// server device has at most one session under a device name of its
/// direction: every sink exactly one, every source that is not a monitor
/// (or is the default source) exactly one, and the default devices only
/// under their labelled default names.
pub proof fn lemma_one_session_per_device(
    default_sink: Option<DeviceReportView>,
    default_source: Option<DeviceReportView>,
    sinks: Seq<DeviceReportView>,
    sources: Seq<DeviceReportView>,
)
    requires
        distinct_indices(sinks),
        distinct_indices(sources),
    ensures
        forall|o: bool, k: u32|
            #![trigger device_sessions_at(
                sessions_after_listing(default_sink, default_source, sinks, sources),
                o,
                k,
            )]
            device_sessions_at(
                sessions_after_listing(default_sink, default_source, sinks, sources),
                o,
                k,
            ).len() <= 1,
        forall|i: int|
            0 <= i < sinks.len() ==> #[trigger] device_sessions_at(
                sessions_after_listing(default_sink, default_source, sinks, sources),
                true,
                sinks[i].index,
            ).len() == 1,
        forall|i: int|
            0 <= i < sources.len() ==> (#[trigger] device_sessions_at(
                sessions_after_listing(default_sink, default_source, sinks, sources),
                false,
                sources[i].index,
            ).len() == 1 <==> (!is_monitor_source(sources[i].name) || new_default_index(
                default_source,
                None,
            ) == Some(sources[i].index))),
        default_sink matches Some(d) ==> device_sessions_at(
            sessions_after_listing(default_sink, default_source, sinks, sources),
            true,
            d.index,
        ) == seq![default_device_sessions(default_sink, true)[0]],
        default_source matches Some(d) ==> device_sessions_at(
            sessions_after_listing(default_sink, default_source, sinks, sources),
            false,
            d.index,
        ) == seq![default_device_sessions(default_source, false)[0]],
{
    let all = sessions_after_listing(default_sink, default_source, sinks, sources);
    let e = Seq::<SessionView>::empty();
    let d_out = default_device_sessions(default_sink, true);
    let d_in = default_device_sessions(default_source, false);
    let l_out = listed_device_sessions(sinks, new_default_index(default_sink, None), true);
    let l_in = listed_device_sessions(sources, new_default_index(default_source, None), false);
    assert forall|o: bool, k: u32| #![trigger device_sessions_at(all, o, k)] true implies {
        let f = device_sessions_at(all, o, k);
        &&& f == device_sessions_at(d_out, o, k) + device_sessions_at(d_in, o, k)
            + device_sessions_at(l_out, o, k) + device_sessions_at(l_in, o, k)
        &&& f.len() == device_sessions_at(d_out, o, k).len() + device_sessions_at(d_in, o, k).len()
            + device_sessions_at(l_out, o, k).len() + device_sessions_at(l_in, o, k).len()
    } by {
        let p = |s: SessionView| device_label(o).is_prefix_of(s.name) && s.index == k;
        Seq::filter_distributes_over_add(e + d_out + d_in + l_out, l_in, p);
        Seq::filter_distributes_over_add(e + d_out + d_in, l_out, p);
        Seq::filter_distributes_over_add(e + d_out, d_in, p);
        assert(e + d_out =~= d_out);
    }
    assert forall|o: bool, k: u32| #![trigger device_sessions_at(all, o, k)] true implies {
        &&& device_sessions_at(all, o, k).len() <= 1
        &&& (o && default_sink is Some && default_sink->0.index == k) ==> device_sessions_at(all, o, k)
            == seq![d_out[0]]
        &&& (!o && default_source is Some && default_source->0.index == k) ==> device_sessions_at(
            all,
            o,
            k,
        ) == seq![d_in[0]]
        &&& o && !(default_sink is Some && default_sink->0.index == k) ==> device_sessions_at(
            all,
            o,
            k,
        ).len() == kept_count_at(sinks, new_default_index(default_sink, None), true, k)
        &&& !o && !(default_source is Some && default_source->0.index == k) ==> device_sessions_at(
            all,
            o,
            k,
        ).len() == kept_count_at(sources, new_default_index(default_source, None), false, k)
    } by {
        lemma_default_class(default_sink, true, o, k);
        lemma_default_class(default_source, false, o, k);
        lemma_listed_class(sinks, new_default_index(default_sink, None), true, o, k);
        lemma_listed_class(sources, new_default_index(default_source, None), false, o, k);
        lemma_kept_count_distinct(sinks, new_default_index(default_sink, None), true, k);
        lemma_kept_count_distinct(sources, new_default_index(default_source, None), false, k);
        if o && default_sink is Some && default_sink->0.index == k {
            assert(forall|i: int|
                0 <= i < sinks.len() ==> !(kept_device(
                    sinks[i],
                    new_default_index(default_sink, None),
                    true,
                ) && sinks[i].index == k));
            assert(device_sessions_at(all, o, k) =~= seq![d_out[0]]);
        }
        if !o && default_source is Some && default_source->0.index == k {
            assert(forall|i: int|
                0 <= i < sources.len() ==> !(kept_device(
                    sources[i],
                    new_default_index(default_source, None),
                    false,
                ) && sources[i].index == k));
            assert(device_sessions_at(all, o, k) =~= seq![d_in[0]]);
        }
    }
    assert forall|i: int| 0 <= i < sinks.len() implies #[trigger] device_sessions_at(
        all,
        true,
        sinks[i].index,
    ).len() == 1 by {
        let k = sinks[i].index;
        lemma_kept_count_distinct(sinks, new_default_index(default_sink, None), true, k);
    }
    assert forall|i: int| 0 <= i < sources.len() implies (#[trigger] device_sessions_at(
        all,
        false,
        sources[i].index,
    ).len() == 1 <==> (!is_monitor_source(sources[i].name) || new_default_index(
        default_source,
        None,
    ) == Some(sources[i].index))) by {
        let k = sources[i].index;
        lemma_kept_count_distinct(sources, new_default_index(default_source, None), false, k);
        if is_monitor_source(sources[i].name) && new_default_index(default_source, None) != Some(
            k,
        ) {
            assert forall|j: int| 0 <= j < sources.len() implies !(kept_device(
                sources[j],
                new_default_index(default_source, None),
                false,
            ) && sources[j].index == k) by {
                if j != i {
                    assert(sources[j].index != sources[i].index);
                }
            }
        }
    }
}


/// Every session added for listed devices carries the state the server
/// reported for its device: the k-th session stands for the k-th kept
/// report, with its index, channel count, volume and mute state, and is
/// named `"output: "`/`"input: "` followed by the report's whole description
/// when it has one.
pub proof fn lemma_listed_sessions_carry_state(
    reports: Seq<DeviceReportView>,
    default_index: Option<u32>,
    is_output: bool,
)
    ensures
        listed_device_sessions(reports, default_index, is_output).len() == reports.filter(
            |r: DeviceReportView| kept_device(r, default_index, is_output),
        ).len(),
        forall|k: int|
            0 <= k < listed_device_sessions(reports, default_index, is_output).len() ==> {
                let s = #[trigger] listed_device_sessions(reports, default_index, is_output)[k];
                let r = reports.filter(|r: DeviceReportView| kept_device(r, default_index, is_output))[k];
                let head: int = if is_output { 8 } else { 7 };
                &&& s.kind == device_kind(is_output)
                &&& s.index == r.index
                &&& s.channels == r.channels
                &&& s.volume_bits == r.volume_bits
                &&& s.muted == r.muted
                &&& r.description is Some ==> s.name.subrange(head, s.name.len() as int)
                    == r.description.unwrap()
                &&& r.description is Some ==> s.name.len() == head + r.description.unwrap().len()
            },
{
    let kept = reports.filter(|r: DeviceReportView| kept_device(r, default_index, is_output));
    assert forall|k: int|
        0 <= k < listed_device_sessions(reports, default_index, is_output).len() implies {
        let s = #[trigger] listed_device_sessions(reports, default_index, is_output)[k];
        let r = kept[k];
        let head: int = if is_output { 8 } else { 7 };
        &&& s.kind == device_kind(is_output)
        &&& s.index == r.index
        &&& s.channels == r.channels
        &&& s.volume_bits == r.volume_bits
        &&& s.muted == r.muted
        &&& r.description is Some ==> s.name.subrange(head, s.name.len() as int)
            == r.description.unwrap()
        &&& r.description is Some ==> s.name.len() == head + r.description.unwrap().len()
    } by {
        let r = kept[k];
        lemma_listed_name_keeps_description(
            is_output,
            description_or(r.description, listed_fallback(is_output)),
        );
    }
}

/// The listed reports of one direction, split around position `i`: one
/// session for the report there, between those of the reports before and
/// after it, when it is kept; none when it is not.
proof fn lemma_listed_split(
    reports: Seq<DeviceReportView>,
    default_index: Option<u32>,
    is_output: bool,
    i: int,
)
    requires
        0 <= i < reports.len(),
    ensures
        listed_device_sessions(reports, default_index, is_output) == listed_device_sessions(
            reports.subrange(0, i),
            default_index,
            is_output,
        ) + (if kept_device(reports[i], default_index, is_output) {
            seq![listed_device_session(reports[i], is_output)]
        } else {
            Seq::empty()
        }) + listed_device_sessions(
            reports.subrange(i + 1, reports.len() as int),
            default_index,
            is_output,
        ),
{
    let p = |r: DeviceReportView| kept_device(r, default_index, is_output);
    let f = |r: DeviceReportView| listed_device_session(r, is_output);
    let a = reports.subrange(0, i);
    let m = seq![reports[i]];
    let b = reports.subrange(i + 1, reports.len() as int);
    assert(reports =~= a + m + b);
    Seq::filter_distributes_over_add(a + m, b, p);
    Seq::filter_distributes_over_add(a, m, p);
    reveal(Seq::filter);
    assert(m.drop_last() =~= Seq::<DeviceReportView>::empty());
    assert(m.drop_last().filter(p) =~= Seq::<DeviceReportView>::empty());
    let fa = a.filter(p);
    let fm = m.filter(p);
    let fb = b.filter(p);
    assert((fa + fm + fb).map_values(f) =~= fa.map_values(f) + fm.map_values(f) + fb.map_values(f));
    if p(reports[i]) {
        assert(fm =~= seq![reports[i]]);
        assert(fm.map_values(f) =~= seq![f(reports[i])]);
    } else {
        assert(fm =~= Seq::<DeviceReportView>::empty());
        assert(fm.map_values(f) =~= Seq::<SessionView>::empty());
    }
}

/// Which listed devices get a session.  Taking out the report at position
/// `i` leaves the sessions unchanged when that report is the default device
/// of its direction or a source whose server-side name ends with
/// `".monitor"`; any other report adds exactly one session, between those
/// of the reports around it, carrying its index, channel count, volume and
/// mute state.
pub proof fn lemma_listed_device_kept_or_dropped(
    reports: Seq<DeviceReportView>,
    default_index: Option<u32>,
    is_output: bool,
    i: int,
)
    requires
        0 <= i < reports.len(),
    ensures
        ({
            let r = reports[i];
            let monitor = r.name is Some && r.name.unwrap().len() >= 8 && r.name.unwrap().subrange(
                r.name.unwrap().len() - 8,
                r.name.unwrap().len() as int,
            ) == ".monitor"@;
            let dropped = Some(r.index) == default_index || (!is_output && monitor);
            let all = listed_device_sessions(reports, default_index, is_output);
            let before = listed_device_sessions(reports.subrange(0, i), default_index, is_output);
            let after = listed_device_sessions(
                reports.subrange(i + 1, reports.len() as int),
                default_index,
                is_output,
            );
            &&& dropped ==> all == listed_device_sessions(reports.remove(i), default_index, is_output)
            &&& dropped ==> all == before + after
            &&& !dropped ==> all.len() == before.len() + 1 + after.len()
            &&& !dropped ==> all.subrange(0, before.len() as int) == before
            &&& !dropped ==> all.subrange(before.len() as int + 1, all.len() as int) == after
            &&& !dropped ==> all[before.len() as int].index == r.index
            &&& !dropped ==> all[before.len() as int].kind == device_kind(is_output)
            &&& !dropped ==> all[before.len() as int].channels == r.channels
            &&& !dropped ==> all[before.len() as int].volume_bits == r.volume_bits
            &&& !dropped ==> all[before.len() as int].muted == r.muted
        }),
{
    let r = reports[i];
    lemma_monitor_by_suffix(r.name);
    lemma_listed_split(reports, default_index, is_output, i);
    let before = listed_device_sessions(reports.subrange(0, i), default_index, is_output);
    let after = listed_device_sessions(
        reports.subrange(i + 1, reports.len() as int),
        default_index,
        is_output,
    );
    let all = listed_device_sessions(reports, default_index, is_output);
    assert(reports.remove(i) =~= reports.subrange(0, i) + reports.subrange(
        i + 1,
        reports.len() as int,
    ));
    lemma_listed_split_remove(reports, default_index, is_output, i);
    if kept_device(r, default_index, is_output) {
        assert(all.subrange(0, before.len() as int) =~= before);
        assert(all.subrange(before.len() as int + 1, all.len() as int) =~= after);
    } else {
        assert(all =~= before + after);
    }
}

/// The sessions of the reports without the one at position `i` are those of
/// the reports before it, then those of the reports after it.
proof fn lemma_listed_split_remove(
    reports: Seq<DeviceReportView>,
    default_index: Option<u32>,
    is_output: bool,
    i: int,
)
    requires
        0 <= i < reports.len(),
    ensures
        listed_device_sessions(reports.remove(i), default_index, is_output)
            == listed_device_sessions(reports.subrange(0, i), default_index, is_output)
            + listed_device_sessions(
            reports.subrange(i + 1, reports.len() as int),
            default_index,
            is_output,
        ),
{
    let p = |r: DeviceReportView| kept_device(r, default_index, is_output);
    let f = |r: DeviceReportView| listed_device_session(r, is_output);
    let a = reports.subrange(0, i);
    let b = reports.subrange(i + 1, reports.len() as int);
    assert(reports.remove(i) =~= a + b);
    Seq::filter_distributes_over_add(a, b, p);
    assert((a.filter(p) + b.filter(p)).map_values(f) =~= a.filter(p).map_values(f) + b.filter(
        p,
    ).map_values(f));
}

/// Every session added for application streams carries the state the
/// server reported for its stream: the k-th session stands for the k-th
/// stream that belongs to a client, with its index, channel count, volume
/// and mute state, and a stream with a non-empty application name is named
/// exactly that.
pub proof fn lemma_stream_sessions_carry_state(streams: Seq<StreamReportView>)
    ensures
        stream_sessions(streams).len() == streams.filter(|s: StreamReportView| s.has_client).len(),
        forall|k: int|
            0 <= k < stream_sessions(streams).len() ==> {
                let s = #[trigger] stream_sessions(streams)[k];
                let t = streams.filter(|s: StreamReportView| s.has_client)[k];
                &&& s.kind == SessionKind::Application
                &&& s.index == t.index
                &&& s.channels == t.channels
                &&& s.volume_bits == t.volume_bits
                &&& s.muted == t.muted
                &&& t.application_name is Some && t.application_name.unwrap().len() > 0 ==> s.name
                    == t.application_name.unwrap()
            },
{
    let kept = streams.filter(|s: StreamReportView| s.has_client);
    assert(streams.filter(|s: StreamReportView| kept_stream(s)) =~= kept) by {
        assert((|s: StreamReportView| kept_stream(s)) =~= (|s: StreamReportView| s.has_client));
    }
    assert forall|k: int| 0 <= k < stream_sessions(streams).len() implies {
        let s = #[trigger] stream_sessions(streams)[k];
        let t = kept[k];
        &&& s.kind == SessionKind::Application
        &&& s.index == t.index
        &&& s.channels == t.channels
        &&& s.volume_bits == t.volume_bits
        &&& s.muted == t.muted
        &&& t.application_name is Some && t.application_name.unwrap().len() > 0 ==> s.name
            == t.application_name.unwrap()
    } by {
        let t = kept[k];
        lemma_application_name_used_whole(t.application_name, t.process_name);
    }
}


/// The two sessions of a default device are named after what the server
/// reported: the first is `"output: "`/`"input: "`, the device's whole
/// description (when it has one), then `" (default_output)"` /
/// `" (default_input)"`; the second is `"master"` / `"mic"`.
pub proof fn lemma_default_sessions_named(r: DeviceReportView, is_output: bool)
    ensures
        ({
            let s = default_device_sessions(Some(r), is_output);
            let head: int = if is_output { 8 } else { 7 };
            let tail: int = if is_output { 17 } else { 16 };
            &&& r.description is Some ==> s[0].name.len() == head + r.description.unwrap().len()
                + tail
            &&& r.description is Some ==> s[0].name.subrange(
                head,
                head + r.description.unwrap().len(),
            ) == r.description.unwrap()
            &&& is_output ==> s[1].name == "master"@
            &&& !is_output ==> s[1].name == "mic"@
        }),
{
    lemma_default_name_keeps_description(
        is_output,
        description_or(r.description, default_fallback(is_output)),
    );
}

} // verus!
