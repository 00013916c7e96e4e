//! Sessions and rules of the Windows audio session API backend.
//!
//! A Windows session holds a COM interface of the audio stack, which the
//! library only carries (and clones when asked), together with the session's
//! name and the event-context GUID that accompanies every change it requests.

use vstd::prelude::*;
use crate::text::{parse_i32, parsed_i32, string_eq};
use crate::naming::{
    default_alias, default_alias_of, default_device_session_name, default_device_session_name_of,
    default_fallback, default_fallback_of, device_session_name, device_session_name_of, opt_view,
};

verus! {

/// The `PKEY_AudioEndpoint_FormFactor` value of an S/PDIF endpoint.
pub const FORM_FACTOR_SPDIF: i32 = 8;

/// The volume control of an audio endpoint (a device), with its name.
pub struct EndPointSession<V> {
    audio_endpoint_volume: V,
    name: String,
    guid: u128,
}

impl<V: Clone> EndPointSession<V> {
    /// The endpoint volume interface the session holds.
    pub closed spec fn endpoint_volume(&self) -> V {
        self.audio_endpoint_volume
    }

    /// The session's name.
    pub closed spec fn name_view(&self) -> Seq<char> {
        self.name@
    }

    /// The event context sent with the session's change requests.
    pub closed spec fn guid_view(&self) -> u128 {
        self.guid
    }

    pub fn new(audio_endpoint_volume: V, name: String, guid: u128) -> (r: Self)
        ensures
            r.endpoint_volume() == audio_endpoint_volume,
            r.name_view() == name@,
            r.guid_view() == guid,
    {
        EndPointSession { audio_endpoint_volume, name, guid }
    }

    /// A clone of the endpoint volume interface; never `None`.
    pub fn get_audio_endpoint_volume(&self) -> (r: Option<V>)
        ensures
            r matches Some(v) && cloned(self.endpoint_volume(), v),
    {
        Some(self.audio_endpoint_volume.clone())
    }

    pub fn get_name(&self) -> (r: String)
        ensures
            r@ == self.name_view(),
    {
        self.name.clone()
    }

    /// The event context to send with a change request.
    pub fn event_context(&self) -> (r: u128)
        ensures
            r == self.guid_view(),
    {
        self.guid
    }
}

/// The volume control of one application's audio session, with its name.
pub struct ApplicationSession<V> {
    simple_audio_volume: V,
    name: String,
    guid: u128,
}

impl<V> ApplicationSession<V> {
    /// The simple volume interface the session holds.
    pub closed spec fn volume_control(&self) -> V {
        self.simple_audio_volume
    }

    /// The session's name.
    pub closed spec fn name_view(&self) -> Seq<char> {
        self.name@
    }

    /// The event context sent with the session's change requests.
    pub closed spec fn guid_view(&self) -> u128 {
        self.guid
    }

    pub fn new(simple_audio_volume: V, name: String, guid: u128) -> (r: Self)
        ensures
            r.volume_control() == simple_audio_volume,
            r.name_view() == name@,
            r.guid_view() == guid,
    {
        ApplicationSession { simple_audio_volume, name, guid }
    }

    /// The simple volume interface, borrowed.
    pub fn simple_audio_volume(&self) -> (r: &V)
        ensures
            *r == self.volume_control(),
    {
        &self.simple_audio_volume
    }

    pub fn get_name(&self) -> (r: String)
        ensures
            r@ == self.name_view(),
    {
        self.name.clone()
    }

    /// The event context to send with a change request.
    pub fn event_context(&self) -> (r: u128)
        ensures
            r == self.guid_view(),
    {
        self.guid
    }
}

/// The friendly name of a device as read from its property store, when it is
/// present and not empty; otherwise the fallback.
pub open spec fn friendly_name_or(found: Option<Seq<char>>, fallback: Seq<char>) -> Seq<char> {
    match found {
        Some(n) => if n.len() > 0 {
            n
        } else {
            fallback
        },
        None => fallback,
    }
}

/// Chooses a device's friendly name, see `friendly_name_or`.
pub fn friendly_name_or_fallback(found: &Option<String>, fallback: &str) -> (r: String)
    ensures
        r@ == friendly_name_or(opt_view(*found), fallback@),
{
    match found {
        Some(n) => {
            if n.as_str().unicode_len() > 0 {
                n.clone()
            } else {
                String::from_str(fallback)
            }
        },
        None => String::from_str(fallback),
    }
}

/// Fallback name of a listed (non-default) endpoint without a friendly name.
pub open spec fn listed_endpoint_fallback(is_output: bool) -> Seq<char> {
    if is_output {
        "Unknown Output Device"@
    } else {
        "Unknown Input Device"@
    }
}

/// See `listed_endpoint_fallback`.
pub fn listed_endpoint_fallback_of(is_output: bool) -> (r: &'static str)
    ensures
        r@ == listed_endpoint_fallback(is_output),
{
    if is_output {
        "Unknown Output Device"
    } else {
        "Unknown Input Device"
    }
}

/// The form factor of an endpoint, from the text of its form-factor property.
pub open spec fn form_factor_of(text: Option<Seq<char>>) -> Option<i32> {
    match text {
        Some(t) => parsed_i32(t),
        None => None,
    }
}

/// Reads an endpoint's form factor from the text of its property.
pub fn parse_form_factor(text: &Option<String>) -> (r: Option<i32>)
    ensures
        r == form_factor_of(opt_view(*text)),
{
    match text {
        Some(t) => parse_i32(t.as_str()),
        None => None,
    }
}

/// Whether an endpoint is an S/PDIF output, whose sessions are not listed.
pub fn is_spdif_form_factor(form_factor: Option<i32>) -> (r: bool)
    ensures
        r == (form_factor == Some(FORM_FACTOR_SPDIF)),
{
    match form_factor {
        Some(f) => f == FORM_FACTOR_SPDIF,
        None => false,
    }
}

/// Whether a device is the remembered default device: both identifiers are
/// known and equal.
pub open spec fn same_device(default_id: Option<Seq<char>>, device_id: Option<Seq<char>>) -> bool {
    match (default_id, device_id) {
        (Some(a), Some(b)) => a == b,
        _ => false,
    }
}

/// Decides `same_device`.
pub fn is_default_device(default_id: &Option<String>, device_id: &Option<String>) -> (r: bool)
    ensures
        r == same_device(opt_view(*default_id), opt_view(*device_id)),
{
    match (default_id, device_id) {
        (Some(a), Some(b)) => string_eq(a.as_str(), b.as_str()),
        _ => false,
    }
}

/// Whether an audio session belongs to the system idle process (id 0),
/// which is not listed.
pub fn is_system_process(pid: u32) -> (r: bool)
    ensures
        r == (pid == 0),
{
    pid == 0
}


/// An active endpoint as the device enumerator reported it.
pub struct EndpointReport {
    /// The endpoint's identifier, when it could be read.
    pub id: Option<String>,
    /// The friendly name from the endpoint's property store, when it was
    /// read.
    pub friendly_name: Option<String>,
    /// Whether the endpoint's volume interface could be activated.
    pub activated: bool,
}

/// The mathematical content of an `EndpointReport`.
pub struct EndpointReportView {
    pub id: Option<Seq<char>>,
    pub friendly_name: Option<Seq<char>>,
    pub activated: bool,
}

impl View for EndpointReport {
    type V = EndpointReportView;

    open spec fn view(&self) -> EndpointReportView {
        EndpointReportView {
            id: opt_view(self.id),
            friendly_name: opt_view(self.friendly_name),
            activated: self.activated,
        }
    }
}

/// Whether a listed endpoint gets a session: it is not the default endpoint
/// of its direction and its volume could be activated.
pub open spec fn endpoint_listed(r: EndpointReportView, default_id: Option<Seq<char>>) -> bool {
    !same_device(default_id, r.id) && r.activated
}

/// The sessions of the listed endpoints among the first `n` reports of one
/// direction, in order: each with the report's position and its name.
pub open spec fn listed_endpoint_entries(
    reports: Seq<EndpointReportView>,
    default_id: Option<Seq<char>>,
    is_output: bool,
    n: int,
) -> Seq<(int, Seq<char>)>
    decreases n,
{
    if n <= 0 {
        Seq::empty()
    } else {
        let prev = listed_endpoint_entries(reports, default_id, is_output, n - 1);
        let r = reports[n - 1];
        if endpoint_listed(r, default_id) {
            prev.push(
                (
                    n - 1,
                    device_session_name(
                        is_output,
                        friendly_name_or(r.friendly_name, listed_endpoint_fallback(is_output)),
                    ),
                ),
            )
        } else {
            prev
        }
    }
}

/// The view of a list of (position, name) entries.
pub open spec fn entry_views(v: Seq<(usize, String)>) -> Seq<(int, Seq<char>)> {
    v.map_values(|e: (usize, String)| (e.0 as int, e.1@))
}

/// The sessions to add for the active endpoints of one direction, in the
/// enumerator's order: every endpoint that is not the default one and whose
/// volume could be activated, under `"output: "`/`"input: "` and its
/// friendly name (or the fallback), with its position among the reports.
pub fn listed_endpoint_sessions(
    reports: &Vec<EndpointReport>,
    default_id: &Option<String>,
    is_output: bool,
) -> (r: Vec<(usize, String)>)
    ensures
        entry_views(r@) == listed_endpoint_entries(
            reports@.map_values(|e: EndpointReport| e@),
            opt_view(*default_id),
            is_output,
            reports@.len() as int,
        ),
{
    let ghost rv = reports@.map_values(|e: EndpointReport| e@);
    let mut r: Vec<(usize, String)> = Vec::new();
    let n = reports.len();
    for i in 0..n
        invariant
            n == reports@.len(),
            rv == reports@.map_values(|e: EndpointReport| e@),
            entry_views(r@) == listed_endpoint_entries(
                rv,
                opt_view(*default_id),
                is_output,
                i as int,
            ),
    {
        let e = &reports[i];
        assert(rv[i as int] == e@);
        if !is_default_device(default_id, &e.id) && e.activated {
            let name = friendly_name_or_fallback(
                &e.friendly_name,
                listed_endpoint_fallback_of(is_output),
            );
            let full = device_session_name_of(is_output, name.as_str());
            let ghost old_r = r@;
            r.push((i, full));
            assert(entry_views(r@) =~= entry_views(old_r).push((i as int, full@)));
        }
    }
    r
}

/// A default endpoint as the device enumerator reported it.
pub struct DefaultEndpointReport {
    /// The friendly name from the endpoint's property store, when it was
    /// read.
    pub friendly_name: Option<String>,
    /// Whether the endpoint's volume interface could be activated.
    pub activated: bool,
    /// Whether a second volume interface, for the alias, could be activated.
    pub alias_activated: bool,
}

/// The mathematical content of a `DefaultEndpointReport`.
pub struct DefaultEndpointReportView {
    pub friendly_name: Option<Seq<char>>,
    pub activated: bool,
    pub alias_activated: bool,
}

impl View for DefaultEndpointReport {
    type V = DefaultEndpointReportView;

    open spec fn view(&self) -> DefaultEndpointReportView {
        DefaultEndpointReportView {
            friendly_name: opt_view(self.friendly_name),
            activated: self.activated,
            alias_activated: self.alias_activated,
        }
    }
}

/// The view of an optional default endpoint report.
pub open spec fn opt_default_endpoint(r: Option<DefaultEndpointReport>) -> Option<
    DefaultEndpointReportView,
> {
    match r {
        Some(r) => Some(r@),
        None => None,
    }
}

/// A session to add for a default endpoint.
pub struct EndpointEntry {
    pub is_output: bool,
    /// Whether the session uses the second (alias) volume interface.
    pub is_alias: bool,
    pub name: String,
}

/// The mathematical content of an `EndpointEntry`.
pub open spec fn endpoint_entry_view(e: EndpointEntry) -> (bool, bool, Seq<char>) {
    (e.is_output, e.is_alias, e.name@)
}

/// The sessions of one default endpoint: none when its volume could not be
/// activated; else one under its labelled name, then one under its alias
/// when the alias's interface could be activated.
pub open spec fn default_endpoint_entries(r: Option<DefaultEndpointReportView>, is_output: bool) -> Seq<
    (bool, bool, Seq<char>),
> {
    match r {
        Some(r) => if !r.activated {
            Seq::empty()
        } else {
            let main = (
                is_output,
                false,
                default_device_session_name(
                    is_output,
                    friendly_name_or(r.friendly_name, default_fallback(is_output)),
                ),
            );
            if r.alias_activated {
                seq![main, (is_output, true, default_alias(is_output))]
            } else {
                seq![main]
            }
        },
        None => Seq::empty(),
    }
}

/// Whether the default input endpoint is looked at: there is no default
/// output endpoint, or its volume could be activated.
pub open spec fn input_considered(output: Option<DefaultEndpointReportView>) -> bool {
    match output {
        Some(r) => r.activated,
        None => true,
    }
}

/// Decides `input_considered`.
pub fn default_input_considered(output: &Option<DefaultEndpointReport>) -> (r: bool)
    ensures
        r == input_considered(opt_default_endpoint(*output)),
{
    match output {
        Some(r) => r.activated,
        None => true,
    }
}

fn push_default_entries(
    entries: &mut Vec<EndpointEntry>,
    report: &Option<DefaultEndpointReport>,
    is_output: bool,
)
    ensures
        final(entries)@.map_values(|e: EndpointEntry| endpoint_entry_view(e)) == old(
            entries,
        )@.map_values(|e: EndpointEntry| endpoint_entry_view(e)) + default_endpoint_entries(
            opt_default_endpoint(*report),
            is_output,
        ),
{
    let ghost before = entries@.map_values(|e: EndpointEntry| endpoint_entry_view(e));
    match report {
        Some(r) => {
            if r.activated {
                let name = friendly_name_or_fallback(&r.friendly_name, default_fallback_of(is_output));
                let full = default_device_session_name_of(is_output, name.as_str());
                let ghost main = (is_output, false, full@);
                entries.push(EndpointEntry { is_output, is_alias: false, name: full });
                if r.alias_activated {
                    let alias = default_alias_of(is_output);
                    let ghost second = (is_output, true, alias@);
                    entries.push(EndpointEntry { is_output, is_alias: true, name: alias });
                    assert(entries@.map_values(|e: EndpointEntry| endpoint_entry_view(e)) =~= before
                        + seq![main, second]);
                } else {
                    assert(entries@.map_values(|e: EndpointEntry| endpoint_entry_view(e)) =~= before
                        + seq![main]);
                }
            } else {
                assert(before + Seq::<(bool, bool, Seq<char>)>::empty() =~= before);
            }
        },
        None => {
            assert(before + Seq::<(bool, bool, Seq<char>)>::empty() =~= before);
        },
    }
}

/// The sessions to add for the default endpoints, in order: those of the
/// default output endpoint, then, when the input is considered (see
/// `input_considered`), those of the default input endpoint.
pub fn default_endpoint_sessions(
    output: &Option<DefaultEndpointReport>,
    input: &Option<DefaultEndpointReport>,
) -> (r: Vec<EndpointEntry>)
    ensures
        r@.map_values(|e: EndpointEntry| endpoint_entry_view(e)) == default_endpoint_entries(
            opt_default_endpoint(*output),
            true,
        ) + (if input_considered(opt_default_endpoint(*output)) {
            default_endpoint_entries(opt_default_endpoint(*input), false)
        } else {
            Seq::empty()
        }),
{
    let mut entries: Vec<EndpointEntry> = Vec::new();
    assert(entries@.map_values(|e: EndpointEntry| endpoint_entry_view(e)) =~= Seq::<
        (bool, bool, Seq<char>),
    >::empty());
    push_default_entries(&mut entries, output, true);
    let ghost after_output = entries@.map_values(|e: EndpointEntry| endpoint_entry_view(e));
    assert(after_output =~= default_endpoint_entries(opt_default_endpoint(*output), true));
    if default_input_considered(output) {
        push_default_entries(&mut entries, input, false);
    } else {
        assert(after_output + Seq::<(bool, bool, Seq<char>)>::empty() =~= after_output);
    }
    entries
}


/// One audio session of an endpoint as its session enumerator reported it.
pub struct AudioSessionReport {
    /// The id of the session's process, when its session control could be
    /// had as an `IAudioSessionControl2`.
    pub process_id: Option<u32>,
    /// The name of that process, when it could be looked up.
    pub process_name: Option<String>,
    /// Whether the session's simple volume interface could be had.
    pub has_volume: bool,
}

/// The mathematical content of an `AudioSessionReport`.
pub struct AudioSessionReportView {
    pub process_id: Option<u32>,
    pub process_name: Option<Seq<char>>,
    pub has_volume: bool,
}

impl View for AudioSessionReport {
    type V = AudioSessionReportView;

    open spec fn view(&self) -> AudioSessionReportView {
        AudioSessionReportView {
            process_id: self.process_id,
            process_name: opt_view(self.process_name),
            has_volume: self.has_volume,
        }
    }
}

/// An active output endpoint as the device enumerator reported it, with its
/// audio sessions.
pub struct EndpointSessionsReport {
    /// The text of the endpoint's form-factor property, when it was read.
    pub form_factor: Option<String>,
    /// The endpoint's audio sessions in enumerator order; `None` when they
    /// could not be enumerated (or were not asked for).
    pub sessions: Option<Vec<AudioSessionReport>>,
}

/// The mathematical content of an `EndpointSessionsReport`.
pub struct EndpointSessionsReportView {
    pub form_factor: Option<Seq<char>>,
    pub sessions: Option<Seq<AudioSessionReportView>>,
}

/// The views of a list of session reports.
pub open spec fn session_report_views(v: Seq<AudioSessionReport>) -> Seq<AudioSessionReportView> {
    v.map_values(|e: AudioSessionReport| e@)
}

impl View for EndpointSessionsReport {
    type V = EndpointSessionsReportView;

    open spec fn view(&self) -> EndpointSessionsReportView {
        EndpointSessionsReportView {
            form_factor: opt_view(self.form_factor),
            sessions: match self.sessions {
                Some(v) => Some(session_report_views(v@)),
                None => None,
            },
        }
    }
}

/// Whether an audio session is listed: its process is known and is not the
/// system idle process, the process's name could be looked up, and the
/// session's volume interface could be had.
pub open spec fn session_listed(s: AudioSessionReportView) -> bool {
    &&& s.process_id matches Some(p) && p != 0
    &&& s.process_name is Some
    &&& s.has_volume
}

/// Whether an endpoint's sessions are looked at: it is not an S/PDIF output.
pub open spec fn sessions_wanted(form_factor: Option<Seq<char>>) -> bool {
    form_factor_of(form_factor) != Some(FORM_FACTOR_SPDIF)
}

/// Decides `sessions_wanted`.
pub fn endpoint_sessions_wanted(form_factor: &Option<String>) -> (r: bool)
    ensures
        r == sessions_wanted(opt_view(*form_factor)),
{
    !is_spdif_form_factor(parse_form_factor(form_factor))
}

/// The listed sessions among the first `n` sessions of the endpoint at
/// position `device`, in order: each with the two positions and the name of
/// its process.
pub open spec fn listed_session_entries(
    sessions: Seq<AudioSessionReportView>,
    device: int,
    n: int,
) -> Seq<(int, int, Seq<char>)>
    decreases n,
{
    if n <= 0 {
        Seq::empty()
    } else {
        let prev = listed_session_entries(sessions, device, n - 1);
        let s = sessions[n - 1];
        if session_listed(s) {
            prev.push((device, n - 1, s.process_name.unwrap()))
        } else {
            prev
        }
    }
}

/// The listed sessions of one endpoint report at position `device`.
pub open spec fn endpoint_session_entries(d: EndpointSessionsReportView, device: int) -> Seq<
    (int, int, Seq<char>),
> {
    match d.sessions {
        Some(s) => if sessions_wanted(d.form_factor) {
            listed_session_entries(s, device, s.len() as int)
        } else {
            Seq::empty()
        },
        None => Seq::empty(),
    }
}

/// The listed sessions of the first `n` endpoint reports, endpoint by
/// endpoint in order.
pub open spec fn listed_process_entries(devices: Seq<EndpointSessionsReportView>, n: int) -> Seq<
    (int, int, Seq<char>),
>
    decreases n,
{
    if n <= 0 {
        Seq::empty()
    } else {
        listed_process_entries(devices, n - 1) + endpoint_session_entries(devices[n - 1], n - 1)
    }
}

/// The view of a list of (endpoint position, session position, name)
/// entries.
pub open spec fn session_entry_views(v: Seq<(usize, usize, String)>) -> Seq<(int, int, Seq<char>)> {
    v.map_values(|e: (usize, usize, String)| (e.0 as int, e.1 as int, e.2@))
}

fn push_endpoint_sessions(
    r: &mut Vec<(usize, usize, String)>,
    sessions: &Vec<AudioSessionReport>,
    device: usize,
)
    ensures
        session_entry_views(final(r)@) == session_entry_views(old(r)@) + listed_session_entries(
            session_report_views(sessions@),
            device as int,
            sessions@.len() as int,
        ),
{
    let ghost sv = session_report_views(sessions@);
    let ghost before = session_entry_views(r@);
    let n = sessions.len();
    for j in 0..n
        invariant
            n == sessions@.len(),
            sv == session_report_views(sessions@),
            session_entry_views(r@) == before + listed_session_entries(sv, device as int, j as int),
    {
        let s = &sessions[j];
        assert(sv[j as int] == s@);
        let ghost prev = session_entry_views(r@);
        match (&s.process_id, &s.process_name) {
            (Some(pid), Some(name)) => {
                if !is_system_process(*pid) && s.has_volume {
                    r.push((device, j, name.clone()));
                    assert(session_entry_views(r@) =~= prev.push(
                        (device as int, j as int, name@),
                    ));
                    assert(before + listed_session_entries(sv, device as int, j + 1) =~= (before
                        + listed_session_entries(sv, device as int, j as int)).push(
                        (device as int, j as int, name@),
                    ));
                }
            },
            _ => {},
        }
    }
}

/// The application sessions to add, in enumerator order: for each output
/// endpoint that is not an S/PDIF output and whose sessions could be
/// enumerated, each of its sessions whose process is known, is not the
/// system idle process (id 0) and has a name, and whose volume interface
/// could be had; each with the endpoint's and the session's positions among
/// the reports and the process's name.
pub fn listed_process_sessions(devices: &Vec<EndpointSessionsReport>) -> (r: Vec<(usize, usize, String)>)
    ensures
        session_entry_views(r@) == listed_process_entries(
            devices@.map_values(|e: EndpointSessionsReport| e@),
            devices@.len() as int,
        ),
{
    let ghost dv = devices@.map_values(|e: EndpointSessionsReport| e@);
    let mut r: Vec<(usize, usize, String)> = Vec::new();
    assert(session_entry_views(r@) =~= Seq::<(int, int, Seq<char>)>::empty());
    let n = devices.len();
    for i in 0..n
        invariant
            n == devices@.len(),
            dv == devices@.map_values(|e: EndpointSessionsReport| e@),
            session_entry_views(r@) == listed_process_entries(dv, i as int),
    {
        let d = &devices[i];
        assert(dv[i as int] == d@);
        let ghost prev = session_entry_views(r@);
        match &d.sessions {
            Some(sessions) => {
                if endpoint_sessions_wanted(&d.form_factor) {
                    push_endpoint_sessions(&mut r, sessions, i);
                } else {
                    assert(prev + Seq::<(int, int, Seq<char>)>::empty() =~= prev);
                }
            },
            None => {
                assert(prev + Seq::<(int, int, Seq<char>)>::empty() =~= prev);
            },
        }
    }
    r
}


/// An element is in a concatenation exactly when it is in one of its parts.
proof fn lemma_concat_contains<A>(a: Seq<A>, b: Seq<A>, x: A)
    ensures
        (a + b).contains(x) <==> (a.contains(x) || b.contains(x)),
{
    if a.contains(x) {
        let k = choose|k: int| 0 <= k < a.len() && a[k] == x;
        assert((a + b)[k] == x);
    }
    if b.contains(x) {
        let k = choose|k: int| 0 <= k < b.len() && b[k] == x;
        assert((a + b)[a.len() + k] == x);
    }
    if (a + b).contains(x) {
        let k = choose|k: int| 0 <= k < (a + b).len() && (a + b)[k] == x;
        if k < a.len() {
            assert(a[k] == x);
        } else {
            assert(b[k - a.len()] == x);
        }
    }
}

/// What the listed sessions among the first `n` sessions of an endpoint
/// are: exactly the entries `(device, j, name)` with `j < n` whose session
/// has a known, non-zero process id, the process name `name`, and a volume
/// interface.
proof fn lemma_listed_session_entries_members(
    sessions: Seq<AudioSessionReportView>,
    device: int,
    n: int,
)
    requires
        0 <= n <= sessions.len(),
    ensures
        forall|e: (int, int, Seq<char>)|
            #[trigger] listed_session_entries(sessions, device, n).contains(e) <==> {
                &&& e.0 == device
                &&& 0 <= e.1 < n
                &&& sessions[e.1].process_id is Some
                &&& sessions[e.1].process_id.unwrap() != 0
                &&& sessions[e.1].process_name == Some(e.2)
                &&& sessions[e.1].has_volume
            },
    decreases n,
{
    if n > 0 {
        lemma_listed_session_entries_members(sessions, device, n - 1);
        let prev = listed_session_entries(sessions, device, n - 1);
        let s = sessions[n - 1];
        assert forall|e: (int, int, Seq<char>)|
            #[trigger] listed_session_entries(sessions, device, n).contains(e) <==> {
                &&& e.0 == device
                &&& 0 <= e.1 < n
                &&& sessions[e.1].process_id is Some
                &&& sessions[e.1].process_id.unwrap() != 0
                &&& sessions[e.1].process_name == Some(e.2)
                &&& sessions[e.1].has_volume
            } by {
            assert(prev.contains(e) <==> {
                &&& e.0 == device
                &&& 0 <= e.1 < n - 1
                &&& sessions[e.1].process_id is Some
                &&& sessions[e.1].process_id.unwrap() != 0
                &&& sessions[e.1].process_name == Some(e.2)
                &&& sessions[e.1].has_volume
            });
            if session_listed(s) {
                let x = (device, n - 1, s.process_name.unwrap());
                assert(listed_session_entries(sessions, device, n) =~= prev + seq![x]);
                lemma_concat_contains(prev, seq![x], e);
                if seq![x].contains(e) {
                    let k = choose|k: int| 0 <= k < 1 && seq![x][k] == e;
                    assert(e == x);
                }
                if e == x {
                    assert(seq![x][0] == e);
                }
            }
        }
    }
}

/// What the listed sessions of the first `n` endpoint reports are: exactly
/// the listed sessions of each endpoint `i < n`, each at its position.
proof fn lemma_listed_process_entries_members(devices: Seq<EndpointSessionsReportView>, n: int)
    requires
        0 <= n <= devices.len(),
    ensures
        forall|e: (int, int, Seq<char>)|
            #[trigger] listed_process_entries(devices, n).contains(e) <==> (0 <= e.0 < n
                && endpoint_session_entries(devices[e.0], e.0).contains(e)),
    decreases n,
{
    if n > 0 {
        lemma_listed_process_entries_members(devices, n - 1);
        let prev = listed_process_entries(devices, n - 1);
        let last = endpoint_session_entries(devices[n - 1], n - 1);
        assert forall|e: (int, int, Seq<char>)|
            #[trigger] listed_process_entries(devices, n).contains(e) <==> (0 <= e.0 < n
                && endpoint_session_entries(devices[e.0], e.0).contains(e)) by {
            lemma_concat_contains(prev, last, e);
            assert(prev.contains(e) <==> (0 <= e.0 < n - 1 && endpoint_session_entries(
                devices[e.0],
                e.0,
            ).contains(e)));
            match devices[n - 1].sessions {
                Some(ss) => {
                    if sessions_wanted(devices[n - 1].form_factor) {
                        lemma_listed_session_entries_members(ss, n - 1, ss.len() as int);
                    }
                },
                None => {},
            }
        }
    }
}

/// Which application sessions the endpoint reports yield: an entry
/// `(i, j, name)` is listed exactly when endpoint `i`'s sessions were
/// enumerated, its form-factor property does not read as 8 (S/PDIF), and
/// its session `j` has a known, non-zero process id, the process name
/// `name`, and a volume interface.  Every other form factor, or none,
/// leaves the endpoint's sessions listed.
pub proof fn lemma_process_sessions_listed_exactly(devices: Seq<EndpointSessionsReportView>)
    ensures
        forall|e: (int, int, Seq<char>)|
            #[trigger] listed_process_entries(devices, devices.len() as int).contains(e) <==> {
                &&& 0 <= e.0 < devices.len()
                &&& devices[e.0].sessions is Some
                &&& form_factor_of(devices[e.0].form_factor) != Some(8i32)
                &&& 0 <= e.1 < devices[e.0].sessions.unwrap().len()
                &&& devices[e.0].sessions.unwrap()[e.1].process_id is Some
                &&& devices[e.0].sessions.unwrap()[e.1].process_id.unwrap() != 0
                &&& devices[e.0].sessions.unwrap()[e.1].process_name == Some(e.2)
                &&& devices[e.0].sessions.unwrap()[e.1].has_volume
            },
{
    lemma_listed_process_entries_members(devices, devices.len() as int);
    assert forall|e: (int, int, Seq<char>)|
        #[trigger] listed_process_entries(devices, devices.len() as int).contains(e) <==> {
            &&& 0 <= e.0 < devices.len()
            &&& devices[e.0].sessions is Some
            &&& form_factor_of(devices[e.0].form_factor) != Some(8i32)
            &&& 0 <= e.1 < devices[e.0].sessions.unwrap().len()
            &&& devices[e.0].sessions.unwrap()[e.1].process_id is Some
            &&& devices[e.0].sessions.unwrap()[e.1].process_id.unwrap() != 0
            &&& devices[e.0].sessions.unwrap()[e.1].process_name == Some(e.2)
            &&& devices[e.0].sessions.unwrap()[e.1].has_volume
        } by {
        if 0 <= e.0 < devices.len() {
            let d = devices[e.0];
            match d.sessions {
                Some(ss) => {
                    lemma_listed_session_entries_members(ss, e.0, ss.len() as int);
                },
                None => {},
            }
        }
    }
}


/// What the listed endpoints among the first `n` reports yield: exactly the
/// entries `(i, name)` with `i < n` whose report is not the default endpoint
/// (its identifier is unknown or differs from the default's) and whose
/// volume could be activated, `name` being the entry's label followed by
/// the report's friendly name when it is present and not empty, else by the
/// fallback.
proof fn lemma_listed_endpoint_entries_members(
    reports: Seq<EndpointReportView>,
    default_id: Option<Seq<char>>,
    is_output: bool,
    n: int,
)
    requires
        0 <= n <= reports.len(),
    ensures
        forall|e: (int, Seq<char>)|
            #[trigger] listed_endpoint_entries(reports, default_id, is_output, n).contains(e) <==> {
                &&& 0 <= e.0 < n
                &&& !(default_id is Some && reports[e.0].id == default_id)
                &&& reports[e.0].activated
                &&& e.1 == (if is_output { "output: "@ } else { "input: "@ }) + (
                if reports[e.0].friendly_name is Some && reports[e.0].friendly_name.unwrap().len()
                    > 0 {
                    reports[e.0].friendly_name.unwrap()
                } else if is_output {
                    "Unknown Output Device"@
                } else {
                    "Unknown Input Device"@
                })
            },
    decreases n,
{
    if n > 0 {
        lemma_listed_endpoint_entries_members(reports, default_id, is_output, n - 1);
        let prev = listed_endpoint_entries(reports, default_id, is_output, n - 1);
        let r = reports[n - 1];
        assert forall|e: (int, Seq<char>)|
            #[trigger] listed_endpoint_entries(reports, default_id, is_output, n).contains(e) <==> {
                &&& 0 <= e.0 < n
                &&& !(default_id is Some && reports[e.0].id == default_id)
                &&& reports[e.0].activated
                &&& e.1 == (if is_output { "output: "@ } else { "input: "@ }) + (
                if reports[e.0].friendly_name is Some
                    && reports[e.0].friendly_name.unwrap().len() > 0 {
                    reports[e.0].friendly_name.unwrap()
                } else if is_output {
                    "Unknown Output Device"@
                } else {
                    "Unknown Input Device"@
                })
            } by {
            if endpoint_listed(r, default_id) {
                let x = (
                    n - 1,
                    device_session_name(
                        is_output,
                        friendly_name_or(r.friendly_name, listed_endpoint_fallback(is_output)),
                    ),
                );
                assert(listed_endpoint_entries(reports, default_id, is_output, n) =~= prev
                    + seq![x]);
                lemma_concat_contains(prev, seq![x], e);
                if seq![x].contains(e) {
                    let k = choose|k: int| 0 <= k < 1 && seq![x][k] == e;
                    assert(e == x);
                }
                if e == x {
                    assert(seq![x][0] == e);
                }
            }
        }
    }
}

/// Which endpoints of one direction get a session, and under which name:
/// an entry `(i, name)` is listed exactly when report `i` is not the default
/// endpoint and its volume could be activated, and `name` is `"output: "` or
/// `"input: "` followed by its friendly name (or, when that is missing or
/// empty, `"Unknown Output Device"` / `"Unknown Input Device"`).
pub proof fn lemma_listed_endpoints_exactly(
    reports: Seq<EndpointReportView>,
    default_id: Option<Seq<char>>,
    is_output: bool,
)
    ensures
        forall|e: (int, Seq<char>)|
            #[trigger] listed_endpoint_entries(
                reports,
                default_id,
                is_output,
                reports.len() as int,
            ).contains(e) <==> {
                &&& 0 <= e.0 < reports.len()
                &&& !(default_id is Some && reports[e.0].id == default_id)
                &&& reports[e.0].activated
                &&& e.1 == (if is_output { "output: "@ } else { "input: "@ }) + (
                if reports[e.0].friendly_name is Some && reports[e.0].friendly_name.unwrap().len()
                    > 0 {
                    reports[e.0].friendly_name.unwrap()
                } else if is_output {
                    "Unknown Output Device"@
                } else {
                    "Unknown Input Device"@
                })
            },
{
    lemma_listed_endpoint_entries_members(reports, default_id, is_output, reports.len() as int);
}

/// The sessions of the default endpoints: a default output endpoint whose
/// volume could be activated gives first its labelled session, `"output: "`,
/// its friendly name (or `"Default Output"`) and `" (default_output)"`,
/// then `"master"` exactly when a second interface could be activated; one
/// whose volume could not be activated gives no session at all, not even
/// for the input.  Otherwise the input endpoint's sessions follow the same
/// way, under `"input: "`, `" (default_input)"` and `"mic"`.
pub proof fn lemma_default_endpoint_entries_shape(
    output: Option<DefaultEndpointReportView>,
    input: Option<DefaultEndpointReportView>,
)
    ensures
        ({
            let all = default_endpoint_entries(output, true) + (if input_considered(output) {
                default_endpoint_entries(input, false)
            } else {
                Seq::empty()
            });
            let o = output.unwrap();
            let i = input.unwrap();
            &&& output is Some && !o.activated ==> all.len() == 0
            &&& output is Some && o.activated ==> {
                &&& all[0] == (
                    true,
                    false,
                    "output: "@ + (if o.friendly_name is Some && o.friendly_name.unwrap().len()
                        > 0 {
                        o.friendly_name.unwrap()
                    } else {
                        "Default Output"@
                    }) + " (default_output)"@,
                )
                &&& o.alias_activated ==> all[1] == (true, true, "master"@)
                &&& all.len() == (if o.alias_activated { 2int } else { 1int })
                    + default_endpoint_entries(input, false).len()
            }
            &&& (output is None || output.unwrap().activated) ==> all.subrange(
                all.len() - default_endpoint_entries(input, false).len(),
                all.len() as int,
            ) == default_endpoint_entries(input, false)
            &&& input is Some && i.activated && (output is None
                || output.unwrap().activated) ==> {
                let first = all.len() - default_endpoint_entries(input, false).len();
                &&& all[first] == (
                    false,
                    false,
                    "input: "@ + (if i.friendly_name is Some && i.friendly_name.unwrap().len()
                        > 0 {
                        i.friendly_name.unwrap()
                    } else {
                        "Default Input"@
                    }) + " (default_input)"@,
                )
                &&& i.alias_activated ==> all[first + 1] == (false, true, "mic"@)
                &&& default_endpoint_entries(input, false).len() == (if i.alias_activated {
                    2int
                } else {
                    1int
                })
            }
            &&& input is Some && !i.activated ==> default_endpoint_entries(
                input,
                false,
            ).len() == 0
        }),
{
    let all = default_endpoint_entries(output, true) + (if input_considered(output) {
        default_endpoint_entries(input, false)
    } else {
        Seq::empty()
    });
    let ins = default_endpoint_entries(input, false);
    if output is None || output.unwrap().activated {
        assert(all.subrange(all.len() - ins.len(), all.len() as int) =~= ins);
    }
}

} // verus!
