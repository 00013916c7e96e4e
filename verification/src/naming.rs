//! How sessions are named, and which names count as device names.

use vstd::prelude::*;
use crate::text::{concatenate, ends_with, parse_u32, parsed_u32, starts_with, trim, trimmed};

verus! {

/// The label in front of a device session's name: `"output: "` for a
/// playback device, `"input: "` for a capture device.
pub open spec fn device_label(is_output: bool) -> Seq<char> {
    if is_output {
        "output: "@
    } else {
        "input: "@
    }
}

/// The marker after the name of the session of a default device.
pub open spec fn default_marker(is_output: bool) -> Seq<char> {
    if is_output {
        " (default_output)"@
    } else {
        " (default_input)"@
    }
}

/// The second, short name under which a default device is also listed.
pub open spec fn default_alias(is_output: bool) -> Seq<char> {
    if is_output {
        "master"@
    } else {
        "mic"@
    }
}

/// Description used for a default device that reports none.
pub open spec fn default_fallback(is_output: bool) -> Seq<char> {
    if is_output {
        "Default Output"@
    } else {
        "Default Input"@
    }
}

/// Description used for a listed (non-default) device that reports none.
pub open spec fn listed_fallback(is_output: bool) -> Seq<char> {
    if is_output {
        "Unknown Output"@
    } else {
        "Unknown Input"@
    }
}

/// Name of the session of a device that is not the default one.
pub open spec fn device_session_name(is_output: bool, description: Seq<char>) -> Seq<char> {
    device_label(is_output) + description
}

/// Name of the session of the default device.
pub open spec fn default_device_session_name(is_output: bool, description: Seq<char>) -> Seq<
    char,
> {
    device_label(is_output) + description + default_marker(is_output)
}

/// A device's description, or `fallback` when it reports none.
pub open spec fn description_or(description: Option<Seq<char>>, fallback: Seq<char>) -> Seq<char> {
    match description {
        Some(d) => d,
        None => fallback,
    }
}

/// A name that `get_all_device_names` lists.
pub open spec fn is_device_name(name: Seq<char>) -> bool {
    "input: "@.is_prefix_of(name) || "output: "@.is_prefix_of(name)
}

/// A name that `get_output_device_names` lists.
pub open spec fn is_output_device_name(name: Seq<char>) -> bool {
    "output: "@.is_prefix_of(name)
}

/// A name that `get_input_device_names` lists.
pub open spec fn is_input_device_name(name: Seq<char>) -> bool {
    "input: "@.is_prefix_of(name)
}

/// A capture source that only mirrors what a playback sink plays.
pub open spec fn is_monitor_source(name: Option<Seq<char>>) -> bool {
    match name {
        Some(n) => ".monitor"@.is_suffix_of(n),
        None => false,
    }
}

/// An application name that can stand as the session's name.
pub open spec fn usable_application_name(application_name: Option<Seq<char>>) -> bool {
    match application_name {
        Some(a) => a.len() > 0,
        None => false,
    }
}

/// Name of an application stream: its non-empty application name, else the
/// process name read for it (without surrounding white space), else
/// `"Unknown"`.
pub open spec fn application_session_name(
    application_name: Option<Seq<char>>,
    process_name: Option<Seq<char>>,
) -> Seq<char> {
    if usable_application_name(application_name) {
        application_name.unwrap()
    } else {
        match process_name {
            Some(p) => trimmed(p),
            None => "Unknown"@,
        }
    }
}

/// The view of an optional string.
pub open spec fn opt_view(o: Option<String>) -> Option<Seq<char>> {
    match o {
        Some(s) => Some(s@),
        None => None,
    }
}

/// The description used for a default device that reports none.
pub fn default_fallback_of(is_output: bool) -> (r: &'static str)
    ensures
        r@ == default_fallback(is_output),
{
    if is_output {
        "Default Output"
    } else {
        "Default Input"
    }
}

/// The description used for a listed device that reports none.
pub fn listed_fallback_of(is_output: bool) -> (r: &'static str)
    ensures
        r@ == listed_fallback(is_output),
{
    if is_output {
        "Unknown Output"
    } else {
        "Unknown Input"
    }
}

/// Builds the name of the session of a non-default device.
pub fn device_session_name_of(is_output: bool, description: &str) -> (r: String)
    ensures
        r@ == device_session_name(is_output, description@),
{
    if is_output {
        concatenate("output: ", description)
    } else {
        concatenate("input: ", description)
    }
}

/// Builds the name of the session of the default device.
pub fn default_device_session_name_of(is_output: bool, description: &str) -> (r: String)
    ensures
        r@ == default_device_session_name(is_output, description@),
{
    let head = device_session_name_of(is_output, description);
    if is_output {
        concatenate(head.as_str(), " (default_output)")
    } else {
        concatenate(head.as_str(), " (default_input)")
    }
}

/// Builds the short alias of the default device's session.
pub fn default_alias_of(is_output: bool) -> (r: String)
    ensures
        r@ == default_alias(is_output),
{
    if is_output {
        String::from_str("master")
    } else {
        String::from_str("mic")
    }
}

/// The description, or the fallback when there is none.
pub fn description_or_fallback(description: &Option<String>, fallback: &str) -> (r: String)
    ensures
        r@ == description_or(opt_view(*description), fallback@),
{
    match description {
        Some(d) => d.clone(),
        None => String::from_str(fallback),
    }
}

/// Decides `is_device_name`.
pub fn is_device_name_of(name: &str) -> (r: bool)
    ensures
        r == is_device_name(name@),
{
    starts_with(name, "input: ") || starts_with(name, "output: ")
}

/// Decides `is_output_device_name`.
pub fn is_output_device_name_of(name: &str) -> (r: bool)
    ensures
        r == is_output_device_name(name@),
{
    starts_with(name, "output: ")
}

/// Decides `is_input_device_name`.
pub fn is_input_device_name_of(name: &str) -> (r: bool)
    ensures
        r == is_input_device_name(name@),
{
    starts_with(name, "input: ")
}

/// Decides `is_monitor_source` for a source's server-side name.
pub fn is_monitor_source_of(name: &Option<String>) -> (r: bool)
    ensures
        r == is_monitor_source(opt_view(*name)),
{
    match name {
        Some(n) => ends_with(n.as_str(), ".monitor"),
        None => false,
    }
}

/// Whether the process of an application stream has to be looked up to name
/// it, that is whether its application name is missing or empty.
pub fn needs_process_lookup(application_name: &Option<String>) -> (r: bool)
    ensures
        r == !usable_application_name(opt_view(*application_name)),
{
    match application_name {
        Some(a) => a.as_str().unicode_len() == 0,
        None => true,
    }
}

/// Names an application stream, see `application_session_name`.
pub fn application_session_name_of(
    application_name: &Option<String>,
    process_name: &Option<String>,
) -> (r: String)
    ensures
        r@ == application_session_name(opt_view(*application_name), opt_view(*process_name)),
{
    if !needs_process_lookup(application_name) {
        match application_name {
            Some(a) => a.clone(),
            None => String::new(),
        }
    } else {
        match process_name {
            Some(p) => trim(p.as_str()),
            None => String::from_str("Unknown"),
        }
    }
}

/// The process id written in a stream's `application.process.id` property:
/// the property without surrounding white space, read as a `u32`.
pub fn parse_process_id(text: &str) -> (r: Option<u32>)
    ensures
        r == parsed_u32(trimmed(text@)),
{
    let t = trim(text);
    parse_u32(t.as_str())
}


/// No name is both an output device name and an input device name, and the
/// device names are exactly the names of either kind.
pub proof fn lemma_device_name_classes(n: Seq<char>)
    ensures
        is_device_name(n) <==> (is_output_device_name(n) || is_input_device_name(n)),
        !(is_output_device_name(n) && is_input_device_name(n)),
{
    reveal_strlit("output: ");
    reveal_strlit("input: ");
    if is_output_device_name(n) && is_input_device_name(n) {
        assert(n[0] == "output: "@[0]);
        assert(n[0] == "input: "@[0]);
    }
}

/// Among any names, the device names number as many as the output device
/// names and the input device names together.
pub proof fn lemma_device_names_partition(names: Seq<Seq<char>>)
    ensures
        names.filter(|n: Seq<char>| is_device_name(n)).len() == names.filter(
            |n: Seq<char>| is_output_device_name(n),
        ).len() + names.filter(|n: Seq<char>| is_input_device_name(n)).len(),
    decreases names.len(),
{
    reveal(Seq::filter);
    if names.len() > 0 {
        lemma_device_names_partition(names.drop_last());
        lemma_device_name_classes(names.last());
    }
}

/// The session names of a default device: its labelled name is a device
/// name of its direction; its alias is no device name at all.
pub proof fn lemma_default_names(is_output: bool, description: Seq<char>)
    ensures
        device_label(is_output).is_prefix_of(default_device_session_name(is_output, description)),
        is_output ==> is_output_device_name(default_device_session_name(is_output, description)),
        !is_output ==> is_input_device_name(default_device_session_name(is_output, description)),
        !is_device_name(default_alias(is_output)),
{
    reveal_strlit("output: ");
    reveal_strlit("input: ");
    reveal_strlit("master");
    reveal_strlit("mic");
    let full = default_device_session_name(is_output, description);
    assert(full.subrange(0, device_label(is_output).len() as int) =~= device_label(is_output));
    let a = default_alias(is_output);
    if "input: "@.is_prefix_of(a) {
        assert(a[0] == "input: "@[0]);
    }
    if "output: "@.is_prefix_of(a) {
        assert(a[0] == "output: "@[0]);
    }
}

/// The session name of a listed device is a device name of its direction.
pub proof fn lemma_listed_names(is_output: bool, description: Seq<char>)
    ensures
        device_label(is_output).is_prefix_of(device_session_name(is_output, description)),
        is_output ==> is_output_device_name(device_session_name(is_output, description)),
        !is_output ==> is_input_device_name(device_session_name(is_output, description)),
{
    let full = device_session_name(is_output, description);
    assert(full.subrange(0, device_label(is_output).len() as int) =~= device_label(is_output));
}


/// The labelled name of a default device keeps its whole description: it is
/// the label (`"output: "`, 8 characters, or `"input: "`, 7), then the
/// description unchanged, then the marker (`" (default_output)"`, 17
/// characters, or `" (default_input)"`, 16), and nothing else.
pub proof fn lemma_default_name_keeps_description(is_output: bool, description: Seq<char>)
    ensures
        ({
            let name = default_device_session_name(is_output, description);
            let head: int = if is_output { 8 } else { 7 };
            let tail: int = if is_output { 17 } else { 16 };
            &&& name.len() == head + description.len() + tail
            &&& name.subrange(head, head + description.len()) == description
            &&& is_output ==> name.subrange(0, 8) == "output: "@
            &&& !is_output ==> name.subrange(0, 7) == "input: "@
            &&& is_output ==> name.subrange(name.len() - 17, name.len() as int)
                == " (default_output)"@
            &&& !is_output ==> name.subrange(name.len() - 16, name.len() as int)
                == " (default_input)"@
        }),
{
    reveal_strlit("output: ");
    reveal_strlit("input: ");
    reveal_strlit(" (default_output)");
    reveal_strlit(" (default_input)");
    let name = default_device_session_name(is_output, description);
    let head: int = if is_output { 8 } else { 7 };
    let tail: int = if is_output { 17 } else { 16 };
    assert(name.subrange(head, head + description.len()) =~= description);
    assert(name.subrange(0, head) =~= device_label(is_output));
    assert(name.subrange(name.len() - tail, name.len() as int) =~= default_marker(is_output));
}

/// The name of a listed device is the label (`"output: "` or `"input: "`)
/// followed by its whole description, unchanged.
pub proof fn lemma_listed_name_keeps_description(is_output: bool, description: Seq<char>)
    ensures
        ({
            let name = device_session_name(is_output, description);
            let head: int = if is_output { 8 } else { 7 };
            &&& name.len() == head + description.len()
            &&& name.subrange(head, name.len() as int) == description
            &&& is_output ==> name.subrange(0, 8) == "output: "@
            &&& !is_output ==> name.subrange(0, 7) == "input: "@
        }),
{
    reveal_strlit("output: ");
    reveal_strlit("input: ");
    let name = device_session_name(is_output, description);
    let head: int = if is_output { 8 } else { 7 };
    assert(name.subrange(head, name.len() as int) =~= description);
    assert(name.subrange(0, head) =~= device_label(is_output));
}

/// A stream with a non-empty application name is named exactly that,
/// whatever its process is called; one with none (or an empty one) is named
/// after its process without surrounding white space, or `"Unknown"`.
pub proof fn lemma_application_name_used_whole(
    application_name: Option<Seq<char>>,
    process_name: Option<Seq<char>>,
)
    ensures
        application_name is Some && application_name.unwrap().len() > 0
            ==> application_session_name(application_name, process_name)
            == application_name.unwrap(),
        !(application_name is Some && application_name.unwrap().len() > 0) ==> application_session_name(
            application_name,
            process_name,
        ) == match process_name {
            Some(p) => trimmed(p),
            None => "Unknown"@,
        },
{
}

/// A source is a monitor exactly when its server-side name ends with
/// `".monitor"` (its last eight characters), whatever comes before.
pub proof fn lemma_monitor_by_suffix(name: Option<Seq<char>>)
    ensures
        is_monitor_source(name) <==> (name is Some && name.unwrap().len() >= 8
            && name.unwrap().subrange(name.unwrap().len() - 8, name.unwrap().len() as int)
            == ".monitor"@),
{
    reveal_strlit(".monitor");
    match name {
        Some(n) => {
            if n.len() >= 8 && n.subrange(n.len() - 8, n.len() as int) == ".monitor"@ {
                assert(".monitor"@ =~= n.subrange(n.len() - 8, n.len() as int));
            }
        },
        None => {},
    }
}

} // verus!
