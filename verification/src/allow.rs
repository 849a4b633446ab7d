//! The one predicate that decides what leaves the device.
//!
//! An event or span reaches the OTLP layers only when its target is on the
//! application's allow-list. That is what keeps private history local, and what
//! stops the exporter's own internal logs re-exporting in a loop.

use vstd::prelude::*;

use crate::client::client_target;
use crate::client::TARGET;
use crate::text::same;
use crate::text::starts_with;

verus! {

/// How severe an event or span is, most severe first.
#[derive(Clone, Copy, Debug, PartialEq, Eq, Structural)]
pub enum Level {
    Error,
    Warn,
    Info,
    Debug,
    Trace,
}

impl Level {
    /// The rank of a level: the larger, the more verbose.
    pub open spec fn verbosity(self) -> int {
        match self {
            Level::Error => 0,
            Level::Warn => 1,
            Level::Info => 2,
            Level::Debug => 3,
            Level::Trace => 4,
        }
    }

    /// Whether this level is INFO or more severe.
    pub fn at_least_info(self) -> (yes: bool)
        ensures
            yes == (self.verbosity() <= Level::Info.verbosity()),
    {
        match self {
            Level::Error | Level::Warn | Level::Info => true,
            Level::Debug | Level::Trace => false,
        }
    }
}

/// Spans opened by `reqwest-tracing`'s own backends carry no application data:
/// they are the client half of a trace that is wanted end to end. Their targets
/// are `reqwest_tracing::…`; a crate whose name merely begins like it is not meant.
pub const CLIENT_TARGET_PREFIX: &'static str = "reqwest_tracing";

/// The text of [`CLIENT_TARGET_PREFIX`].
pub open spec fn client_target_prefix() -> Seq<char> {
    CLIENT_TARGET_PREFIX@
}

/// The separator between a module and what is beneath it.
pub open spec fn separator() -> Seq<char> {
    seq![':', ':']
}

/// The targets of outbound client spans, which no allow-list has to name: that of
/// this crate's own client, and the modules of `reqwest-tracing`.
pub open spec fn client_span(target: Seq<char>) -> bool {
    ||| at_or_beneath(target, client_target_prefix())
    ||| target == client_target()
}

/// `target` is `entry` itself or a module beneath it.
pub open spec fn at_or_beneath(target: Seq<char>, entry: Seq<char>) -> bool {
    ||| target == entry
    ||| (entry + separator()).is_prefix_of(target)
}

/// What leaves the device: outbound client spans, and whatever an entry of the
/// allow-list covers.
pub open spec fn leaves(target: Seq<char>, allow: Seq<&str>) -> bool {
    ||| client_span(target)
    ||| exists|i: int| 0 <= i < allow.len() && at_or_beneath(target, #[trigger] allow[i]@)
}

/// True when `target` is exactly `entry`, or a module beneath it.
fn covers(entry: &str, target: &str) -> (yes: bool)
    ensures
        yes == at_or_beneath(target@, entry@),
{
    if same(target, entry) {
        return true;
    }
    let beneath = entry.to_owned().concat("::");
    proof {
        reveal_strlit("::");
        assert("::"@ =~= separator());
    }
    starts_with(target, beneath.as_str())
}

/// True when `target` is exactly an allow-list entry, or a module beneath one, or
/// the target of an outbound client span.
pub fn allowed(target: &str, allow: &[&str]) -> (yes: bool)
    ensures
        yes == leaves(target@, allow@),
{
    if covers(CLIENT_TARGET_PREFIX, target) || same(target, TARGET) {
        return true;
    }
    for i in 0..allow.len()
        invariant
            !client_span(target@),
            forall|j: int| 0 <= j < i ==> !at_or_beneath(target@, #[trigger] allow@[j]@),
    {
        if covers(allow[i], target) {
            return true;
        }
    }
    false
}

/// The filter both OTLP layers share: the allow-list, with a level floor of INFO.
pub fn otlp_filter(target: &str, level: Level, allow: &[&str]) -> (yes: bool)
    ensures
        yes == (level.verbosity() <= Level::Info.verbosity() && leaves(target@, allow@)),
        yes == (!(level is Debug) && !(level is Trace) && leaves(target@, allow@)),
{
    level.at_least_info() && allowed(target, allow)
}

/// An entry allows itself and every module beneath it, whatever else is listed.
pub proof fn an_entry_allows_what_is_beneath_it(allow: Seq<&str>, i: int, rest: Seq<char>)
    requires
        0 <= i < allow.len(),
    ensures
        leaves(allow[i]@, allow),
        leaves(allow[i]@ + separator() + rest, allow),
{
    let target = allow[i]@ + separator() + rest;
    let front = allow[i]@ + separator();
    assert(front =~= target.subrange(0, front.len() as int));
    assert(at_or_beneath(target, allow[i]@));
    assert(at_or_beneath(allow[i]@, allow[i]@));
}

/// A name that merely starts like an entry is not a module beneath it: unless
/// what follows the entry starts with the separator, the entry does not cover it.
pub proof fn a_prefix_is_not_a_module(entry: Seq<char>, rest: Seq<char>)
    requires
        rest.len() > 0,
        !separator().is_prefix_of(rest),
    ensures
        !at_or_beneath(entry + rest, entry),
{
    let target = entry + rest;
    let front = entry + separator();
    assert(target.len() != entry.len());
    if front.is_prefix_of(target) {
        assert(front == target.subrange(0, front.len() as int));
        assert forall|k: int| 0 <= k < separator().len() implies separator()[k] == rest[k] by {
            assert(front[entry.len() + k] == target[entry.len() + k]);
        }
        assert(separator() =~= rest.subrange(0, separator().len() as int));
    }
}

/// What is beneath a module is beneath everything that module is beneath.
pub proof fn beneath_is_transitive(target: Seq<char>, middle: Seq<char>, entry: Seq<char>)
    requires
        at_or_beneath(target, middle),
        at_or_beneath(middle, entry),
    ensures
        at_or_beneath(target, entry),
{
    if target != middle && middle != entry {
        let outer = entry + separator();
        let inner = middle + separator();
        assert(outer == middle.subrange(0, outer.len() as int));
        assert(inner == target.subrange(0, inner.len() as int));
        assert forall|k: int| 0 <= k < outer.len() implies outer[k] == target[k] by {
            assert(outer[k] == middle[k]);
            assert(inner[k] == middle[k]);
            assert(inner[k] == target[k]);
        }
        assert(outer =~= target.subrange(0, outer.len() as int));
    }
}

/// A longer list never denies what a shorter one allowed, and only the entries
/// count, not their order or how often they occur.
pub proof fn only_more_entries_allow_more(target: Seq<char>, fewer: Seq<&str>, more: Seq<&str>)
    requires
        forall|i: int|
            0 <= i < fewer.len() ==> exists|j: int|
                0 <= j < more.len() && more[j]@ == (#[trigger] fewer[i])@,
    ensures
        leaves(target, fewer) ==> leaves(target, more),
{
    if leaves(target, fewer) && !client_span(target) {
        let i = choose|i: int|
            0 <= i < fewer.len() && at_or_beneath(target, #[trigger] fewer[i]@);
        let j = choose|j: int| 0 <= j < more.len() && more[j]@ == fewer[i]@;
        assert(at_or_beneath(target, more[j]@));
    }
}

/// Only the client's own targets are let through unlisted: a name that merely begins
/// like one of them is denied by an empty list, as everything else is.
pub proof fn a_name_that_begins_like_a_clients_is_denied(rest: Seq<char>)
    requires
        rest.len() > 0,
    ensures
        !separator().is_prefix_of(rest) ==> !leaves(
            client_target_prefix() + rest,
            Seq::<&str>::empty(),
        ),
        !leaves(client_target() + rest, Seq::<&str>::empty()),
{
    reveal_strlit("reqwest_tracing");
    reveal_strlit("telemetry::client");
    if !separator().is_prefix_of(rest) {
        let target = client_target_prefix() + rest;
        a_prefix_is_not_a_module(client_target_prefix(), rest);
        assert(target[0] == 'r');
        assert(client_target()[0] == 't');
    }
    let target = client_target() + rest;
    let module = client_target_prefix() + separator();
    assert(target[0] == 't');
    assert(target.len() > client_target().len());
    assert(client_target_prefix()[0] == 'r');
    if module.is_prefix_of(target) {
        assert(module == target.subrange(0, module.len() as int));
        assert(module[0] == target[0]);
    }
}

/// With nothing listed, nothing but outbound client spans leaves the device.
pub proof fn an_empty_list_keeps_everything_else(target: Seq<char>)
    ensures
        leaves(target, Seq::<&str>::empty()) <==> client_span(target),
{
}

/// The exporter's own reporting is never a client span, so it leaves only where
/// the application's own list covers it: no export loop.
pub proof fn the_exporter_is_not_a_client(target: Seq<char>, allow: Seq<&str>)
    requires
        crate::noise::from_exporter(target),
    ensures
        !client_span(target),
        leaves(target, allow) <==> exists|i: int|
            0 <= i < allow.len() && at_or_beneath(target, #[trigger] allow[i]@),
{
    reveal_strlit("opentelemetry");
    reveal_strlit("reqwest_tracing");
    reveal_strlit("telemetry::client");
    let front = crate::noise::exporter_prefix();
    assert(front == target.subrange(0, front.len() as int));
    assert(front[0] == target[0]);
    let module = client_target_prefix() + separator();
    if module.is_prefix_of(target) {
        assert(module == target.subrange(0, module.len() as int));
        assert(module[0] == target[0]);
    }
}

/// Nothing else leaves: what leaves the device is one of the client's own targets, or
/// an entry of the list, or an entry followed by `::` and whatever comes then.
pub proof fn nothing_else_leaves(target: Seq<char>, allow: Seq<&str>)
    requires
        leaves(target, allow),
    ensures
        target == "telemetry::client"@ || target == "reqwest_tracing"@ || (
        "reqwest_tracing"@ + seq![':', ':']).is_prefix_of(target) || exists|i: int|
            0 <= i < allow.len() && (target == (#[trigger] allow[i])@ || (allow[i]@ + seq![
                ':',
                ':',
            ]).is_prefix_of(target)),
{
    if !client_span(target) {
        let i = choose|i: int|
            0 <= i < allow.len() && at_or_beneath(target, #[trigger] allow[i]@);
        assert(target == allow[i]@ || (allow[i]@ + seq![':', ':']).is_prefix_of(target));
    }
}

/// An entry, and whatever follows it behind `::`, leaves the device, wherever in the
/// list the entry stands and whatever else is listed.
pub proof fn an_entry_and_its_modules_leave(allow: Seq<&str>, i: int, rest: Seq<char>)
    requires
        0 <= i < allow.len(),
    ensures
        leaves(allow[i]@, allow),
        leaves(allow[i]@ + seq![':', ':'] + rest, allow),
{
    an_entry_allows_what_is_beneath_it(allow, i, rest);
}

/// The client's own targets leave the device whatever is listed.
pub proof fn the_clients_targets_leave(allow: Seq<&str>, rest: Seq<char>)
    ensures
        leaves("telemetry::client"@, allow),
        leaves("reqwest_tracing"@, allow),
        leaves("reqwest_tracing"@ + seq![':', ':'] + rest, allow),
{
    let front = "reqwest_tracing"@ + seq![':', ':'];
    let target = front + rest;
    assert(front =~= target.subrange(0, front.len() as int));
    assert(at_or_beneath(target, client_target_prefix()));
}

/// A target that is shorter than every entry, such as the module above each of them, is
/// denied, unless it is one of the client's own.
pub proof fn a_module_above_every_entry_is_denied(target: Seq<char>, allow: Seq<&str>)
    requires
        forall|i: int| 0 <= i < allow.len() ==> target.len() < (#[trigger] allow[i])@.len(),
        target != "telemetry::client"@,
        target != "reqwest_tracing"@,
        !("reqwest_tracing"@ + seq![':', ':']).is_prefix_of(target),
    ensures
        !leaves(target, allow),
{
    if leaves(target, allow) {
        nothing_else_leaves(target, allow);
    }
}

/// An entry says nothing of its neighbours: adding one to a list lets out only the
/// entry itself and what follows it behind `::`.
pub proof fn an_entry_lets_out_only_its_own(target: Seq<char>, allow: Seq<&str>, entry: &str)
    ensures
        leaves(target, allow.push(entry)) <==> leaves(target, allow) || target == entry@ || (entry@
            + seq![':', ':']).is_prefix_of(target),
{
    let more = allow.push(entry);
    assert(more[allow.len() as int]@ == entry@);
    if leaves(target, allow) && !client_span(target) {
        let i = choose|i: int|
            0 <= i < allow.len() && at_or_beneath(target, #[trigger] allow[i]@);
        assert(at_or_beneath(target, more[i]@));
    }
    if at_or_beneath(target, entry@) {
        assert(at_or_beneath(target, more[allow.len() as int]@));
    }
    if leaves(target, more) && !client_span(target) {
        let i = choose|i: int| 0 <= i < more.len() && at_or_beneath(target, #[trigger] more[i]@);
        if i < allow.len() {
            assert(at_or_beneath(target, allow[i]@));
        }
    }
}

/// The floor lets through errors, warnings and information, and neither debugging nor
/// tracing; a level is as verbose as another only where it is that one.
pub proof fn the_floor_is_information(level: Level, other: Level)
    ensures
        level.verbosity() <= Level::Info.verbosity() <==> level is Error || level is Warn
            || level is Info,
        level.verbosity() == other.verbosity() <==> level == other,
{
}

} // verus!
