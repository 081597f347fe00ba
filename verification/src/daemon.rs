//! What the daemon starts, what it warns about, and what it reports of itself.

use vstd::prelude::*;

use crate::input::input_permissions_ready;
use crate::input::plan_runtime;
use crate::input::HandoffEdge;
use crate::input::InputRuntimePlan;
use crate::input::InputRuntimeRole;
use crate::sorting::order_by_keys;
use crate::text::append;
use crate::text::ascii_lowercase;
use crate::text::ascii_lowered;
use crate::text::bool_text;
use crate::text::bool_wording;
use crate::text::concat;
use crate::text::contains_text;
use crate::text::equal_up_to_ascii_case;
use crate::text::join;
use crate::text::joined;
use crate::text::law_lowered_texts_agree_up_to_case;
use crate::text::law_text_order_is_total;
use crate::text::lists;
use crate::text::precedes;
use crate::text::same_ignoring_ascii_case;
use crate::text::texts;
use crate::text::to_chars;
use crate::text::trim;
use crate::text::trimmed;

verus! {

/// The transport that is used.
pub const EFFECTIVE_TRANSPORT: &'static str = "tcp";

/// A signal that ends the daemon.
#[derive(Clone, Copy, PartialEq, Eq, Structural, Debug)]
pub enum ShutdownSignal {
    Interrupt,
    Terminate,
}

/// The signals that end the daemon: a terminal's, and on Unix also the control
/// panel's.
pub fn configured_shutdown_signals(unix: bool) -> (signals: Vec<ShutdownSignal>)
    ensures
        signals@ == (if unix {
            seq![ShutdownSignal::Interrupt, ShutdownSignal::Terminate]
        } else {
            seq![ShutdownSignal::Interrupt]
        }),
{
    let mut signals: Vec<ShutdownSignal> = Vec::new();
    signals.push(ShutdownSignal::Interrupt);
    if unix {
        signals.push(ShutdownSignal::Terminate);
    }
    signals
}

/// The label of a role in the configuration.
pub fn input_role_label(role: InputRuntimeRole) -> (label: &'static str)
    ensures
        label@ == (match role {
            InputRuntimeRole::Disabled => "disabled"@,
            InputRuntimeRole::Source => "source"@,
            InputRuntimeRole::Target => "target"@,
            InputRuntimeRole::Both => "both"@,
        }),
{
    match role {
        InputRuntimeRole::Disabled => "disabled",
        InputRuntimeRole::Source => "source",
        InputRuntimeRole::Target => "target",
        InputRuntimeRole::Both => "both",
    }
}

/// The label of an edge in the configuration.
pub fn input_edge_label(edge: HandoffEdge) -> (label: &'static str)
    ensures
        label@ == (match edge {
            HandoffEdge::Left => "left"@,
            HandoffEdge::Right => "right"@,
            HandoffEdge::Top => "top"@,
            HandoffEdge::Bottom => "bottom"@,
        }),
{
    match edge {
        HandoffEdge::Left => "left",
        HandoffEdge::Right => "right",
        HandoffEdge::Top => "top",
        HandoffEdge::Bottom => "bottom",
    }
}

/// Whether a configured transport is one that is not used.
pub open spec fn unsupported(transport: Seq<char>) -> bool {
    trimmed(transport).len() > 0 && ascii_lowered(trimmed(transport)) != ascii_lowered(
        EFFECTIVE_TRANSPORT@,
    )
}

/// Whether a name is that of a configured transport that is not used.
pub open spec fn ignored(configured: Seq<String>, name: Seq<char>) -> bool {
    exists|i: int|
        0 <= i < configured.len() && unsupported((#[trigger] configured[i])@) && name
            == ascii_lowered(trimmed(configured[i]@))
}

/// Whether these are the names of the transports that are not used: each once, in
/// order.
pub open spec fn ignored_names(configured: Seq<String>, names: Seq<String>) -> bool {
    &&& forall|name: Seq<char>| lists(names, name) <==> #[trigger] ignored(configured, name)
    &&& forall|i: int, j: int|
        0 <= i < j < names.len() ==> precedes((#[trigger] names[i])@, (#[trigger] names[j])@)
}

/// The names of the configured transports that are not used, each once.
fn distinct_ignored(configured: &Vec<String>) -> (names: Vec<String>)
    ensures
        forall|name: Seq<char>| lists(names@, name) <==> #[trigger] ignored(configured@, name),
        forall|i: int, j: int|
            0 <= i < j < names@.len() ==> (#[trigger] names@[i])@ != (#[trigger] names@[j])@,
{
    let mut names: Vec<String> = Vec::new();
    let mut i: usize = 0;
    assert forall|name: Seq<char>| lists(names@, name) <==> #[trigger] ignored(
        configured@.take(0),
        name,
    ) by {}
    while i < configured.len()
        invariant
            i <= configured.len(),
            forall|name: Seq<char>|
                lists(names@, name) <==> #[trigger] ignored(configured@.take(i as int), name),
            forall|i: int, j: int|
                0 <= i < j < names@.len() ==> (#[trigger] names@[i])@ != (#[trigger] names@[j])@,
        decreases configured.len() - i,
    {
        let name = trim(&configured[i]);
        let ghost before = names@;
        let ghost lower = ascii_lowered(name@);
        let wanted: bool = to_chars(&name).len() > 0 && !same_ignoring_ascii_case(
            &name,
            EFFECTIVE_TRANSPORT,
        );
        assert(wanted == unsupported(configured@[i as int]@));
        if wanted {
            let lower_name = ascii_lowercase(&name);
            if !contains_text(&names, &lower_name) {
                names.push(lower_name);
            }
        }
        proof {
            let now = configured@.take(i + 1);
            let seen = configured@.take(i as int);
            assert forall|n: Seq<char>| lists(names@, n) <==> #[trigger] ignored(now, n) by {
                assert(ignored(seen, n) <==> lists(before, n));
                if ignored(seen, n) {
                    let k = choose|k: int|
                        0 <= k < seen.len() && unsupported((#[trigger] seen[k])@) && n
                            == ascii_lowered(trimmed(seen[k]@));
                    assert(now[k] == seen[k]);
                }
                if lists(before, n) {
                    let k = choose|k: int| 0 <= k < before.len() && #[trigger] before[k]@ == n;
                    assert(names@[k]@ == n);
                }
                if wanted && n == lower {
                    assert(now[i as int] == configured@[i as int]);
                    if !lists(before, n) {
                        assert(names@[names@.len() - 1]@ == n);
                    }
                }
                if ignored(now, n) && !(wanted && n == lower) {
                    let k = choose|k: int|
                        0 <= k < now.len() && unsupported((#[trigger] now[k])@) && n
                            == ascii_lowered(trimmed(now[k]@));
                    assert(seen[k] == now[k]);
                    assert(ignored(seen, n));
                }
                if lists(names@, n) && !lists(before, n) {
                    let k = choose|k: int| 0 <= k < names@.len() && #[trigger] names@[k]@ == n;
                    if k < before.len() {
                        assert(before[k]@ == n);
                    }
                }
            }
        }
        i += 1;
    }
    assert(configured@.take(i as int) =~= configured@);
    names
}

/// The names of the configured transports that are not used, in order.
pub fn ignored_transports(configured: &Vec<String>) -> (names: Vec<String>)
    ensures
        ignored_names(configured@, names@),
{
    let found = distinct_ignored(configured);
    let order: Vec<usize> = order_by_keys(&found);
    let mut names: Vec<String> = Vec::new();
    let mut k: usize = 0;
    while k < order.len()
        invariant
            k <= order.len(),
            crate::sorting::is_permutation(order@, found@.len() as int),
            names.len() == k,
            forall|m: int| 0 <= m < k ==> (#[trigger] names@[m])@ == found@[order@[m] as int]@,
        decreases order.len() - k,
    {
        names.push(found[order[k]].clone());
        k += 1;
    }
    proof {
        assert forall|name: Seq<char>| lists(names@, name) <==> #[trigger] ignored(
            configured@,
            name,
        ) by {
            assert(lists(found@, name) <==> ignored(configured@, name));
            if lists(names@, name) {
                let m = choose|m: int| 0 <= m < names@.len() && #[trigger] names@[m]@ == name;
                assert(found@[order@[m] as int]@ == name);
            }
            if lists(found@, name) {
                let f = choose|f: int| 0 <= f < found@.len() && #[trigger] found@[f]@ == name;
                assert(crate::sorting::covered(order@, f));
                let m = choose|m: int| 0 <= m < order@.len() && #[trigger] order@[m] == f;
                assert(names@[m]@ == name);
            }
        }
        assert forall|i: int, j: int| 0 <= i < j < names@.len() implies precedes(
            (#[trigger] names@[i])@,
            (#[trigger] names@[j])@,
        ) by {
            let a = order@[i] as int;
            let b = order@[j] as int;
            assert(order@[i] != order@[j]);
            if a < b {
                assert(found@[a]@ != found@[b]@);
            } else {
                assert(found@[b]@ != found@[a]@);
            }
        }
    }
    names
}

/// The warning about transports that are configured and not used.
pub fn unsupported_transport_warning(configured: &Vec<String>) -> (warning: Option<String>)
    ensures
        match warning {
            None => forall|name: Seq<char>| !#[trigger] ignored(configured@, name),
            Some(text) => warns_of(configured@, text@),
        },
{
    let names = ignored_transports(configured);
    if names.len() == 0 {
        assert forall|name: Seq<char>| !#[trigger] ignored(configured@, name) by {
            assert(!lists(names@, name));
        }
        return None;
    }
    let mut text = "unsupported configured transports ignored: ".to_owned();
    append(&mut text, &join(&names, ","));
    append(&mut text, "; effective transport: ");
    append(&mut text, EFFECTIVE_TRANSPORT);
    proof {
        assert(ignored_names(configured@, names@) && names@.len() > 0);
    }
    Some(text)
}

/// Whether a text warns of the configured transports that are not used.
pub open spec fn warns_of(configured: Seq<String>, text: Seq<char>) -> bool {
    exists|names: Seq<String>|
        #[trigger] ignored_names(configured, names) && names.len() > 0 && text
            == "unsupported configured transports ignored: "@ + joined(texts(names), ","@)
            + "; effective transport: "@ + EFFECTIVE_TRANSPORT@
}

proof fn lemma_first_is_least(names: Seq<String>, i: int)
    requires
        forall|i: int, j: int|
            0 <= i < j < names.len() ==> precedes((#[trigger] names[i])@, (#[trigger] names[j])@),
        0 <= i < names.len(),
    ensures
        names[0]@ == names[i]@ || precedes(names[0]@, names[i]@),
{
    if i > 0 {
        assert(precedes(names[0]@, names[i]@));
    }
}

proof fn lemma_same_sorted_names(a: Seq<String>, b: Seq<String>)
    requires
        forall|i: int, j: int|
            0 <= i < j < a.len() ==> precedes((#[trigger] a[i])@, (#[trigger] a[j])@),
        forall|i: int, j: int|
            0 <= i < j < b.len() ==> precedes((#[trigger] b[i])@, (#[trigger] b[j])@),
        forall|name: Seq<char>| #[trigger] lists(a, name) <==> lists(b, name),
    ensures
        texts(a) == texts(b),
    decreases a.len(),
{
    if a.len() == 0 {
        if b.len() > 0 {
            assert(lists(b, b[0]@));
            assert(lists(a, b[0]@));
        }
        assert(texts(a) =~= texts(b));
    } else {
        assert(lists(a, a[0]@));
        assert(lists(b, a[0]@));
        let k = choose|k: int| 0 <= k < b.len() && #[trigger] b[k]@ == a[0]@;
        assert(lists(b, b[0]@));
        assert(lists(a, b[0]@));
        let m = choose|m: int| 0 <= m < a.len() && #[trigger] a[m]@ == b[0]@;
        lemma_first_is_least(a, m);
        lemma_first_is_least(b, k);
        law_text_order_is_total(a[0]@, b[0]@);
        assert(a[0]@ == b[0]@);
        let x = a.drop_first();
        let y = b.drop_first();
        assert forall|i: int, j: int| 0 <= i < j < x.len() implies precedes(
            (#[trigger] x[i])@,
            (#[trigger] x[j])@,
        ) by {
            assert(x[i] == a[i + 1] && x[j] == a[j + 1]);
        }
        assert forall|i: int, j: int| 0 <= i < j < y.len() implies precedes(
            (#[trigger] y[i])@,
            (#[trigger] y[j])@,
        ) by {
            assert(y[i] == b[i + 1] && y[j] == b[j + 1]);
        }
        assert forall|name: Seq<char>| #[trigger] lists(x, name) <==> lists(y, name) by {
            if lists(x, name) {
                let i = choose|i: int| 0 <= i < x.len() && #[trigger] x[i]@ == name;
                assert(a[i + 1]@ == name);
                assert(lists(a, name));
                assert(lists(b, name));
                let j = choose|j: int| 0 <= j < b.len() && #[trigger] b[j]@ == name;
                assert(precedes(a[0]@, a[i + 1]@));
                law_text_order_is_total(name, name);
                assert(j > 0);
                assert(y[j - 1]@ == name);
            }
            if lists(y, name) {
                let i = choose|i: int| 0 <= i < y.len() && #[trigger] y[i]@ == name;
                assert(b[i + 1]@ == name);
                assert(lists(b, name));
                assert(lists(a, name));
                let j = choose|j: int| 0 <= j < a.len() && #[trigger] a[j]@ == name;
                assert(precedes(b[0]@, b[i + 1]@));
                law_text_order_is_total(name, name);
                assert(j > 0);
                assert(x[j - 1]@ == name);
            }
        }
        lemma_same_sorted_names(x, y);
        assert(texts(a) =~= seq![a[0]@] + texts(x));
        assert(texts(b) =~= seq![b[0]@] + texts(y));
    }
}

/// The names of ignored transports are determined by the configuration, and the
/// transport that is used is never among them.
pub proof fn law_ignored_names_are_determined(
    configured: Seq<String>,
    a: Seq<String>,
    b: Seq<String>,
)
    requires
        ignored_names(configured, a),
        ignored_names(configured, b),
    ensures
        texts(a) == texts(b),
        !lists(a, ascii_lowered(EFFECTIVE_TRANSPORT@)),
{
    assert forall|name: Seq<char>| #[trigger] lists(a, name) <==> lists(b, name) by {
        assert(lists(a, name) <==> ignored(configured, name));
        assert(lists(b, name) <==> ignored(configured, name));
    }
    lemma_same_sorted_names(a, b);
    let t = ascii_lowered(EFFECTIVE_TRANSPORT@);
    assert(lists(a, t) <==> ignored(configured, t));
}

/// What the daemon knows when it starts.
#[derive(Debug)]
pub struct DaemonSetup {
    pub role: InputRuntimeRole,
    pub can_capture_input: bool,
    pub can_inject_input: bool,
    /// Whether this platform can capture and inject for a peer.
    pub input_lane_supported: bool,
    pub can_access_clipboard: bool,
    /// Whether this platform can follow and set the clipboard.
    pub clipboard_lane_supported: bool,
    pub sync_enabled: bool,
    pub history_enabled: bool,
    pub file_transfer_enabled: bool,
    /// Whether the transport could bind its port.
    pub transport_bound: bool,
    pub connect_addr: Option<String>,
    pub enable_discovery: bool,
}

/// What the daemon starts.
#[derive(Debug)]
pub struct DaemonPlan {
    pub input: InputRuntimePlan,
    pub permissions_ready: bool,
    pub input_lane: bool,
    pub clipboard_lane: bool,
    pub file_transfer_lane: bool,
    pub open_history: bool,
    pub poll_history: bool,
    pub accept_connections: bool,
    /// The peer to dial.
    pub dial: Option<String>,
    /// Whether a peer was to be dialled and cannot be.
    pub dial_impossible: bool,
    pub discovery: bool,
}

/// The peer that the configuration names, if it names one.
pub open spec fn configured_peer(connect_addr: Option<String>) -> Option<Seq<char>> {
    match connect_addr {
        Some(addr) => if trimmed(addr@).len() > 0 {
            Some(trimmed(addr@))
        } else {
            None
        },
        None => None,
    }
}

/// Whether a plan is the one for a setup.
pub open spec fn plans_setup(plan: DaemonPlan, setup: DaemonSetup) -> bool {
    &&& plan.input == crate::input::runtime_plan(
        setup.role,
        setup.can_capture_input,
        setup.can_inject_input,
    )
    &&& plan.permissions_ready == crate::input::permissions_ready(
        setup.role,
        setup.can_capture_input,
        setup.can_inject_input,
    )
    &&& plan.input_lane == (setup.input_lane_supported && (plan.input.start_inject_receiver
        || plan.input.start_capture_forwarder))
    &&& plan.clipboard_lane == (setup.clipboard_lane_supported && setup.sync_enabled
        && setup.can_access_clipboard)
    &&& plan.file_transfer_lane == setup.file_transfer_enabled
    &&& plan.open_history == setup.history_enabled
    &&& plan.poll_history == (setup.clipboard_lane_supported && setup.can_access_clipboard
        && setup.history_enabled)
    &&& plan.accept_connections == setup.transport_bound
    &&& (match plan.dial {
        Some(addr) => setup.transport_bound && configured_peer(setup.connect_addr) == Some(addr@),
        None => !setup.transport_bound || configured_peer(setup.connect_addr) is None,
    })
    &&& plan.dial_impossible == (!setup.transport_bound && configured_peer(setup.connect_addr)
        is Some)
    &&& plan.discovery == setup.enable_discovery
}

/// Decides what the daemon starts.
pub fn plan_daemon(setup: &DaemonSetup) -> (plan: DaemonPlan)
    ensures
        plans_setup(plan, *setup),
{
    let input = plan_runtime(setup.role, setup.can_capture_input, setup.can_inject_input);
    let named: Option<String> = match &setup.connect_addr {
        Some(addr) => {
            let t = trim(addr);
            if to_chars(&t).len() > 0 {
                Some(t)
            } else {
                None
            }
        },
        None => None,
    };
    let dial_impossible: bool = !setup.transport_bound && named.is_some();
    let dial: Option<String> = if setup.transport_bound {
        named
    } else {
        None
    };
    DaemonPlan {
        input,
        permissions_ready: input_permissions_ready(
            setup.role,
            setup.can_capture_input,
            setup.can_inject_input,
        ),
        input_lane: setup.input_lane_supported && (input.start_inject_receiver
            || input.start_capture_forwarder),
        clipboard_lane: setup.clipboard_lane_supported
            && crate::clipboard::clipboard_runtime_enabled(
            setup.sync_enabled,
            setup.can_access_clipboard,
        ),
        file_transfer_lane: setup.file_transfer_enabled,
        open_history: setup.history_enabled,
        poll_history: setup.clipboard_lane_supported && setup.can_access_clipboard
            && setup.history_enabled,
        accept_connections: setup.transport_bound,
        dial,
        dial_impossible,
        discovery: setup.enable_discovery,
    }
}

/// Whether a platform's capability can be used now.
pub fn usable_capability(can: bool, permission_pending: bool) -> (b: bool)
    ensures
        b == (can && !permission_pending),
{
    can && !permission_pending
}

/// What the diagnostics say of the configuration.
#[derive(Debug)]
pub struct DoctorFacts {
    pub os: String,
    pub config_path: String,
    pub device_name: String,
    pub enable_discovery: bool,
    pub connect_addr: Option<String>,
    pub transports: Vec<String>,
    /// Lines on the input runtime.
    pub runtime: Vec<String>,
    pub plugins_enabled: bool,
    pub unified_desktop: bool,
    pub shared_cursor: bool,
    /// Lines on the platform's integrations; absent where there is no backend.
    pub integrations: Option<Vec<String>>,
}

/// The lines before the transports' warning.
pub open spec fn doctor_head(facts: DoctorFacts) -> Seq<Seq<char>> {
    seq![
        "nexkvm doctor"@,
        "  os: "@ + facts.os@,
        "  config: "@ + facts.config_path@,
        "  device name: "@ + facts.device_name@,
        "  discovery: "@ + bool_wording(facts.enable_discovery),
        "  explicit connect: "@ + (match facts.connect_addr {
            Some(addr) => addr@,
            None => "disabled"@,
        }),
        "  effective transport: "@ + EFFECTIVE_TRANSPORT@,
    ]
}

/// Lines, indented.
pub open spec fn indented(lines: Seq<String>) -> Seq<Seq<char>> {
    lines.map_values(|l: String| "  "@ + l@)
}

/// The lines after the transports' warning.
pub open spec fn doctor_tail(facts: DoctorFacts) -> Seq<Seq<char>> {
    seq!["  pairing policy: required (authenticated trusted peers only)"@] + indented(
        facts.runtime@,
    ) + seq![
        "  plugins enabled: "@ + bool_wording(facts.plugins_enabled),
        "  workspace unified desktop: "@ + bool_wording(facts.unified_desktop),
        "  collaboration shared cursor: "@ + bool_wording(facts.shared_cursor),
    ] + (match facts.integrations {
        Some(lines) => indented(lines@),
        None => seq!["  platform capabilities: headless/unsupported OS"@],
    })
}

fn push_line(lines: &mut Vec<String>, head: &str, tail: &str)
    ensures
        texts(final(lines)@) == texts(old(lines)@).push(head@ + tail@),
{
    let ghost before = lines@;
    lines.push(concat(head, tail));
    assert(texts(lines@) =~= texts(before).push(head@ + tail@));
}

fn push_indented(lines: &mut Vec<String>, more: &Vec<String>)
    ensures
        texts(final(lines)@) == texts(old(lines)@) + indented(more@),
{
    let mut i: usize = 0;
    assert(texts(lines@) =~= texts(old(lines)@) + indented(more@).take(0));
    while i < more.len()
        invariant
            i <= more.len(),
            texts(lines@) == texts(old(lines)@) + indented(more@).take(i as int),
        decreases more.len() - i,
    {
        push_line(lines, "  ", &more[i]);
        assert(indented(more@).take(i + 1) =~= indented(more@).take(i as int).push(
            "  "@ + more@[i as int]@,
        ));
        i += 1;
        assert(texts(lines@) =~= texts(old(lines)@) + indented(more@).take(i as int));
    }
    assert(indented(more@).take(i as int) =~= indented(more@));
}

/// What is said of the configured transports: a warning where some are not used, and
/// nothing where all are.
pub open spec fn transports_remark(configured: Seq<String>, remark: Option<Seq<char>>) -> bool {
    match remark {
        None => forall|name: Seq<char>| !#[trigger] ignored(configured, name),
        Some(text) => warns_of(configured, text),
    }
}

/// The lines of the diagnostics, with what is said of the transports.
pub open spec fn doctor_report(facts: DoctorFacts, remark: Option<Seq<char>>) -> Seq<Seq<char>> {
    (match remark {
        Some(text) => doctor_head(facts).push("  "@ + text),
        None => doctor_head(facts),
    }) + doctor_tail(facts)
}

/// Writes the diagnostics, line by line, with the warning about transports that are
/// configured and not used.
#[verifier::rlimit(40)]
pub fn doctor_lines(facts: &DoctorFacts) -> (lines: Vec<String>)
    ensures
        exists|remark: Option<Seq<char>>| #[trigger]
            transports_remark(facts.transports@, remark) && texts(lines@) == doctor_report(
                *facts,
                remark,
            ),
{
    let warning = unsupported_transport_warning(&facts.transports);
    let ghost remark: Option<Seq<char>> = if warning is Some {
        Some(warning->Some_0@)
    } else {
        None
    };
    assert(transports_remark(facts.transports@, remark));
    let mut lines: Vec<String> = Vec::new();
    push_line(&mut lines, "nexkvm doctor", "");
    push_line(&mut lines, "  os: ", &facts.os);
    push_line(&mut lines, "  config: ", &facts.config_path);
    push_line(&mut lines, "  device name: ", &facts.device_name);
    push_line(&mut lines, "  discovery: ", bool_text(facts.enable_discovery));
    match &facts.connect_addr {
        Some(addr) => push_line(&mut lines, "  explicit connect: ", addr),
        None => push_line(&mut lines, "  explicit connect: ", "disabled"),
    }
    push_line(&mut lines, "  effective transport: ", EFFECTIVE_TRANSPORT);
    proof {
        reveal_strlit("");
        assert("nexkvm doctor"@ + ""@ =~= "nexkvm doctor"@);
    }
    assert(texts(lines@) =~= doctor_head(*facts));
    if let Some(text) = &warning {
        push_line(&mut lines, "  ", text);
    }
    let ghost head = texts(lines@);
    push_line(&mut lines, "  pairing policy: required (authenticated trusted peers only)", "");
    assert("  pairing policy: required (authenticated trusted peers only)"@ + ""@
        =~= "  pairing policy: required (authenticated trusted peers only)"@);
    push_indented(&mut lines, &facts.runtime);
    push_line(&mut lines, "  plugins enabled: ", bool_text(facts.plugins_enabled));
    push_line(&mut lines, "  workspace unified desktop: ", bool_text(facts.unified_desktop));
    push_line(&mut lines, "  collaboration shared cursor: ", bool_text(facts.shared_cursor));
    match &facts.integrations {
        Some(more) => push_indented(&mut lines, more),
        None => {
            push_line(&mut lines, "  platform capabilities: headless/unsupported OS", "");
            assert("  platform capabilities: headless/unsupported OS"@ + ""@
                =~= "  platform capabilities: headless/unsupported OS"@);
        },
    }
    assert(texts(lines@) =~= doctor_report(*facts, remark));
    lines
}

/// Every configured transport other than the one in use is named once in lower case,
/// whatever its place in the configuration and however it is written there. A blank
/// one is not named, and nothing is that was not configured.
pub proof fn law_every_other_transport_is_named(
    configured: Seq<String>,
    names: Seq<String>,
    i: int,
    k: int,
)
    requires
        ignored_names(configured, names),
    ensures
        0 <= i < configured.len() && trimmed(configured[i]@).len() > 0 && !equal_up_to_ascii_case(
            trimmed(configured[i]@),
            "tcp"@,
        ) ==> exists|j: int|
            0 <= j < names.len() && #[trigger] names[j]@ == ascii_lowered(trimmed(configured[i]@)),
        0 <= k < names.len() ==> exists|j: int|
            0 <= j < configured.len() && trimmed((#[trigger] configured[j])@).len() > 0
                && !equal_up_to_ascii_case(trimmed(configured[j]@), "tcp"@) && names[k]@
                == ascii_lowered(trimmed(configured[j]@)),
        forall|a: int, b: int|
            0 <= a < b < names.len() ==> precedes((#[trigger] names[a])@, (#[trigger] names[b])@),
{
    if 0 <= i < configured.len() {
        law_lowered_texts_agree_up_to_case(trimmed(configured[i]@), "tcp"@);
        if unsupported(configured[i]@) {
            assert(ignored(configured, ascii_lowered(trimmed(configured[i]@))));
            assert(lists(names, ascii_lowered(trimmed(configured[i]@))));
        }
    }
    if 0 <= k < names.len() {
        assert(lists(names, names[k]@));
        assert(ignored(configured, names[k]@));
        let j = choose|j: int|
            0 <= j < configured.len() && unsupported((#[trigger] configured[j])@) && names[k]@
                == ascii_lowered(trimmed(configured[j]@));
        law_lowered_texts_agree_up_to_case(trimmed(configured[j]@), "tcp"@);
        assert(trimmed(configured[j]@).len() > 0);
    }
}

/// A configured peer is dialled where the transport is bound, under its address without
/// the white space round it; where it is not bound, that is reported. A blank address
/// is none.
pub proof fn law_configured_peers_are_dialled(plan: DaemonPlan, setup: DaemonSetup)
    requires
        plans_setup(plan, setup),
    ensures
        plan.dial is Some <==> setup.transport_bound && setup.connect_addr is Some && trimmed(
            setup.connect_addr->Some_0@,
        ).len() > 0,
        plan.dial is Some ==> plan.dial->Some_0@ == trimmed(setup.connect_addr->Some_0@),
        plan.dial_impossible <==> !setup.transport_bound && setup.connect_addr is Some && trimmed(
            setup.connect_addr->Some_0@,
        ).len() > 0,
        plan.accept_connections == setup.transport_bound,
        plan.discovery == setup.enable_discovery,
{
}

/// A lane starts exactly where its subsystem is enabled, this build has it and the
/// platform lets it work; the history is opened even where nothing can be polled.
pub proof fn law_lanes_start_where_they_can_work(plan: DaemonPlan, setup: DaemonSetup)
    requires
        plans_setup(plan, setup),
    ensures
        plan.input_lane <==> setup.input_lane_supported && ((setup.can_capture_input && (setup.role
            == InputRuntimeRole::Source || setup.role == InputRuntimeRole::Both)) || (
        setup.can_inject_input && (setup.role == InputRuntimeRole::Target || setup.role
            == InputRuntimeRole::Both))),
        plan.clipboard_lane <==> setup.clipboard_lane_supported && setup.sync_enabled
            && setup.can_access_clipboard,
        plan.file_transfer_lane == setup.file_transfer_enabled,
        plan.open_history == setup.history_enabled,
        plan.poll_history <==> setup.history_enabled && setup.clipboard_lane_supported
            && setup.can_access_clipboard,
{
    crate::input::law_roles_start_their_directions(
        setup.role,
        setup.can_capture_input,
        setup.can_inject_input,
    );
}

/// Every line that the runtime and the integrations report stands in the report, in
/// its order and indented; a remark on the transports stands before all of them.
pub proof fn law_reports_hold_every_line(
    facts: DoctorFacts,
    remark: Option<Seq<char>>,
    i: int,
)
    ensures
        ({
            let report = doctor_report(facts, remark);
            let start = if remark is Some {
                8int
            } else {
                7int
            };
            let rest = start + 1 + facts.runtime@.len() + 3;
            &&& remark is Some ==> report[7] == "  "@ + remark->Some_0
            &&& 0 <= i < facts.runtime@.len() ==> report[start + 1 + i] == "  "@
                + facts.runtime@[i]@
            &&& match facts.integrations {
                Some(lines) => report.len() == rest + lines@.len() && (0 <= i < lines@.len()
                    ==> report[rest + i] == "  "@ + lines@[i]@),
                None => report.len() == rest + 1,
            }
        }),
{
}

/// A warning names exactly the transports that are ignored, with a comma between each
/// two, and the one in use; where none is ignored nothing can be warned of.
pub proof fn law_warnings_name_what_is_ignored(
    configured: Seq<String>,
    names: Seq<String>,
    text: Seq<char>,
)
    requires
        ignored_names(configured, names),
    ensures
        warns_of(configured, text) <==> names.len() > 0 && text
            == "unsupported configured transports ignored: "@ + joined(texts(names), ","@)
            + "; effective transport: tcp"@,
        transports_remark(configured, None) <==> names.len() == 0,
{
    let head = "unsupported configured transports ignored: "@ + joined(texts(names), ","@);
    reveal_strlit("; effective transport: ");
    reveal_strlit("tcp");
    reveal_strlit("; effective transport: tcp");
    assert("; effective transport: "@ + "tcp"@ =~= "; effective transport: tcp"@);
    assert(head + "; effective transport: "@ + "tcp"@ =~= head + "; effective transport: tcp"@);
    assert forall|other: Seq<String>| #[trigger] ignored_names(configured, other) implies texts(
        other,
    ) == texts(names) by {
        law_ignored_names_are_determined(configured, other, names);
    }
    assert forall|other: Seq<String>| #[trigger] ignored_names(configured, other) implies other.len()
        == names.len() by {
        assert(texts(other).len() == texts(names).len());
    }
    if names.len() > 0 {
        assert(lists(names, names[0]@));
        assert(ignored(configured, names[0]@));
    } else {
        assert forall|name: Seq<char>| !#[trigger] ignored(configured, name) by {
            assert(!lists(names, name));
        }
    }
}

} // verus!
