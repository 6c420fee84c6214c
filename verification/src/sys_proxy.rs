//! The operating system's proxy settings.
//!
//! Setting, clearing and reading the system proxy is planned here as a list of
//! steps (commands to run, registry values to write) for the platform, and read
//! back from what the platform reported; the caller carries the steps out. The
//! HTTP, HTTPS and SOCKS proxies all point at the one local port of the unified
//! proxy.
use crate::text::{
    decimal, decimal_string, owned, push_char, push_text, substring, text_eq, trim, trim_text, utf8_lossy,
    utf8_lossy_text, contains_text, occurs_in,
};
use vstd::prelude::*;

verus! {

/// Whether the system proxy is on.
#[derive(Debug, Clone, Copy)]
pub struct SystemProxyState {
    pub enabled: bool,
}

/// Remembers whether this process turned the system proxy on, so that it can
/// be turned off again when the process is done with it.
#[derive(Debug)]
pub struct ProxyGuard {
    active: bool,
}

impl ProxyGuard {
    /// Whether the proxy should be cleared when the guard is dropped.
    pub closed spec fn active_spec(&self) -> bool {
        self.active
    }

    /// An inactive guard.
    pub fn new() -> (g: Self)
        ensures
            !g.active_spec(),
    {
        ProxyGuard { active: false }
    }

    /// Marks the system proxy as set by this process.
    pub fn activate(&mut self)
        ensures
            final(self).active_spec(),
    {
        self.active = true;
    }

    /// Marks the system proxy as no longer this process's to clear.
    pub fn deactivate(&mut self)
        ensures
            !final(self).active_spec(),
    {
        self.active = false;
    }

    /// Whether the proxy should be cleared when the guard is dropped.
    pub fn is_active(&self) -> (b: bool)
        ensures
            b == self.active_spec(),
    {
        self.active
    }
}

/// The platform whose proxy settings are changed.
#[derive(Debug, Clone)]
pub enum ProxyTarget {
    /// macOS, through `networksetup` on the given network service.
    MacOs { interface: String },
    /// Windows, through the Internet Settings registry key of the current user.
    Windows,
    /// Linux desktops, through GNOME's `gsettings`.
    Linux,
}

/// One step of changing the system proxy.
#[derive(Debug, Clone)]
pub enum ProxyStep {
    /// Run a command; failing to start it fails the whole change.
    Run { program: String, args: Vec<String> },
    /// Run a command, ignoring whether it could be started.
    TryRun { program: String, args: Vec<String> },
    /// Write a DWORD value under the Internet Settings key.
    SetRegistryDword { name: String, value: u32 },
    /// Write a string value under the Internet Settings key.
    SetRegistryString { name: String, value: String },
    /// Tell the system the proxy settings changed.
    NotifyProxyChange,
}

/// The texts of a list of strings.
pub open spec fn texts(v: Seq<String>) -> Seq<Seq<char>> {
    v.map_values(|s: String| s@)
}

/// `step` runs `program` with `args`; `required` says whether failing to start
/// it fails the change.
pub open spec fn runs(step: ProxyStep, required: bool, program: Seq<char>, args: Seq<Seq<char>>) -> bool {
    match step {
        ProxyStep::Run { program: p, args: a } => required && p@ == program && texts(a@) == args,
        ProxyStep::TryRun { program: p, args: a } => !required && p@ == program && texts(a@) == args,
        _ => false,
    }
}

/// What a step does, with its texts as character sequences.
pub enum StepView {
    Run(Seq<char>, Seq<Seq<char>>),
    TryRun(Seq<char>, Seq<Seq<char>>),
    SetRegistryDword(Seq<char>, u32),
    SetRegistryString(Seq<char>, Seq<char>),
    NotifyProxyChange,
}

/// What `step` does.
pub open spec fn step_view(step: ProxyStep) -> StepView {
    match step {
        ProxyStep::Run { program, args } => StepView::Run(program@, texts(args@)),
        ProxyStep::TryRun { program, args } => StepView::TryRun(program@, texts(args@)),
        ProxyStep::SetRegistryDword { name, value } => StepView::SetRegistryDword(name@, value),
        ProxyStep::SetRegistryString { name, value } => StepView::SetRegistryString(name@, value@),
        ProxyStep::NotifyProxyChange => StepView::NotifyProxyChange,
    }
}

/// What a list of steps does.
pub open spec fn plan_view(steps: Seq<ProxyStep>) -> Seq<StepView> {
    steps.map_values(|s: ProxyStep| step_view(s))
}

/// "gsettings set <schema> <key> <value>", failures ignored.
pub open spec fn gsettings_set(schema: Seq<char>, key: Seq<char>, value: Seq<char>) -> StepView {
    StepView::TryRun("gsettings"@, seq!["set"@, schema, key, value])
}

/// "networksetup <args>", failures fatal.
pub open spec fn networksetup_run(args: Seq<Seq<char>>) -> StepView {
    StepView::Run("networksetup"@, args)
}

/// The plan of `set_system_proxy`: it depends on the platform and the HTTP port
/// alone.
pub open spec fn set_proxy_plan(target: ProxyTarget, http_port: u16) -> Seq<StepView> {
    let p = decimal(http_port as nat);
    match target {
        ProxyTarget::Linux => seq![
            gsettings_set("org.gnome.system.proxy"@, "mode"@, "manual"@),
            gsettings_set("org.gnome.system.proxy.http"@, "host"@, loopback()),
            gsettings_set("org.gnome.system.proxy.http"@, "port"@, p),
            gsettings_set("org.gnome.system.proxy.https"@, "host"@, loopback()),
            gsettings_set("org.gnome.system.proxy.https"@, "port"@, p),
            gsettings_set("org.gnome.system.proxy.socks"@, "host"@, loopback()),
            gsettings_set("org.gnome.system.proxy.socks"@, "port"@, p),
        ],
        ProxyTarget::MacOs { interface } => {
            let i = interface@;
            seq![
                networksetup_run(seq!["-setwebproxy"@, i, loopback(), p]),
                networksetup_run(seq!["-setwebproxystate"@, i, "on"@]),
                networksetup_run(seq!["-setsecurewebproxy"@, i, loopback(), p]),
                networksetup_run(seq!["-setsecurewebproxystate"@, i, "on"@]),
                networksetup_run(seq!["-setsocksfirewallproxy"@, i, loopback(), p]),
                networksetup_run(seq!["-setsocksfirewallproxystate"@, i, "on"@]),
            ]
        },
        ProxyTarget::Windows => seq![
            StepView::SetRegistryDword("ProxyEnable"@, 1),
            StepView::SetRegistryString("ProxyServer"@, loopback() + seq![':'] + p),
            StepView::NotifyProxyChange,
        ],
    }
}

/// "127.0.0.1".
pub open spec fn loopback() -> Seq<char> {
    "127.0.0.1"@
}

fn text_list(items: Vec<&str>) -> (v: Vec<String>)
    ensures
        texts(v@) == items@.map_values(|s: &str| s@),
{
    let mut v: Vec<String> = Vec::new();
    let mut i: usize = 0;
    while i < items.len()
        invariant
            i <= items@.len(),
            texts(v@) == items@.subrange(0, i as int).map_values(|s: &str| s@),
        decreases items@.len() - i,
    {
        let ghost before = v@;
        let t = owned(items[i]);
        v.push(t);
        proof {
            assert(texts(v@) =~= texts(before).push(items@[i as int]@));
            assert(items@.subrange(0, i + 1).map_values(|s: &str| s@) =~= items@.subrange(0, i as int).map_values(
                |s: &str| s@,
            ).push(items@[i as int]@));
        }
        i = i + 1;
    }
    proof {
        assert(items@.subrange(0, items@.len() as int) =~= items@);
    }
    v
}

fn gsettings(args: Vec<&str>) -> (s: ProxyStep)
    ensures
        runs(s, false, "gsettings"@, args@.map_values(|a: &str| a@)),
{
    ProxyStep::TryRun { program: "gsettings".to_owned(), args: text_list(args) }
}

fn gsettings_value(schema: &str, key: &str, value: &str) -> (s: ProxyStep)
    ensures
        runs(s, false, "gsettings"@, seq!["set"@, schema@, key@, value@]),
{
    let args = vec!["set", schema, key, value];
    proof {
        assert(args@.map_values(|a: &str| a@) =~= seq!["set"@, schema@, key@, value@]);
    }
    gsettings(args)
}

fn networksetup(option: &str, interface: &str, rest: Vec<&str>) -> (s: ProxyStep)
    ensures
        runs(s, true, "networksetup"@, seq![option@, interface@] + rest@.map_values(|a: &str| a@)),
{
    let head = vec![option, interface];
    proof {
        assert(head@.map_values(|a: &str| a@) =~= seq![option@, interface@]);
    }
    let mut args = text_list(head);
    let more = text_list(rest);
    let ghost a0 = args@;
    let mut more = more;
    args.append(&mut more);
    proof {
        assert(texts(args@) =~= texts(a0) + rest@.map_values(|a: &str| a@));
    }
    ProxyStep::Run { program: "networksetup".to_owned(), args }
}

/// The steps that point the system's HTTP, HTTPS and SOCKS proxies at
/// 127.0.0.1:`http_port` (the unified proxy serves all three on one port; the
/// SOCKS port argument is not used).
///
/// - Linux: `gsettings set` the proxy mode to manual, then the host (127.0.0.1)
///   and port of the http, https and socks schemas, ignoring failures.
/// - macOS: `networksetup` sets the web, secure web and SOCKS firewall proxies of
///   the service to 127.0.0.1 and the port, each followed by turning it on.
/// - Windows: ProxyEnable = 1, ProxyServer = "127.0.0.1:<port>", then a change
///   notification.
pub fn set_system_proxy(target: &ProxyTarget, http_port: u16, _socks_port: u16) -> (steps: Vec<ProxyStep>)
    ensures
        plan_view(steps@) == set_proxy_plan(*target, http_port),
        match target {
            ProxyTarget::Linux => {
                &&& steps@.len() == 7
                &&& runs(steps@[0], false, "gsettings"@, seq!["set"@, "org.gnome.system.proxy"@, "mode"@, "manual"@])
                &&& runs(steps@[1], false, "gsettings"@, seq!["set"@, "org.gnome.system.proxy.http"@, "host"@, loopback()])
                &&& runs(steps@[2], false, "gsettings"@, seq!["set"@, "org.gnome.system.proxy.http"@, "port"@, decimal(http_port as nat)])
                &&& runs(steps@[3], false, "gsettings"@, seq!["set"@, "org.gnome.system.proxy.https"@, "host"@, loopback()])
                &&& runs(steps@[4], false, "gsettings"@, seq!["set"@, "org.gnome.system.proxy.https"@, "port"@, decimal(http_port as nat)])
                &&& runs(steps@[5], false, "gsettings"@, seq!["set"@, "org.gnome.system.proxy.socks"@, "host"@, loopback()])
                &&& runs(steps@[6], false, "gsettings"@, seq!["set"@, "org.gnome.system.proxy.socks"@, "port"@, decimal(http_port as nat)])
            },
            ProxyTarget::MacOs { interface } => {
                let i = interface@;
                let p = decimal(http_port as nat);
                &&& steps@.len() == 6
                &&& runs(steps@[0], true, "networksetup"@, seq!["-setwebproxy"@, i, loopback(), p])
                &&& runs(steps@[1], true, "networksetup"@, seq!["-setwebproxystate"@, i, "on"@])
                &&& runs(steps@[2], true, "networksetup"@, seq!["-setsecurewebproxy"@, i, loopback(), p])
                &&& runs(steps@[3], true, "networksetup"@, seq!["-setsecurewebproxystate"@, i, "on"@])
                &&& runs(steps@[4], true, "networksetup"@, seq!["-setsocksfirewallproxy"@, i, loopback(), p])
                &&& runs(steps@[5], true, "networksetup"@, seq!["-setsocksfirewallproxystate"@, i, "on"@])
            },
            ProxyTarget::Windows => {
                &&& steps@.len() == 3
                &&& steps@[0] matches ProxyStep::SetRegistryDword { name, value } && name@ == "ProxyEnable"@ && value == 1
                &&& steps@[1] matches ProxyStep::SetRegistryString { name, value } && name@ == "ProxyServer"@
                    && value@ == loopback() + seq![':'] + decimal(http_port as nat)
                &&& steps@[2] is NotifyProxyChange
            },
        },
{
    let port_text = decimal_string(http_port as u64);
    let port = port_text.as_str();
    match target {
        ProxyTarget::Linux => {
            let mut steps: Vec<ProxyStep> = Vec::new();
            steps.push(gsettings_value("org.gnome.system.proxy", "mode", "manual"));
            steps.push(gsettings_value("org.gnome.system.proxy.http", "host", "127.0.0.1"));
            steps.push(gsettings_value("org.gnome.system.proxy.http", "port", port));
            steps.push(gsettings_value("org.gnome.system.proxy.https", "host", "127.0.0.1"));
            steps.push(gsettings_value("org.gnome.system.proxy.https", "port", port));
            steps.push(gsettings_value("org.gnome.system.proxy.socks", "host", "127.0.0.1"));
            steps.push(gsettings_value("org.gnome.system.proxy.socks", "port", port));
            proof {
                assert(plan_view(steps@) =~= set_proxy_plan(*target, http_port));
            }
            steps
        },
        ProxyTarget::MacOs { interface } => {
            let i = interface.as_str();
            let addr = vec!["127.0.0.1", port];
            let on = vec!["on"];
            proof {
                assert(addr@.map_values(|a: &str| a@) =~= seq![loopback(), decimal(http_port as nat)]);
                assert(on@.map_values(|a: &str| a@) =~= seq!["on"@]);
                assert(seq!["-setwebproxy"@, i@] + seq![loopback(), decimal(http_port as nat)] =~= seq!["-setwebproxy"@, i@, loopback(), decimal(http_port as nat)]);
                assert(seq!["-setsecurewebproxy"@, i@] + seq![loopback(), decimal(http_port as nat)] =~= seq!["-setsecurewebproxy"@, i@, loopback(), decimal(http_port as nat)]);
                assert(seq!["-setsocksfirewallproxy"@, i@] + seq![loopback(), decimal(http_port as nat)] =~= seq!["-setsocksfirewallproxy"@, i@, loopback(), decimal(http_port as nat)]);
                assert(seq!["-setwebproxystate"@, i@] + seq!["on"@] =~= seq!["-setwebproxystate"@, i@, "on"@]);
                assert(seq!["-setsecurewebproxystate"@, i@] + seq!["on"@] =~= seq!["-setsecurewebproxystate"@, i@, "on"@]);
                assert(seq!["-setsocksfirewallproxystate"@, i@] + seq!["on"@] =~= seq!["-setsocksfirewallproxystate"@, i@, "on"@]);
            }
            let mut steps: Vec<ProxyStep> = Vec::new();
            steps.push(networksetup("-setwebproxy", i, addr.clone()));
            steps.push(networksetup("-setwebproxystate", i, on.clone()));
            steps.push(networksetup("-setsecurewebproxy", i, addr.clone()));
            steps.push(networksetup("-setsecurewebproxystate", i, on.clone()));
            steps.push(networksetup("-setsocksfirewallproxy", i, addr));
            steps.push(networksetup("-setsocksfirewallproxystate", i, on));
            proof {
                assert(plan_view(steps@) =~= set_proxy_plan(*target, http_port));
            }
            steps
        },
        ProxyTarget::Windows => {
            let mut server = "127.0.0.1".to_owned();
            push_char(&mut server, ':');
            push_text(&mut server, port);
            let ghost server_text = server@;
            proof {
                assert(server_text =~= loopback() + seq![':'] + decimal(http_port as nat));
            }
            let mut steps: Vec<ProxyStep> = Vec::new();
            steps.push(ProxyStep::SetRegistryDword { name: "ProxyEnable".to_owned(), value: 1 });
            steps.push(ProxyStep::SetRegistryString { name: "ProxyServer".to_owned(), value: server });
            steps.push(ProxyStep::NotifyProxyChange);
            proof {
                assert(plan_view(steps@) =~= set_proxy_plan(*target, http_port));
            }
            steps
        },
    }
}

/// Setting the system proxy does not depend on the SOCKS port: the unified
/// proxy serves HTTP, HTTPS and SOCKS on the HTTP port, so two calls that
/// differ only in the SOCKS port plan the same steps, and every proxy points
/// at 127.0.0.1 and the HTTP port.
pub proof fn lemma_socks_port_ignored(target: ProxyTarget, http_port: u16, a: Seq<ProxyStep>, b: Seq<ProxyStep>)
    requires
        plan_view(a) == set_proxy_plan(target, http_port),
        plan_view(b) == set_proxy_plan(target, http_port),
    ensures
        plan_view(a) == plan_view(b),
{
}

/// The steps that turn the system proxy off: on Linux the GNOME proxy mode
/// becomes "none" (failures ignored); on macOS the web, secure web and SOCKS
/// firewall proxies of the service are turned off; on Windows ProxyEnable
/// becomes 0, followed by a change notification.
pub fn clear_system_proxy(target: &ProxyTarget) -> (steps: Vec<ProxyStep>)
    ensures
        match target {
            ProxyTarget::Linux => {
                &&& steps@.len() == 1
                &&& runs(steps@[0], false, "gsettings"@, seq!["set"@, "org.gnome.system.proxy"@, "mode"@, "none"@])
            },
            ProxyTarget::MacOs { interface } => {
                let i = interface@;
                &&& steps@.len() == 3
                &&& runs(steps@[0], true, "networksetup"@, seq!["-setwebproxystate"@, i, "off"@])
                &&& runs(steps@[1], true, "networksetup"@, seq!["-setsecurewebproxystate"@, i, "off"@])
                &&& runs(steps@[2], true, "networksetup"@, seq!["-setsocksfirewallproxystate"@, i, "off"@])
            },
            ProxyTarget::Windows => {
                &&& steps@.len() == 2
                &&& steps@[0] matches ProxyStep::SetRegistryDword { name, value } && name@ == "ProxyEnable"@ && value == 0
                &&& steps@[1] is NotifyProxyChange
            },
        },
{
    match target {
        ProxyTarget::Linux => {
            let mut steps: Vec<ProxyStep> = Vec::new();
            steps.push(gsettings_value("org.gnome.system.proxy", "mode", "none"));
            steps
        },
        ProxyTarget::MacOs { interface } => {
            let i = interface.as_str();
            let off = vec!["off"];
            proof {
                assert(off@.map_values(|a: &str| a@) =~= seq!["off"@]);
                assert(seq!["-setwebproxystate"@, i@] + seq!["off"@] =~= seq!["-setwebproxystate"@, i@, "off"@]);
                assert(seq!["-setsecurewebproxystate"@, i@] + seq!["off"@] =~= seq!["-setsecurewebproxystate"@, i@, "off"@]);
                assert(seq!["-setsocksfirewallproxystate"@, i@] + seq!["off"@] =~= seq!["-setsocksfirewallproxystate"@, i@, "off"@]);
            }
            let mut steps: Vec<ProxyStep> = Vec::new();
            steps.push(networksetup("-setwebproxystate", i, off.clone()));
            steps.push(networksetup("-setsecurewebproxystate", i, off.clone()));
            steps.push(networksetup("-setsocksfirewallproxystate", i, off));
            steps
        },
        ProxyTarget::Windows => {
            let mut steps: Vec<ProxyStep> = Vec::new();
            steps.push(ProxyStep::SetRegistryDword { name: "ProxyEnable".to_owned(), value: 0 });
            steps.push(ProxyStep::NotifyProxyChange);
            steps
        },
    }
}

/// The command that reads the proxy state: on Linux the GNOME proxy mode, on
/// macOS the web proxy of the service (Windows reads the registry instead).
pub fn proxy_query_command(target: &ProxyTarget) -> (r: Option<ProxyStep>)
    ensures
        match target {
            ProxyTarget::Linux => r matches Some(s) && runs(s, false, "gsettings"@, seq!["get"@, "org.gnome.system.proxy"@, "mode"@]),
            ProxyTarget::MacOs { interface } => r matches Some(s) && runs(s, true, "networksetup"@, seq!["-getwebproxy"@, interface@]),
            ProxyTarget::Windows => r is None,
        },
{
    match target {
        ProxyTarget::Linux => {
            let args = vec!["get", "org.gnome.system.proxy", "mode"];
            proof {
                assert(args@.map_values(|a: &str| a@) =~= seq!["get"@, "org.gnome.system.proxy"@, "mode"@]);
            }
            Some(gsettings(args))
        },
        ProxyTarget::MacOs { interface } => {
            let none: Vec<&str> = Vec::new();
            proof {
                assert(none@.map_values(|a: &str| a@) =~= Seq::<Seq<char>>::empty());
                assert(seq!["-getwebproxy"@, interface@] + Seq::<Seq<char>>::empty() =~= seq!["-getwebproxy"@, interface@]);
            }
            Some(networksetup("-getwebproxy", interface.as_str(), none))
        },
        ProxyTarget::Windows => None,
    }
}

/// What the platform reported about its proxy.
#[derive(Debug, Clone)]
pub enum ProxyQueryReply {
    /// The output of `gsettings get org.gnome.system.proxy mode`, if it ran.
    Linux(Option<Vec<u8>>),
    /// The output of `networksetup -getwebproxy <service>`.
    MacOs(Vec<u8>),
    /// The ProxyEnable registry value, if it could be read.
    Windows(Option<u32>),
}

/// `s` without leading copies of `c`.
pub open spec fn strip_leading(s: Seq<char>, c: char) -> Seq<char>
    decreases s.len(),
{
    if s.len() > 0 && s[0] == c {
        strip_leading(s.drop_first(), c)
    } else {
        s
    }
}

/// `s` without trailing copies of `c`.
pub open spec fn strip_trailing(s: Seq<char>, c: char) -> Seq<char>
    decreases s.len(),
{
    if s.len() > 0 && s.last() == c {
        strip_trailing(s.drop_last(), c)
    } else {
        s
    }
}

/// `s` without leading or trailing copies of `c` (`str::trim_matches` with a
/// character).
pub open spec fn strip_both(s: Seq<char>, c: char) -> Seq<char> {
    strip_trailing(strip_leading(s, c), c)
}

fn strip_char(s: &str, c: char) -> (r: String)
    ensures
        r@ == strip_both(s@, c),
{
    let n = s.unicode_len();
    let mut start: usize = 0;
    proof {
        assert(s@.subrange(0, n as int) =~= s@);
    }
    while start < n && s.get_char(start) == c
        invariant
            n == s@.len(),
            start <= n,
            strip_leading(s@.subrange(start as int, n as int), c) == strip_leading(s@, c),
        decreases n - start,
    {
        proof {
            assert(s@.subrange(start as int, n as int).drop_first() =~= s@.subrange(start + 1, n as int));
        }
        start = start + 1;
    }
    proof {
        assert(strip_leading(s@.subrange(start as int, n as int), c) == s@.subrange(start as int, n as int));
    }
    let mut end: usize = n;
    while end > start && s.get_char(end - 1) == c
        invariant
            n == s@.len(),
            start <= end <= n,
            strip_trailing(s@.subrange(start as int, end as int), c) == strip_both(s@, c),
        decreases end - start,
    {
        proof {
            assert(s@.subrange(start as int, end as int).drop_last() =~= s@.subrange(start as int, end - 1));
        }
        end = end - 1;
    }
    substring(s, start, end)
}

/// GNOME reports the mode quoted, as in `'manual'`: the proxy is on when the
/// output, trimmed and unquoted, is "manual".
pub open spec fn gnome_mode_is_manual(output: Seq<u8>) -> bool {
    strip_both(trim(utf8_lossy_text(output)), '\'') == "manual"@
}

/// The proxy state from what the platform reported: on Linux whether the
/// GNOME mode is "manual" (off when gsettings did not run); on macOS whether
/// the output contains "Enabled: Yes"; on Windows whether ProxyEnable is
/// nonzero (off when it could not be read).
pub fn get_system_proxy(reply: &ProxyQueryReply) -> (s: SystemProxyState)
    ensures
        s.enabled == match reply {
            ProxyQueryReply::Linux(Some(out)) => gnome_mode_is_manual(out@),
            ProxyQueryReply::Linux(None) => false,
            ProxyQueryReply::MacOs(out) => occurs_in(utf8_lossy_text(out@), "Enabled: Yes"@),
            ProxyQueryReply::Windows(Some(v)) => *v != 0,
            ProxyQueryReply::Windows(None) => false,
        },
{
    match reply {
        ProxyQueryReply::Linux(Some(out)) => {
            let text = utf8_lossy(out.as_slice());
            let trimmed = trim_text(text.as_str());
            let mode = strip_char(trimmed.as_str(), '\'');
            SystemProxyState { enabled: text_eq(mode.as_str(), "manual") }
        },
        ProxyQueryReply::Linux(None) => SystemProxyState { enabled: false },
        ProxyQueryReply::MacOs(out) => {
            let text = utf8_lossy(out.as_slice());
            SystemProxyState { enabled: contains_text(text.as_str(), "Enabled: Yes") }
        },
        ProxyQueryReply::Windows(Some(v)) => SystemProxyState { enabled: *v != 0 },
        ProxyQueryReply::Windows(None) => SystemProxyState { enabled: false },
    }
}

/// The segment `[i, j)` of `text` is one of its lines: it starts the text or
/// follows a line feed, ends the text or precedes one, and holds none.
pub open spec fn is_line(text: Seq<char>, i: int, j: int) -> bool {
    &&& 0 <= i <= j <= text.len()
    &&& (i == 0 || text[i - 1] == '\n')
    &&& (j == text.len() || text[j] == '\n')
    &&& forall|k: int| i <= k < j ==> text[k] != '\n'
}

/// Some line of `text`, trimmed, is `name`.
pub open spec fn has_trimmed_line(text: Seq<char>, name: Seq<char>) -> bool {
    exists|i: int, j: int| #[trigger] is_line(text, i, j) && trim(text.subrange(i, j)) == name
}

/// The macOS network services tried, in order.
pub open spec fn preferred_services() -> Seq<Seq<char>> {
    seq!["Wi-Fi"@, "Ethernet"@, "USB 10/100/1000 LAN"@]
}

fn first_newline_from(text: &str, from: usize) -> (e: usize)
    requires
        from <= text@.len(),
    ensures
        from <= e <= text@.len(),
        e == text@.len() || text@[e as int] == '\n',
        forall|k: int| from <= k < e ==> text@[k] != '\n',
{
    let n = text.unicode_len();
    let mut e: usize = from;
    while e < n && text.get_char(e) != '\n'
        invariant
            n == text@.len(),
            from <= e <= n,
            forall|k: int| from <= k < e ==> text@[k] != '\n',
        decreases n - e,
    {
        e = e + 1;
    }
    e
}

/// Whether some line of `text`, trimmed, is `name`.
pub fn has_service_line(text: &str, name: &str) -> (b: bool)
    ensures
        b == has_trimmed_line(text@, name@),
{
    let n = text.unicode_len();
    let mut pos: usize = 0;
    while pos <= n
        invariant
            n == text@.len(),
            pos == 0 || (pos <= n + 1 && text@[pos - 1] == '\n'),
            forall|i: int, j: int| #[trigger] is_line(text@, i, j) && i < pos ==> trim(text@.subrange(i, j)) != name@,
        decreases n + 1 - pos,
    {
        let e = first_newline_from(text, pos);
        let line = substring(text, pos, e);
        let t = trim_text(line.as_str());
        if text_eq(t.as_str(), name) {
            proof {
                assert(is_line(text@, pos as int, e as int));
            }
            return true;
        }
        proof {
            assert forall|i: int, j: int| #[trigger] is_line(text@, i, j) && i < e + 1 implies trim(text@.subrange(i, j)) != name@ by {
                if i >= pos {
                    if i > pos {
                        assert(text@[i - 1] == '\n');
                        assert(false);
                    }
                    if j < e {
                        assert(text@[j] != '\n');
                    }
                    if j > e {
                        assert(text@[e as int] == '\n');
                    }
                    assert(j == e);
                }
            }
        }
        if e == n {
            proof {
                assert forall|i: int, j: int| #[trigger] is_line(text@, i, j) implies trim(text@.subrange(i, j)) != name@ by {
                    assert(i < e + 1);
                }
            }
            return false;
        }
        pos = e + 1;
    }
    false
}

/// The macOS network service whose proxy is changed: the first of "Wi-Fi",
/// "Ethernet" and "USB 10/100/1000 LAN" that is a line (trimmed) of the
/// service listing; none when no such service is listed.
pub fn select_network_service(listing: &[u8]) -> (r: Option<String>)
    ensures
        ({
            let text = utf8_lossy_text(listing@);
            let s = preferred_services();
            &&& r matches Some(name) ==> exists|k: int|
                0 <= k < 3 && name@ == s[k] && has_trimmed_line(text, s[k]) && (forall|m: int|
                    0 <= m < k ==> !#[trigger] has_trimmed_line(text, s[m]))
            &&& r is None <==> (forall|k: int| 0 <= k < 3 ==> !#[trigger] has_trimmed_line(text, s[k]))
        }),
{
    let text = utf8_lossy(listing);
    let t = text.as_str();
    let ghost s = preferred_services();
    if has_service_line(t, "Wi-Fi") {
        proof {
            assert(s[0] == "Wi-Fi"@);
        }
        return Some("Wi-Fi".to_owned());
    }
    if has_service_line(t, "Ethernet") {
        proof {
            assert(s[0] == "Wi-Fi"@ && s[1] == "Ethernet"@);
        }
        return Some("Ethernet".to_owned());
    }
    if has_service_line(t, "USB 10/100/1000 LAN") {
        proof {
            assert(s[0] == "Wi-Fi"@ && s[1] == "Ethernet"@ && s[2] == "USB 10/100/1000 LAN"@);
        }
        return Some("USB 10/100/1000 LAN".to_owned());
    }
    proof {
        assert(s[0] == "Wi-Fi"@ && s[1] == "Ethernet"@ && s[2] == "USB 10/100/1000 LAN"@);
    }
    None
}

} // verus!
