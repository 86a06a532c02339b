//! Choosing the target a request is for, and turning its command templates
//! into argument vectors.
use vstd::prelude::*;

use crate::config::{
    copy_opt_monitor, copy_opt_text, copy_opt_words, has_name, opt_monitor, opt_text, opt_words,
    MonitorConfig, MonitorView, SeggerRttConfig, SeggerRttView, TargetTable, TargetView,
};
use crate::protocol::{platform_text, DeviceOverrides, DeviceView, Platform};
use crate::text::{
    contains, contains_char, contains_text, decimal, decimal_u64, lemma_replace_absent, matches_at,
    replace, replace_text,
};

verus! {

// ---------------------------------------------------------------------------
// The chosen target
// ---------------------------------------------------------------------------

/// A configured target with the request's overrides applied.
pub struct ResolvedTarget {
    pub name: String,
    pub platform: Option<Platform>,
    pub flash: Option<Vec<String>>,
    pub monitor: Option<MonitorConfig>,
    pub serial: Option<String>,
    pub baud: Option<u32>,
    pub chip: Option<String>,
}

pub struct ResolvedView {
    pub name: Seq<char>,
    pub platform: Option<Platform>,
    pub flash: Option<Seq<Seq<char>>>,
    pub monitor: Option<MonitorView>,
    pub serial: Option<Seq<char>>,
    pub baud: Option<u32>,
    pub chip: Option<Seq<char>>,
}

impl View for ResolvedTarget {
    type V = ResolvedView;

    open spec fn view(&self) -> ResolvedView {
        ResolvedView {
            name: self.name@,
            platform: self.platform,
            flash: opt_words(self.flash),
            monitor: opt_monitor(self.monitor),
            serial: opt_text(self.serial),
            baud: self.baud,
            chip: opt_text(self.chip),
        }
    }
}

/// `a` when it holds a value, else `b`.
pub open spec fn first_of<T>(a: Option<T>, b: Option<T>) -> Option<T> {
    match a {
        Some(x) => Some(x),
        None => b,
    }
}

/// The target `entry` with the overrides of `d` applied: the request's serial
/// port, baud rate and chip win over the configured ones, and the configured
/// platform wins over the request's hint.
pub open spec fn resolved_view(entry: (Seq<char>, TargetView), d: DeviceView) -> ResolvedView {
    ResolvedView {
        name: entry.0,
        platform: first_of(entry.1.platform, d.platform),
        flash: entry.1.flash,
        monitor: entry.1.monitor,
        serial: first_of(d.serial, entry.1.serial),
        baud: first_of(d.baud, entry.1.baud),
        chip: first_of(d.chip, entry.1.chip),
    }
}

// ---------------------------------------------------------------------------
// Target selection
// ---------------------------------------------------------------------------

/// The number of targets configured for platform `p`.
pub open spec fn platform_count(t: Seq<(Seq<char>, TargetView)>, p: Platform) -> nat
    decreases t.len(),
{
    if t.len() == 0 {
        0
    } else {
        platform_count(t.drop_last(), p) + if t.last().1.platform == Some(p) {
            1nat
        } else {
            0nat
        }
    }
}

/// Which entry a request selects, or why it selects none.
pub enum Selection {
    Selected(int),
    UnknownTarget,
    NoTargetForPlatform(Platform),
    AmbiguousPlatform(Platform, nat),
    NoTargets,
    TargetRequired(nat),
}

/// The entry that a request naming `target` and hinting `platform` selects:
/// the named entry; else the only entry of the hinted platform; else the
/// only entry of all.
pub open spec fn selection(
    t: Seq<(Seq<char>, TargetView)>,
    target: Option<Seq<char>>,
    platform: Option<Platform>,
) -> Selection {
    match target {
        Some(name) => if has_name(t, name) {
            Selection::Selected(choose|i: int| 0 <= i < t.len() && t[i].0 == name)
        } else {
            Selection::UnknownTarget
        },
        None => match platform {
            Some(p) => {
                let c = platform_count(t, p);
                if c == 1 {
                    Selection::Selected(
                        choose|i: int| 0 <= i < t.len() && t[i].1.platform == Some(p),
                    )
                } else if c == 0 {
                    Selection::NoTargetForPlatform(p)
                } else {
                    Selection::AmbiguousPlatform(p, c)
                }
            },
            None => if t.len() == 1 {
                Selection::Selected(0)
            } else if t.len() == 0 {
                Selection::NoTargets
            } else {
                Selection::TargetRequired(t.len())
            },
        },
    }
}

proof fn lemma_count_take_step(t: Seq<(Seq<char>, TargetView)>, p: Platform, k: int)
    requires
        0 <= k < t.len(),
    ensures
        platform_count(t.take(k + 1), p) == platform_count(t.take(k), p) + if t[k].1.platform
            == Some(p) {
            1nat
        } else {
            0nat
        },
{
    assert(t.take(k + 1).drop_last() =~= t.take(k));
}

proof fn lemma_count_positive(t: Seq<(Seq<char>, TargetView)>, p: Platform, i: int)
    requires
        0 <= i < t.len(),
        t[i].1.platform == Some(p),
    ensures
        platform_count(t, p) >= 1,
    decreases t.len(),
{
    if i < t.len() - 1 {
        assert(t.drop_last()[i] == t[i]);
        lemma_count_positive(t.drop_last(), p, i);
    }
}

/// Two entries of one platform make its count at least two.
proof fn lemma_count_two(t: Seq<(Seq<char>, TargetView)>, p: Platform, i: int, j: int)
    requires
        0 <= i < j < t.len(),
        t[i].1.platform == Some(p),
        t[j].1.platform == Some(p),
    ensures
        platform_count(t, p) >= 2,
    decreases t.len(),
{
    assert(t.drop_last()[i] == t[i]);
    if j == t.len() - 1 {
        lemma_count_positive(t.drop_last(), p, i);
    } else {
        assert(t.drop_last()[j] == t[j]);
        lemma_count_two(t.drop_last(), p, i, j);
    }
}

proof fn lemma_count_witness(t: Seq<(Seq<char>, TargetView)>, p: Platform)
    requires
        platform_count(t, p) > 0,
    ensures
        exists|i: int| 0 <= i < t.len() && t[i].1.platform == Some(p),
    decreases t.len(),
{
    if t.last().1.platform == Some(p) {
        assert(t[t.len() - 1].1.platform == Some(p));
    } else {
        lemma_count_witness(t.drop_last(), p);
        let i = choose|i: int| 0 <= i < t.len() - 1 && t.drop_last()[i].1.platform == Some(p);
        assert(t[i] == t.drop_last()[i]);
    }
}

/// Why a request selects no target.
#[derive(Debug)]
pub enum ResolveError {
    UnknownTarget { name: String },
    NoTargetForPlatform { platform: Platform },
    AmbiguousPlatform { platform: Platform, count: usize },
    NoTargets,
    TargetRequired { count: usize },
}

pub enum ResolveFault {
    UnknownTarget(Seq<char>),
    NoTargetForPlatform(Platform),
    AmbiguousPlatform(Platform, nat),
    NoTargets,
    TargetRequired(nat),
}

impl View for ResolveError {
    type V = ResolveFault;

    open spec fn view(&self) -> ResolveFault {
        match self {
            ResolveError::UnknownTarget { name } => ResolveFault::UnknownTarget(name@),
            ResolveError::NoTargetForPlatform { platform } => ResolveFault::NoTargetForPlatform(
                *platform,
            ),
            ResolveError::AmbiguousPlatform { platform, count } => ResolveFault::AmbiguousPlatform(
                *platform,
                *count as nat,
            ),
            ResolveError::NoTargets => ResolveFault::NoTargets,
            ResolveError::TargetRequired { count } => ResolveFault::TargetRequired(*count as nat),
        }
    }
}

/// What resolving a request for `device` against the targets `t` yields.
pub open spec fn resolve_result(t: Seq<(Seq<char>, TargetView)>, device: DeviceView) -> Result<
    ResolvedView,
    ResolveFault,
> {
    match selection(t, device.target, device.platform) {
        Selection::Selected(i) => Ok(resolved_view(t[i], device)),
        Selection::UnknownTarget => Err(ResolveFault::UnknownTarget(device.target->0)),
        Selection::NoTargetForPlatform(p) => Err(ResolveFault::NoTargetForPlatform(p)),
        Selection::AmbiguousPlatform(p, c) => Err(ResolveFault::AmbiguousPlatform(p, c)),
        Selection::NoTargets => Err(ResolveFault::NoTargets),
        Selection::TargetRequired(c) => Err(ResolveFault::TargetRequired(c)),
    }
}

/// The view of a resolution.
pub open spec fn resolution(r: Result<ResolvedTarget, ResolveError>) -> Result<
    ResolvedView,
    ResolveFault,
> {
    match r {
        Ok(t) => Ok(t@),
        Err(e) => Err(e@),
    }
}

impl ResolvedTarget {
    /// Entry `i` of `targets` with the overrides of `device` applied.
    fn from_entry(targets: &TargetTable, i: usize, device: DeviceOverrides) -> (r: Self)
        requires
            i < targets@.len(),
        ensures
            r@ == resolved_view(targets@[i as int], device@),
    {
        let name = targets.name_at(i).clone();
        let config = targets.config_at(i);
        let platform = match config.platform {
            Some(p) => Some(p),
            None => device.platform,
        };
        let serial = match device.serial {
            Some(s) => Some(s),
            None => copy_opt_text(&config.serial),
        };
        let baud = match device.baud {
            Some(b) => Some(b),
            None => config.baud,
        };
        let chip = match device.chip {
            Some(c) => Some(c),
            None => copy_opt_text(&config.chip),
        };
        ResolvedTarget {
            name,
            platform,
            flash: copy_opt_words(&config.flash),
            monitor: copy_opt_monitor(&config.monitor),
            serial,
            baud,
            chip,
        }
    }

    /// Selects the target a request is for and applies its overrides.
    ///
    /// A named target must exist. Without a name, the platform hint selects
    /// the only target of that platform; without either, the only configured
    /// target is selected.
    pub fn resolve(targets: &TargetTable, device: DeviceOverrides) -> (r: Result<Self, ResolveError>)
        ensures
            resolution(r) == resolve_result(targets@, device@),
    {
        let ghost t = targets@;
        let ghost d = device@;
        match &device.target {
            Some(name) => {
                match targets.find(name.as_str()) {
                    Some(i) => {
                        let rt = Self::from_entry(targets, i, device);
                        proof {
                            let c = choose|k: int| 0 <= k < t.len() && t[k].0 == d.target->0;
                            assert(c == i);
                        }
                        Ok(rt)
                    },
                    None => Err(ResolveError::UnknownTarget { name: name.clone() }),
                }
            },
            None => {
                match device.platform {
                    Some(p) => {
                        let mut count: usize = 0;
                        let mut found: usize = 0;
                        let mut k: usize = 0;
                        while k < targets.len()
                            invariant
                                t == targets@,
                                k <= t.len(),
                                count == platform_count(t.take(k as int), p),
                                count <= k,
                                count > 0 ==> found < k && t[found as int].1.platform == Some(p),
                            decreases t.len() - k,
                        {
                            proof {
                                lemma_count_take_step(t, p, k as int);
                            }
                            if targets.config_at(k).platform == Some(p) {
                                count = count + 1;
                                found = k;
                            }
                            k = k + 1;
                        }
                        assert(t.take(t.len() as int) =~= t);
                        if count == 1 {
                            let rt = Self::from_entry(targets, found, device);
                            proof {
                                let c = choose|j: int|
                                    0 <= j < t.len() && t[j].1.platform == Some(p);
                                assert(0 <= c < t.len() && t[c].1.platform == Some(p));
                                if c < found {
                                    lemma_count_two(t, p, c, found as int);
                                } else if c > found {
                                    lemma_count_two(t, p, found as int, c);
                                }
                            }
                            Ok(rt)
                        } else if count == 0 {
                            Err(ResolveError::NoTargetForPlatform { platform: p })
                        } else {
                            Err(ResolveError::AmbiguousPlatform { platform: p, count })
                        }
                    },
                    None => {
                        let n = targets.len();
                        if n == 1 {
                            Ok(Self::from_entry(targets, 0, device))
                        } else if n == 0 {
                            Err(ResolveError::NoTargets)
                        } else {
                            Err(ResolveError::TargetRequired { count: n })
                        }
                    },
                }
            },
        }
    }
}

/// A request that names a target gets that target or is refused as naming an
/// unknown one: it is refused exactly when no target has the name, and what it
/// gets carries the requested name and that target's settings.
pub proof fn lemma_named_request_gets_named_target(
    t: Seq<(Seq<char>, TargetView)>,
    device: DeviceView,
    name: Seq<char>,
)
    requires
        device.target == Some(name),
    ensures
        match resolve_result(t, device) {
            Ok(r) => r.name == name && exists|i: int|
                0 <= i < t.len() && t[i].0 == name && r == resolved_view(t[i], device),
            Err(e) => e == ResolveFault::UnknownTarget(name) && !has_name(t, name),
        },
        has_name(t, name) <==> resolve_result(t, device) is Ok,
{
}

/// A request that names no target but hints a platform gets a target of that
/// platform, and only when it is the one target configured for it.
pub proof fn lemma_platform_request_gets_platform_target(
    t: Seq<(Seq<char>, TargetView)>,
    device: DeviceView,
    p: Platform,
)
    requires
        device.target is None,
        device.platform == Some(p),
    ensures
        resolve_result(t, device) is Ok <==> platform_count(t, p) == 1,
        resolve_result(t, device) matches Ok(r) ==> r.platform == Some(p) && exists|i: int|
            0 <= i < t.len() && t[i].1.platform == Some(p) && r.name == t[i].0,
{
    if platform_count(t, p) == 1 {
        lemma_count_witness(t, p);
    }
}

/// A request that names no target and hints no platform gets the one
/// configured target, and only when exactly one is configured.
pub proof fn lemma_bare_request_gets_only_target(t: Seq<(Seq<char>, TargetView)>, device: DeviceView)
    requires
        device.target is None,
        device.platform is None,
    ensures
        resolve_result(t, device) is Ok <==> t.len() == 1,
        resolve_result(t, device) matches Ok(r) ==> r.name == t[0].0,
{
}

// ---------------------------------------------------------------------------
// Placeholders
// ---------------------------------------------------------------------------

pub open spec fn key_target() -> Seq<char> {
    seq!['{', 't', 'a', 'r', 'g', 'e', 't', '}']
}

pub open spec fn key_platform() -> Seq<char> {
    seq!['{', 'p', 'l', 'a', 't', 'f', 'o', 'r', 'm', '}']
}

pub open spec fn key_firmware() -> Seq<char> {
    seq!['{', 'f', 'i', 'r', 'm', 'w', 'a', 'r', 'e', '}']
}

pub open spec fn key_firmware_name() -> Seq<char> {
    seq!['{', 'f', 'i', 'r', 'm', 'w', 'a', 'r', 'e', '_', 'n', 'a', 'm', 'e', '}']
}

pub open spec fn key_serial() -> Seq<char> {
    seq!['{', 's', 'e', 'r', 'i', 'a', 'l', '}']
}

pub open spec fn key_baud() -> Seq<char> {
    seq!['{', 'b', 'a', 'u', 'd', '}']
}

pub open spec fn key_chip() -> Seq<char> {
    seq!['{', 'c', 'h', 'i', 'p', '}']
}

/// Fills `key` in `s` with `value`: text without the key is kept as it is;
/// a key without a value leaves nothing to fill it with.
pub open spec fn fill(s: Seq<char>, key: Seq<char>, value: Option<Seq<char>>) -> Option<
    Seq<char>,
> {
    if !contains_text(s, key) {
        Some(s)
    } else {
        match value {
            Some(v) => Some(replace_text(s, key, v)),
            None => None,
        }
    }
}

/// Why a command template could not be rendered.
#[derive(Debug)]
pub enum RenderError {
    EmptyTemplate,
    NoFlashCommand,
    NoMonitorCommand,
    MissingPlatform,
    MissingFirmware,
    MissingSerial,
    MissingBaud,
    MissingChip,
    UnknownPlaceholder { arg: String },
}

pub enum RenderFault {
    EmptyTemplate,
    NoFlashCommand,
    NoMonitorCommand,
    MissingPlatform,
    MissingFirmware,
    MissingSerial,
    MissingBaud,
    MissingChip,
    UnknownPlaceholder(Seq<char>),
}

impl View for RenderError {
    type V = RenderFault;

    open spec fn view(&self) -> RenderFault {
        match self {
            RenderError::EmptyTemplate => RenderFault::EmptyTemplate,
            RenderError::NoFlashCommand => RenderFault::NoFlashCommand,
            RenderError::NoMonitorCommand => RenderFault::NoMonitorCommand,
            RenderError::MissingPlatform => RenderFault::MissingPlatform,
            RenderError::MissingFirmware => RenderFault::MissingFirmware,
            RenderError::MissingSerial => RenderFault::MissingSerial,
            RenderError::MissingBaud => RenderFault::MissingBaud,
            RenderError::MissingChip => RenderFault::MissingChip,
            RenderError::UnknownPlaceholder { arg } => RenderFault::UnknownPlaceholder(arg@),
        }
    }
}

/// The platform's name, when there is a platform.
pub open spec fn opt_platform_text(p: Option<Platform>) -> Option<Seq<char>> {
    match p {
        Some(q) => Some(platform_text(q)),
        None => None,
    }
}

/// The baud rate in decimal, when there is one.
pub open spec fn opt_decimal(b: Option<u32>) -> Option<Seq<char>> {
    match b {
        Some(n) => Some(decimal(n as nat)),
        None => None,
    }
}

/// The text of an optional string slice.
pub open spec fn opt_str(o: Option<&str>) -> Option<Seq<char>> {
    match o {
        Some(s) => Some(s@),
        None => None,
    }
}

/// What rendering the argument `arg` for target `t` yields.
///
/// `{target}` becomes the target's name, then `{platform}`, `{firmware}`,
/// `{firmware_name}`, `{serial}`, `{baud}` and `{chip}` are filled in this
/// order; a placeholder whose value is unknown is an error, and so is any
/// brace left over.
pub open spec fn render_arg_result(
    t: ResolvedView,
    arg: Seq<char>,
    firmware: Option<Seq<char>>,
    firmware_name: Seq<char>,
) -> Result<Seq<char>, RenderFault> {
    let s1 = replace_text(arg, key_target(), t.name);
    match fill(s1, key_platform(), opt_platform_text(t.platform)) {
        None => Err(RenderFault::MissingPlatform),
        Some(s2) => match fill(s2, key_firmware(), firmware) {
            None => Err(RenderFault::MissingFirmware),
            Some(s3) => {
                let s4 = replace_text(s3, key_firmware_name(), firmware_name);
                match fill(s4, key_serial(), t.serial) {
                    None => Err(RenderFault::MissingSerial),
                    Some(s5) => match fill(s5, key_baud(), opt_decimal(t.baud)) {
                        None => Err(RenderFault::MissingBaud),
                        Some(s6) => match fill(s6, key_chip(), t.chip) {
                            None => Err(RenderFault::MissingChip),
                            Some(s7) => if s7.contains('{') || s7.contains('}') {
                                Err(RenderFault::UnknownPlaceholder(arg))
                            } else {
                                Ok(s7)
                            },
                        },
                    },
                }
            },
        },
    }
}

/// What rendering the arguments `args` yields: each rendered in turn, the
/// first failure ending it.
pub open spec fn render_args(
    t: ResolvedView,
    args: Seq<Seq<char>>,
    firmware: Option<Seq<char>>,
    firmware_name: Seq<char>,
) -> Result<Seq<Seq<char>>, RenderFault>
    decreases args.len(),
{
    if args.len() == 0 {
        Ok(Seq::empty())
    } else {
        match render_args(t, args.drop_last(), firmware, firmware_name) {
            Err(e) => Err(e),
            Ok(done) => match render_arg_result(t, args.last(), firmware, firmware_name) {
                Err(e) => Err(e),
                Ok(s) => Ok(done.push(s)),
            },
        }
    }
}

/// What rendering a whole command template yields; an empty template is refused.
pub open spec fn render_result(
    t: ResolvedView,
    template: Seq<Seq<char>>,
    firmware: Option<Seq<char>>,
    firmware_name: Seq<char>,
) -> Result<Seq<Seq<char>>, RenderFault> {
    if template.len() == 0 {
        Err(RenderFault::EmptyTemplate)
    } else {
        render_args(t, template, firmware, firmware_name)
    }
}

/// The view of a rendered argument.
pub open spec fn text_result(r: Result<String, RenderError>) -> Result<Seq<char>, RenderFault> {
    match r {
        Ok(s) => Ok(s@),
        Err(e) => Err(e@),
    }
}

/// The view of a rendered command.
pub open spec fn words_result(r: Result<Vec<String>, RenderError>) -> Result<
    Seq<Seq<char>>,
    RenderFault,
> {
    match r {
        Ok(v) => Ok(v.deep_view()),
        Err(e) => Err(e@),
    }
}

/// How to read a target's logs once rendered.
pub enum MonitorLaunch {
    Command(Vec<String>),
    SeggerRtt(SeggerRttConfig),
}

pub enum LaunchView {
    Command(Seq<Seq<char>>),
    SeggerRtt(SeggerRttView),
}

impl View for MonitorLaunch {
    type V = LaunchView;

    open spec fn view(&self) -> LaunchView {
        match self {
            MonitorLaunch::Command(v) => LaunchView::Command(v.deep_view()),
            MonitorLaunch::SeggerRtt(c) => LaunchView::SeggerRtt(c@),
        }
    }
}

/// The view of a rendered monitor.
pub open spec fn launch_result(r: Result<MonitorLaunch, RenderError>) -> Result<
    LaunchView,
    RenderFault,
> {
    match r {
        Ok(l) => Ok(l@),
        Err(e) => Err(e@),
    }
}

/// What rendering the flash command of `t` yields.
pub open spec fn flash_result(t: ResolvedView, firmware: Seq<char>, firmware_name: Seq<char>) -> Result<
    Seq<Seq<char>>,
    RenderFault,
> {
    match t.flash {
        None => Err(RenderFault::NoFlashCommand),
        Some(template) => render_result(t, template, Some(firmware), firmware_name),
    }
}

/// What rendering the monitor of `t` yields.
pub open spec fn monitor_result(
    t: ResolvedView,
    firmware: Option<Seq<char>>,
    firmware_name: Seq<char>,
) -> Result<LaunchView, RenderFault> {
    match t.monitor {
        None => Err(RenderFault::NoMonitorCommand),
        Some(MonitorView::SeggerRtt(c)) => Ok(LaunchView::SeggerRtt(c)),
        Some(MonitorView::Command(template)) => match render_result(
            t,
            template,
            firmware,
            firmware_name,
        ) {
            Ok(argv) => Ok(LaunchView::Command(argv)),
            Err(e) => Err(e),
        },
    }
}

proof fn lemma_render_args_prefix_err(
    t: ResolvedView,
    args: Seq<Seq<char>>,
    k: int,
    firmware: Option<Seq<char>>,
    firmware_name: Seq<char>,
)
    requires
        0 <= k <= args.len(),
        render_args(t, args.take(k), firmware, firmware_name) is Err,
    ensures
        render_args(t, args, firmware, firmware_name) == render_args(
            t,
            args.take(k),
            firmware,
            firmware_name,
        ),
    decreases args.len() - k,
{
    if k == args.len() {
        assert(args.take(k) =~= args);
    } else {
        assert(args.drop_last().take(k) =~= args.take(k));
        lemma_render_args_prefix_err(t, args.drop_last(), k, firmware, firmware_name);
    }
}

impl ResolvedTarget {
    /// Renders one argument of a command template.
    pub fn render_arg(&self, arg: &str, firmware: Option<&str>, firmware_name: &str) -> (r: Result<
        String,
        RenderError,
    >)
        ensures
            text_result(r) == render_arg_result(self@, arg@, opt_str(firmware), firmware_name@),
    {
        proof {
            reveal_strlit("{target}");
            reveal_strlit("{platform}");
            reveal_strlit("{firmware}");
            reveal_strlit("{firmware_name}");
            reveal_strlit("{serial}");
            reveal_strlit("{baud}");
            reveal_strlit("{chip}");
            assert("{target}"@ =~= key_target());
            assert("{platform}"@ =~= key_platform());
            assert("{firmware}"@ =~= key_firmware());
            assert("{firmware_name}"@ =~= key_firmware_name());
            assert("{serial}"@ =~= key_serial());
            assert("{baud}"@ =~= key_baud());
            assert("{chip}"@ =~= key_chip());
        }
        let out = replace(arg, "{target}", self.name.as_str());
        let out = if contains(out.as_str(), "{platform}") {
            match self.platform {
                Some(p) => {
                    let name = p.name();
                    replace(out.as_str(), "{platform}", name.as_str())
                },
                None => return Err(RenderError::MissingPlatform),
            }
        } else {
            out
        };
        let out = if contains(out.as_str(), "{firmware}") {
            match firmware {
                Some(f) => replace(out.as_str(), "{firmware}", f),
                None => return Err(RenderError::MissingFirmware),
            }
        } else {
            out
        };
        let out = replace(out.as_str(), "{firmware_name}", firmware_name);
        let out = if contains(out.as_str(), "{serial}") {
            match &self.serial {
                Some(s) => replace(out.as_str(), "{serial}", s.as_str()),
                None => return Err(RenderError::MissingSerial),
            }
        } else {
            out
        };
        let out = if contains(out.as_str(), "{baud}") {
            match self.baud {
                Some(b) => {
                    let text = decimal_u64(b as u64);
                    replace(out.as_str(), "{baud}", text.as_str())
                },
                None => return Err(RenderError::MissingBaud),
            }
        } else {
            out
        };
        let out = if contains(out.as_str(), "{chip}") {
            match &self.chip {
                Some(c) => replace(out.as_str(), "{chip}", c.as_str()),
                None => return Err(RenderError::MissingChip),
            }
        } else {
            out
        };
        if contains_char(out.as_str(), '{') || contains_char(out.as_str(), '}') {
            return Err(RenderError::UnknownPlaceholder { arg: String::from_str(arg) });
        }
        Ok(out)
    }

    /// Renders every argument of a command template, in order.
    pub fn render(&self, template: &[String], firmware: Option<&str>, firmware_name: &str) -> (r:
        Result<Vec<String>, RenderError>)
        ensures
            words_result(r) == render_result(
                self@,
                template.deep_view(),
                opt_str(firmware),
                firmware_name@,
            ),
    {
        if template.len() == 0 {
            return Err(RenderError::EmptyTemplate);
        }
        let ghost args = template.deep_view();
        let ghost fw = opt_str(firmware);
        let mut out: Vec<String> = Vec::new();
        let mut i: usize = 0;
        assert(args.take(0) =~= Seq::<Seq<char>>::empty());
        assert(out.deep_view() =~= Seq::<Seq<char>>::empty());
        while i < template.len()
            invariant
                args == template.deep_view(),
                fw == opt_str(firmware),
                i <= template.len(),
                render_args(self@, args.take(i as int), fw, firmware_name@) == Ok::<
                    Seq<Seq<char>>,
                    RenderFault,
                >(out.deep_view()),
            decreases template.len() - i,
        {
            proof {
                assert(args.take(i + 1).drop_last() =~= args.take(i as int));
                assert(args.take(i + 1).last() == template@[i as int]@);
            }
            match self.render_arg(template[i].as_str(), firmware, firmware_name) {
                Ok(s) => {
                    let ghost before = out.deep_view();
                    out.push(s);
                    assert(out.deep_view() =~= before.push(s@));
                },
                Err(e) => {
                    proof {
                        lemma_render_args_prefix_err(
                            self@,
                            args,
                            i + 1,
                            fw,
                            firmware_name@,
                        );
                    }
                    return Err(e);
                },
            }
            i = i + 1;
        }
        assert(args.take(template.len() as int) =~= args);
        Ok(out)
    }

    /// Renders the flash command for an uploaded image at `firmware`.
    pub fn render_flash(&self, firmware: &str, firmware_name: &str) -> (r: Result<
        Vec<String>,
        RenderError,
    >)
        ensures
            words_result(r) == flash_result(self@, firmware@, firmware_name@),
    {
        match &self.flash {
            Some(template) => self.render(template.as_slice(), Some(firmware), firmware_name),
            None => Err(RenderError::NoFlashCommand),
        }
    }

    /// Renders the monitor: a command, or the SEGGER RTT endpoint to read.
    /// `{firmware}` and `{firmware_name}` refer to an image uploaded with the request.
    pub fn render_monitor(&self, firmware: Option<&str>, firmware_name: &str) -> (r: Result<
        MonitorLaunch,
        RenderError,
    >)
        ensures
            launch_result(r) == monitor_result(self@, opt_str(firmware), firmware_name@),
    {
        match &self.monitor {
            None => Err(RenderError::NoMonitorCommand),
            Some(MonitorConfig::SeggerRtt(c)) => Ok(MonitorLaunch::SeggerRtt(c.duplicate())),
            Some(MonitorConfig::Command(template)) => {
                match self.render(template.as_slice(), firmware, firmware_name) {
                    Ok(argv) => Ok(MonitorLaunch::Command(argv)),
                    Err(e) => Err(e),
                }
            },
        }
    }
}

// ---------------------------------------------------------------------------
// Laws
// ---------------------------------------------------------------------------

proof fn lemma_no_brace_no_key(s: Seq<char>, key: Seq<char>)
    requires
        !s.contains('{'),
        key.len() > 0,
        key[0] == '{',
    ensures
        !contains_text(s, key),
{
    if contains_text(s, key) {
        let i = choose|i: int| matches_at(s, key, i);
        assert(s.subrange(i, i + key.len())[0] == s[i]);
        assert(s.contains(s[i]));
    }
}

/// An argument without braces renders as itself, whatever the target and upload.
pub proof fn lemma_plain_arg_unchanged(
    t: ResolvedView,
    arg: Seq<char>,
    firmware: Option<Seq<char>>,
    firmware_name: Seq<char>,
)
    requires
        !arg.contains('{'),
        !arg.contains('}'),
    ensures
        render_arg_result(t, arg, firmware, firmware_name) == Ok::<Seq<char>, RenderFault>(arg),
{
    lemma_no_brace_no_key(arg, key_target());
    lemma_replace_absent(arg, key_target(), t.name);
    lemma_no_brace_no_key(arg, key_platform());
    lemma_no_brace_no_key(arg, key_firmware());
    lemma_no_brace_no_key(arg, key_firmware_name());
    lemma_replace_absent(arg, key_firmware_name(), firmware_name);
    lemma_no_brace_no_key(arg, key_serial());
    lemma_no_brace_no_key(arg, key_baud());
    lemma_no_brace_no_key(arg, key_chip());
}

/// A rendered argument holds no brace, so no placeholder survives rendering.
pub proof fn lemma_rendered_arg_has_no_brace(
    t: ResolvedView,
    arg: Seq<char>,
    firmware: Option<Seq<char>>,
    firmware_name: Seq<char>,
)
    ensures
        render_arg_result(t, arg, firmware, firmware_name) matches Ok(s) ==> !s.contains('{')
            && !s.contains('}'),
{
}

/// A rendered command has one argument per template argument, each the
/// rendering of the template argument at the same position.
pub proof fn lemma_render_args_pointwise(
    t: ResolvedView,
    args: Seq<Seq<char>>,
    firmware: Option<Seq<char>>,
    firmware_name: Seq<char>,
)
    ensures
        render_args(t, args, firmware, firmware_name) matches Ok(out) ==> out.len() == args.len()
            && forall|i: int|
            0 <= i < args.len() ==> render_arg_result(t, args[i], firmware, firmware_name)
                == Ok::<Seq<char>, RenderFault>(#[trigger] out[i]),
    decreases args.len(),
{
    if args.len() > 0 {
        lemma_render_args_pointwise(t, args.drop_last(), firmware, firmware_name);
        if let Ok(out) = render_args(t, args, firmware, firmware_name) {
            assert forall|i: int| 0 <= i < args.len() implies render_arg_result(
                t,
                args[i],
                firmware,
                firmware_name,
            ) == Ok::<Seq<char>, RenderFault>(#[trigger] out[i]) by {
                if i < args.len() - 1 {
                    assert(args.drop_last()[i] == args[i]);
                }
            }
        }
    }
}

} // verus!
