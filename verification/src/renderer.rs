//! Chooses the GSK renderer before GTK starts.
//!
//! The GPU renderer is GTK's default. Two environments are known exceptions: X11 sessions, whose
//! compositors paint popovers blank until the pointer moves over them, and macOS guests, whose
//! virtual GPU has no accelerated OpenGL. The user's preference overrides both, and an explicit
//! `GSK_RENDERER` outranks everything.

use crate::text::{self, opt_str_view, trimmed};
use vstd::prelude::*;

verus! {

/// The GSK renderer name for software rasterisation.
pub const SOFTWARE_RENDERER: &'static str = "cairo";

/// The renderer the user asks for.
#[derive(Clone, Copy, Debug, PartialEq, Eq, Structural)]
pub enum RendererPreference {
    Auto,
    Software,
    Gpu,
}

/// Why the automatic choice landed on software rendering.
#[derive(Clone, Copy, Debug, PartialEq, Eq, Structural)]
pub enum SoftwareReason {
    /// X11 session whose compositor paints GTK4 popovers blank until hovered.
    X11Popovers,
    /// Guest OS whose virtual GPU has no accelerated OpenGL.
    HypervisorGuest,
}

impl SoftwareReason {
    /// The phrase logged next to the renderer choice.
    pub open spec fn log_reason(self) -> Seq<char> {
        match self {
            SoftwareReason::X11Popovers => {
                "X11 session: GTK4 GPU renderer paints popovers blank (#85)"@
            },
            SoftwareReason::HypervisorGuest => {
                "guest VM: paravirtualised GPU has no accelerated OpenGL (#274)"@
            },
        }
    }

    /// Returns the phrase logged next to the renderer choice.
    pub fn as_log_reason(self) -> (r: &'static str)
        ensures
            r@ == self.log_reason(),
    {
        match self {
            SoftwareReason::X11Popovers => {
                "X11 session: GTK4 GPU renderer paints popovers blank (#85)"
            },
            SoftwareReason::HypervisorGuest => {
                "guest VM: paravirtualised GPU has no accelerated OpenGL (#274)"
            },
        }
    }
}

/// What the automatic choice gets to look at.
#[derive(Clone, Copy, Debug, PartialEq, Eq, Structural)]
pub struct Probe {
    /// Whether the OS reports a hypervisor above us, `None` if it cannot be asked.
    pub hypervisor: Option<bool>,
    /// A session that GTK drives through X11.
    pub x11_session: bool,
}

/// The automatic choice: a guest gets software rendering whatever its session, any other machine
/// only in an X11 session.
pub open spec fn decision(probe: Probe) -> Option<SoftwareReason> {
    if probe.hypervisor == Some(true) {
        Some(SoftwareReason::HypervisorGuest)
    } else if probe.x11_session {
        Some(SoftwareReason::X11Popovers)
    } else {
        None
    }
}

/// Decides whether the automatic setting should force software rendering.
pub fn decide(probe: Probe) -> (r: Option<SoftwareReason>)
    ensures
        r == decision(probe),
{
    if let Some(true) = probe.hypervisor {
        return Some(SoftwareReason::HypervisorGuest);
    }
    if probe.x11_session {
        return Some(SoftwareReason::X11Popovers);
    }
    None
}

/// Gathers the facts that [`decide`] works from.
///
/// On macOS GTK uses the Quartz backend, so `DISPLAY` says nothing about how GTK paints; the
/// hypervisor is asked for on macOS alone.
pub fn probe_environment(
    macos: bool,
    hypervisor: Option<bool>,
    display: bool,
    wayland_display: bool,
) -> (r: Probe)
    ensures
        r.hypervisor == (if macos {
            hypervisor
        } else {
            None
        }),
        r.x11_session == (!macos && display && !wayland_display),
{
    Probe {
        hypervisor: if macos {
            hypervisor
        } else {
            None
        },
        x11_session: !macos && display && !wayland_display,
    }
}

/// Reads what `sysctl -n kern.hv_vmm_present` said, `None` where it failed.
pub fn hypervisor_present(output: Option<&str>) -> (r: Option<bool>)
    ensures
        r == (match opt_str_view(output) {
            Some(out) => if trimmed(out) == "1"@ {
                Some(true)
            } else if trimmed(out) == "0"@ {
                Some(false)
            } else {
                None
            },
            None => None,
        }),
{
    proof {
        reveal_strlit("1");
        reveal_strlit("0");
        assert("1"@[0] != "0"@[0]);
    }
    match output {
        Some(out) => {
            let value = text::trim(out);
            if text::same(value, "1") {
                Some(true)
            } else if text::same(value, "0") {
                Some(false)
            } else {
                None
            }
        },
        None => None,
    }
}

/// The preference that a stored value stands for. An unknown value is no preference.
pub open spec fn preference_of(raw: Option<Seq<char>>) -> RendererPreference {
    if raw == Some("software"@) {
        RendererPreference::Software
    } else if raw == Some("gpu"@) {
        RendererPreference::Gpu
    } else {
        RendererPreference::Auto
    }
}

/// Reads the saved preference, falling back to the automatic choice.
pub fn read_renderer_preference(raw: Option<&str>) -> (r: RendererPreference)
    ensures
        r == preference_of(opt_str_view(raw)),
{
    match raw {
        Some(value) => {
            if text::same(value, "software") {
                RendererPreference::Software
            } else if text::same(value, "gpu") {
                RendererPreference::Gpu
            } else {
                RendererPreference::Auto
            }
        },
        None => RendererPreference::Auto,
    }
}

/// What startup does about the renderer.
#[derive(Clone, Copy, Debug, PartialEq, Eq, Structural)]
pub enum RendererChoice {
    /// `GSK_RENDERER` is in the environment and stays as it is.
    AlreadySet,
    /// GTK's own default.
    Default,
    /// Software rendering, because the user asked for it.
    SoftwarePreferred,
    /// Software rendering, because of the environment.
    SoftwareAutomatic(SoftwareReason),
}

/// The choice between the environment, the preference and the probe, in this order.
pub open spec fn renderer_choice(
    already_set: bool,
    preference: RendererPreference,
    probe: Probe,
) -> RendererChoice {
    if already_set {
        RendererChoice::AlreadySet
    } else {
        match preference {
            RendererPreference::Software => RendererChoice::SoftwarePreferred,
            RendererPreference::Gpu => RendererChoice::Default,
            RendererPreference::Auto => match decision(probe) {
                Some(reason) => RendererChoice::SoftwareAutomatic(reason),
                None => RendererChoice::Default,
            },
        }
    }
}

/// Selects the renderer.
pub fn select_renderer(
    already_set: bool,
    preference: RendererPreference,
    probe: Probe,
) -> (r: RendererChoice)
    ensures
        r == renderer_choice(already_set, preference, probe),
{
    if already_set {
        return RendererChoice::AlreadySet;
    }
    match preference {
        RendererPreference::Software => RendererChoice::SoftwarePreferred,
        RendererPreference::Gpu => RendererChoice::Default,
        RendererPreference::Auto => match decide(probe) {
            Some(reason) => RendererChoice::SoftwareAutomatic(reason),
            None => RendererChoice::Default,
        },
    }
}

impl RendererChoice {
    /// What `GSK_RENDERER` is set to, `None` where it is left alone.
    pub open spec fn written(self) -> Option<Seq<char>> {
        match self {
            RendererChoice::AlreadySet | RendererChoice::Default => None,
            _ => Some(SOFTWARE_RENDERER@),
        }
    }

    /// The value to put into `GSK_RENDERER`, if any.
    pub fn renderer(self) -> (r: Option<&'static str>)
        ensures
            opt_str_view(r) == self.written(),
    {
        match self {
            RendererChoice::AlreadySet | RendererChoice::Default => None,
            _ => Some(SOFTWARE_RENDERER),
        }
    }
}

/// The environment is written only where nothing is set yet and either the user or the
/// environment asks for software rendering.
pub proof fn law_environment_is_written_only_for_software(
    already_set: bool,
    preference: RendererPreference,
    probe: Probe,
)
    ensures
        renderer_choice(already_set, preference, probe).written() is Some <==> !already_set && (
        preference == RendererPreference::Software || (preference == RendererPreference::Auto
            && decision(probe) is Some)),
{
}

/// A hypervisor probe that has no answer is no reason for software rendering.
pub proof fn law_unknown_hypervisor_keeps_the_gpu(preference: RendererPreference)
    requires
        preference != RendererPreference::Software,
    ensures
        renderer_choice(false, preference, Probe { hypervisor: None, x11_session: false })
            == RendererChoice::Default,
{
}

/// A stated preference decides alone, whatever the probe says.
pub proof fn law_preference_overrides_the_probe(
    preference: RendererPreference,
    first: Probe,
    second: Probe,
)
    requires
        preference != RendererPreference::Auto,
    ensures
        renderer_choice(false, preference, first) == renderer_choice(false, preference, second),
{
}

/// A guest gets software rendering whatever its session, and any other machine exactly in an X11
/// session; the reason that is given is the one that decided.
pub proof fn law_software_is_chosen_for_a_reason(probe: Probe, r: Option<SoftwareReason>)
    requires
        call_ensures(decide, (probe,), r),
    ensures
        r == Some(SoftwareReason::HypervisorGuest) <==> probe.hypervisor == Some(true),
        r == Some(SoftwareReason::X11Popovers) <==> probe.hypervisor != Some(true)
            && probe.x11_session,
        r is None <==> probe.hypervisor != Some(true) && !probe.x11_session,
{
}

/// A session is one of X11 exactly where only its display is set and this is no macOS, which alone is
/// asked for a hypervisor.
pub proof fn law_probe_asks_what_matters(
    macos: bool,
    hypervisor: Option<bool>,
    display: bool,
    wayland: bool,
    r: Probe,
)
    requires
        call_ensures(probe_environment, (macos, hypervisor, display, wayland), r),
    ensures
        r.x11_session <==> display && !wayland && !macos,
        macos ==> r.hypervisor == hypervisor,
        !macos ==> r.hypervisor is None,
{
}

/// The system says one for a hypervisor and nought for none, with any whitespace around it; anything
/// else, and no answer, leaves it open.
pub proof fn law_hypervisor_answer_is_one_digit(output: Option<&str>, r: Option<bool>)
    requires
        call_ensures(hypervisor_present, (output,), r),
    ensures
        r == Some(true) <==> (output matches Some(out) && trimmed(out@) == seq!['1']),
        r == Some(false) <==> (output matches Some(out) && trimmed(out@) == seq!['0']),
{
    reveal_strlit("1");
    reveal_strlit("0");
    assert("1"@ =~= seq!['1']);
    assert("0"@ =~= seq!['0']);
    assert(seq!['1'][0] == '1' && seq!['0'][0] == '0');
}

/// A preference is one of two words, and anything else is none.
pub proof fn law_preference_is_one_of_two_words(raw: Option<&str>, r: RendererPreference)
    requires
        call_ensures(read_renderer_preference, (raw,), r),
    ensures
        r == RendererPreference::Software <==> (raw matches Some(w) && w@ == "software"@),
        r == RendererPreference::Gpu <==> (raw matches Some(w) && w@ == "gpu"@),
{
    reveal_strlit("software");
    reveal_strlit("gpu");
    assert("software"@.len() != "gpu"@.len());
}

/// What is set already stays; then the user's wish decides, and only without one the environment.
pub proof fn law_renderer_is_chosen_in_order(
    already_set: bool,
    preference: RendererPreference,
    probe: Probe,
    r: RendererChoice,
    name: Option<&'static str>,
    reason: Option<SoftwareReason>,
)
    requires
        call_ensures(select_renderer, (already_set, preference, probe), r),
        call_ensures(RendererChoice::renderer, (r,), name),
        call_ensures(decide, (probe,), reason),
    ensures
        r == RendererChoice::AlreadySet <==> already_set,
        r == RendererChoice::SoftwarePreferred <==> !already_set && preference
            == RendererPreference::Software,
        r == RendererChoice::Default <==> !already_set && (preference == RendererPreference::Gpu || (
        preference == RendererPreference::Auto && reason is None)),
        r matches RendererChoice::SoftwareAutomatic(why) ==> reason == Some(why),
        name is Some <==> !already_set && (preference == RendererPreference::Software || (preference
            == RendererPreference::Auto && reason is Some)),
        name matches Some(n) ==> n@ == "cairo"@,
{
    assert(SOFTWARE_RENDERER@ == "cairo"@);
}

/// Each reason is told by a phrase of its own.
pub proof fn law_reasons_are_told_apart(a: SoftwareReason, b: SoftwareReason, r: &'static str, s: &'static str)
    requires
        call_ensures(SoftwareReason::as_log_reason, (a,), r),
        call_ensures(SoftwareReason::as_log_reason, (b,), s),
    ensures
        r@ == s@ <==> a == b,
        a == SoftwareReason::X11Popovers ==> r@
            == "X11 session: GTK4 GPU renderer paints popovers blank (#85)"@,
        a == SoftwareReason::HypervisorGuest ==> r@
            == "guest VM: paravirtualised GPU has no accelerated OpenGL (#274)"@,
{
    reveal_strlit("X11 session: GTK4 GPU renderer paints popovers blank (#85)");
    reveal_strlit("guest VM: paravirtualised GPU has no accelerated OpenGL (#274)");
    assert("X11 session: GTK4 GPU renderer paints popovers blank (#85)"@[0] == 'X');
    assert("guest VM: paravirtualised GPU has no accelerated OpenGL (#274)"@[0] == 'g');
}

} // verus!
