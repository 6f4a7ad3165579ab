use rustconn::renderer::{
    decide, hypervisor_present, probe_environment, read_renderer_preference, select_renderer,
    Probe, RendererChoice, RendererPreference, SoftwareReason,
};

/// A guest is a guest whatever the session type.
#[test]
fn a_hypervisor_guest_gets_software_rendering() {
    assert_eq!(
        decide(Probe { hypervisor: Some(true), x11_session: false }),
        Some(SoftwareReason::HypervisorGuest)
    );
}

#[test]
fn an_x11_session_gets_software_rendering() {
    assert_eq!(
        decide(Probe { hypervisor: Some(false), x11_session: true }),
        Some(SoftwareReason::X11Popovers)
    );
}

/// Bare metal on Wayland (or macOS) keeps the GPU renderer.
#[test]
fn bare_metal_without_x11_keeps_the_gpu_renderer() {
    assert_eq!(decide(Probe { hypervisor: Some(false), x11_session: false }), None);
}

/// "Cannot tell" must read as "no hypervisor", never as "guest".
#[test]
fn an_unanswerable_hypervisor_probe_does_not_force_software() {
    assert_eq!(decide(Probe { hypervisor: None, x11_session: false }), None);
}

/// When both apply, the guest reason is reported.
#[test]
fn the_guest_reason_wins_over_x11() {
    assert_eq!(
        decide(Probe { hypervisor: Some(true), x11_session: true }),
        Some(SoftwareReason::HypervisorGuest)
    );
}

/// macOS never takes the X11 route: a `DISPLAY` left behind there is no X11 session. Elsewhere the
/// hypervisor is not asked for.
#[test]
fn macos_is_never_treated_as_an_x11_session() {
    let probe = probe_environment(true, Some(false), true, false);
    assert!(!probe.x11_session);
    assert_eq!(probe.hypervisor, Some(false));

    let elsewhere = probe_environment(false, Some(true), true, false);
    assert_eq!(elsewhere.hypervisor, None, "only macOS is probed");
    assert!(elsewhere.x11_session);
    assert!(!probe_environment(false, None, true, true).x11_session);
}

/// The environment comes first, then the preference, then the probe.
#[test]
fn the_environment_and_the_preference_come_before_the_probe() {
    let guest = Probe { hypervisor: Some(true), x11_session: false };
    let plain = Probe { hypervisor: None, x11_session: false };
    let auto = RendererPreference::Auto;
    assert_eq!(select_renderer(true, RendererPreference::Software, guest).renderer(), None);
    assert_eq!(
        select_renderer(false, RendererPreference::Software, plain).renderer(),
        Some("cairo")
    );
    assert_eq!(select_renderer(false, RendererPreference::Gpu, guest), RendererChoice::Default);
    assert_eq!(
        select_renderer(false, auto, guest),
        RendererChoice::SoftwareAutomatic(SoftwareReason::HypervisorGuest)
    );
    assert_eq!(select_renderer(false, auto, plain), RendererChoice::Default);
    assert_eq!(read_renderer_preference(Some("software")), RendererPreference::Software);
    assert_eq!(read_renderer_preference(Some("gpu")), RendererPreference::Gpu);
    assert_eq!(read_renderer_preference(Some("Software")), RendererPreference::Auto);
    assert_eq!(read_renderer_preference(None), RendererPreference::Auto);
}

/// Anything but the two digits is no answer.
#[test]
fn the_hypervisor_probe_reads_two_digits() {
    assert_eq!(hypervisor_present(Some("1\n")), Some(true));
    assert_eq!(hypervisor_present(Some(" 0 ")), Some(false));
    assert_eq!(hypervisor_present(Some("10")), None);
    assert_eq!(hypervisor_present(Some("")), None);
    assert_eq!(hypervisor_present(None), None);
    assert!(SoftwareReason::X11Popovers.as_log_reason().contains("#85"));
    assert!(SoftwareReason::HypervisorGuest.as_log_reason().contains("#274"));
}

/// Only a wish for software rendering is written, and only where nothing is set.
#[test]
fn the_environment_is_written_only_for_software() {
    let probes = [
        Probe { hypervisor: None, x11_session: false },
        Probe { hypervisor: Some(false), x11_session: false },
        Probe { hypervisor: Some(true), x11_session: false },
        Probe { hypervisor: None, x11_session: true },
    ];
    for probe in probes {
        let by_itself = decide(probe).is_some();
        for preference in
            [RendererPreference::Auto, RendererPreference::Software, RendererPreference::Gpu]
        {
            let asked = preference == RendererPreference::Software
                || (preference == RendererPreference::Auto && by_itself);
            let expected = if asked { Some("cairo") } else { None };
            assert_eq!(select_renderer(false, preference, probe).renderer(), expected);
            assert_eq!(select_renderer(true, preference, probe).renderer(), None);
        }
    }
}
