use eden_explorer::rendering::{
    bench_renderer, diagnostics_requested, normalize_setting, request_from_text,
    select_renderer, Diagnostics, DiagnosticsMode, Renderer, RendererRequest,
    REPORT_INTERVAL_NANOS,
};

#[test]
fn renderer_setting_is_trimmed_and_lower_cased() {
    assert_eq!(normalize_setting("  WGPU \n"), "wgpu");
    assert_eq!(normalize_setting("GlOw"), "glow");
    assert_eq!(normalize_setting(""), "");
}

#[test]
fn renderer_names() {
    assert_eq!(request_from_text("auto"), Some(RendererRequest::Auto));
    assert_eq!(request_from_text(""), Some(RendererRequest::Auto));
    assert_eq!(request_from_text("wgpu"), Some(RendererRequest::Wgpu));
    assert_eq!(request_from_text("glow"), Some(RendererRequest::Glow));
    assert_eq!(request_from_text("vulkan"), None);
    assert_eq!(request_from_text("WGPU"), None);
}

#[test]
fn renderer_selection_from_environment_value() {
    let unset = select_renderer(None);
    assert_eq!(unset.request, RendererRequest::Auto);
    assert_eq!(unset.renderer(), Renderer::Wgpu);
    assert!(unset.can_fallback());

    let wgpu = select_renderer(Some(" WGPU "));
    assert_eq!(wgpu.request, RendererRequest::Wgpu);
    assert_eq!(wgpu.renderer(), Renderer::Wgpu);
    assert!(!wgpu.can_fallback());

    let glow = select_renderer(Some("Glow"));
    assert_eq!(glow.request, RendererRequest::Glow);
    assert_eq!(glow.renderer(), Renderer::Glow);
    assert!(!glow.can_fallback());

    let unknown = select_renderer(Some("metal"));
    assert_eq!(unknown.request, RendererRequest::Auto);
    assert_eq!(unknown.renderer(), Renderer::Wgpu);
    assert!(unknown.can_fallback());
}

#[test]
fn benchmark_uses_glow_only_when_asked() {
    assert_eq!(bench_renderer(Some(" glow")), Renderer::Glow);
    assert_eq!(bench_renderer(Some("wgpu")), Renderer::Wgpu);
    assert_eq!(bench_renderer(Some("nonsense")), Renderer::Wgpu);
    assert_eq!(bench_renderer(None), Renderer::Wgpu);
}

#[test]
fn diagnostics_switch_values() {
    for on in ["1", "true", " TRUE ", "yes", "Yes"] {
        assert!(diagnostics_requested(Some(on)), "{on:?}");
    }
    for off in ["0", "false", "no", "", "on"] {
        assert!(!diagnostics_requested(Some(off)), "{off:?}");
    }
    assert!(!diagnostics_requested(None));
}

#[test]
fn diagnostics_mode_is_settled_by_the_first_query() {
    let mut d = Diagnostics::new();
    assert_eq!(d.mode, DiagnosticsMode::Unknown);
    assert!(d.enabled(Some("1")));
    assert_eq!(d.mode, DiagnosticsMode::Enabled);
    assert!(d.enabled(Some("0")));
    assert!(d.enabled(None));

    let mut off = Diagnostics::new();
    assert!(!off.enabled(None));
    assert_eq!(off.mode, DiagnosticsMode::Disabled);
    assert!(!off.enabled(Some("yes")));
}

#[test]
fn counters_move_only_when_enabled() {
    let mut d = Diagnostics::new();
    d.record_repaint_request(Some("yes"));
    d.record_repaint_request(None);
    d.record_rendered_frame(None);
    d.record_viewport_event(None);
    d.record_viewport_event(None);
    assert_eq!(d.repaint_requests, 2);
    assert_eq!(d.rendered_frames, 1);
    assert_eq!(d.viewport_events, 2);

    let mut off = Diagnostics::new();
    off.record_repaint_request(None);
    off.record_rendered_frame(Some("1"));
    off.record_viewport_event(Some("1"));
    assert_eq!(off.repaint_requests, 0);
    assert_eq!(off.rendered_frames, 0);
    assert_eq!(off.viewport_events, 0);
}

#[test]
fn ui_passes_accumulate_time_and_report_every_five_seconds() {
    let mut d = Diagnostics::new();
    let g = d.begin_ui(Some("1"), 1_000);
    assert_eq!(g.0, Some(1_000));
    assert_eq!(d.ui_calls, 1);
    assert!(d.end_ui(g, 4_000));
    assert_eq!(d.ui_nanos, 3_000);
    assert_eq!(d.last_report, Some(4_000));

    let g = d.begin_ui(None, 10_000);
    assert!(!d.end_ui(g, 10_500));
    assert_eq!(d.ui_calls, 2);
    assert_eq!(d.ui_nanos, 3_500);
    assert_eq!(d.last_report, Some(4_000));

    let g = d.begin_ui(None, 4_000 + REPORT_INTERVAL_NANOS);
    assert!(d.end_ui(g, 4_000 + REPORT_INTERVAL_NANOS));
    assert_eq!(d.last_report, Some(4_000 + REPORT_INTERVAL_NANOS));
}

#[test]
fn a_clock_going_backwards_adds_no_time() {
    let mut d = Diagnostics::new();
    let g = d.begin_ui(Some("1"), 9_000);
    d.end_ui(g, 5_000);
    assert_eq!(d.ui_nanos, 0);
}

#[test]
fn disabled_ui_pass_changes_nothing() {
    let mut d = Diagnostics::new();
    let g = d.begin_ui(None, 100);
    assert_eq!(g.0, None);
    assert!(!d.end_ui(g, 200));
    assert_eq!(d.ui_calls, 0);
    assert_eq!(d.ui_nanos, 0);
    assert_eq!(d.last_report, None);
}

#[test]
fn reports_are_due_five_seconds_apart() {
    let mut d = Diagnostics::new();
    assert!(d.maybe_report(0));
    assert!(!d.maybe_report(REPORT_INTERVAL_NANOS - 1));
    assert!(d.maybe_report(REPORT_INTERVAL_NANOS));
    assert!(!d.maybe_report(REPORT_INTERVAL_NANOS + 1));
}

#[test]
fn regions_are_kept_sorted_by_name_and_accumulate() {
    let mut d = Diagnostics::new();
    d.record_region(Some("1"), "tabs", 30);
    d.record_region(None, "sidebar", 10);
    d.record_region(None, "tabs", 5);
    d.record_region(None, "item_viewer", 7);
    let names: Vec<&str> = d.regions.iter().map(|r| r.name.as_str()).collect();
    assert_eq!(names, vec!["item_viewer", "sidebar", "tabs"]);
    let tabs = &d.regions[2];
    assert_eq!((tabs.calls, tabs.nanos), (2, 35));
    assert_eq!((d.regions[0].calls, d.regions[0].nanos), (1, 7));
}

#[test]
fn regions_are_ignored_when_disabled() {
    let mut d = Diagnostics::new();
    d.record_region(None, "tabs", 30);
    assert!(d.regions.is_empty());
}

#[test]
fn counting_calls_add_up_and_wrap() {
    let mut d = Diagnostics::new();
    for _ in 0..10 {
        d.record_rendered_frame(Some("1"));
    }
    assert_eq!(d.rendered_frames, 10);
    d.rendered_frames = u64::MAX - 1;
    d.record_rendered_frame(None);
    d.record_rendered_frame(None);
    d.record_rendered_frame(None);
    assert_eq!(d.rendered_frames, 1);
}
