use hulk_gamma::GammaError;
use hulk_gamma::pack::pack_ramp;
use hulk_gamma::ramp::compute_ramp;
use hulk_gamma::session::GammaSession;
use hulk_gamma::session::GlobalBind;
use hulk_gamma::session::IpcMessage;
use hulk_gamma::session::SessionPhase;
use hulk_gamma::session::str_eq;

#[test]
fn identity_ramp_256() {
    let ramp = compute_ramp(256, 1000).unwrap();
    assert_eq!(ramp.red.len(), 256);
    for i in 0..256usize {
        assert_eq!(ramp.red[i] as usize, i * 257);
    }
    assert_eq!(ramp.red[0], 0);
    assert_eq!(ramp.red[255], 65535);
    for i in 1..256usize {
        assert!(ramp.red[i - 1] <= ramp.red[i]);
    }
    assert_eq!(ramp.red, ramp.green);
    assert_eq!(ramp.red, ramp.blue);
}

#[test]
fn gamma_2200_brightens_interior() {
    let ramp = compute_ramp(256, 2200).unwrap();
    assert_eq!(ramp.red[0], 0);
    assert_eq!(ramp.red[255], 65535);
    for i in 1..255usize {
        // exponent 1000/2200 < 1 lifts every interior point of the curve
        assert!(ramp.red[i] as usize >= i * 257);
    }
    for i in 1..256usize {
        assert!(ramp.red[i - 1] <= ramp.red[i]);
    }
}

#[test]
fn endpoints_for_many_gammas() {
    for g in [1u32, 500, 1000, 1800, 2200, 10_000, 1_000_000] {
        let ramp = compute_ramp(64, g).unwrap();
        assert_eq!(ramp.red[0], 0);
        assert_eq!(ramp.red[63], 65535);
    }
}

#[test]
fn zero_gamma_rejected_for_every_size() {
    for size in [0usize, 1, 2, 17, 256, 4096] {
        assert!(matches!(compute_ramp(size, 0), Err(GammaError::InvalidGamma)));
    }
}

#[test]
fn bad_sizes_rejected() {
    assert!(matches!(compute_ramp(0, 1000), Err(GammaError::InvalidRampSize)));
    assert!(matches!(compute_ramp(1, 1000), Err(GammaError::InvalidRampSize)));
    assert!(matches!(compute_ramp(0x0100_0001, 1000), Err(GammaError::InvalidRampSize)));
}

#[test]
fn channel_lengths_match_size() {
    for size in [2usize, 16, 256, 1024] {
        let ramp = compute_ramp(size, 2200).unwrap();
        assert_eq!(ramp.red.len(), size);
        assert_eq!(ramp.green.len(), size);
        assert_eq!(ramp.blue.len(), size);
    }
}

#[test]
fn pack_two_samples() {
    let ramp = compute_ramp(2, 1000).unwrap();
    let bytes = pack_ramp(&ramp);
    assert_eq!(bytes, vec![0u8, 0, 255, 255, 0, 0, 255, 255, 0, 0, 255, 255]);
}

#[test]
fn str_eq_basic() {
    assert!(str_eq("wl_output", "wl_output"));
    assert!(!str_eq("wl_output", "wl_outpux"));
    assert!(!str_eq("wl_output", "wl_outpu"));
    assert!(str_eq("", ""));
}

fn discovered_session() -> GammaSession {
    let mut s = GammaSession::new();
    assert_eq!(s.on_global("wl_output"), GlobalBind::Output { index: 0 });
    assert_eq!(s.on_global("wl_output"), GlobalBind::Output { index: 1 });
    assert_eq!(s.on_global("zwlr_gamma_control_manager_v1"), GlobalBind::Manager);
    assert!(s.check_discovery().is_ok());
    s
}

#[test]
fn discovery_binds_outputs_and_manager_once() {
    let mut s = GammaSession::new();
    assert_eq!(s.on_global("wl_seat"), GlobalBind::Skip);
    assert_eq!(s.on_global("wl_output"), GlobalBind::Output { index: 0 });
    assert_eq!(s.on_global("zwlr_gamma_control_manager_v1"), GlobalBind::Manager);
    assert_eq!(s.on_global("zwlr_gamma_control_manager_v1"), GlobalBind::Skip);
    assert_eq!(s.on_global("wl_output"), GlobalBind::Output { index: 1 });
    assert_eq!(s.n_outputs, 2);
    assert!(s.has_manager);
}

#[test]
fn discovery_failures() {
    let s = GammaSession::new();
    assert_eq!(s.check_discovery(), Err(GammaError::NoOutputs));
    let mut s2 = GammaSession::new();
    s2.on_global("wl_output");
    assert_eq!(s2.check_discovery(), Err(GammaError::UnsupportedCompositor));
}

#[test]
fn select_validates_index() {
    let mut s = discovered_session();
    assert_eq!(s.select(2), Err(GammaError::InvalidOutput));
    let plan = s.select(0).unwrap();
    assert_eq!(plan.destroy_first, None);
    assert_eq!(plan.create_for, 0);
    assert_eq!(s.phase, SessionPhase::Selecting);
    assert_eq!(s.control, Some(0));
    assert_eq!(s.ramp_size, 0);
}

#[test]
fn reselection_keeps_one_control() {
    let mut s = discovered_session();
    s.select(1).unwrap();
    assert_eq!(s.control, Some(1));
    let plan = s.select(0).unwrap();
    // the prior control is destroyed before the new one is created
    assert_eq!(plan.destroy_first, Some(1));
    assert_eq!(plan.create_for, 0);
    assert_eq!(s.control, Some(0));
    assert_eq!(s.active_output, 0);
}

#[test]
fn ramp_size_gates_readiness() {
    let mut s = discovered_session();
    s.select(0).unwrap();
    s.on_ramp_size(0);
    assert_eq!(s.phase, SessionPhase::Selecting);
    s.on_ramp_size(256);
    assert_eq!(s.phase, SessionPhase::Ready);
    assert_eq!(s.ramp_size, 256);
}

#[test]
fn apply_requires_ready() {
    let mut s = discovered_session();
    assert_eq!(s.apply(1000), Err(GammaError::NotReady));
    s.select(0).unwrap();
    assert_eq!(s.apply(1000), Err(GammaError::NotReady));
}

#[test]
fn apply_rejects_zero_gamma() {
    let mut s = discovered_session();
    s.select(0).unwrap();
    s.on_ramp_size(256);
    assert_eq!(s.apply(0), Err(GammaError::InvalidGamma));
    assert_eq!(s.phase, SessionPhase::Ready);
}

#[test]
fn apply_rejects_unusable_ramp_size() {
    let mut s = discovered_session();
    s.select(0).unwrap();
    s.on_ramp_size(1);
    assert_eq!(s.phase, SessionPhase::Ready);
    assert_eq!(s.apply(1000), Err(GammaError::InvalidRampSize));
}

#[test]
fn failure_event_needs_fresh_select() {
    let mut s = discovered_session();
    s.select(0).unwrap();
    s.on_ramp_size(256);
    s.on_failed();
    assert_eq!(s.phase, SessionPhase::Failed);
    assert_eq!(s.apply(1000), Err(GammaError::NotReady));
    s.select(0).unwrap();
    assert_eq!(s.phase, SessionPhase::Selecting);
}

#[test]
fn end_to_end_request_for_output_one() {
    let mut s = discovered_session();
    // session starts on output 0 with gamma 1.0
    s.select(0).unwrap();
    s.on_ramp_size(256);
    let bytes = s.apply(1000).unwrap();
    assert_eq!(bytes.len(), 3 * 256 * 2);
    s.finish_apply();
    assert_eq!(s.phase, SessionPhase::Applied);
    // a client asks for output 1 at gamma 1.8
    let msg = IpcMessage { output: Some(1), gamma_milli: Some(1800) };
    let (output, gamma) = s.resolve_request(&msg);
    assert_eq!((output, gamma), (1, 1800));
    let plan = s.select(output).unwrap();
    assert_eq!(plan.destroy_first, Some(0));
    s.on_ramp_size(256);
    let bytes = s.apply(gamma).unwrap();
    assert_eq!(bytes.len(), 3 * 256 * 2);
    s.finish_apply();
    assert_eq!(s.phase, SessionPhase::Applied);
    assert_eq!(s.active_output, 1);
    assert_eq!(s.active_gamma_milli, 1800);
}

#[test]
fn request_defaults_fall_back_to_active_state() {
    let mut s = discovered_session();
    s.select(1).unwrap();
    s.on_ramp_size(64);
    s.apply(1400).unwrap();
    s.finish_apply();
    let msg = IpcMessage { output: None, gamma_milli: None };
    assert_eq!(s.resolve_request(&msg), (1, 1400));
    let msg = IpcMessage { output: Some(0), gamma_milli: None };
    assert_eq!(s.resolve_request(&msg), (0, 1400));
}
