use gigantomachia::app::{
    surface_response, AppAction, AppConfig, AppConfigError, HostState, SurfaceFault,
    SurfaceResponse, WindowFlags,
};

#[test]
fn default_config_is_a_1280_by_720_window_without_frame_limit() {
    let config = AppConfig::default();
    assert_eq!(config.width, 1280);
    assert_eq!(config.height, 720);
    assert_eq!(config.frame_limit, None);
    assert_eq!(config.validate(), Ok(()));
}

#[test]
fn zero_dimensions_or_frame_limit_are_rejected() {
    let base = AppConfig::default();
    for config in [
        AppConfig { width: 0, ..base },
        AppConfig { height: 0, ..base },
        AppConfig { frame_limit: Some(0), ..base },
    ] {
        assert_eq!(config.validate(), Err(AppConfigError::ZeroDimensionOrFrameLimit));
    }
    assert_eq!(AppConfig { frame_limit: Some(1), ..base }.validate(), Ok(()));
}

#[test]
fn frame_limit_exits_on_the_last_presentation() {
    let mut host = HostState::new(&AppConfig { frame_limit: Some(3), ..AppConfig::default() });
    host.resumed(640, 480);
    assert!(host.should_draw());
    assert!(!host.presented());
    assert!(!host.presented());
    assert!(!host.limit_reached());
    assert!(host.presented());
    assert!(host.limit_reached());
}

#[test]
fn unlimited_host_never_exits_on_presentation() {
    let mut host = HostState::new(&AppConfig::default());
    for _ in 0..1000 {
        assert!(!host.presented());
    }
    assert_eq!(host.frames_left, None);
}

#[test]
fn zero_sized_occluded_or_suspended_windows_are_not_drawn() {
    let mut host = HostState::new(&AppConfig::default());
    assert!(!host.should_draw());
    host.resumed(0, 480);
    assert_eq!(host.window, Some(WindowFlags { drawable: false, occluded: false }));
    assert!(!host.should_draw());
    assert!(host.resized(800, 600));
    assert!(host.should_draw());
    assert!(!host.resized(800, 0));
    assert!(!host.should_draw());
    assert!(host.resized(800, 600));
    host.set_occluded(true);
    assert!(!host.should_draw());
    host.set_occluded(false);
    assert!(host.should_draw());
    host.resumed(10, 10);
    assert_eq!(host.window, Some(WindowFlags { drawable: true, occluded: false }));
    host.suspended();
    assert!(!host.should_draw());
    assert!(!host.resized(800, 600));
    host.set_occluded(true);
    assert_eq!(host.window, None);
}

#[test]
fn surface_failures_are_reconfigured_retried_or_fatal() {
    assert_eq!(surface_response(SurfaceFault::Lost), SurfaceResponse::Reconfigure);
    assert_eq!(surface_response(SurfaceFault::Outdated), SurfaceResponse::Reconfigure);
    assert_eq!(surface_response(SurfaceFault::Timeout), SurfaceResponse::RetryLater);
    assert_eq!(surface_response(SurfaceFault::OutOfMemory), SurfaceResponse::Fail);
    assert_eq!(surface_response(SurfaceFault::Other), SurfaceResponse::Fail);
    assert_ne!(AppAction::Continue, AppAction::Exit);
}
