use lact::client::{connect_step, ConnectStep, CONNECT_RETRY_ATTEMPTS};
use lact::daemon::{pipe_name, reply_for, system_info, WindowsReply, WindowsRequest, DEFAULT_PIPE_NAME};
use lact::platform_types::{FanInfo, PerformanceLevel, PowerLevelKind};

#[test]
fn daemon_answers_each_request() {
    assert_eq!(reply_for(WindowsRequest::Ping), WindowsReply::Pong);
    assert_eq!(reply_for(WindowsRequest::SystemInfo), WindowsReply::SystemInfo);
    assert_eq!(reply_for(WindowsRequest::ListDevices), WindowsReply::EmptyDeviceList);
    assert_eq!(reply_for(WindowsRequest::Unsupported), WindowsReply::NotImplemented);
    assert_eq!(reply_for(WindowsRequest::Malformed), WindowsReply::DeserializeFailed);
}

#[test]
fn daemon_error_texts() {
    assert_eq!(WindowsReply::Pong.error_message(), None);
    assert_eq!(WindowsReply::EmptyDeviceList.error_message(), None);
    assert_eq!(
        WindowsReply::NotImplemented.error_message().unwrap(),
        "This request is not implemented by the Windows backend yet"
    );
    assert_eq!(WindowsReply::DeserializeFailed.error_message().unwrap(), "Failed to deserialize request");
}

#[test]
fn system_info_falls_back_to_windows() {
    let info = system_info(Some("Windows_NT".to_owned()));
    assert_eq!(info.distro.as_deref(), Some("Windows"));
    assert_eq!(info.kernel_version, "Windows_NT");
    assert_eq!(system_info(None).kernel_version, "Windows");
}

#[test]
fn pipe_name_defaults() {
    assert_eq!(pipe_name(None), r"\\.\pipe\lactd");
    assert_eq!(DEFAULT_PIPE_NAME, r"\\.\pipe\lactd");
    assert_eq!(pipe_name(Some("custom".to_owned())), "custom");
}

#[test]
fn connect_retries_transient_errors_a_bounded_number_of_times() {
    assert_eq!(connect_step(1, None), ConnectStep::Connected);
    assert_eq!(connect_step(1, Some(Some(2))), ConnectStep::RetryAfterDelay { next_attempt: 2 });
    assert_eq!(connect_step(5, Some(Some(231))), ConnectStep::RetryAfterDelay { next_attempt: 6 });
    assert_eq!(connect_step(CONNECT_RETRY_ATTEMPTS, Some(Some(2))), ConnectStep::GiveUp);
    assert_eq!(connect_step(1, Some(Some(5))), ConnectStep::GiveUp);
    assert_eq!(connect_step(1, Some(None)), ConnectStep::GiveUp);
    let mut attempt = 1;
    let mut tries = 0;
    loop {
        tries += 1;
        match connect_step(attempt, Some(Some(231))) {
            ConnectStep::RetryAfterDelay { next_attempt } => attempt = next_attempt,
            ConnectStep::GiveUp => break,
            ConnectStep::Connected => unreachable!(),
        }
    }
    assert_eq!(tries, 20);
}

#[test]
fn platform_types_compare_by_value() {
    assert_eq!(FanInfo::default(), FanInfo { current: 0, allowed_range: None });
    assert_ne!(FanInfo { current: 1, allowed_range: Some((0, 100)) }, FanInfo::default());
    assert_ne!(PowerLevelKind::Core, PowerLevelKind::Memory);
    assert_eq!(PerformanceLevel::ProfilePeak, PerformanceLevel::ProfilePeak);
}
