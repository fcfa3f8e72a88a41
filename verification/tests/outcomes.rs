use minifilter_com::config::{KillPolicy, Param};
use minifilter_com::connector::ConnectorError;
use minifilter_com::errors::{
    kill_outcome, open_outcome, poll_outcome, register_outcome, DriverComError,
};
use minifilter_com::shared_def::REPLY_HEADER_SIZE;

#[test]
fn kill_group_success_returns_the_drivers_status() {
    // The driver reports success for gid 12345: the raw status word comes
    // back untouched.
    let r = kill_outcome(None, 0);
    assert_eq!(r, Ok(0));
    let r = kill_outcome(None, 0x20000001);
    assert_eq!(r, Ok(0x20000001));
}

#[test]
fn kill_group_transport_failure_surfaces_command_rejected() {
    let r = kill_outcome(Some(0x8007001F), 0);
    assert_eq!(r, Err(DriverComError::CommandRejected(0x8007001F)));
}

#[test]
fn register_failure_surfaces_command_rejected() {
    assert_eq!(register_outcome(None), Ok(()));
    assert_eq!(
        register_outcome(Some(5)),
        Err(DriverComError::CommandRejected(5))
    );
}

#[test]
fn open_failure_surfaces_port_unavailable() {
    assert_eq!(open_outcome(None), Ok(()));
    assert_eq!(
        open_outcome(Some(0x80070002)),
        Err(DriverComError::PortUnavailable(0x80070002))
    );
}

#[test]
fn poll_transport_failure_is_fatal_not_empty() {
    let buf = vec![0u8; REPLY_HEADER_SIZE];
    let r = poll_outcome(Some(31), 512, &buf);
    assert_eq!(r, Err(DriverComError::TransportFailure(31)));
}

#[test]
fn poll_zero_bytes_is_ok_none() {
    let buf = vec![0u8; REPLY_HEADER_SIZE];
    assert_eq!(poll_outcome(None, 0, &buf), Ok(None));
}

#[test]
fn poll_with_reply_parses_the_header() {
    let mut buf = vec![0u8; 64];
    buf[16] = 2;  // num_ops = 2, little-endian
    let r = poll_outcome(None, 64, &buf).unwrap().unwrap();
    assert_eq!(r.num_ops, 2);
}

#[test]
fn param_keys_match_registry_value_names() {
    assert_eq!(Param::convert_to_str(&Param::DebugPath), "DEBUG_PATH");
    assert_eq!(Param::convert_to_str(&Param::ConfigPath), "CONFIG_PATH");
    assert_eq!(Param::convert_to_str(&Param::NumVersion), "NUM_VERSION");
    assert_eq!(Param::convert_to_str(&Param::UtilsPath), "UTILS_PATH");
    assert_eq!(Param::convert_to_str(&Param::AppId), "APP_ID");
    assert_eq!(Param::convert_to_str(&Param::KillPolicy), "KILL_POLICY");
    assert_eq!(Param::all().len(), 6);
}

#[test]
fn kill_policy_values() {
    assert_eq!(KillPolicy::from_config_value("KILL"), KillPolicy::Kill);
    assert_eq!(KillPolicy::from_config_value("SUSPEND"), KillPolicy::Suspend);
    // Anything unrecognized falls back to the stricter policy.
    assert_eq!(KillPolicy::from_config_value("suspend"), KillPolicy::Kill);
    assert_eq!(KillPolicy::from_config_value(""), KillPolicy::Kill);
}

#[test]
fn connector_error_carries_name_and_details() {
    let e = ConnectorError::new("webhook", "connection refused");
    assert_eq!(e.connector_name, "webhook");
    assert_eq!(e.details, "connection refused");
    assert_eq!(e.message(), "webhook : connection refused");
}
