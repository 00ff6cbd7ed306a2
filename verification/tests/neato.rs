use hmac::{Hmac, Mac};
use homectl::integrations::neato::{
    bearer, decimal, new_cleaning_message, new_state_message, robot_request, robot_request_now,
    robots_url, sessions_url, sign, update_robot_states, with_state, HouseCleaningParams,
    NeatoState, Robot, RobotAction, RobotCmd, RobotCommand, RobotMessage, RobotState,
    RobotStateDetails,
};
use sha2::Sha256;

fn robot(serial: &str) -> Robot {
    Robot {
        secret_key: "04a0fbe6b1f2f3f4".to_string(),
        serial: serial.to_string(),
        nucleo_url: "https://nucleo.neatocloud.com:4443".to_string(),
        name: "Rosie".to_string(),
        mac_address: "00:11:22:33:44:55".to_string(),
        model: "BotVacD7Connected".to_string(),
        state: None,
    }
}

fn state(charge: i8) -> NeatoState {
    NeatoState {
        alert: None,
        error: Some("ui_alert_invalid".to_string()),
        details: RobotStateDetails {
            is_charging: true,
            is_docked: true,
            is_schedule_enabled: false,
            dock_has_been_seen: true,
            charge,
        },
        state: RobotState::Idle,
        action: RobotAction::Invalid,
    }
}

#[test]
fn the_body_of_a_state_request() {
    assert_eq!(
        new_state_message().body(),
        "{\"reqId\":\"77\",\"cmd\":\"getRobotState\",\"params\":null}"
    );
}

#[test]
fn the_body_of_a_cleaning_request() {
    let start = new_cleaning_message(&RobotCmd::StartCleaning, false);
    assert_eq!(
        start,
        RobotMessage {
            cmd: RobotCommand::StartCleaning,
            params: Some(HouseCleaningParams { category: 4, mode: 1, navigation_mode: 2 }),
        }
    );
    assert_eq!(
        start.body(),
        "{\"reqId\":\"77\",\"cmd\":\"startCleaning\",\"params\":{\"category\":4,\"mode\":1,\"navigationMode\":2}}"
    );
    let stop = new_cleaning_message(&RobotCmd::StopCleaning, false);
    assert_eq!(
        stop.body(),
        "{\"reqId\":\"77\",\"cmd\":\"stopCleaning\",\"params\":{\"category\":4,\"mode\":1,\"navigationMode\":2}}"
    );
    // In rehearsal the robots are only asked for their state.
    assert_eq!(new_cleaning_message(&RobotCmd::StartCleaning, true), new_state_message());
    let wide = RobotMessage {
        cmd: RobotCommand::StartCleaning,
        params: Some(HouseCleaningParams { category: 0, mode: 10, navigation_mode: u32::MAX }),
    };
    assert_eq!(
        wide.body(),
        "{\"reqId\":\"77\",\"cmd\":\"startCleaning\",\"params\":{\"category\":0,\"mode\":10,\"navigationMode\":4294967295}}"
    );
}

#[test]
fn numbers_in_decimal() {
    assert_eq!(decimal(0), "0");
    assert_eq!(decimal(9), "9");
    assert_eq!(decimal(10), "10");
    assert_eq!(decimal(1234567890), "1234567890");
    assert_eq!(decimal(u32::MAX), "4294967295");
}

#[test]
fn a_signature_is_the_hmac_in_lower_case_hexadecimal() {
    assert_eq!(
        sign("key", "The quick brown fox jumps over the lazy dog"),
        "f7bc83f430538424b13298e6aa6fb143ef4d59a14946175997479dbc2d1a3cd8"
    );
    assert_ne!(sign("key", "a"), sign("kez", "a"));
    assert_ne!(sign("key", "a"), sign("key", "b"));
}

#[test]
fn a_request_to_a_robot_is_signed_over_serial_date_and_body() {
    let robot = robot("OPS01234-0123456789AB");
    let date = "Wed, 28 Oct 2026 09:30:00 GMT";
    let message = new_state_message();
    let request = robot_request(&robot, &message, date);
    assert_eq!(
        request.url,
        "https://nucleo.neatocloud.com:4443/vendors/neato/robots/OPS01234-0123456789AB/messages"
    );
    assert_eq!(request.accept, "application/vnd.neato.nucleo.v1");
    assert_eq!(request.date, date);
    assert_eq!(request.body, message.body());
    let text = format!(
        "ops01234-0123456789ab\n{}\n{}",
        date, "{\"reqId\":\"77\",\"cmd\":\"getRobotState\",\"params\":null}"
    );
    let mut mac = Hmac::<Sha256>::new_from_slice(robot.secret_key.as_bytes()).unwrap();
    mac.update(text.as_bytes());
    let expected = hex::encode(mac.finalize().into_bytes());
    assert_eq!(request.authorization, format!("NEATOAPP {}", expected));
    assert_eq!(request.authorization.len(), 9 + 64);
}

#[test]
fn a_request_made_now_carries_an_http_date() {
    let robot = robot("abc");
    let request = robot_request_now(&robot, &new_state_message());
    assert_eq!(request.date.len(), 29);
    assert!(request.date.ends_with(" GMT"));
    assert_eq!(request.date.as_bytes()[3], b',');
    let again = robot_request(&robot, &new_state_message(), &request.date);
    assert_eq!(request, again);
}

#[test]
fn addresses_and_headers_of_the_account() {
    assert_eq!(sessions_url(), "https://beehive.neatocloud.com/sessions");
    assert_eq!(robots_url(), "https://beehive.neatocloud.com/users/me/robots");
    assert_eq!(bearer("t0ken"), "Bearer t0ken");
}

#[test]
fn states_and_actions_have_their_codes_and_names() {
    for code in 0..=4u8 {
        assert_eq!(RobotState::from_code(code).unwrap().code(), code);
    }
    assert_eq!(RobotState::from_code(5), None);
    assert_eq!(RobotState::from_code(2), Some(RobotState::Busy));
    assert_eq!(RobotState::Paused.name(), "Paused");
    assert_eq!(RobotState::Error.name(), format!("{:?}", RobotState::Error));
    for code in 0..=15u8 {
        let action = RobotAction::from_code(code).unwrap();
        assert_eq!(action.code(), code);
        assert_eq!(action.name(), format!("{:?}", action));
    }
    assert_eq!(RobotAction::from_code(16), None);
    assert_eq!(RobotAction::from_code(4), Some(RobotAction::Docking));
    assert_eq!(RobotAction::from_code(13).unwrap().name(), "AcquiringPersisntentMapIDs");
}

#[test]
fn robots_are_given_what_they_reported() {
    let updated =
        update_robot_states(vec![robot("a"), robot("b"), robot("c")], vec![state(1), state(2), state(3)]);
    assert_eq!(updated.len(), 3);
    for (i, serial) in ["a", "b", "c"].iter().enumerate() {
        assert_eq!(updated[i].serial, *serial);
        assert_eq!(updated[i].state.as_ref().unwrap().details.charge, i as i8 + 1);
        assert_eq!(updated[i].name, "Rosie");
    }
    let one = with_state(robot("z"), state(9));
    assert_eq!(one.state, Some(state(9)));
    assert!(update_robot_states(vec![], vec![]).is_empty());
}
