//! Requests to the cloud service of Neato robot vacuums.
//!
//! The library says what is asked of the service: addresses, headers and
//! bodies, with the signature each message to a robot carries. Sending a
//! request and reading the answer is done by the program around it.

use vstd::prelude::*;
use vstd::string::{StringExecFns, StringSliceAdditionalSpecFns};

use hmac::Mac;

verus! {

/// The address of the service.
pub open spec fn base_url() -> Seq<char> {
    "https://beehive.neatocloud.com"@
}

/// The request id every message carries.
pub open spec fn request_id() -> Seq<char> {
    "77"@
}

/// The account at the service, and whether cleaning is only rehearsed.
#[derive(Debug, PartialEq, Eq)]
pub struct NeatoConfig {
    pub email: String,
    pub password: String,
    pub dummy: bool,
}

/// The charge and dock of a robot.
#[derive(Clone, Copy, Debug, PartialEq, Eq, Structural)]
pub struct RobotStateDetails {
    pub is_charging: bool,
    pub is_docked: bool,
    pub is_schedule_enabled: bool,
    pub dock_has_been_seen: bool,
    pub charge: i8,
}

/// What a robot is doing, in general.
#[derive(Clone, Copy, Debug, PartialEq, Eq, Structural)]
pub enum RobotState {
    Invalid,
    Idle,
    Busy,
    Paused,
    Error,
}

/// What a robot is, or was, busy with.
#[derive(Clone, Copy, Debug, PartialEq, Eq, Structural)]
pub enum RobotAction {
    Invalid,
    HouseCleaning,
    SpotCleaning,
    ManualCleaning,
    Docking,
    UserMenuActive,
    SuspendedCleaning,
    Updating,
    CopyingLogs,
    RecoveringLocation,
    IECTest,
    MapCleaning,
    ExploringMap,
    AcquiringPersisntentMapIDs,
    CreatingAndUploadingMap,
    SuspendedExploration,
}

impl RobotState {
    /// The number the service writes for the state.
    pub open spec fn spec_code(self) -> u8 {
        match self {
            RobotState::Invalid => 0,
            RobotState::Idle => 1,
            RobotState::Busy => 2,
            RobotState::Paused => 3,
            RobotState::Error => 4,
        }
    }

    pub fn code(&self) -> (c: u8)
        ensures
            c == self.spec_code(),
    {
        match self {
            RobotState::Invalid => 0,
            RobotState::Idle => 1,
            RobotState::Busy => 2,
            RobotState::Paused => 3,
            RobotState::Error => 4,
        }
    }

    /// The state the service writes `code` for, if any.
    pub fn from_code(code: u8) -> (r: Option<RobotState>)
        ensures
            match r {
                Some(s) => s.spec_code() == code,
                None => code > 4,
            },
    {
        match code {
            0 => Some(RobotState::Invalid),
            1 => Some(RobotState::Idle),
            2 => Some(RobotState::Busy),
            3 => Some(RobotState::Paused),
            4 => Some(RobotState::Error),
            _ => None,
        }
    }

    /// The name of the state.
    pub fn name(&self) -> (s: String)
        ensures
            s@ == match self {
                RobotState::Invalid => "Invalid"@,
                RobotState::Idle => "Idle"@,
                RobotState::Busy => "Busy"@,
                RobotState::Paused => "Paused"@,
                RobotState::Error => "Error"@,
            },
    {
        match self {
            RobotState::Invalid => "Invalid".to_owned(),
            RobotState::Idle => "Idle".to_owned(),
            RobotState::Busy => "Busy".to_owned(),
            RobotState::Paused => "Paused".to_owned(),
            RobotState::Error => "Error".to_owned(),
        }
    }
}

impl RobotAction {
    /// The number the service writes for the action.
    pub open spec fn spec_code(self) -> u8 {
        match self {
            RobotAction::Invalid => 0,
            RobotAction::HouseCleaning => 1,
            RobotAction::SpotCleaning => 2,
            RobotAction::ManualCleaning => 3,
            RobotAction::Docking => 4,
            RobotAction::UserMenuActive => 5,
            RobotAction::SuspendedCleaning => 6,
            RobotAction::Updating => 7,
            RobotAction::CopyingLogs => 8,
            RobotAction::RecoveringLocation => 9,
            RobotAction::IECTest => 10,
            RobotAction::MapCleaning => 11,
            RobotAction::ExploringMap => 12,
            RobotAction::AcquiringPersisntentMapIDs => 13,
            RobotAction::CreatingAndUploadingMap => 14,
            RobotAction::SuspendedExploration => 15,
        }
    }

    pub fn code(&self) -> (c: u8)
        ensures
            c == self.spec_code(),
    {
        match self {
            RobotAction::Invalid => 0,
            RobotAction::HouseCleaning => 1,
            RobotAction::SpotCleaning => 2,
            RobotAction::ManualCleaning => 3,
            RobotAction::Docking => 4,
            RobotAction::UserMenuActive => 5,
            RobotAction::SuspendedCleaning => 6,
            RobotAction::Updating => 7,
            RobotAction::CopyingLogs => 8,
            RobotAction::RecoveringLocation => 9,
            RobotAction::IECTest => 10,
            RobotAction::MapCleaning => 11,
            RobotAction::ExploringMap => 12,
            RobotAction::AcquiringPersisntentMapIDs => 13,
            RobotAction::CreatingAndUploadingMap => 14,
            RobotAction::SuspendedExploration => 15,
        }
    }

    /// The action the service writes `code` for, if any.
    pub fn from_code(code: u8) -> (r: Option<RobotAction>)
        ensures
            match r {
                Some(a) => a.spec_code() == code,
                None => code > 15,
            },
    {
        match code {
            0 => Some(RobotAction::Invalid),
            1 => Some(RobotAction::HouseCleaning),
            2 => Some(RobotAction::SpotCleaning),
            3 => Some(RobotAction::ManualCleaning),
            4 => Some(RobotAction::Docking),
            5 => Some(RobotAction::UserMenuActive),
            6 => Some(RobotAction::SuspendedCleaning),
            7 => Some(RobotAction::Updating),
            8 => Some(RobotAction::CopyingLogs),
            9 => Some(RobotAction::RecoveringLocation),
            10 => Some(RobotAction::IECTest),
            11 => Some(RobotAction::MapCleaning),
            12 => Some(RobotAction::ExploringMap),
            13 => Some(RobotAction::AcquiringPersisntentMapIDs),
            14 => Some(RobotAction::CreatingAndUploadingMap),
            15 => Some(RobotAction::SuspendedExploration),
            _ => None,
        }
    }

    /// The name of the action.
    pub fn name(&self) -> (s: String)
        ensures
            s@ == match self {
                RobotAction::Invalid => "Invalid"@,
                RobotAction::HouseCleaning => "HouseCleaning"@,
                RobotAction::SpotCleaning => "SpotCleaning"@,
                RobotAction::ManualCleaning => "ManualCleaning"@,
                RobotAction::Docking => "Docking"@,
                RobotAction::UserMenuActive => "UserMenuActive"@,
                RobotAction::SuspendedCleaning => "SuspendedCleaning"@,
                RobotAction::Updating => "Updating"@,
                RobotAction::CopyingLogs => "CopyingLogs"@,
                RobotAction::RecoveringLocation => "RecoveringLocation"@,
                RobotAction::IECTest => "IECTest"@,
                RobotAction::MapCleaning => "MapCleaning"@,
                RobotAction::ExploringMap => "ExploringMap"@,
                RobotAction::AcquiringPersisntentMapIDs => "AcquiringPersisntentMapIDs"@,
                RobotAction::CreatingAndUploadingMap => "CreatingAndUploadingMap"@,
                RobotAction::SuspendedExploration => "SuspendedExploration"@,
            },
    {
        match self {
            RobotAction::Invalid => "Invalid".to_owned(),
            RobotAction::HouseCleaning => "HouseCleaning".to_owned(),
            RobotAction::SpotCleaning => "SpotCleaning".to_owned(),
            RobotAction::ManualCleaning => "ManualCleaning".to_owned(),
            RobotAction::Docking => "Docking".to_owned(),
            RobotAction::UserMenuActive => "UserMenuActive".to_owned(),
            RobotAction::SuspendedCleaning => "SuspendedCleaning".to_owned(),
            RobotAction::Updating => "Updating".to_owned(),
            RobotAction::CopyingLogs => "CopyingLogs".to_owned(),
            RobotAction::RecoveringLocation => "RecoveringLocation".to_owned(),
            RobotAction::IECTest => "IECTest".to_owned(),
            RobotAction::MapCleaning => "MapCleaning".to_owned(),
            RobotAction::ExploringMap => "ExploringMap".to_owned(),
            RobotAction::AcquiringPersisntentMapIDs => "AcquiringPersisntentMapIDs".to_owned(),
            RobotAction::CreatingAndUploadingMap => "CreatingAndUploadingMap".to_owned(),
            RobotAction::SuspendedExploration => "SuspendedExploration".to_owned(),
        }
    }
}

/// What a robot reports of itself.
#[derive(Debug, PartialEq, Eq)]
pub struct NeatoState {
    pub alert: Option<String>,
    pub error: Option<String>,
    pub details: RobotStateDetails,
    pub state: RobotState,
    pub action: RobotAction,
}

/// A robot of the account.
#[derive(Debug, PartialEq, Eq)]
pub struct Robot {
    pub secret_key: String,
    pub serial: String,
    pub nucleo_url: String,
    pub name: String,
    pub mac_address: String,
    pub model: String,
    pub state: Option<NeatoState>,
}

/// What the house is to be cleaned like.
#[derive(Clone, Copy, Debug, PartialEq, Eq, Structural)]
pub struct HouseCleaningParams {
    /// Four for a persistent map.
    pub category: u32,
    /// One is eco, two is turbo.
    pub mode: u32,
    /// One is normal, two is extra care, three is deep.
    pub navigation_mode: u32,
}

/// What a user asks of the robots.
#[derive(Clone, Copy, Debug, PartialEq, Eq, Structural)]
pub enum RobotCmd {
    StartCleaning,
    StopCleaning,
}

/// What a message asks of a robot.
#[derive(Clone, Copy, Debug, PartialEq, Eq, Structural)]
pub enum RobotCommand {
    GetRobotState,
    StartCleaning,
    StopCleaning,
}

/// A message to a robot.
#[derive(Clone, Copy, Debug, PartialEq, Eq, Structural)]
pub struct RobotMessage {
    pub cmd: RobotCommand,
    pub params: Option<HouseCleaningParams>,
}

/// A request to the service, ready to be sent.
#[derive(Debug, PartialEq, Eq)]
pub struct RobotRequest {
    pub url: String,
    pub accept: String,
    pub date: String,
    pub authorization: String,
    pub body: String,
}

/// The message that asks a robot for its state.
pub open spec fn state_message() -> RobotMessage {
    RobotMessage { cmd: RobotCommand::GetRobotState, params: None }
}

/// The message that carries out `cmd`: in rehearsal a request for the
/// state; else the command, for an eco clean with extra care on the
/// persistent map.
pub open spec fn cleaning_message(cmd: RobotCmd, dummy: bool) -> RobotMessage {
    if dummy {
        state_message()
    } else {
        RobotMessage {
            cmd: match cmd {
                RobotCmd::StartCleaning => RobotCommand::StartCleaning,
                RobotCmd::StopCleaning => RobotCommand::StopCleaning,
            },
            params: Some(HouseCleaningParams { category: 4, mode: 1, navigation_mode: 2 }),
        }
    }
}

/// The name of a command as the service knows it.
pub open spec fn command_name(cmd: RobotCommand) -> Seq<char> {
    match cmd {
        RobotCommand::GetRobotState => "getRobotState"@,
        RobotCommand::StartCleaning => "startCleaning"@,
        RobotCommand::StopCleaning => "stopCleaning"@,
    }
}

/// The decimal digit `d`.
pub open spec fn digit(d: int) -> char {
    "0123456789"@[d]
}

/// The number `n` in decimal.
pub open spec fn decimal_text(n: nat) -> Seq<char>
    decreases n,
{
    if n < 10 {
        seq![digit(n as int)]
    } else {
        decimal_text(n / 10) + seq![digit((n % 10) as int)]
    }
}

/// The cleaning parameters as JSON, or `null`.
pub open spec fn params_text(params: Option<HouseCleaningParams>) -> Seq<char> {
    match params {
        None => "null"@,
        Some(p) => "{\"category\":"@ + decimal_text(p.category as nat) + ",\"mode\":"@
            + decimal_text(p.mode as nat) + ",\"navigationMode\":"@ + decimal_text(
            p.navigation_mode as nat,
        ) + "}"@,
    }
}

/// The body of a message: a JSON object with the request id, the command
/// and the parameters.
pub open spec fn body_text(message: RobotMessage) -> Seq<char> {
    "{\"reqId\":\""@ + request_id() + "\",\"cmd\":\""@ + command_name(message.cmd)
        + "\",\"params\":"@ + params_text(message.params) + "}"@
}

/// The lower-case form of a text.
pub uninterp spec fn lowercase_of(text: Seq<char>) -> Seq<char>;

/// The HMAC-SHA256 code of a message under a key.
pub uninterp spec fn hmac_sha256_of(key: Seq<u8>, message: Seq<u8>) -> Seq<u8>;

/// The hexadecimal digit `d`, in lower case.
pub open spec fn hex_digit(d: int) -> char {
    "0123456789abcdef"@[d]
}

/// The bytes in hexadecimal: two lower-case digits for each.
pub open spec fn hex_text(bytes: Seq<u8>) -> Seq<char> {
    Seq::new(
        2 * bytes.len(),
        |i: int|
            if i % 2 == 0 {
                hex_digit(bytes[i / 2] as int / 16)
            } else {
                hex_digit(bytes[i / 2] as int % 16)
            },
    )
}

/// The text a message is signed over: the serial number in lower case, the
/// date and the body, each on a line of its own.
pub open spec fn text_to_sign(serial: Seq<char>, date: Seq<char>, body: Seq<char>) -> Seq<char> {
    lowercase_of(serial) + "\n"@ + date + "\n"@ + body
}

/// Turns a text into lower case.
///
/// Calls `str::to_lowercase` of the standard library; its result is named
/// `lowercase_of`.
#[verifier::external_body]
fn to_lowercase(text: &str) -> (r: String)
    ensures
        r@ == lowercase_of(text@),
{
    text.to_lowercase()
}

/// Computes the HMAC-SHA256 code of `message` under `key`.
///
/// Calls `Hmac::<Sha256>::new_from_slice`, which takes a key of any
/// length, then `Mac::update` and `Mac::finalize` of the `hmac` crate. The
/// code is a function of key and message alone; it is named
/// `hmac_sha256_of`.
#[verifier::external_body]
fn hmac_sha256(key: &[u8], message: &[u8]) -> (code: Vec<u8>)
    ensures
        code@ == hmac_sha256_of(key@, message@),
{
    let mut mac = hmac::Hmac::<sha2::Sha256>::new_from_slice(key).expect(
        "HMAC can take key of any size",
    );
    mac.update(message);
    mac.finalize().into_bytes().to_vec()
}

/// Writes bytes in hexadecimal.
///
/// Calls `hex::encode`, which writes each byte as two lower-case
/// hexadecimal digits, the high one first.
#[verifier::external_body]
fn hex_encode(bytes: &Vec<u8>) -> (r: String)
    ensures
        r@ == hex_text(bytes@),
{
    hex::encode(bytes)
}

/// The form of an HTTP date, in the notation of `chrono`.
pub open spec fn http_date_format() -> Seq<char> {
    "%a, %d %b %Y %H:%M:%S GMT"@
}

/// The present time in the form `format` asks for.
///
/// Calls `chrono::Utc::now` and `chrono::DateTime::format`. Writing the
/// result fails on a form that `chrono` does not know, so only the form of
/// an HTTP date, which it knows, is admitted. Nothing is claimed of the
/// result: it is the time.
#[verifier::external_body]
fn utc_now_formatted(format: &str) -> (date: String)
    requires
        format@ == http_date_format(),
{
    chrono::Utc::now().format(format).to_string()
}

/// The message that asks a robot for its state.
pub fn new_state_message() -> (m: RobotMessage)
    ensures
        m == state_message(),
{
    RobotMessage { cmd: RobotCommand::GetRobotState, params: None }
}

/// The message that carries out `cmd`.
pub fn new_cleaning_message(cmd: &RobotCmd, dummy: bool) -> (m: RobotMessage)
    ensures
        m == cleaning_message(*cmd, dummy),
{
    if dummy {
        new_state_message()
    } else {
        RobotMessage {
            cmd: match cmd {
                RobotCmd::StartCleaning => RobotCommand::StartCleaning,
                RobotCmd::StopCleaning => RobotCommand::StopCleaning,
            },
            params: Some(HouseCleaningParams { category: 4, mode: 1, navigation_mode: 2 }),
        }
    }
}

fn digit_text(d: u32) -> (s: &'static str)
    requires
        d < 10,
    ensures
        s@ == seq![digit(d as int)],
{
    proof {
        reveal_strlit("0123456789");
        reveal_strlit("0");
        reveal_strlit("1");
        reveal_strlit("2");
        reveal_strlit("3");
        reveal_strlit("4");
        reveal_strlit("5");
        reveal_strlit("6");
        reveal_strlit("7");
        reveal_strlit("8");
        reveal_strlit("9");
    }
    let s = if d == 0 {
        "0"
    } else if d == 1 {
        "1"
    } else if d == 2 {
        "2"
    } else if d == 3 {
        "3"
    } else if d == 4 {
        "4"
    } else if d == 5 {
        "5"
    } else if d == 6 {
        "6"
    } else if d == 7 {
        "7"
    } else if d == 8 {
        "8"
    } else {
        "9"
    };
    assert(s@ =~= seq![digit(d as int)]);
    s
}

/// The number `n` in decimal.
pub fn decimal(n: u32) -> (s: String)
    ensures
        s@ == decimal_text(n as nat),
    decreases n,
{
    if n < 10 {
        digit_text(n).to_owned()
    } else {
        let mut s = decimal(n / 10);
        s.append(digit_text(n % 10));
        s
    }
}

impl RobotMessage {
    /// The body of the message.
    pub fn body(&self) -> (s: String)
        ensures
            s@ == body_text(*self),
    {
        let mut s = "{\"reqId\":\"".to_owned();
        s.append("77");
        s.append("\",\"cmd\":\"");
        match self.cmd {
            RobotCommand::GetRobotState => s.append("getRobotState"),
            RobotCommand::StartCleaning => s.append("startCleaning"),
            RobotCommand::StopCleaning => s.append("stopCleaning"),
        }
        s.append("\",\"params\":");
        match self.params {
            None => s.append("null"),
            Some(p) => {
                let ghost before = s@;
                s.append("{\"category\":");
                s.append(decimal(p.category).as_str());
                s.append(",\"mode\":");
                s.append(decimal(p.mode).as_str());
                s.append(",\"navigationMode\":");
                s.append(decimal(p.navigation_mode).as_str());
                s.append("}");
                assert(s@ =~= before + params_text(self.params));
            },
        }
        s.append("}");
        s
    }
}

/// The signature of `text` under the secret key of a robot: its
/// HMAC-SHA256 code in hexadecimal.
pub open spec fn signature_text(secret_key: Seq<char>, text: Seq<char>) -> Seq<char> {
    hex_text(hmac_sha256_of(vstd::utf8::encode_utf8(secret_key), vstd::utf8::encode_utf8(text)))
}

/// Signs `text` under `secret_key`.
pub fn sign(secret_key: &str, text: &str) -> (s: String)
    ensures
        s@ == signature_text(secret_key@, text@),
{
    let code = hmac_sha256(secret_key.as_bytes(), text.as_bytes());
    hex_encode(&code)
}

/// Whether `request` is the request that sends `message` to `robot` under
/// the date it carries: to the robot's address at its service, accepting
/// the version of the protocol, signed over serial number, date and body.
pub open spec fn is_robot_request(request: RobotRequest, robot: Robot, message: RobotMessage) -> bool {
    &&& request.url@ == robot.nucleo_url@ + "/vendors/neato/robots/"@ + robot.serial@
        + "/messages"@
    &&& request.accept@ == "application/vnd.neato.nucleo.v1"@
    &&& request.body@ == body_text(message)
    &&& request.authorization@ == "NEATOAPP "@ + signature_text(
        robot.secret_key@,
        text_to_sign(robot.serial@, request.date@, body_text(message)),
    )
}

/// The request that sends `message` to `robot` under the date `date`.
pub fn robot_request(robot: &Robot, message: &RobotMessage, date: &str) -> (request: RobotRequest)
    ensures
        request.date@ == date@,
        is_robot_request(request, *robot, *message),
{
    let body = message.body();
    let mut text = to_lowercase(robot.serial.as_str());
    text.append("\n");
    text.append(date);
    text.append("\n");
    text.append(body.as_str());
    let signature = sign(robot.secret_key.as_str(), text.as_str());
    let mut url = robot.nucleo_url.clone();
    url.append("/vendors/neato/robots/");
    url.append(robot.serial.as_str());
    url.append("/messages");
    let mut authorization = "NEATOAPP ".to_owned();
    authorization.append(signature.as_str());
    RobotRequest {
        url,
        accept: "application/vnd.neato.nucleo.v1".to_owned(),
        date: date.to_owned(),
        authorization,
        body,
    }
}

/// The request that sends `message` to `robot` now.
pub fn robot_request_now(robot: &Robot, message: &RobotMessage) -> (request: RobotRequest)
    ensures
        is_robot_request(request, *robot, *message),
{
    let date = utc_now_formatted("%a, %d %b %Y %H:%M:%S GMT");
    robot_request(robot, message, date.as_str())
}

/// The address sessions are opened at.
pub fn sessions_url() -> (url: String)
    ensures
        url@ == base_url() + "/sessions"@,
{
    let mut url = "https://beehive.neatocloud.com".to_owned();
    url.append("/sessions");
    url
}

/// The address the robots of the account are listed at.
pub fn robots_url() -> (url: String)
    ensures
        url@ == base_url() + "/users/me/robots"@,
{
    let mut url = "https://beehive.neatocloud.com".to_owned();
    url.append("/users/me/robots");
    url
}

/// The header that shows the token of a session.
pub fn bearer(token: &str) -> (header: String)
    ensures
        header@ == "Bearer "@ + token@,
{
    let mut header = "Bearer ".to_owned();
    header.append(token);
    header
}

/// The robot with what it reported of itself.
pub fn with_state(robot: Robot, state: NeatoState) -> (r: Robot)
    ensures
        r == (Robot { state: Some(state), ..robot }),
{
    let Robot { secret_key, serial, nucleo_url, name, mac_address, model, state: _ } = robot;
    Robot { secret_key, serial, nucleo_url, name, mac_address, model, state: Some(state) }
}

/// The robots, each with what it reported of itself.
pub fn update_robot_states(robots: Vec<Robot>, states: Vec<NeatoState>) -> (r: Vec<Robot>)
    requires
        robots@.len() == states@.len(),
    ensures
        r@.len() == robots@.len(),
        forall|i: int|
            0 <= i < r@.len() ==> (#[trigger] r@[i]) == (Robot {
                state: Some(states@[i]),
                ..robots@[i]
            }),
{
    let ghost robots0 = robots@;
    let ghost states0 = states@;
    let mut robots = robots;
    let mut states = states;
    let mut reversed: Vec<Robot> = Vec::new();
    while robots.len() > 0
        invariant
            robots@.len() == states@.len(),
            robots@ == robots0.take(robots@.len() as int),
            states@ == states0.take(states@.len() as int),
            robots0.len() == states0.len(),
            reversed@.len() + robots@.len() == robots0.len(),
            forall|t: int|
                0 <= t < reversed@.len() ==> (#[trigger] reversed@[t]) == (Robot {
                    state: Some(states0[robots0.len() - 1 - t]),
                    ..robots0[robots0.len() - 1 - t]
                }),
        decreases robots@.len(),
    {
        let ghost n = robots@.len();
        let robot = robots.pop();
        let state = states.pop();
        match (robot, state) {
            (Some(robot), Some(state)) => {
                reversed.push(with_state(robot, state));
            },
            _ => {},
        }
        assert(robots@ =~= robots0.take(n - 1));
        assert(states@ =~= states0.take(n - 1));
    }
    let mut out: Vec<Robot> = Vec::new();
    while reversed.len() > 0
        invariant
            out@.len() + reversed@.len() == robots0.len(),
            robots0.len() == states0.len(),
            forall|t: int|
                0 <= t < reversed@.len() ==> (#[trigger] reversed@[t]) == (Robot {
                    state: Some(states0[robots0.len() - 1 - t]),
                    ..robots0[robots0.len() - 1 - t]
                }),
            forall|t: int|
                0 <= t < out@.len() ==> (#[trigger] out@[t]) == (Robot {
                    state: Some(states0[t]),
                    ..robots0[t]
                }),
        decreases reversed@.len(),
    {
        match reversed.pop() {
            Some(robot) => {
                out.push(robot);
            },
            None => {},
        }
    }
    out
}

} // verus!
