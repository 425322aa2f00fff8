use lambda_cloud::http::{acknowledge, settle, word_refusal, Wording};
use lambda_cloud::key::{execute_api_key_command, read_printed_key};
use lambda_cloud::{
    choose_region, exchange_of, receipt_of, shell_command, Action, ApiErrorDetail,
    ApiErrorResponse, ApiKeySource, ApiRequest, ApiResponse, ClientError, CommandOutcome, EnvEvent,
    EnvStep, Event, Exchange, FailureStatus, Filesystem, FilesystemRegion, HttpStatus, Instance,
    InstanceSpecs, InstanceType, InstanceTypeResponse, InstanceTypes, KeyStep, LambdaClient,
    LambdaError, LaunchEvent, LaunchResponse, LaunchStep, Method, Receipt, Region, StatusClass,
    Step, SuccessStatus, CONNECT_TIMEOUT_SECS, DEFAULT_TIMEOUT_SECS,
};
use serde_json::Value;

const BASE: &str = "https://cloud.lambdalabs.com/api/v1";

fn printed(text: &str) -> CommandOutcome {
    CommandOutcome::Exited {
        success: true,
        stdout: text.as_bytes().to_vec(),
        stderr: Vec::new(),
    }
}

fn client() -> LambdaClient {
    LambdaClient::new("secret".to_string())
}

fn lazy_client() -> LambdaClient {
    LambdaClient::new_lazy(ApiKeySource::Command("print-key".to_string()))
}

fn status(code: u16) -> HttpStatus {
    HttpStatus::new(code).unwrap()
}

fn success(code: u16) -> SuccessStatus {
    match status(code).classify() {
        StatusClass::Success(status) => status,
        StatusClass::Failure(_) => panic!("no success"),
    }
}

fn failure(code: u16) -> FailureStatus {
    match status(code).classify() {
        StatusClass::Success(_) => panic!("no failure"),
        StatusClass::Failure(status) => status,
    }
}

fn reason(text: &str) -> Option<ApiErrorResponse> {
    Some(ApiErrorResponse {
        error: ApiErrorDetail {
            message: text.to_string(),
        },
    })
}

fn answered<T>(data: T) -> Event<Exchange<T, &'static str>> {
    Event::Exchanged(Exchange::Answered(success(200), ApiResponse { data }))
}

fn sent<R>(step: Step<R, &'static str>) -> ApiRequest {
    match step {
        Step::Perform(Action::Send(request)) => request,
        _ => panic!("no request"),
    }
}

fn yielded<R>(step: Step<R, &'static str>) -> R {
    match step {
        Step::Finish(Ok(answer)) => answer,
        _ => panic!("no answer"),
    }
}

fn failed<R>(step: Step<R, &'static str>) -> ClientError<&'static str> {
    match step {
        Step::Finish(Err(error)) => error,
        _ => panic!("no failure"),
    }
}

/// Message and cause.
fn told(error: ClientError<&'static str>) -> (String, Option<&'static str>) {
    let message = error.to_string();
    match error {
        ClientError::Context(_, cause) => (message, Some(cause)),
        _ => (message, None),
    }
}

fn body(request: &ApiRequest) -> Value {
    serde_json::from_str(request.body.as_ref().unwrap()).unwrap()
}

fn gpu(description: &str, price: i32, regions: &[&str]) -> InstanceTypeResponse {
    InstanceTypeResponse {
        instance_type: InstanceType {
            description: description.to_string(),
            price_cents_per_hour: price,
            specs: InstanceSpecs {
                vcpus: 30,
                memory_gib: 200,
                storage_gib: 512,
            },
        },
        regions_with_capacity_available: regions
            .iter()
            .map(|name| Region {
                name: name.to_string(),
                description: "somewhere".to_string(),
            })
            .collect(),
    }
}

fn types() -> InstanceTypes {
    InstanceTypes::from_entries(vec![
        ("gpu_8x".to_string(), gpu("eight", 800, &["us-west-1", "us-east-1"])),
        ("gpu_1x".to_string(), gpu("one", 100, &[])),
    ])
}

// ----- the API key -----

#[test]
fn key_is_the_output_without_white_space_around_it() {
    assert_eq!(execute_api_key_command(printed("  k e y \r\n")).unwrap(), "k e y");
    assert_eq!(read_printed_key(true, "\tkey\n", "").unwrap(), "key");
}

#[test]
fn blank_output_is_no_key() {
    for text in ["", " \n"] {
        assert_eq!(
            execute_api_key_command(printed(text)).unwrap_err().to_string(),
            "Failed to execute API key command: Command returned empty output"
        );
    }
}

#[test]
fn failing_command_tells_what_it_printed() {
    let outcome = CommandOutcome::Exited {
        success: false,
        stdout: b"key".to_vec(),
        stderr: b" no such vault\n".to_vec(),
    };
    assert_eq!(
        execute_api_key_command(outcome).unwrap_err().to_string(),
        "Failed to execute API key command: Command failed: no such vault"
    );
}

#[test]
fn command_that_does_not_start_tells_why() {
    assert_eq!(
        execute_api_key_command(CommandOutcome::NotStarted("not found".to_string()))
            .unwrap_err()
            .to_string(),
        "Failed to execute API key command: Failed to execute command: not found"
    );
}

#[test]
fn output_that_is_not_utf8_is_replaced() {
    let outcome = CommandOutcome::Exited {
        success: true,
        stdout: vec![b'k', 0xff, b'y'],
        stderr: Vec::new(),
    };
    assert_eq!(execute_api_key_command(outcome).unwrap(), "k\u{fffd}y");
}

#[test]
fn one_stream_decides() {
    let garbled = || vec![b'x', 0xff];
    let outcome = CommandOutcome::Exited {
        success: true,
        stdout: " k\u{e9}y\n".as_bytes().to_vec(),
        stderr: garbled(),
    };
    assert_eq!(execute_api_key_command(outcome).unwrap(), "k\u{e9}y");
    let outcome = CommandOutcome::Exited {
        success: false,
        stdout: garbled(),
        stderr: "ferm\u{e9}\n".as_bytes().to_vec(),
    };
    assert_eq!(
        execute_api_key_command(outcome).unwrap_err().to_string(),
        "Failed to execute API key command: Command failed: ferm\u{e9}"
    );
}

#[test]
fn output_in_utf8_is_read_to_the_letter() {
    assert_eq!(
        execute_api_key_command(printed("\u{e9}\u{6771}\u{1f511}\n")).unwrap(),
        "\u{e9}\u{6771}\u{1f511}"
    );
}

#[test]
fn shells_of_the_systems() {
    let unix = shell_command(false, "op read key");
    assert_eq!(unix.program, "sh");
    assert_eq!(unix.args, vec!["-c", "op read key"]);
    let windows = shell_command(true, "op read key");
    assert_eq!(windows.program, "cmd");
    assert_eq!(windows.args, vec!["/C", "op read key"]);
}

#[test]
fn given_key_needs_no_command() {
    let mut client = client();
    assert!(matches!(client.get_api_key(None), KeyStep::Known(key) if key == "secret"));
    assert!(
        matches!(client.get_api_key(Some(printed("other"))), KeyStep::Known(key) if key == "secret")
    );
}

#[test]
fn lazy_client_runs_its_command_once() {
    let mut client = lazy_client();
    assert!(matches!(client.get_api_key(None), KeyStep::Run(line) if line == "print-key"));
    assert!(matches!(client.get_api_key(Some(printed("k\n"))), KeyStep::Known(key) if key == "k"));
    assert!(matches!(client.get_api_key(None), KeyStep::Known(key) if key == "k"));
    assert!(matches!(client.get_api_key(Some(printed("z"))), KeyStep::Known(key) if key == "k"));
}

#[test]
fn failed_command_is_run_again() {
    let mut client = lazy_client();
    assert!(matches!(
        client.get_api_key(Some(printed(""))),
        KeyStep::Failed(LambdaError::ApiKeyCommandFailed(_))
    ));
    assert!(matches!(client.get_api_key(None), KeyStep::Run(line) if line == "print-key"));
}

// ----- setting up -----

fn variables(api_key: Option<&str>, command: Option<&str>) -> EnvEvent {
    EnvEvent::Variables {
        api_key: api_key.map(str::to_string),
        command: command.map(str::to_string),
    }
}

fn set_up(step: EnvStep) -> LambdaClient {
    match step {
        EnvStep::Finish(Ok(client)) => client,
        _ => panic!("no client"),
    }
}

#[test]
fn key_variable_goes_first() {
    for lazy in [false, true] {
        for command in [None, Some("cmd")] {
            let step = LambdaClient::from_env_with_options(lazy, variables(Some("k"), command));
            let mut client = set_up(step);
            assert!(matches!(client.get_api_key(None), KeyStep::Known(key) if key == "k"));
        }
    }
}

#[test]
fn command_is_run_at_once_unless_lazy() {
    for api_key in [None, Some("")] {
        assert!(matches!(
            LambdaClient::from_env(variables(api_key, Some("cmd"))),
            EnvStep::RunCommand(line) if line == "cmd"
        ));
        let step = LambdaClient::from_env_with_options(true, variables(api_key, Some("cmd")));
        let mut client = set_up(step);
        assert!(matches!(client.get_api_key(None), KeyStep::Run(line) if line == "cmd"));
    }
}

#[test]
fn no_variable_no_client() {
    for lazy in [false, true] {
        for api_key in [None, Some("")] {
            for command in [None, Some("")] {
                assert!(matches!(
                    LambdaClient::from_env_with_options(lazy, variables(api_key, command)),
                    EnvStep::Finish(Err(LambdaError::ApiKeyNotSet))
                ));
            }
        }
    }
}

#[test]
fn blank_variable_is_a_value() {
    let mut client = set_up(LambdaClient::from_env(variables(Some(" "), None)));
    assert!(matches!(client.get_api_key(None), KeyStep::Known(key) if key == " "));
}

#[test]
fn eager_client_has_the_key_that_was_printed() {
    let mut eager = set_up(LambdaClient::from_env(EnvEvent::KeyCommand(printed(" k\n"))));
    let mut lazy = lazy_client();
    lazy.get_api_key(Some(printed(" k\n")));
    let one = sent(eager.list_images(Event::Start));
    let two = sent(lazy.list_images(Event::Start));
    assert_eq!(one.authorization, "Bearer k");
    assert_eq!(one.authorization, two.authorization);
    assert_eq!(one.method, two.method);
    assert_eq!(one.url, two.url);
    assert_eq!(one.body, two.body);
    assert!(matches!(
        LambdaClient::from_env(EnvEvent::KeyCommand(printed(""))),
        EnvStep::Finish(Err(LambdaError::ApiKeyCommandFailed(_)))
    ));
}

// ----- requests and answers in general -----

#[test]
fn timeouts() {
    assert_eq!(DEFAULT_TIMEOUT_SECS, 30);
    assert_eq!(CONNECT_TIMEOUT_SECS, 10);
}

#[test]
fn statuses() {
    assert!(HttpStatus::new(99).is_none());
    assert!(HttpStatus::new(1000).is_none());
    assert!(HttpStatus::new(0).is_none());
    for code in 100..=999u16 {
        let status = status(code);
        let known = reqwest::StatusCode::from_u16(code).unwrap();
        assert_eq!(status.is_success(), known.is_success());
        assert_eq!(status.text(), known.to_string());
    }
    assert_eq!(status(404).text(), "404 Not Found");
    assert_eq!(status(799).text(), "799 <unknown status code>");
}

#[test]
fn status_decides_on_a_receipt() {
    let words = Wording {
        sending: "sending",
        refusal: "refusal",
        shows_status: true,
    };
    for code in 100..=999u16 {
        let receipt: Receipt<u32> = receipt_of(status(code), reason("why"));
        assert_eq!(matches!(receipt, Receipt::Accepted(_)), (200..=299).contains(&code));
        match acknowledge(receipt, &words) {
            Ok(()) => assert!((200..=299).contains(&code)),
            Err(error) => {
                assert!(!(200..=299).contains(&code));
                let text = reqwest::StatusCode::from_u16(code).unwrap().to_string();
                assert_eq!(error.to_string(), format!("refusal ({}): why", text));
            }
        }
    }
}

#[test]
fn status_decides_on_an_exchange() {
    let words = Wording {
        sending: "sending",
        refusal: "refusal",
        shows_status: true,
    };
    for code in 100..=999u16 {
        match status(code).classify() {
            StatusClass::Success(status) => {
                assert!((200..=299).contains(&code));
                let end: Exchange<u8, u32> = exchange_of(status, Ok(ApiResponse { data: 5 }));
                assert!(matches!(settle(end, &words, "reading"), Ok(5)));
                let end: Exchange<u8, u32> = exchange_of(status, Err(6));
                assert!(matches!(
                    settle(end, &words, "reading"),
                    Err(ClientError::Context(m, 6)) if m == "reading"
                ));
            }
            StatusClass::Failure(status) => {
                assert!(!(200..=299).contains(&code));
                let end: Exchange<u8, u32> = Exchange::Refused(status, None);
                assert_eq!(
                    settle(end, &words, "reading").unwrap_err().to_string(),
                    format!("refusal ({}): Unknown error", status.text())
                );
            }
        }
    }
    assert_eq!(failure(404).text(), "404 Not Found");
}

#[test]
fn calls_go_by_the_status() {
    let mut client = client();
    for code in [199, 200, 204, 299, 300, 404, 500] {
        let end: Receipt<&'static str> = receipt_of(status(code), None);
        let step = client.delete_filesystem("fs-1", Event::Exchanged(end));
        assert_eq!(matches!(step, Step::Finish(Ok(()))), (200..300).contains(&code));
    }
}

#[test]
fn listing_agrees_with_the_check() {
    let mut client = client();
    for row in yielded(client.list_instance_types(answered(types()))) {
        let regions = yielded(client.check_availability(&row.name, answered(types())));
        assert_eq!(regions, row.regions_available);
    }
}

#[test]
fn refusals_are_worded_with_and_without_status() {
    assert_eq!(word_refusal("Failed to x", None, "why"), "Failed to x: why");
    assert_eq!(
        word_refusal("Failed to x", Some("404 Not Found"), "why"),
        "Failed to x (404 Not Found): why"
    );
}

#[test]
fn exchanges_come_to_their_results() {
    let words = Wording {
        sending: "sending",
        refusal: "refusal",
        shows_status: false,
    };
    let end: Exchange<u8, u32> = Exchange::NotSent(7);
    assert!(matches!(settle(end, &words, "reading"), Err(ClientError::Context(m, 7)) if m == "sending"));
    let end: Exchange<u8, u32> = Exchange::Unreadable(success(200), 8);
    assert!(matches!(settle(end, &words, "reading"), Err(ClientError::Context(m, 8)) if m == "reading"));
    let end: Exchange<u8, u32> = Exchange::Refused(failure(500), None);
    assert!(matches!(
        settle(end, &words, "reading"),
        Err(ClientError::Message(m)) if m == "refusal: Unknown error"
    ));
    let end: Exchange<u8, u32> = Exchange::Answered(success(201), ApiResponse { data: 9 });
    assert!(matches!(settle(end, &words, "reading"), Ok(9)));
}

#[test]
fn lazy_call_runs_the_command_first() {
    let mut client = lazy_client();
    let step: Step<_, &'static str> = client.list_filesystems(Event::Start);
    assert!(matches!(step, Step::Perform(Action::RunCommand(line)) if line == "print-key"));
    let request = sent(client.list_filesystems(Event::KeyCommand(printed("k\n"))));
    assert_eq!(request.authorization, "Bearer k");
    let request = sent(client.list_running_instances(Event::Start));
    assert_eq!(request.authorization, "Bearer k");
}

#[test]
fn lazy_call_ends_where_the_command_fails() {
    let mut client = lazy_client();
    let error = failed(client.list_images(Event::KeyCommand(printed(" "))));
    assert!(matches!(error, ClientError::Lambda(LambdaError::ApiKeyCommandFailed(_))));
}

// ----- the calls -----

#[test]
fn validating_the_key() {
    let mut client = client();
    let request = sent(client.validate_api_key(Event::Start));
    assert_eq!(request.method, Method::Get);
    assert_eq!(request.url, format!("{}/instances", BASE));
    assert_eq!(request.authorization, "Bearer secret");
    assert!(request.body.is_none());

    yielded(client.validate_api_key(Event::Exchanged(Receipt::Accepted(success(200)))));
    let refused = Receipt::Refused(failure(403), reason("bad key"));
    assert_eq!(
        told(failed(client.validate_api_key(Event::Exchanged(refused)))),
        ("API key validation failed (403 Forbidden): bad key".to_string(), None)
    );
    let refused = Receipt::Refused(failure(500), None);
    assert_eq!(
        told(failed(client.validate_api_key(Event::Exchanged(refused)))).0,
        "API key validation failed (500 Internal Server Error): Unknown error"
    );
    assert_eq!(
        told(failed(client.validate_api_key(Event::Exchanged(Receipt::NotSent("down"))))),
        ("Failed to connect to Lambda API".to_string(), Some("down"))
    );
}

/// The words of the three failures of a call.
fn three_failures<T, R>(
    mut call: impl FnMut(Event<Exchange<T, &'static str>>) -> Step<R, &'static str>,
    sending: &str,
    refusal: &str,
    reading: &str,
) {
    assert_eq!(
        told(failed(call(Event::Exchanged(Exchange::NotSent("down"))))),
        (sending.to_string(), Some("down"))
    );
    assert_eq!(
        told(failed(call(Event::Exchanged(Exchange::Refused(failure(404), reason("gone")))))),
        (format!("{}: gone", refusal), None)
    );
    assert_eq!(
        told(failed(call(Event::Exchanged(Exchange::Refused(failure(404), None))))),
        (format!("{}: Unknown error", refusal), None)
    );
    assert_eq!(
        told(failed(call(Event::Exchanged(Exchange::Unreadable(success(200), "garbled"))))),
        (reading.to_string(), Some("garbled"))
    );
}

#[test]
fn listing_instance_types() {
    let mut client = client();
    let request = sent(client.list_instance_types(Event::Start));
    assert_eq!(request.method, Method::Get);
    assert_eq!(request.url, format!("{}/instance-types", BASE));
    assert!(request.body.is_none());
    three_failures(
        |event| client.list_instance_types(event),
        "Failed to fetch instance types",
        "Failed to list instances",
        "Failed to parse instance types response",
    );
    let list = yielded(client.list_instance_types(answered(types())));
    assert_eq!(list.len(), 2);
    assert_eq!(list[0].name, "gpu_1x");
    assert_eq!(list[0].description, "one");
    assert_eq!(list[0].price_cents_per_hour, 100);
    assert!(list[0].regions_available.is_empty());
    assert_eq!(list[1].name, "gpu_8x");
    assert_eq!(list[1].vcpus, 30);
    assert_eq!(list[1].memory_gib, 200);
    assert_eq!(list[1].storage_gib, 512);
    assert_eq!(list[1].regions_available, vec!["us-west-1", "us-east-1"]);
}

#[test]
fn listing_ignores_the_order_of_entries() {
    let entry = |name: &str| (name.to_string(), gpu(name, 1, &[name]));
    let one = InstanceTypes::from_entries(vec![entry("a"), entry("c"), entry("b")]);
    let two = InstanceTypes::from_entries(vec![entry("c"), entry("b"), entry("a")]);
    let rows = one.list();
    let names: Vec<&str> = rows.iter().map(|row| row.name.as_str()).collect();
    assert_eq!(names, vec!["a", "b", "c"]);
    assert_eq!(format!("{:?}", rows), format!("{:?}", two.list()));
}

#[test]
fn last_entry_of_a_name_counts() {
    let entries = || {
        vec![
            ("a".to_string(), gpu("old", 1, &[])),
            ("b".to_string(), gpu("b", 2, &[])),
            ("a".to_string(), gpu("new", 3, &[])),
        ]
    };
    let found = InstanceTypes::from_entries(entries()).take("a").unwrap();
    assert_eq!(found.instance_type.description, "new");
    assert!(InstanceTypes::from_entries(entries()).take("c").is_none());
    assert_eq!(InstanceTypes::from_entries(entries()).list().len(), 2);
}

#[test]
fn listing_images() {
    let mut client = client();
    assert_eq!(sent(client.list_images(Event::Start)).url, format!("{}/images", BASE));
    three_failures(
        |event| client.list_images(event),
        "Failed to fetch images",
        "Failed to list images",
        "Failed to parse images response",
    );
    assert!(yielded(client.list_images(answered(Vec::new()))).is_empty());
}

#[test]
fn looking_an_instance_type_up() {
    let mut client = client();
    assert_eq!(
        sent(client.get_instance_type("gpu_8x", Event::Start)).url,
        format!("{}/instance-types", BASE)
    );
    three_failures(
        |event| client.get_instance_type("gpu_8x", event),
        "Failed to fetch instance types",
        "Failed to get instance types",
        "Failed to parse instance types",
    );
    let found = yielded(client.get_instance_type("gpu_8x", answered(types())));
    assert_eq!(found.unwrap().instance_type.description, "eight");
    assert!(yielded(client.get_instance_type("gpu", answered(types()))).is_none());
}

#[test]
fn checking_availability() {
    let mut client = client();
    assert_eq!(
        sent(client.check_availability("gpu_8x", Event::Start)).url,
        format!("{}/instance-types", BASE)
    );
    three_failures(
        |event| client.check_availability("gpu_8x", event),
        "Failed to fetch instance types",
        "Failed to get instance types",
        "Failed to parse instance types",
    );
    assert_eq!(
        yielded(client.check_availability("gpu_8x", answered(types()))),
        vec!["us-west-1", "us-east-1"]
    );
    assert!(yielded(client.check_availability("gpu_1x", answered(types()))).is_empty());
    let error = failed(client.check_availability("tpu", answered(types())));
    assert!(matches!(
        error,
        ClientError::Lambda(LambdaError::InstanceTypeNotFound(name)) if name == "tpu"
    ));
}

#[test]
fn instances_and_filesystems() {
    let mut client = client();
    assert_eq!(
        sent(client.list_running_instances(Event::Start)).url,
        format!("{}/instances", BASE)
    );
    three_failures(
        |event| client.list_running_instances(event),
        "Failed to fetch running instances",
        "Failed to list running instances",
        "Failed to parse running instances response",
    );
    assert_eq!(
        sent(client.list_filesystems(Event::Start)).url,
        format!("{}/file-systems", BASE)
    );
    three_failures(
        |event| client.list_filesystems(event),
        "Failed to fetch filesystems",
        "Failed to list filesystems",
        "Failed to parse filesystems response",
    );
}

#[test]
fn getting_one_instance() {
    let mut client = client();
    let request = sent(client.get_instance("i-1", Event::Start));
    assert_eq!(request.method, Method::Get);
    assert_eq!(request.url, format!("{}/instances/i-1", BASE));
    let refused = Event::Exchanged(Exchange::Refused(failure(404), reason("gone")));
    assert_eq!(
        told(failed(client.get_instance("i-1", refused))),
        ("Failed to get instance details (404 Not Found): gone".to_string(), None)
    );
    assert_eq!(
        told(failed(client.get_instance("i-1", Event::Exchanged(Exchange::NotSent("down"))))),
        ("Failed to fetch instance details".to_string(), Some("down"))
    );
    assert_eq!(
        told(failed(client.get_instance("i-1", Event::Exchanged(Exchange::Unreadable(success(200), "x"))))),
        ("Failed to parse instance details".to_string(), Some("x"))
    );
    let instance = Instance {
        id: Some("i-1".to_string()),
        name: None,
        status: Some("active".to_string()),
        ip: None,
        ssh_key_names: None,
        instance_type: None,
        region: None,
    };
    let got = yielded(client.get_instance("i-1", answered(instance)));
    assert_eq!(got.id.as_deref(), Some("i-1"));
    assert_eq!(got.status.as_deref(), Some("active"));
}

#[test]
fn terminating_an_instance() {
    let mut client = client();
    let request = sent(client.terminate_instance("i-\"1\"", Event::Start));
    assert_eq!(request.method, Method::Post);
    assert_eq!(request.url, format!("{}/instance-operations/terminate", BASE));
    assert_eq!(request.body.as_deref(), Some("{\"instance_ids\":[\"i-\\\"1\\\"\"]}"));
    yielded(client.terminate_instance("i", Event::Exchanged(Receipt::Accepted(success(200)))));
    let refused = Receipt::Refused(failure(400), reason("no"));
    assert_eq!(
        told(failed(client.terminate_instance("i", Event::Exchanged(refused)))).0,
        "Failed to terminate instance: no"
    );
    let lost = Event::Exchanged(Receipt::NotSent("down"));
    assert_eq!(
        told(failed(client.terminate_instance("i", lost))),
        ("Failed to send terminate request".to_string(), Some("down"))
    );
}

#[test]
fn creating_a_filesystem() {
    let mut client = client();
    let request = sent(client.create_filesystem("data", "us-east-1", Event::Start));
    assert_eq!(request.method, Method::Post);
    assert_eq!(request.url, format!("{}/file-systems", BASE));
    let body = body(&request);
    assert_eq!(body["name"], "data");
    assert_eq!(body["region_name"], "us-east-1");
    assert_eq!(body.as_object().unwrap().len(), 2);
    three_failures(
        |event| client.create_filesystem("data", "us-east-1", event),
        "Failed to create filesystem",
        "Failed to create filesystem",
        "Failed to parse create filesystem response",
    );
    let filesystem = Filesystem {
        id: "fs-1".to_string(),
        name: "data".to_string(),
        mount_point: "/data".to_string(),
        created: "now".to_string(),
        region: FilesystemRegion {
            name: "us-east-1".to_string(),
            description: "Virginia".to_string(),
        },
        is_in_use: false,
        bytes_used: 0,
    };
    let made = yielded(client.create_filesystem("data", "us-east-1", answered(filesystem)));
    assert_eq!(made.id, "fs-1");
}

#[test]
fn deleting_a_filesystem() {
    let mut client = client();
    let request = sent(client.delete_filesystem("fs-1", Event::Start));
    assert_eq!(request.method, Method::Delete);
    assert_eq!(request.url, format!("{}/file-systems/fs-1", BASE));
    assert!(request.body.is_none());
    yielded(client.delete_filesystem("fs-1", Event::Exchanged(Receipt::Accepted(success(200)))));
    let refused = Receipt::Refused(failure(409), reason("in use"));
    assert_eq!(
        told(failed(client.delete_filesystem("fs-1", Event::Exchanged(refused)))).0,
        "Failed to delete filesystem: in use"
    );
    let lost = Event::Exchanged(Receipt::NotSent("down"));
    assert_eq!(
        told(failed(client.delete_filesystem("fs-1", lost))),
        ("Failed to delete filesystem".to_string(), Some("down"))
    );
}

// ----- launching -----

type Choice = Result<String, ClientError<&'static str>>;

#[test]
fn region_of_a_launch() {
    let found = || Some(gpu("g", 1, &["us-west-1", "us-east-1"]));
    let first: Choice = choose_region(found(), "g", None);
    assert_eq!(first.unwrap(), "us-west-1");
    let asked: Choice = choose_region(found(), "g", Some("us-east-1"));
    assert_eq!(asked.unwrap(), "us-east-1");
    let elsewhere: Choice = choose_region(found(), "g", Some("mars"));
    assert_eq!(
        told(elsewhere.unwrap_err()).0,
        "Region 'mars' is not available for instance type 'g'. \
         Available regions: us-west-1, us-east-1"
    );
    let nowhere: Choice = choose_region(Some(gpu("g", 1, &[])), "g", Some("mars"));
    assert_eq!(
        told(nowhere.unwrap_err()).0,
        "Region 'mars' is not available for instance type 'g'. Available regions: "
    );
    let full: Choice = choose_region(Some(gpu("g", 1, &[])), "g", None);
    assert!(matches!(
        full,
        Err(ClientError::Lambda(LambdaError::NoRegionsAvailable(name))) if name == "g"
    ));
    let unknown: Choice = choose_region(None, "g", Some("us-east-1"));
    assert!(matches!(
        unknown,
        Err(ClientError::Lambda(LambdaError::InstanceTypeNotFound(name))) if name == "g"
    ));
}

#[test]
fn regions_of_a_launch_are_those_of_the_check() {
    let mut client = client();
    let listed = yielded(client.check_availability("gpu_8x", answered(types())));
    for region in ["us-west-1", "us-east-1", "mars"] {
        let chosen: Choice = choose_region(types().take("gpu_8x"), "gpu_8x", Some(region));
        assert_eq!(chosen.is_ok(), listed.iter().any(|name| name == region));
    }
}

fn launch_body(step: LaunchStep<&'static str>) -> (String, ApiRequest) {
    match step {
        LaunchStep::Submit(region, Action::Send(request)) => (region, request),
        _ => panic!("no launch"),
    }
}

#[test]
fn launching_from_lookup_to_instance() {
    let mut client = client();
    let step: LaunchStep<&'static str> =
        client.launch_instance("gpu_8x", "my-key", None, None, LaunchEvent::Lookup(Event::Start));
    match step {
        LaunchStep::Lookup(Action::Send(request)) => {
            assert_eq!(request.method, Method::Get);
            assert_eq!(request.url, format!("{}/instance-types", BASE));
        }
        _ => panic!("no lookup"),
    }
    let step = client.launch_instance(
        "gpu_8x",
        "my-key",
        None,
        None,
        LaunchEvent::Lookup(answered(types())),
    );
    let (region, request) = launch_body(step);
    assert_eq!(region, "us-west-1");
    assert_eq!(request.method, Method::Post);
    assert_eq!(request.url, format!("{}/instance-operations/launch", BASE));
    assert_eq!(request.authorization, "Bearer secret");
    let body = body(&request);
    assert_eq!(body["region_name"], "us-west-1");
    assert_eq!(body["instance_type_name"], "gpu_8x");
    assert_eq!(body["ssh_key_names"].as_array().unwrap().len(), 1);
    assert_eq!(body["ssh_key_names"][0], "my-key");
    assert_eq!(body["quantity"], 1);
    assert_eq!(body["image"]["family"], "lambda-stack-24-04");
    assert_eq!(body["image"].as_object().unwrap().len(), 1);
    assert_eq!(body.as_object().unwrap().len(), 5);

    let response = LaunchResponse {
        instance_ids: vec!["i-1".to_string(), "i-2".to_string()],
    };
    let step = client.launch_instance(
        "gpu_8x",
        "my-key",
        None,
        None,
        LaunchEvent::Submit(region, answered(response)),
    );
    match step {
        LaunchStep::Finish(Ok(launch)) => {
            assert_eq!(launch.instance_id, "i-1");
            assert_eq!(launch.region, "us-west-1");
        }
        _ => panic!("no instance"),
    }
}

#[test]
fn launching_with_everything() {
    let mut client = client();
    let step: LaunchStep<&'static str> = client.launch_instance_with_filesystem(
        "gpu_8x",
        "my-key",
        Some("box"),
        Some("us-east-1"),
        Some("data"),
        Some(" ubuntu-24-04 "),
        LaunchEvent::Lookup(answered(types())),
    );
    let (region, request) = launch_body(step);
    assert_eq!(region, "us-east-1");
    assert_eq!(
        request.body.as_deref(),
        Some(
            "{\"file_system_names\":[\"data\"],\"image\":{\"family\":\"ubuntu-24-04\"},\
             \"instance_type_name\":\"gpu_8x\",\"name\":\"box\",\"quantity\":1,\
             \"region_name\":\"us-east-1\",\"ssh_key_names\":[\"my-key\"]}"
        )
    );
}

fn launch_failure(step: LaunchStep<&'static str>) -> ClientError<&'static str> {
    match step {
        LaunchStep::Finish(Err(error)) => error,
        _ => panic!("no failure"),
    }
}

#[test]
fn launches_that_fail() {
    let mut client = client();
    let mut launch = |gpu: &str, region: Option<&str>, event| {
        launch_failure(client.launch_instance(gpu, "my-key", None, region, event))
    };
    assert!(matches!(
        launch("tpu", None, LaunchEvent::Lookup(answered(types()))),
        ClientError::Lambda(LambdaError::InstanceTypeNotFound(_))
    ));
    assert!(matches!(
        launch("gpu_1x", None, LaunchEvent::Lookup(answered(types()))),
        ClientError::Lambda(LambdaError::NoRegionsAvailable(_))
    ));
    assert!(matches!(
        launch("gpu_8x", Some("mars"), LaunchEvent::Lookup(answered(types()))),
        ClientError::Message(_)
    ));
    let lookup = LaunchEvent::Lookup(Event::Exchanged(Exchange::NotSent("down")));
    assert_eq!(
        told(launch("gpu_8x", None, lookup)),
        ("Failed to fetch instance types".to_string(), Some("down"))
    );
    let submit = |end| LaunchEvent::Submit("us-west-1".to_string(), Event::Exchanged(end));
    assert_eq!(
        told(launch("gpu_8x", None, submit(Exchange::NotSent("down")))),
        ("Failed to send launch request".to_string(), Some("down"))
    );
    assert_eq!(
        told(launch("gpu_8x", None, submit(Exchange::Refused(failure(400), reason("quota"))))),
        ("Failed to launch instance: quota".to_string(), None)
    );
    assert_eq!(
        told(launch("gpu_8x", None, submit(Exchange::Unreadable(success(200), "x")))),
        ("Failed to parse launch response".to_string(), Some("x"))
    );
    let empty = ApiResponse {
        data: LaunchResponse {
            instance_ids: Vec::new(),
        },
    };
    assert!(matches!(
        launch("gpu_8x", None, submit(Exchange::Answered(success(200), empty))),
        ClientError::Lambda(LambdaError::NoInstanceIds)
    ));
}

#[test]
fn lazy_launch_asks_for_the_key_once() {
    let mut client = lazy_client();
    let mut launch =
        |event| -> LaunchStep<&'static str> { client.launch_instance("gpu_8x", "k", None, None, event) };
    assert!(matches!(
        launch(LaunchEvent::Lookup(Event::Start)),
        LaunchStep::Lookup(Action::RunCommand(line)) if line == "print-key"
    ));
    assert!(matches!(
        launch(LaunchEvent::Lookup(Event::KeyCommand(printed("key")))),
        LaunchStep::Lookup(Action::Send(request)) if request.authorization == "Bearer key"
    ));
    let (_, request) = launch_body(launch(LaunchEvent::Lookup(answered(types()))));
    assert_eq!(request.authorization, "Bearer key");
}

/// Takes a launch from its start to its end. Counts commands and launch requests, and gives the
/// regions of the requests.
fn whole_launch(
    client: &mut LambdaClient,
    region: Option<&str>,
    ids: &[&str],
) -> (usize, Vec<String>, LaunchStep<&'static str>) {
    let mut commands = 0;
    let mut regions = Vec::new();
    let mut event = LaunchEvent::Lookup(Event::Start);
    for _ in 0..5 {
        event = match client.launch_instance("gpu_8x", "my-key", None, region, event) {
            LaunchStep::Lookup(Action::RunCommand(_)) => {
                commands += 1;
                LaunchEvent::Lookup(Event::KeyCommand(printed("k")))
            }
            LaunchStep::Lookup(Action::Send(_)) => LaunchEvent::Lookup(answered(types())),
            LaunchStep::Submit(name, Action::RunCommand(_)) => {
                commands += 1;
                LaunchEvent::Submit(name, Event::KeyCommand(printed("k")))
            }
            LaunchStep::Submit(name, Action::Send(request)) => {
                assert_eq!(body(&request)["region_name"], name.as_str());
                regions.push(name.clone());
                let instance_ids = ids.iter().map(|id| id.to_string()).collect();
                LaunchEvent::Submit(name, answered(LaunchResponse { instance_ids }))
            }
            finish => return (commands, regions, finish),
        };
    }
    panic!("no end")
}

#[test]
fn whole_launch_is_submitted_once() {
    for region in [None, Some("us-west-1"), Some("us-east-1")] {
        for (mut client, runs) in [(client(), 0), (lazy_client(), 1)] {
            let (commands, regions, end) = whole_launch(&mut client, region, &["i-1"]);
            assert_eq!(commands, runs);
            assert_eq!(regions, vec![region.unwrap_or("us-west-1")]);
            match end {
                LaunchStep::Finish(Ok(launch)) => {
                    assert_eq!(launch.region, regions[0]);
                    assert_eq!(launch.instance_id, "i-1");
                }
                _ => panic!("no instance"),
            }
        }
    }
    let (_, regions, end) = whole_launch(&mut client(), Some("mars"), &["i-1"]);
    assert!(regions.is_empty());
    assert!(matches!(end, LaunchStep::Finish(Err(ClientError::Message(_)))));
}

#[test]
fn whole_call_sends_one_request() {
    for (mut client, runs) in [(client(), 0), (lazy_client(), 1)] {
        let (mut commands, mut requests) = (0, 0);
        let mut event: Event<Receipt<&'static str>> = Event::Start;
        let result = loop {
            event = match client.terminate_instance("i-1", event) {
                Step::Perform(Action::RunCommand(_)) => {
                    commands += 1;
                    Event::KeyCommand(printed("k"))
                }
                Step::Perform(Action::Send(_)) => {
                    requests += 1;
                    Event::Exchanged(receipt_of(status(200), None))
                }
                Step::Finish(result) => break result,
            };
        };
        assert!(result.is_ok());
        assert_eq!((commands, requests), (runs, 1));
    }
}
