use agent_fleet::accounts::AccountTable;
use agent_fleet::api::{
    delete_material_api, delete_train_job_api, get_account_by_device_api, get_device_init_api,
    get_material_api, get_material_count_api, get_param, parse_i32, parse_i32_or_zero,
    require_param, runable_train_job_api, update_train_job_api, ApiError,
};
use agent_fleet::devices::DeviceTable;
use agent_fleet::fanout::{count_successes, task_status_response, AgentOutcome};
use agent_fleet::materials::{material_from_bytes, MaterialTable};
use agent_fleet::publish_jobs::{create_publish_job_at, PublishJobData, PublishJobTable};
use agent_fleet::settings::{get_settings, set_settings, Settings, SettingsMap};
use agent_fleet::status::JobStatus;
use agent_fleet::train_jobs::{TrainJobData, TrainJobTable};

fn query(pairs: &[(&str, &str)]) -> Vec<(String, String)> {
    pairs.iter().map(|(k, v)| (k.to_string(), v.to_string())).collect()
}

fn train_job(account_id: i64) -> TrainJobData {
    TrainJobData {
        id: None,
        group_id: None,
        account_id,
        like_probable: None,
        floow_probable: None,
        collect_probable: None,
        status: None,
        start_time: Some(0),
    }
}

#[test]
fn missing_id_is_a_bad_request() {
    let mut jobs = TrainJobTable::new();
    let r = delete_train_job_api(&mut jobs, &query(&[("other", "1")]));
    match r {
        Err(ApiError::MissingParam(k)) => assert_eq!(k, "id"),
        _ => panic!("expected a missing-parameter error"),
    }
}

#[test]
fn malformed_id_is_a_bad_request() {
    let mut jobs = TrainJobTable::new();
    jobs.save_at(&train_job(1), 10);
    for bad in ["abc", "", "12x", "4294967296999999999999", "--3", "1.5"] {
        let r = delete_train_job_api(&mut jobs, &query(&[("id", bad)]));
        match r {
            Err(ApiError::InvalidParam(k)) => assert_eq!(k, "id"),
            _ => panic!("expected an invalid-parameter error for {bad:?}"),
        }
    }
    // The table was never touched.
    assert_eq!(jobs.list_all(&AccountTable::new()).len(), 1);
}

#[test]
fn valid_id_deletes_the_row() {
    let mut jobs = TrainJobTable::new();
    jobs.save_at(&train_job(1), 10);
    jobs.save_at(&train_job(2), 10);
    let r = delete_train_job_api(&mut jobs, &query(&[("id", "1")]));
    assert!(r.is_ok());
    let listing = jobs.list_all(&AccountTable::new());
    assert_eq!(listing.len(), 1);
    assert_eq!(listing[0].id, 2);
    // A well-formed id that names no row is accepted and removes nothing.
    let r = delete_train_job_api(&mut jobs, &query(&[("id", "-3")]));
    assert!(r.is_ok());
    assert_eq!(jobs.list_all(&AccountTable::new()).len(), 1);
}

#[test]
fn missing_agent_ip_is_a_bad_request() {
    let jobs = TrainJobTable::new();
    let r = runable_train_job_api(&jobs, &AccountTable::new(), &DeviceTable::new(), &query(&[]));
    match r {
        Err(ApiError::MissingParam(k)) => assert_eq!(k, "agent_ip"),
        _ => panic!("expected a missing-parameter error"),
    }
}

#[test]
fn update_without_status_is_a_bad_request() {
    let mut jobs = TrainJobTable::new();
    jobs.save_at(&train_job(1), 10);
    let patch = TrainJobData { id: Some(1), status: None, ..train_job(1) };
    match update_train_job_api(&mut jobs, &patch) {
        Err(ApiError::InvalidParam(k)) => assert_eq!(k, "status"),
        _ => panic!("expected an invalid-parameter error"),
    }
    let patch = TrainJobData { id: Some(1), status: Some(JobStatus::Completed), ..train_job(1) };
    assert!(update_train_job_api(&mut jobs, &patch).is_ok());
    let listing = jobs.list_all(&AccountTable::new());
    assert_eq!(listing[0].status, JobStatus::Completed);
}

#[test]
fn get_param_finds_the_first_pair() {
    let q = query(&[("a", "1"), ("b", "2"), ("a", "3")]);
    assert_eq!(get_param(&q, &"a".to_string()), Some("1".to_string()));
    assert_eq!(get_param(&q, &"c".to_string()), None);
    assert!(require_param(&q, &"b".to_string()).is_ok());
}

#[test]
fn parse_i32_matches_the_standard_parse() {
    for s in [
        "0", "1", "-1", "+7", "2147483647", "-2147483648", "2147483648", "-2147483649", "",
        "+", "-", "abc", "1 ", " 1", "0x10", "007", "-0",
    ] {
        assert_eq!(parse_i32(s), s.parse::<i32>().ok(), "on {s:?}");
    }
}

#[test]
fn material_endpoints_validate_and_filter() {
    let mut materials = MaterialTable::new();
    let a = material_from_bytes(1, "material/a".to_string(), &b"a".to_vec());
    let b = material_from_bytes(2, "material/b".to_string(), &b"b".to_vec());
    materials.save(vec![a, b], 10);

    // Missing id on delete is a bad request; a malformed id reads as zero
    // and removes nothing.
    match delete_material_api(&mut materials, &query(&[])) {
        Err(ApiError::MissingParam(k)) => assert_eq!(k, "id"),
        _ => panic!("expected a missing-parameter error"),
    }
    assert!(delete_material_api(&mut materials, &query(&[("id", "junk")])).is_ok());
    assert_eq!(get_material_count_api(&materials, &query(&[])), 2);

    // The optional filters, a malformed one reading as zero.
    assert_eq!(get_material_api(&materials, &query(&[("group_id", "2")])).len(), 1);
    assert_eq!(get_material_count_api(&materials, &query(&[("used", "zzz")])), 2);

    assert!(delete_material_api(&mut materials, &query(&[("id", "1")])).is_ok());
    let left = get_material_api(&materials, &query(&[]));
    assert_eq!(left.len(), 1);
    assert_eq!(left[0].name, "material/b");
}

#[test]
fn device_init_endpoint_validates_and_updates() {
    let mut devices = DeviceTable::new();
    devices.save(
        agent_fleet::devices::DeviceHeartbeat {
            serial: "s1".to_string(),
            forward_port: 1,
            online: true,
            ip: None,
            agent_ip: "192.168.1.50".to_string(),
            master_ip: "192.168.1.1".to_string(),
        },
        5,
    );
    match get_device_init_api(&mut devices, &query(&[("init", "1")])) {
        Err(ApiError::MissingParam(k)) => assert_eq!(k, "serial"),
        _ => panic!("expected a missing-parameter error"),
    }
    match get_device_init_api(&mut devices, &query(&[("serial", "s1")])) {
        Err(ApiError::MissingParam(k)) => assert_eq!(k, "init"),
        _ => panic!("expected a missing-parameter error"),
    }
    match get_device_init_api(&mut devices, &query(&[("serial", "s1"), ("init", "one")])) {
        Err(ApiError::InvalidParam(k)) => assert_eq!(k, "init"),
        _ => panic!("expected an invalid-parameter error"),
    }
    assert!(get_device_init_api(&mut devices, &query(&[("serial", "s1"), ("init", "2")])).is_ok());
    let all = devices.list_online_device(None, None);
    assert_eq!(all[0].init, 2);
}

#[test]
fn account_by_device_endpoint_requires_device() {
    let accounts = AccountTable::new();
    match get_account_by_device_api(&accounts, &query(&[])) {
        Err(ApiError::MissingParam(k)) => assert_eq!(k, "device"),
        _ => panic!("expected a missing-parameter error"),
    }
    assert!(get_account_by_device_api(&accounts, &query(&[("device", "s1")])).is_ok());
}

#[test]
fn parse_or_zero_matches_unwrap_or_zero() {
    for s in ["5", "-5", "junk", "", "99999999999999999999"] {
        assert_eq!(parse_i32_or_zero(s), s.parse::<i32>().unwrap_or(0), "on {s:?}");
    }
}

#[test]
fn material_hash_is_the_md5_hex_digest() {
    let bytes: Vec<u8> = b"abc".to_vec();
    let data = material_from_bytes(3, "material/x.mp4".to_string(), &bytes);
    assert_eq!(data.md5, "900150983cd24fb0d6963f7d28e17f72");
    assert_eq!(data.md5, format!("{:x}", md5::compute(b"abc")));
    assert_eq!(data.group_id, 3);
    assert_eq!(data.name, "material/x.mp4");
}

#[test]
fn creating_a_publish_job_marks_the_material_used() {
    let mut materials = MaterialTable::new();
    let bytes: Vec<u8> = b"abc".to_vec();
    let data = material_from_bytes(0, "material/x.mp4".to_string(), &bytes);
    materials.save(vec![data], 100);
    assert_eq!(materials.count(Some(0), None), 1);

    let mut jobs = PublishJobTable::new();
    let payload = PublishJobData {
        id: None,
        group_id: None,
        material: Some("material/x.mp4".to_string()),
        account: Some("alice".to_string()),
        title: None,
        tags: None,
        status: None,
        start_time: Some(200),
        publish_type: None,
        product_link: None,
    };
    let id = create_publish_job_at(&mut jobs, &mut materials, payload, 300);
    assert_eq!(id, 1);
    let used = materials.list(Some(1), None);
    assert_eq!(used.len(), 1);
    assert_eq!(used[0].used, 1);
    assert_eq!(used[0].md5, "900150983cd24fb0d6963f7d28e17f72");
    assert_eq!(materials.count(Some(0), None), 0);
}

#[test]
fn publish_job_update_sets_status_without_stamping() {
    let mut jobs = PublishJobTable::new();
    let payload = PublishJobData {
        id: None,
        group_id: Some(2),
        material: Some("material/m".to_string()),
        account: Some("alice".to_string()),
        title: Some("t".to_string()),
        tags: None,
        status: None,
        start_time: Some(500),
        publish_type: None,
        product_link: None,
    };
    let id = jobs.save_at(payload, 700);
    assert_eq!(id, 1);
    jobs.update(1, JobStatus::Completed);
    let listing = jobs.list_all();
    assert_eq!(listing.len(), 1);
    assert_eq!(listing[0].status, JobStatus::Completed);
    assert_eq!(listing[0].end_time, 700);
    assert_eq!(listing[0].publish_type, 1);
    assert_eq!(listing[0].group_id, 2);
    jobs.del(1);
    assert_eq!(jobs.list_all().len(), 0);
}

#[test]
fn material_listing_filters_by_used_and_group() {
    let mut materials = MaterialTable::new();
    let a = material_from_bytes(1, "material/a".to_string(), &b"a".to_vec());
    let b = material_from_bytes(2, "material/b".to_string(), &b"b".to_vec());
    materials.save(vec![a, b], 10);
    materials.update(&"material/b".to_string(), 1);
    assert_eq!(materials.list(None, None).len(), 2);
    assert_eq!(materials.list(Some(1), None)[0].name, "material/b");
    assert_eq!(materials.list(None, Some(1))[0].name, "material/a");
    assert_eq!(materials.list(Some(1), Some(1)).len(), 0);
    materials.del(1);
    assert_eq!(materials.list(None, None).len(), 1);
}

#[test]
fn task_status_returns_first_success_past_failures() {
    let outcomes = vec![
        AgentOutcome::Failure("deviceA unreachable".to_string()),
        AgentOutcome::Success("deviceB result".to_string()),
        AgentOutcome::Success("deviceC result".to_string()),
    ];
    let r = task_status_response(&outcomes);
    assert_eq!(r.data, "deviceB result");
}

#[test]
fn fan_out_summary_counts_successes_and_failures() {
    let outcomes = vec![
        AgentOutcome::Failure("a".to_string()),
        AgentOutcome::Success("b".to_string()),
        AgentOutcome::Failure("c".to_string()),
    ];
    assert_eq!(count_successes(&outcomes), (1, 2));
    assert_eq!(count_successes(&Vec::new()), (0, 0));
}

#[test]
fn task_status_reports_error_when_every_device_fails() {
    let outcomes = vec![
        AgentOutcome::Failure("a".to_string()),
        AgentOutcome::Failure("b".to_string()),
    ];
    assert_eq!(task_status_response(&outcomes).data, "error");
    assert_eq!(task_status_response(&Vec::new()).data, "error");
}

#[test]
fn settings_load_defaults_and_partial_update() {
    let mut store = SettingsMap::new();
    let fresh = get_settings(&store);
    assert_eq!(fresh.proxy_url.as_deref(), Some(""));
    assert_eq!(fresh.adb_mode.as_deref(), Some("usb"));

    set_settings(
        &mut store,
        Settings {
            proxy_url: Some("http://proxy:8080".to_string()),
            server_url: None,
            timezone: Some("UTC".to_string()),
            wifi_name: None,
            wifi_password: None,
            version: None,
            adb_mode: None,
            license: None,
        },
    );
    // A second update that omits the proxy leaves it in place.
    set_settings(
        &mut store,
        Settings {
            proxy_url: None,
            server_url: Some("http://server".to_string()),
            timezone: None,
            wifi_name: None,
            wifi_password: None,
            version: None,
            adb_mode: Some("wifi".to_string()),
            license: None,
        },
    );
    let loaded = get_settings(&store);
    assert_eq!(loaded.proxy_url.as_deref(), Some("http://proxy:8080"));
    assert_eq!(loaded.server_url.as_deref(), Some("http://server"));
    assert_eq!(loaded.timezone.as_deref(), Some("UTC"));
    assert_eq!(loaded.wifi_name.as_deref(), Some(""));
    assert_eq!(loaded.adb_mode.as_deref(), Some("wifi"));
}
