use agent_fleet::accounts::{AccountTable, NewAccount};
use agent_fleet::groups::{GroupData, GroupTable};
use agent_fleet::devices::{DeviceHeartbeat, DeviceTable};
use agent_fleet::dialog_watchers::DialogWatcherTable;
use agent_fleet::status::JobStatus;
use agent_fleet::train_jobs::{TrainJobData, TrainJobTable};

fn job(account_id: i64, start_time: Option<u64>, status: Option<JobStatus>) -> TrainJobData {
    TrainJobData {
        id: None,
        group_id: None,
        account_id,
        like_probable: Some(30),
        floow_probable: Some(20),
        collect_probable: Some(10),
        status,
        start_time,
    }
}

fn heartbeat(serial: &str, online: bool, agent_ip: &str) -> DeviceHeartbeat {
    DeviceHeartbeat {
        serial: serial.to_string(),
        forward_port: 7000,
        online,
        ip: Some("10.0.0.9".to_string()),
        agent_ip: agent_ip.to_string(),
        master_ip: "10.0.0.1".to_string(),
    }
}

fn account(device: Option<&str>, username: &str) -> NewAccount {
    NewAccount {
        group_id: Some(4),
        email: format!("{username}@example.com"),
        pwd: "pw".to_string(),
        fans: 0,
        shop_creator: false,
        device: device.map(|d| d.to_string()),
        username: username.to_string(),
    }
}

#[test]
fn saved_job_appears_in_listing_with_defaults() {
    let mut jobs = TrainJobTable::new();
    let accounts = AccountTable::new();
    jobs.save_at(&job(7, Some(1000), None), 5000);
    let listing = jobs.list_all(&accounts);
    assert_eq!(listing.len(), 1);
    let row = &listing[0];
    assert_eq!(row.id, 1);
    assert_eq!(row.group_id, 0);
    assert_eq!(row.account_id, 7);
    assert_eq!(row.like_probable, 30);
    assert_eq!(row.floow_probable, 20);
    assert_eq!(row.collect_probable, 10);
    assert_eq!(row.status, JobStatus::Pending);
    assert_eq!(row.start_time, 1000);
    assert_eq!(row.device, None);
    assert_eq!(row.username, None);
}

#[test]
fn listing_is_newest_first_and_capped_at_200() {
    let mut jobs = TrainJobTable::new();
    let accounts = AccountTable::new();
    for _ in 0..205 {
        jobs.save_at(&job(1, Some(0), None), 10);
    }
    let listing = jobs.list_all(&accounts);
    assert_eq!(listing.len(), 200);
    assert_eq!(listing[0].id, 205);
    assert_eq!(listing[199].id, 6);
}

#[test]
fn listing_joins_account_device_and_username() {
    let mut jobs = TrainJobTable::new();
    let mut accounts = AccountTable::new();
    let account_id = accounts.save(account(Some("serial-a"), "alice"), 100);
    jobs.save_at(&job(account_id, Some(0), None), 10);
    let listing = jobs.list_all(&accounts);
    assert_eq!(listing[0].device.as_deref(), Some("serial-a"));
    assert_eq!(listing[0].username.as_deref(), Some("alice"));
}

#[test]
fn runnable_listing_filters_on_every_condition() {
    let mut jobs = TrainJobTable::new();
    let mut accounts = AccountTable::new();
    let mut devices = DeviceTable::new();
    let now: u64 = 10_000;

    devices.save(heartbeat("dev-online", true, "192.168.1.50"), now);
    devices.save(heartbeat("dev-offline", false, "192.168.1.50"), now);
    devices.save(heartbeat("dev-other-agent", true, "192.168.1.99"), now);

    let a_ok = accounts.save(account(Some("dev-online"), "ok"), now);
    let a_offline = accounts.save(account(Some("dev-offline"), "offline"), now);
    let a_other = accounts.save(account(Some("dev-other-agent"), "other"), now);
    let a_nodevice = accounts.save(account(None, "nodevice"), now);

    // Due, pending, online device under the polling agent: listed.
    jobs.save_at(&job(a_ok, Some(now - 5), None), now);
    // Scheduled in the future: not listed.
    jobs.save_at(&job(a_ok, Some(now + 5), None), now);
    // Not pending: not listed.
    jobs.save_at(&job(a_ok, Some(now - 5), Some(JobStatus::Running)), now);
    // Device offline: not listed.
    jobs.save_at(&job(a_offline, Some(now - 5), None), now);
    // Device managed by another agent: not listed.
    jobs.save_at(&job(a_other, Some(now - 5), None), now);
    // Account without a device: not listed.
    jobs.save_at(&job(a_nodevice, Some(now - 5), None), now);
    // Unknown account: not listed.
    jobs.save_at(&job(999, Some(now - 5), None), now);

    let agent = "192.168.1.50".to_string();
    let listing = jobs.list_runable_at(&agent, &accounts, &devices, now);
    assert_eq!(listing.len(), 1);
    assert_eq!(listing[0].id, 1);
    assert_eq!(listing[0].username.as_deref(), Some("ok"));

    // A schedule time equal to the clock is due.
    let mut jobs_edge = TrainJobTable::new();
    jobs_edge.save_at(&job(a_ok, Some(now), None), now);
    let listing = jobs_edge.list_runable_at(&agent, &accounts, &devices, now);
    assert_eq!(listing.len(), 1);
}

#[test]
fn completing_a_job_stamps_end_time() {
    let mut jobs = TrainJobTable::new();
    jobs.save_at(&job(1, Some(1_000), None), 1_000);
    let patch = TrainJobData {
        id: Some(1),
        status: Some(JobStatus::Completed),
        ..job(1, None, None)
    };
    jobs.update_at(&patch, 2_500);
    let listing = jobs.list_all(&AccountTable::new());
    assert_eq!(listing[0].status, JobStatus::Completed);
    assert_eq!(listing[0].end_time, 2_500);
    assert!(listing[0].end_time >= listing[0].start_time);
}

#[test]
fn non_completed_update_leaves_end_time() {
    let mut jobs = TrainJobTable::new();
    jobs.save_at(&job(1, Some(1_000), None), 1_000);
    let patch = TrainJobData {
        id: Some(1),
        status: Some(JobStatus::Running),
        ..job(1, None, None)
    };
    jobs.update_at(&patch, 2_500);
    let listing = jobs.list_all(&AccountTable::new());
    assert_eq!(listing[0].status, JobStatus::Running);
    assert_eq!(listing[0].end_time, 1_000);
}

#[test]
fn update_without_id_changes_nothing() {
    let mut jobs = TrainJobTable::new();
    jobs.save_at(&job(1, Some(1_000), None), 1_000);
    let patch = TrainJobData {
        id: None,
        status: Some(JobStatus::Completed),
        ..job(1, None, None)
    };
    jobs.update_at(&patch, 2_500);
    let listing = jobs.list_all(&AccountTable::new());
    assert_eq!(listing[0].status, JobStatus::Pending);
    assert_eq!(listing[0].end_time, 1_000);
}

#[test]
fn retry_all_failed_resets_only_failed_rows() {
    let mut jobs = TrainJobTable::new();
    jobs.save_at(&job(1, Some(0), Some(JobStatus::Failed)), 10);
    jobs.save_at(&job(2, Some(0), Some(JobStatus::Completed)), 10);
    jobs.save_at(&job(3, Some(0), Some(JobStatus::Failed)), 10);
    jobs.save_at(&job(4, Some(0), Some(JobStatus::Running)), 10);
    jobs.retry_all_failed();
    let listing = jobs.list_all(&AccountTable::new());
    // Newest first: ids 4, 3, 2, 1.
    assert_eq!(listing[0].status, JobStatus::Running);
    assert_eq!(listing[1].status, JobStatus::Pending);
    assert_eq!(listing[2].status, JobStatus::Completed);
    assert_eq!(listing[3].status, JobStatus::Pending);
    // Nothing else changed.
    assert_eq!(listing[1].account_id, 3);
    assert_eq!(listing[1].like_probable, 30);
}

#[test]
fn delete_all_empties_table_and_resets_ids() {
    let mut jobs = TrainJobTable::new();
    jobs.save_at(&job(1, Some(0), None), 10);
    jobs.save_at(&job(2, Some(0), None), 10);
    jobs.delete_all();
    assert_eq!(jobs.list_all(&AccountTable::new()).len(), 0);
    let id = jobs.save_at(&job(3, Some(0), None), 10);
    assert_eq!(id, 1);
    let listing = jobs.list_all(&AccountTable::new());
    assert_eq!(listing.len(), 1);
    assert_eq!(listing[0].id, 1);
}

#[test]
fn del_removes_only_the_named_row() {
    let mut jobs = TrainJobTable::new();
    jobs.save_at(&job(1, Some(0), None), 10);
    jobs.save_at(&job(2, Some(0), None), 10);
    jobs.save_at(&job(3, Some(0), None), 10);
    jobs.del(2);
    let listing = jobs.list_all(&AccountTable::new());
    assert_eq!(listing.len(), 2);
    assert_eq!(listing[0].id, 3);
    assert_eq!(listing[1].id, 1);
}

#[test]
fn count_by_status_groups_in_code_order() {
    let mut jobs = TrainJobTable::new();
    jobs.save_at(&job(1, Some(0), Some(JobStatus::Failed)), 10);
    jobs.save_at(&job(2, Some(0), None), 10);
    jobs.save_at(&job(3, Some(0), Some(JobStatus::Failed)), 10);
    let counts = jobs.count_by_status();
    assert_eq!(counts.len(), 2);
    assert_eq!((counts[0].status, counts[0].count), (0, 1));
    assert_eq!((counts[1].status, counts[1].count), (3, 2));
}

#[test]
fn count_job_by_account_counts_one_slot_on_one_day() {
    let mut jobs = TrainJobTable::new();
    let day: u64 = 20_000;
    let create = day * 86_400 + 3_600;
    jobs.save_at(&job(5, Some(700), None), create);
    jobs.save_at(&job(5, Some(700), None), create + 60);
    jobs.save_at(&job(5, Some(800), None), create); // other slot
    jobs.save_at(&job(6, Some(700), None), create); // other account
    jobs.save_at(&job(5, Some(700), None), create + 86_400); // other day
    assert_eq!(jobs.count_job_by_account_on_day(5, 700, day), 2);
}

#[test]
fn device_save_upserts_by_serial() {
    let mut devices = DeviceTable::new();
    devices.save(heartbeat("s1", false, "192.168.1.50"), 100);
    devices.save(heartbeat("s2", true, "192.168.1.50"), 100);
    let serial = "s1".to_string();
    devices.update_init(&serial, 2);
    // A later heartbeat for s1 refreshes in place: same id, init kept.
    devices.save(heartbeat("s1", true, "192.168.1.60"), 200);
    let all = devices.list_online_device(None, None);
    assert_eq!(all.len(), 2);
    let s1 = all.iter().find(|d| d.serial == "s1").unwrap();
    assert_eq!(s1.id, 1);
    assert_eq!(s1.init, 2);
    assert_eq!(s1.agent_ip, "192.168.1.60");
    assert_eq!(s1.update_time, 200);
}

#[test]
fn list_online_device_applies_filters() {
    let mut devices = DeviceTable::new();
    devices.save(heartbeat("s1", true, "192.168.1.50"), 100);
    devices.save(heartbeat("s2", true, "192.168.1.60"), 100);
    devices.save(heartbeat("s3", false, "192.168.1.50"), 100);
    let agent = "192.168.1.50".to_string();
    let by_agent = devices.list_online_device(None, Some(&agent));
    assert_eq!(by_agent.len(), 1);
    assert_eq!(by_agent[0].serial, "s1");
    let serial = "s3".to_string();
    let by_serial = devices.list_online_device(Some(&serial), None);
    assert_eq!(by_serial.len(), 0); // offline
}

#[test]
fn dialog_watcher_seeding_is_idempotent() {
    let mut watchers = DialogWatcherTable::new();
    watchers.seed_default(50);
    watchers.seed_default(60);
    let all = watchers.list_all();
    assert_eq!(all.len(), 1);
    assert_eq!(all[0].name, "init1");
    assert_eq!(all[0].conditions, "DENY,ALLOW");
    assert_eq!(all[0].action, "click");
    assert_eq!(all[0].status, 1);
}

fn group(name: &str, auto_train: Option<bool>) -> GroupData {
    GroupData {
        id: None,
        name: name.to_string(),
        title: None,
        tags: None,
        auto_publish: None,
        publish_start_time: None,
        auto_train,
        publish_type: None,
        product_link: None,
        train_start_time: None,
    }
}

#[test]
fn group_save_applies_schedule_defaults() {
    let mut groups = GroupTable::new();
    let id = groups.save(group("g1", None));
    assert_eq!(id, 1);
    let all = groups.list_all();
    assert_eq!(all.len(), 1);
    assert_eq!(all[0].name, "g1");
    assert!(all[0].auto_publish);
    assert!(all[0].auto_train);
    assert_eq!(all[0].publish_type, 1);
    assert_eq!(all[0].publish_start_time, "02:10");
    assert_eq!(all[0].train_start_time, "20:10,20:30,21:10,21:30");
    groups.del(1);
    assert_eq!(groups.list_all().len(), 0);
}

#[test]
fn accounts_by_device_and_auto_train() {
    let mut groups = GroupTable::new();
    let g_auto = groups.save(group("auto", Some(true)));
    let g_manual = groups.save(group("manual", Some(false)));

    let mut devices = DeviceTable::new();
    devices.save(heartbeat("dev-on", true, "192.168.1.50"), 10);
    devices.save(heartbeat("dev-off", false, "192.168.1.50"), 10);

    let mut accounts = AccountTable::new();
    let mut on_auto = account(Some("dev-on"), "a1");
    on_auto.group_id = Some(g_auto);
    accounts.save(on_auto, 10);
    let mut on_manual = account(Some("dev-on"), "a2");
    on_manual.group_id = Some(g_manual);
    accounts.save(on_manual, 10);
    let mut off_auto = account(Some("dev-off"), "a3");
    off_auto.group_id = Some(g_auto);
    accounts.save(off_auto, 10);

    let device = "dev-on".to_string();
    let by_device = accounts.list_account_by_device(&device);
    assert_eq!(by_device.len(), 2);
    assert_eq!(by_device[0].username, "a1");
    assert_eq!(by_device[1].username, "a2");

    let agent = "192.168.1.50".to_string();
    let auto = accounts.list_auto_train_account_by_agent_ip(&agent, &groups, &devices);
    assert_eq!(auto.len(), 1);
    assert_eq!(auto[0].username, "a1");
}

#[test]
fn status_codes_round_trip() {
    for (code, status) in [
        (0, JobStatus::Pending),
        (1, JobStatus::Running),
        (2, JobStatus::Completed),
        (3, JobStatus::Failed),
    ] {
        assert_eq!(status.code(), code);
        assert_eq!(JobStatus::from_code(code), Some(status));
    }
    assert_eq!(JobStatus::from_code(4), None);
    assert_eq!(JobStatus::from_code(-1), None);
}
