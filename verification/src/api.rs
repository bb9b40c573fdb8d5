//! Request-parameter validation: what each endpoint checks before it
//! touches a store. A missing required parameter and a malformed number
//! are the bad-request cases; they never reach the stores.

use vstd::prelude::*;
use vstd::string::StrSliceExecFns;

use crate::train_jobs::{
    keeps_other_rows, runable_spec, TrainJobData, TrainJobDetails, TrainJobTable,
};
use crate::accounts::{auto_train_fn, owned_by_device_fn, Account, AccountTable};
use crate::devices::{Device, DeviceTable};
use crate::dialog_watchers::{keeps_other_watchers, DialogWatcherTable};
use crate::groups::{keeps_other_groups, GroupTable};
use crate::materials::{keeps_other_materials, material_selected_by, Material, MaterialTable};
use crate::publish_jobs::{keeps_other_publish_jobs, PublishJobTable};

verus! {

/// A bad request: a required parameter is missing, or a parameter's value
/// cannot be read as what the endpoint needs. The carried string names the
/// parameter.
pub enum ApiError {
    MissingParam(String),
    InvalidParam(String),
}

/// The value of the first query pair carrying the given key, if any.
pub open spec fn param_value(query: Seq<(String, String)>, key: Seq<char>) -> Option<String>
    decreases query.len(),
{
    if query.len() == 0 {
        None
    } else if query[0].0@ == key {
        Some(query[0].1)
    } else {
        param_value(query.drop_first(), key)
    }
}

/// Looks a parameter up by key.
pub fn get_param(query: &Vec<(String, String)>, key: &String) -> (r: Option<String>)
    ensures
        r == param_value(query@, key@),
{
    let n = query.len();
    let mut i: usize = 0;
    proof {
        assert(query@.skip(0) =~= query@);
    }
    while i < n
        invariant
            n == query@.len(),
            i <= n,
            param_value(query@, key@) == param_value(query@.skip(i as int), key@),
        decreases n - i,
    {
        proof {
            assert(query@.skip(i as int).drop_first() =~= query@.skip(i as int + 1));
        }
        if query[i].0 == *key {
            return Some(query[i].1.clone());
        }
        i += 1;
    }
    proof {
        assert(query@.skip(n as int) =~= Seq::<(String, String)>::empty());
    }
    None
}

/// Requires a parameter: absent means a bad request naming the parameter.
pub fn require_param(query: &Vec<(String, String)>, key: &String) -> (r: Result<String, ApiError>)
    ensures
        match r {
            Ok(v) => param_value(query@, key@) == Some(v),
            Err(e) => param_value(query@, key@) is None && e == ApiError::MissingParam(*key),
        },
{
    match get_param(query, key) {
        Some(v) => Ok(v),
        None => Err(ApiError::MissingParam(key.clone())),
    }
}

/// Whether a character is a decimal digit.
pub open spec fn is_digit(c: char) -> bool {
    48 <= c as u32 <= 57
}

pub open spec fn digit_value(c: char) -> int {
    c as u32 - 48
}

pub open spec fn all_digits(s: Seq<char>) -> bool {
    forall|i: int| 0 <= i < s.len() ==> is_digit(#[trigger] s[i])
}

/// The number a digit string denotes.
pub open spec fn digits_value(s: Seq<char>) -> int
    decreases s.len(),
{
    if s.len() == 0 {
        0
    } else {
        digits_value(s.drop_last()) * 10 + digit_value(s.last())
    }
}

/// The digits of a decimal string, the sign stripped.
pub open spec fn abs_part(s: Seq<char>) -> Seq<char> {
    if s.len() > 0 && (s[0] == '+' || s[0] == '-') {
        s.drop_first()
    } else {
        s
    }
}

pub open spec fn is_negative(s: Seq<char>) -> bool {
    s.len() > 0 && s[0] == '-'
}

/// The signed number a decimal string denotes.
pub open spec fn int_value(s: Seq<char>) -> int {
    if is_negative(s) {
        -digits_value(abs_part(s))
    } else {
        digits_value(abs_part(s))
    }
}

/// What a 32-bit parse accepts: an optional sign, at least one digit,
/// nothing else, and a value in range.
pub open spec fn is_i32_string(s: Seq<char>) -> bool {
    &&& abs_part(s).len() > 0
    &&& all_digits(abs_part(s))
    &&& -2147483648 <= int_value(s) <= 2147483647
}

/// A digit string denotes a non-negative number.
proof fn lemma_digits_nonneg(s: Seq<char>)
    requires
        all_digits(s),
    ensures
        digits_value(s) >= 0,
    decreases s.len(),
{
    if s.len() > 0 {
        assert(all_digits(s.drop_last()));
        lemma_digits_nonneg(s.drop_last());
    }
}

/// Reading more digits never shrinks the number.
proof fn lemma_digits_prefix_le(s: Seq<char>, k: int)
    requires
        all_digits(s),
        0 <= k <= s.len(),
    ensures
        digits_value(s.take(k)) <= digits_value(s),
    decreases s.len(),
{
    lemma_digits_nonneg(s);
    if k == s.len() {
        assert(s.take(k) =~= s);
    } else {
        let prefix = s.drop_last();
        assert(all_digits(prefix));
        assert(s.take(k) =~= prefix.take(k));
        lemma_digits_prefix_le(prefix, k);
        lemma_digits_nonneg(prefix);
    }
}

/// Reads a decimal string exactly as a 32-bit parse does: `None` on
/// anything but an optionally signed digit string whose value fits.
pub fn parse_i32(s: &str) -> (r: Option<i32>)
    ensures
        match r {
            Some(v) => is_i32_string(s@) && v as int == int_value(s@),
            None => !is_i32_string(s@),
        },
{
    let n = s.unicode_len();
    if n == 0 {
        return None;
    }
    let first = s.get_char(0);
    let neg = first as u32 == 45;
    let signed = neg || first as u32 == 43;
    let start: usize = if signed {
        1
    } else {
        0
    };
    let ghost abs = abs_part(s@);
    proof {
        assert(abs =~= s@.skip(start as int));
    }
    if n == start {
        return None;
    }
    let mut i: usize = start;
    let mut acc: i64 = 0;
    proof {
        assert(abs.take(0) =~= Seq::<char>::empty());
    }
    while i < n
        invariant
            n == s@.len(),
            abs == abs_part(s@),
            abs =~= s@.skip(start as int),
            start <= i <= n,
            start <= 1,
            acc == digits_value(abs.take(i - start)),
            all_digits(abs.take(i - start)),
            0 <= acc <= 2147483648,
        decreases n - i,
    {
        let c = s.get_char(i);
        let cu = c as u32;
        if cu < 48 || cu > 57 {
            proof {
                assert(abs[i - start] == s@[i as int]);
                assert(!is_digit(abs[i - start]));
            }
            return None;
        }
        proof {
            let j = i - start;
            assert(abs[j] == s@[i as int]);
            assert(abs.take(j + 1).drop_last() =~= abs.take(j));
            assert(abs.take(j + 1).last() == abs[j]);
            assert(forall|k: int|
                0 <= k < j + 1 ==> is_digit(#[trigger] abs.take(j + 1)[k]));
        }
        acc = acc * 10 + ((cu - 48) as i64);
        if acc > 2147483648 {
            proof {
                if all_digits(abs) {
                    lemma_digits_prefix_le(abs, i + 1 - start);
                }
            }
            return None;
        }
        i += 1;
    }
    proof {
        assert(abs.take(n - start) =~= abs);
    }
    if neg {
        Some((-acc) as i32)
    } else {
        if acc > 2147483647 {
            return None;
        }
        Some(acc as i32)
    }
}

/// The delete endpoint for train jobs: `id` must be present and numeric;
/// then the named row is removed and every other row kept.
pub fn delete_train_job_api(table: &mut TrainJobTable, query: &Vec<(String, String)>) -> (r:
    Result<(), ApiError>)
    requires
        old(table).wf(),
    ensures
        final(table).wf(),
        match r {
            Ok(_) => match param_value(query@, "id"@) {
                Some(v) => is_i32_string(v@) && final(table).rows() == old(table).rows().filter(
                    keeps_other_rows(int_value(v@) as i64),
                ),
                None => false,
            },
            Err(e) => *final(table) == *old(table) && match e {
                ApiError::MissingParam(k) => k@ == "id"@ && param_value(query@, "id"@) is None,
                ApiError::InvalidParam(k) => k@ == "id"@ && match param_value(query@, "id"@) {
                    Some(v) => !is_i32_string(v@),
                    None => false,
                },
            },
        },
{
    let key: String = "id".to_owned();
    let v = match require_param(query, &key) {
        Ok(v) => v,
        Err(e) => {
            return Err(e);
        },
    };
    let id = match parse_i32(v.as_str()) {
        Some(id) => id,
        None => {
            return Err(ApiError::InvalidParam(key));
        },
    };
    table.del(id as i64);
    Ok(())
}

/// The runnable listing endpoint for train jobs: `agent_ip` must be
/// present; then the store is asked for that agent's due work.
pub fn runable_train_job_api(
    table: &TrainJobTable,
    accounts: &AccountTable,
    devices: &DeviceTable,
    query: &Vec<(String, String)>,
) -> (r: Result<Vec<TrainJobDetails>, ApiError>)
    ensures
        match r {
            Ok(listing) => match param_value(query@, "agent_ip"@) {
                Some(v) => exists|now: u64|
                    listing@ == #[trigger] runable_spec(
                        table.rows(),
                        accounts.rows(),
                        devices.rows(),
                        v@,
                        now,
                    ),
                None => false,
            },
            Err(e) => param_value(query@, "agent_ip"@) is None && match e {
                ApiError::MissingParam(k) => k@ == "agent_ip"@,
                _ => false,
            },
        },
{
    let key: String = "agent_ip".to_owned();
    let agent_ip = match require_param(query, &key) {
        Ok(v) => v,
        Err(e) => {
            return Err(e);
        },
    };
    let out = table.list_runable(&agent_ip, accounts, devices);
    proof {
        let now = choose|now: u64|
            out@ == #[trigger] runable_spec(
                table.rows(),
                accounts.rows(),
                devices.rows(),
                agent_ip@,
                now,
            );
        assert(out@ == runable_spec(
            table.rows(),
            accounts.rows(),
            devices.rows(),
            (param_value(query@, "agent_ip"@)->0)@,
            now,
        ));
    }
    Ok(out)
}

/// The status-update endpoint for train jobs: the payload must name a row
/// and carry a status; then the store applies it.
pub fn update_train_job_api(table: &mut TrainJobTable, data: &TrainJobData) -> (r: Result<
    (),
    ApiError,
>)
    requires
        old(table).wf(),
    ensures
        final(table).wf(),
        match r {
            Ok(_) => data.status is Some && exists|now: u64|
                final(table).rows() == #[trigger] crate::train_jobs::updated_rows(
                    old(table).rows(),
                    data.id,
                    data.status->0,
                    now,
                ),
            Err(e) => data.status is None && *final(table) == *old(table) && match e {
                ApiError::InvalidParam(k) => k@ == "status"@,
                _ => false,
            },
        },
{
    if data.status.is_some() {
        table.update(data);
        Ok(())
    } else {
        Err(ApiError::InvalidParam("status".to_owned()))
    }
}

/// The number a parameter value stands for where the endpoint falls back
/// to zero instead of rejecting a malformed one.
pub open spec fn i32_or_zero(s: Seq<char>) -> int {
    if is_i32_string(s) {
        int_value(s)
    } else {
        0
    }
}

/// Reads a decimal string as the filter endpoints do: a malformed value
/// counts as zero.
pub fn parse_i32_or_zero(s: &str) -> (r: i32)
    ensures
        r as int == i32_or_zero(s@),
{
    match parse_i32(s) {
        Some(v) => v,
        None => 0,
    }
}

/// An optional numeric filter parameter, read with the zero fallback.
pub open spec fn opt_i64_param(query: Seq<(String, String)>, key: Seq<char>) -> Option<i64> {
    match param_value(query, key) {
        Some(v) => Some(i32_or_zero(v@) as i64),
        None => None,
    }
}

fn get_i64_param(query: &Vec<(String, String)>, key: &String) -> (r: Option<i64>)
    ensures
        r == opt_i64_param(query@, key@),
{
    match get_param(query, key) {
        Some(v) => Some(parse_i32_or_zero(v.as_str()) as i64),
        None => None,
    }
}

/// The delete endpoint for materials: `id` must be present; a malformed id
/// reads as zero, which names no row.
pub fn delete_material_api(materials: &mut MaterialTable, query: &Vec<(String, String)>) -> (r:
    Result<(), ApiError>)
    requires
        old(materials).wf(),
    ensures
        final(materials).wf(),
        match r {
            Ok(_) => match param_value(query@, "id"@) {
                Some(v) => final(materials).rows() == old(materials).rows().filter(
                    keeps_other_materials(i32_or_zero(v@) as i64),
                ),
                None => false,
            },
            Err(e) => *final(materials) == *old(materials) && param_value(query@, "id"@) is None
                && match e {
                ApiError::MissingParam(k) => k@ == "id"@,
                _ => false,
            },
        },
{
    let key: String = "id".to_owned();
    let v = match require_param(query, &key) {
        Ok(v) => v,
        Err(e) => {
            return Err(e);
        },
    };
    let id = parse_i32_or_zero(v.as_str());
    materials.del(id as i64);
    proof {
        assert(materials.rows() == old(materials).rows().filter(
            keeps_other_materials(i32_or_zero((param_value(query@, "id"@)->0)@) as i64),
        ));
    }
    Ok(())
}

/// The material listing endpoint: the `used` and `group_id` filters are
/// optional, and a malformed one reads as zero.
pub fn get_material_api(materials: &MaterialTable, query: &Vec<(String, String)>) -> (r: Vec<
    Material,
>)
    ensures
        r@ == materials.rows().filter(
            material_selected_by(
                opt_i64_param(query@, "used"@),
                opt_i64_param(query@, "group_id"@),
            ),
        ),
{
    let used_key: String = "used".to_owned();
    let group_key: String = "group_id".to_owned();
    let used = get_i64_param(query, &used_key);
    let group_id = get_i64_param(query, &group_key);
    materials.list(used, group_id)
}

/// The material count endpoint, under the same optional filters.
pub fn get_material_count_api(materials: &MaterialTable, query: &Vec<(String, String)>) -> (r: u64)
    ensures
        r == materials.rows().filter(
            material_selected_by(
                opt_i64_param(query@, "used"@),
                opt_i64_param(query@, "group_id"@),
            ),
        ).len(),
{
    let used_key: String = "used".to_owned();
    let group_key: String = "group_id".to_owned();
    let used = get_i64_param(query, &used_key);
    let group_id = get_i64_param(query, &group_key);
    materials.count(used, group_id)
}

/// The delete endpoint for publish jobs: `id` must be present and numeric.
pub fn delete_publish_job_api(jobs: &mut PublishJobTable, query: &Vec<(String, String)>) -> (r:
    Result<(), ApiError>)
    requires
        old(jobs).wf(),
    ensures
        final(jobs).wf(),
        match r {
            Ok(_) => match param_value(query@, "id"@) {
                Some(v) => is_i32_string(v@) && final(jobs).rows() == old(jobs).rows().filter(
                    keeps_other_publish_jobs(int_value(v@) as i64),
                ),
                None => false,
            },
            Err(e) => *final(jobs) == *old(jobs) && match e {
                ApiError::MissingParam(k) => k@ == "id"@ && param_value(query@, "id"@) is None,
                ApiError::InvalidParam(k) => k@ == "id"@ && match param_value(query@, "id"@) {
                    Some(v) => !is_i32_string(v@),
                    None => false,
                },
            },
        },
{
    let key: String = "id".to_owned();
    let v = match require_param(query, &key) {
        Ok(v) => v,
        Err(e) => {
            return Err(e);
        },
    };
    let id = match parse_i32(v.as_str()) {
        Some(id) => id,
        None => {
            return Err(ApiError::InvalidParam(key));
        },
    };
    jobs.del(id as i64);
    Ok(())
}

/// The delete endpoint for groups: `id` must be present and numeric.
pub fn delete_group_api(groups: &mut GroupTable, query: &Vec<(String, String)>) -> (r: Result<
    (),
    ApiError,
>)
    requires
        old(groups).wf(),
    ensures
        final(groups).wf(),
        match r {
            Ok(_) => match param_value(query@, "id"@) {
                Some(v) => is_i32_string(v@) && final(groups).rows() == old(groups).rows().filter(
                    keeps_other_groups(int_value(v@) as i64),
                ),
                None => false,
            },
            Err(e) => *final(groups) == *old(groups) && match e {
                ApiError::MissingParam(k) => k@ == "id"@ && param_value(query@, "id"@) is None,
                ApiError::InvalidParam(k) => k@ == "id"@ && match param_value(query@, "id"@) {
                    Some(v) => !is_i32_string(v@),
                    None => false,
                },
            },
        },
{
    let key: String = "id".to_owned();
    let v = match require_param(query, &key) {
        Ok(v) => v,
        Err(e) => {
            return Err(e);
        },
    };
    let id = match parse_i32(v.as_str()) {
        Some(id) => id,
        None => {
            return Err(ApiError::InvalidParam(key));
        },
    };
    groups.del(id as i64);
    Ok(())
}

/// The delete endpoint for dialog watchers: `id` must be present and
/// numeric.
pub fn delete_dialog_watcher_api(
    watchers: &mut DialogWatcherTable,
    query: &Vec<(String, String)>,
) -> (r: Result<(), ApiError>)
    requires
        old(watchers).wf(),
    ensures
        final(watchers).wf(),
        match r {
            Ok(_) => match param_value(query@, "id"@) {
                Some(v) => is_i32_string(v@) && final(watchers).rows() == old(
                    watchers,
                ).rows().filter(keeps_other_watchers(int_value(v@) as i64)),
                None => false,
            },
            Err(e) => *final(watchers) == *old(watchers) && match e {
                ApiError::MissingParam(k) => k@ == "id"@ && param_value(query@, "id"@) is None,
                ApiError::InvalidParam(k) => k@ == "id"@ && match param_value(query@, "id"@) {
                    Some(v) => !is_i32_string(v@),
                    None => false,
                },
            },
        },
{
    let key: String = "id".to_owned();
    let v = match require_param(query, &key) {
        Ok(v) => v,
        Err(e) => {
            return Err(e);
        },
    };
    let id = match parse_i32(v.as_str()) {
        Some(id) => id,
        None => {
            return Err(ApiError::InvalidParam(key));
        },
    };
    watchers.delete(id as i64);
    Ok(())
}

/// The by-device account listing: `device` must be present.
pub fn get_account_by_device_api(accounts: &AccountTable, query: &Vec<(String, String)>) -> (r:
    Result<Vec<Account>, ApiError>)
    ensures
        match r {
            Ok(listing) => match param_value(query@, "device"@) {
                Some(v) => listing@ == accounts.rows().filter(owned_by_device_fn(v@)),
                None => false,
            },
            Err(e) => param_value(query@, "device"@) is None && match e {
                ApiError::MissingParam(k) => k@ == "device"@,
                _ => false,
            },
        },
{
    let key: String = "device".to_owned();
    let device = match require_param(query, &key) {
        Ok(v) => v,
        Err(e) => {
            return Err(e);
        },
    };
    let out = accounts.list_account_by_device(&device);
    proof {
        assert(out@ == accounts.rows().filter(
            owned_by_device_fn((param_value(query@, "device"@)->0)@),
        ));
    }
    Ok(out)
}

/// The auto-train account listing: `agent_ip` must be present.
pub fn get_account_auto_train_api(
    accounts: &AccountTable,
    groups: &GroupTable,
    devices: &DeviceTable,
    query: &Vec<(String, String)>,
) -> (r: Result<Vec<Account>, ApiError>)
    ensures
        match r {
            Ok(listing) => match param_value(query@, "agent_ip"@) {
                Some(v) => listing@ == accounts.rows().filter(
                    auto_train_fn(groups.rows(), devices.rows(), v@),
                ),
                None => false,
            },
            Err(e) => param_value(query@, "agent_ip"@) is None && match e {
                ApiError::MissingParam(k) => k@ == "agent_ip"@,
                _ => false,
            },
        },
{
    let key: String = "agent_ip".to_owned();
    let agent_ip = match require_param(query, &key) {
        Ok(v) => v,
        Err(e) => {
            return Err(e);
        },
    };
    let out = accounts.list_auto_train_account_by_agent_ip(&agent_ip, groups, devices);
    proof {
        assert(out@ == accounts.rows().filter(
            auto_train_fn(groups.rows(), devices.rows(), (param_value(query@, "agent_ip"@)->0)@),
        ));
    }
    Ok(out)
}

/// The device init callback: `serial` and a numeric `init` must be
/// present; then the named device's init stage is set.
pub fn get_device_init_api(devices: &mut DeviceTable, query: &Vec<(String, String)>) -> (r: Result<
    (),
    ApiError,
>)
    requires
        old(devices).wf(),
    ensures
        final(devices).wf(),
        match r {
            Ok(_) => match (param_value(query@, "serial"@), param_value(query@, "init"@)) {
                (Some(sv), Some(iv)) => is_i32_string(iv@) && final(devices).rows().len() == old(
                    devices,
                ).rows().len() && forall|i: int|
                    0 <= i < old(devices).rows().len() ==> final(devices).rows()[i] == {
                        let row = #[trigger] old(devices).rows()[i];
                        if row.serial@ == sv@ {
                            Device { init: int_value(iv@) as i64, ..row }
                        } else {
                            row
                        }
                    },
                _ => false,
            },
            Err(e) => *final(devices) == *old(devices) && match e {
                ApiError::MissingParam(k) => (k@ == "serial"@ && param_value(query@, "serial"@)
                    is None) || (k@ == "init"@ && param_value(query@, "init"@) is None),
                ApiError::InvalidParam(k) => k@ == "init"@ && match param_value(query@, "init"@) {
                    Some(v) => !is_i32_string(v@),
                    None => false,
                },
            },
        },
{
    let serial_key: String = "serial".to_owned();
    let serial = match require_param(query, &serial_key) {
        Ok(v) => v,
        Err(e) => {
            return Err(e);
        },
    };
    let init_key: String = "init".to_owned();
    let init_text = match require_param(query, &init_key) {
        Ok(v) => v,
        Err(e) => {
            return Err(e);
        },
    };
    let init = match parse_i32(init_text.as_str()) {
        Some(v) => v,
        None => {
            return Err(ApiError::InvalidParam(init_key));
        },
    };
    devices.update_init(&serial, init as i64);
    proof {
        let sv = param_value(query@, "serial"@)->0;
        let iv = param_value(query@, "init"@)->0;
        assert(sv == serial);
        assert(iv == init_text);
    }
    Ok(())
}

} // verus!
