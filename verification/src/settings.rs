//! The operator settings store: a single record of named text values kept
//! in its own key-value file. An update writes each field the caller sent
//! and leaves the others untouched; a load fills every field, reading
//! missing keys as empty (the adb mode as its usb default).

use vstd::prelude::*;

verus! {

/// A settings record as the API carries it: a field that is absent in an
/// update payload is left untouched in storage.
pub struct Settings {
    pub proxy_url: Option<String>,
    pub server_url: Option<String>,
    pub timezone: Option<String>,
    pub wifi_name: Option<String>,
    pub wifi_password: Option<String>,
    pub version: Option<String>,
    pub adb_mode: Option<String>,
    pub license: Option<String>,
}

/// The persisted state: one optional value per key, absent until first
/// written.
pub struct SettingsMap {
    pub proxy_url: Option<String>,
    pub server_url: Option<String>,
    pub timezone: Option<String>,
    pub wifi_name: Option<String>,
    pub wifi_password: Option<String>,
    pub version: Option<String>,
    pub adb_mode: Option<String>,
    pub license: Option<String>,
}

impl SettingsMap {
    /// The state of a settings file that was never written.
    pub fn new() -> (r: Self)
        ensures
            r.proxy_url is None,
            r.server_url is None,
            r.timezone is None,
            r.wifi_name is None,
            r.wifi_password is None,
            r.version is None,
            r.adb_mode is None,
            r.license is None,
    {
        SettingsMap {
            proxy_url: None,
            server_url: None,
            timezone: None,
            wifi_name: None,
            wifi_password: None,
            version: None,
            adb_mode: None,
            license: None,
        }
    }
}

/// What one field of the store holds after an update.
pub open spec fn written(sent: Option<String>, stored: Option<String>) -> Option<String> {
    match sent {
        Some(v) => Some(v),
        None => stored,
    }
}

/// What a load reads from one field of the store.
pub open spec fn stored_or(stored: Option<String>, default: Seq<char>) -> Seq<char> {
    match stored {
        Some(s) => s@,
        None => default,
    }
}

/// Writes each field the payload carries; fields the payload omits keep
/// their stored value.
pub fn set_settings(store: &mut SettingsMap, settings: Settings)
    ensures
        final(store).proxy_url == written(settings.proxy_url, old(store).proxy_url),
        final(store).server_url == written(settings.server_url, old(store).server_url),
        final(store).timezone == written(settings.timezone, old(store).timezone),
        final(store).wifi_name == written(settings.wifi_name, old(store).wifi_name),
        final(store).wifi_password == written(settings.wifi_password, old(store).wifi_password),
        final(store).version == written(settings.version, old(store).version),
        final(store).adb_mode == written(settings.adb_mode, old(store).adb_mode),
        final(store).license == written(settings.license, old(store).license),
{
    match settings.proxy_url {
        Some(v) => {
            store.proxy_url = Some(v);
        },
        None => {},
    }
    match settings.server_url {
        Some(v) => {
            store.server_url = Some(v);
        },
        None => {},
    }
    match settings.timezone {
        Some(v) => {
            store.timezone = Some(v);
        },
        None => {},
    }
    match settings.wifi_name {
        Some(v) => {
            store.wifi_name = Some(v);
        },
        None => {},
    }
    match settings.wifi_password {
        Some(v) => {
            store.wifi_password = Some(v);
        },
        None => {},
    }
    match settings.version {
        Some(v) => {
            store.version = Some(v);
        },
        None => {},
    }
    match settings.adb_mode {
        Some(v) => {
            store.adb_mode = Some(v);
        },
        None => {},
    }
    match settings.license {
        Some(v) => {
            store.license = Some(v);
        },
        None => {},
    }
}

/// Loads the record: every field is present in the result, missing keys
/// read as empty text, the adb mode as its usb default.
pub fn get_settings(store: &SettingsMap) -> (r: Settings)
    ensures
        match r.proxy_url {
            Some(v) => v@ == stored_or(store.proxy_url, Seq::<char>::empty()),
            None => false,
        },
        match r.server_url {
            Some(v) => v@ == stored_or(store.server_url, Seq::<char>::empty()),
            None => false,
        },
        match r.timezone {
            Some(v) => v@ == stored_or(store.timezone, Seq::<char>::empty()),
            None => false,
        },
        match r.wifi_name {
            Some(v) => v@ == stored_or(store.wifi_name, Seq::<char>::empty()),
            None => false,
        },
        match r.wifi_password {
            Some(v) => v@ == stored_or(store.wifi_password, Seq::<char>::empty()),
            None => false,
        },
        match r.version {
            Some(v) => v@ == stored_or(store.version, Seq::<char>::empty()),
            None => false,
        },
        match r.adb_mode {
            Some(v) => v@ == stored_or(store.adb_mode, "usb"@),
            None => false,
        },
        match r.license {
            Some(v) => v@ == stored_or(store.license, Seq::<char>::empty()),
            None => false,
        },
{
    Settings {
        proxy_url: Some(load_or_empty(&store.proxy_url)),
        server_url: Some(load_or_empty(&store.server_url)),
        timezone: Some(load_or_empty(&store.timezone)),
        wifi_name: Some(load_or_empty(&store.wifi_name)),
        wifi_password: Some(load_or_empty(&store.wifi_password)),
        version: Some(load_or_empty(&store.version)),
        adb_mode: Some(
            match &store.adb_mode {
                Some(v) => v.clone(),
                None => "usb".to_owned(),
            },
        ),
        license: Some(load_or_empty(&store.license)),
    }
}

/// One stored value, or empty text where none was written.
fn load_or_empty(stored: &Option<String>) -> (r: String)
    ensures
        r@ == stored_or(*stored, Seq::<char>::empty()),
{
    match stored {
        Some(v) => v.clone(),
        None => String::new(),
    }
}

} // verus!
