//! The device identity the client keeps between calls: the settings'
//! device profile, the random code the user rolled, the login cookie and
//! this machine's guest code, with the device code they put in effect.
//! Changing the profile re-derives the code at once; the Digital Alliance
//! check swaps a probing profile in and the earlier one back.

use vstd::prelude::*;
use crate::device::{
    account_description, choose_device_code, device_code_of, device_code_valid, profile_szlm_id,
    szlm_description, DeviceCodeChoice, DeviceProfile,
};
use crate::accounts::{
    last_login_cookie, logged_out_accounts, logged_out_store, restored_cookie, save_account_to, saved_store,
    writable_store, AccountError,
};
use crate::json::{json_view, Json};
use crate::requests::{probe_verdict, szlm_probe_verdict};
use crate::text::{string_of, trim, trimmed_str};

verus! {

/// What the device identity is made of, as plain values.
pub struct DeviceStateV {
    pub profile: DeviceProfile,
    pub random_override: Option<Seq<char>>,
    pub cookie: Option<Seq<char>>,
    pub guest_code: Seq<char>,
    pub device_code: Seq<char>,
}

/// The device identity of a client.
pub struct DeviceState {
    pub profile: DeviceProfile,
    pub random_override: Option<String>,
    pub cookie: Option<String>,
    pub guest_code: String,
    pub device_code: String,
}

pub open spec fn opt_view(o: Option<String>) -> Option<Seq<char>> {
    match o {
        Some(s) => Some(s@),
        None => None,
    }
}

impl View for DeviceState {
    type V = DeviceStateV;

    open spec fn view(&self) -> DeviceStateV {
        DeviceStateV {
            profile: self.profile,
            random_override: opt_view(self.random_override),
            cookie: opt_view(self.cookie),
            guest_code: self.guest_code@,
            device_code: self.device_code@,
        }
    }
}

/// The account a cookie logs in: its first non-empty `uid`.
pub open spec fn cookie_account(cookie: Option<Seq<char>>) -> Option<Seq<char>> {
    match cookie {
        Some(ck) => crate::cookie::first_uid(crate::text::split(ck, ';')),
        None => None,
    }
}

/// Where the device code comes from, by priority: a Digital Alliance ID,
/// a valid random code, the logged-in account, else the guest code.
pub open spec fn code_source(s: DeviceStateV) -> Seq<char> {
    if profile_szlm_id(s.profile) is Some {
        "szlm"@
    } else if s.random_override matches Some(c) && device_code_valid(c) {
        "random"@
    } else if cookie_account(s.cookie) is Some {
        "account"@
    } else {
        "guest"@
    }
}

/// The device code the identity puts in effect (see `code_source`).
pub open spec fn effective_code(s: DeviceStateV) -> Seq<char> {
    match profile_szlm_id(s.profile) {
        Some(id) => device_code_of(szlm_description(id)),
        None => if s.random_override matches Some(c) && device_code_valid(c) {
            s.random_override->0
        } else {
            match cookie_account(s.cookie) {
                Some(uid) => device_code_of(account_description(uid)),
                None => s.guest_code,
            }
        },
    }
}

/// The code in effect is the one its parts give.
pub open spec fn synced(s: DeviceStateV) -> bool {
    s.device_code == effective_code(s)
}

/// The identity with another profile and the code re-derived.
pub open spec fn with_profile(s: DeviceStateV, profile: DeviceProfile) -> DeviceStateV {
    let t = DeviceStateV { profile, ..s };
    DeviceStateV { device_code: effective_code(t), ..t }
}

/// What the settings page shows of the identity.
pub struct DeviceInfo {
    pub logged_in: bool,
    pub szlm_active: bool,
    pub code_source: String,
    pub device_code: String,
}

pub struct DeviceInfoV {
    pub logged_in: bool,
    pub szlm_active: bool,
    pub code_source: Seq<char>,
    pub device_code: Seq<char>,
}

pub open spec fn device_info_of(s: DeviceStateV) -> DeviceInfoV {
    DeviceInfoV {
        logged_in: s.cookie is Some,
        szlm_active: profile_szlm_id(s.profile) is Some,
        code_source: code_source(s),
        device_code: s.device_code,
    }
}

/// Why a Digital Alliance check ends before the probe: the trimmed ID is
/// empty, or nobody is logged in (the probe needs a session).
pub open spec fn probe_refusal(szlm_id: Seq<char>, cookie: Option<Seq<char>>) -> Option<Seq<char>> {
    if trim(szlm_id).len() == 0 {
        Some("数字联盟ID为空"@)
    } else if cookie is None {
        Some("请先登录：写接口的设备校验需要登录态"@)
    } else {
        None
    }
}

fn opt_str(o: &Option<String>) -> (r: Option<&str>)
    ensures
        match *o {
            Some(s) => r matches Some(x) && x@ == s@,
            None => r is None,
        },
{
    match o {
        Some(s) => Some(s.as_str()),
        None => None,
    }
}

fn copy_opt(o: &Option<String>) -> (r: Option<String>)
    ensures
        r == *o,
{
    match o {
        Some(s) => Some(s.clone()),
        None => None,
    }
}

/// `profile` with another Digital Alliance ID.
fn profile_with_szlm(profile: &DeviceProfile, szlm_id: String) -> (r: DeviceProfile)
    ensures
        r == (DeviceProfile { szlm_id: Some(szlm_id), ..*profile }),
{
    DeviceProfile {
        user_agent: copy_opt(&profile.user_agent),
        sdk_int: copy_opt(&profile.sdk_int),
        locale: copy_opt(&profile.locale),
        app_version: copy_opt(&profile.app_version),
        app_code: copy_opt(&profile.app_code),
        api_version: copy_opt(&profile.api_version),
        dark_mode: copy_opt(&profile.dark_mode),
        szlm_id: Some(szlm_id),
    }
}

impl DeviceState {
    /// An identity from its parts, with the code they give in effect.
    pub fn new(
        profile: DeviceProfile,
        random_override: Option<String>,
        cookie: Option<String>,
        guest_code: String,
    ) -> (r: Self)
        ensures
            r@.profile == profile,
            r@.random_override == opt_view(random_override),
            r@.cookie == opt_view(cookie),
            r@.guest_code == guest_code@,
            synced(r@),
    {
        let mut s = DeviceState { profile, random_override, cookie, guest_code, device_code: String::new() };
        s.sync_device_code();
        s
    }

    /// Re-derives the code in effect from the parts.
    pub fn sync_device_code(&mut self)
        ensures
            final(self)@ == (DeviceStateV { device_code: effective_code(old(self)@), ..old(self)@ }),
    {
        let choice = choose_device_code(&self.profile, opt_str(&self.random_override), opt_str(&self.cookie));
        let code = match choice {
            DeviceCodeChoice::Szlm { code } => code,
            DeviceCodeChoice::Random { code } => code,
            DeviceCodeChoice::Account { uid: _, code } => code,
            DeviceCodeChoice::Guest => self.guest_code.clone(),
        };
        self.device_code = code;
    }

    /// Takes the settings' profile and puts the code it gives in effect.
    pub fn update_device_profile(&mut self, profile: DeviceProfile)
        ensures
            final(self)@ == with_profile(old(self)@, profile),
    {
        self.profile = profile;
        self.sync_device_code();
    }

    /// What the settings page shows.
    pub fn device_info(&self) -> (r: DeviceInfo)
        ensures
            (DeviceInfoV {
                logged_in: r.logged_in,
                szlm_active: r.szlm_active,
                code_source: r.code_source@,
                device_code: r.device_code@,
            }) == device_info_of(self@),
    {
        let szlm_active = self.profile.custom_szlm_id().is_some();
        let choice = choose_device_code(&self.profile, opt_str(&self.random_override), opt_str(&self.cookie));
        DeviceInfo {
            logged_in: self.cookie.is_some(),
            szlm_active,
            code_source: choice.source().to_string(),
            device_code: self.device_code.clone(),
        }
    }

    /// Saves an account into the store and logs it in: the identity takes
    /// the cookie the new store restores, and the code follows. A refused
    /// save changes nothing.
    pub fn save_account(
        &mut self,
        root: Json,
        uid: &str,
        username: &str,
        user_avatar: &str,
        cookie: &str,
    ) -> (r: Result<Json, AccountError>)
        requires
            writable_store(json_view(root)),
        ensures
            match saved_store(json_view(root), uid@, username@, user_avatar@, cookie@) {
                Ok(saved) => r matches Ok(x) && json_view(x) == saved && final(self)@ == (DeviceStateV {
                    cookie: last_login_cookie(saved),
                    device_code: effective_code(DeviceStateV { cookie: last_login_cookie(saved), ..old(self)@ }),
                    ..old(self)@
                }),
                Err(e) => r matches Err(x) && x == e && final(self)@ == old(self)@,
            },
    {
        let saved = save_account_to(root, uid, username, user_avatar, cookie);
        if let Ok(store) = &saved {
            self.cookie = restored_cookie(store);
            self.sync_device_code();
        }
        saved
    }

    /// Logs out: the identity keeps no cookie, the code follows, and the
    /// store keeps its accounts with no last login.
    pub fn log_out(&mut self, root: Json) -> (r: Json)
        requires
            writable_store(json_view(root)),
        ensures
            json_view(r) == logged_out_store(json_view(root)),
            final(self)@ == (DeviceStateV {
                cookie: None,
                device_code: effective_code(DeviceStateV { cookie: None, ..old(self)@ }),
                ..old(self)@
            }),
    {
        self.cookie = None;
        self.sync_device_code();
        logged_out_accounts(root)
    }

    /// Starts the Digital Alliance check: unless it is refused (see
    /// `probe_refusal`, the answer then being the verdict), the trimmed ID
    /// goes into the profile for the probe and the profile it replaced comes
    /// back.
    pub fn begin_szlm_probe(&mut self, szlm_id: &str) -> (r: Result<DeviceProfile, (bool, String)>)
        ensures
            match probe_refusal(szlm_id@, old(self)@.cookie) {
                Some(detail) => r matches Err((ok, d)) && !ok && d@ == detail && final(self)@ == old(self)@,
                None => {
                    &&& r matches Ok(previous) && previous == old(self)@.profile
                    &&& final(self)@ == with_profile(old(self)@, final(self)@.profile)
                    &&& final(self)@.profile == (DeviceProfile { szlm_id: final(self)@.profile.szlm_id, ..old(self)@.profile })
                    &&& final(self)@.profile.szlm_id matches Some(id) && id@ == trim(szlm_id@)
                },
            },
    {
        let t = trimmed_str(szlm_id);
        if t.len() == 0 {
            return Err((false, "数字联盟ID为空".to_string()));
        }
        if self.cookie.is_none() {
            return Err((false, "请先登录：写接口的设备校验需要登录态".to_string()));
        }
        let probing = profile_with_szlm(&self.profile, string_of(&t));
        let mut previous = probing;
        std::mem::swap(&mut previous, &mut self.profile);
        self.sync_device_code();
        Ok(previous)
    }

    /// Ends the Digital Alliance check: the earlier profile comes back,
    /// whatever the probe gave, and the probe's outcome is judged.
    pub fn finish_szlm_probe(&mut self, previous: DeviceProfile, probe: Result<(), &str>) -> (r: (bool, String))
        ensures
            final(self)@ == with_profile(old(self)@, previous),
            (r.0, r.1@) == probe_verdict(
                match probe {
                    Ok(()) => Ok(()),
                    Err(m) => Err(m@),
                },
            ),
    {
        self.update_device_profile(previous);
        szlm_probe_verdict(probe)
    }
}

/// A Digital Alliance check leaves the device identity as it found it:
/// whatever ID was probed, putting the earlier profile back gives the same
/// identity, and so the same device information.
pub proof fn law_szlm_check_restores_identity(s: DeviceStateV, probing: DeviceProfile)
    requires
        synced(s),
    ensures
        with_profile(with_profile(s, probing), s.profile) == s,
        device_info_of(with_profile(with_profile(s, probing), s.profile)) == device_info_of(s),
{
}

/// A profile whose Digital Alliance ID keeps characters after cleaning puts
/// that ID's code in effect and shows it as active; one without shows no
/// active ID.
pub proof fn law_profile_szlm_id_decides_code(s: DeviceStateV, profile: DeviceProfile)
    ensures
        match profile_szlm_id(profile) {
            Some(id) => {
                let info = device_info_of(with_profile(s, profile));
                info.szlm_active && info.code_source == "szlm"@ && info.device_code == device_code_of(
                    szlm_description(id),
                )
            },
            None => !device_info_of(with_profile(s, profile)).szlm_active,
        },
{
}

} // verus!
