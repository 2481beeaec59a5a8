use vstd::prelude::*;

use crate::account::GsaAccount;
use crate::error::Error;
use crate::sanitize::{sanitized, strip_invalid_chars};

verus! {

/// The status envelope that every provisioning response carries: a numeric
/// code, zero on success, and a message.
#[derive(Debug, Clone)]
pub struct ResponseMeta {
    pub ec: i64,
    pub em: String,
}

/// A device registered with a developer team.
#[derive(Debug, Clone)]
pub struct Device {
    pub device_id: String,
    pub name: String,
    pub device_number: String,
    pub device_platform: String,
    pub status: String,
    pub device_class: String,
    pub expiration_date: Option<String>,
}

/// The decoded answer to a device listing.
#[derive(Debug)]
pub struct DevicesResponse {
    pub devices: Vec<Device>,
    pub meta: ResponseMeta,
}

/// The decoded answer to a device registration.
#[derive(Debug)]
pub struct DeviceResponse {
    pub device: Device,
    pub meta: ResponseMeta,
}

/// A request to the provisioning service, with the fields its body holds.
#[derive(Debug)]
pub enum QhRequest {
    ListDevices { team_id: String },
    AddDevice { team_id: String, name: String, device_number: String },
}

/// The endpoint that lists a team's devices.
pub const LIST_DEVICES_ENDPOINT: &'static str =
    "https://developerservices2.apple.com/services/QH65B2/ios/listDevices.action";

/// The endpoint that registers a device with a team.
pub const ADD_DEVICE_ENDPOINT: &'static str =
    "https://developerservices2.apple.com/services/QH65B2/ios/addDevice.action";

impl QhRequest {
    /// The endpoint the request is posted to.
    pub fn endpoint(&self) -> (r: &'static str)
        ensures
            r@ == (match self {
                QhRequest::ListDevices { .. } => LIST_DEVICES_ENDPOINT@,
                QhRequest::AddDevice { .. } => ADD_DEVICE_ENDPOINT@,
            }),
    {
        match self {
            QhRequest::ListDevices { .. } => LIST_DEVICES_ENDPOINT,
            QhRequest::AddDevice { .. } => ADD_DEVICE_ENDPOINT,
        }
    }
}

/// What a status envelope means: success when the code is zero, else the
/// remote error with that code and message.
pub open spec fn status_ok(meta: ResponseMeta) -> bool {
    meta.ec == 0
}

/// Fails with the remote error that the envelope carries, whatever the
/// transport status was; succeeds when its code is zero.
pub fn check_status(meta: &ResponseMeta) -> (r: Result<(), Error>)
    ensures
        status_ok(*meta) <==> r is Ok,
        !status_ok(*meta) ==> (match r {
            Err(Error::Remote { code, message }) => code == meta.ec && message@ == meta.em@,
            _ => false,
        }),
{
    if meta.ec != 0 {
        Err(Error::Remote { code: meta.ec, message: meta.em.clone() })
    } else {
        Ok(())
    }
}

/// Whether a device with UDID `udid` is among `devices`.
pub open spec fn is_listed(devices: Seq<Device>, udid: Seq<char>) -> bool {
    exists|i: int| 0 <= i < devices.len() && #[trigger] devices[i].device_number@ == udid
}

/// `i` is the first device of `devices` whose UDID is `udid`.
pub open spec fn is_first_match(devices: Seq<Device>, udid: Seq<char>, i: int) -> bool {
    &&& 0 <= i < devices.len()
    &&& devices[i].device_number@ == udid
    &&& forall|j: int| 0 <= j < i ==> #[trigger] devices[j].device_number@ != udid
}

/// What `qh_ensure_device` does next: hand back a device that the team has
/// already registered, or register it.
#[derive(Debug)]
pub enum EnsureDevice {
    Found(Device),
    Register(QhRequest),
}

/// A developer session: the account id and developer token that every
/// request is signed with.
#[derive(Debug)]
pub struct DeveloperSession {
    adsid: String,
    xcode_gs_token: String,
}

impl DeveloperSession {
    /// The session of a stored account.
    pub fn with(account: &GsaAccount) -> (r: Self)
        ensures
            r.spec_adsid() == account@.adsid,
            r.spec_xcode_gs_token() == account@.xcode_gs_token,
    {
        DeveloperSession {
            adsid: account.adsid().clone(),
            xcode_gs_token: account.xcode_gs_token().clone(),
        }
    }

    pub closed spec fn spec_adsid(&self) -> Seq<char> {
        self.adsid@
    }

    pub closed spec fn spec_xcode_gs_token(&self) -> Seq<char> {
        self.xcode_gs_token@
    }

    pub fn adsid(&self) -> (r: &String)
        ensures
            r@ == self.spec_adsid(),
    {
        &self.adsid
    }

    pub fn xcode_gs_token(&self) -> (r: &String)
        ensures
            r@ == self.spec_xcode_gs_token(),
    {
        &self.xcode_gs_token
    }

    /// The request that lists the devices of team `team_id`.
    pub fn qh_list_devices(&self, team_id: &String) -> (r: QhRequest)
        ensures
            r matches QhRequest::ListDevices { team_id: t } && t@ == team_id@,
    {
        QhRequest::ListDevices { team_id: team_id.clone() }
    }

    /// The request that registers the device `device_udid` with team
    /// `team_id`, under its name stripped of what the service refuses.
    pub fn qh_add_device(&self, team_id: &String, device_name: &String, device_udid: &String) -> (r:
        QhRequest)
        ensures
            r matches QhRequest::AddDevice { team_id: t, name, device_number } && t@ == team_id@
                && name@ == sanitized(device_name@) && device_number@ == device_udid@,
    {
        QhRequest::AddDevice {
            team_id: team_id.clone(),
            name: strip_invalid_chars(device_name.as_str()),
            device_number: device_udid.clone(),
        }
    }

    /// The device of a listing whose UDID is `device_udid`, if any; the
    /// listing's remote error when its status code is not zero.
    pub fn qh_get_device(&self, response: DevicesResponse, device_udid: &String) -> (r: Result<
        Option<Device>,
        Error,
    >)
        ensures
            !status_ok(response.meta) ==> (match r {
                Err(Error::Remote { code, message }) => code == response.meta.ec && message@
                    == response.meta.em@,
                _ => false,
            }),
            status_ok(response.meta) ==> (match r {
                Ok(Some(d)) => exists|i: int|
                    is_first_match(response.devices@, device_udid@, i) && d
                        == response.devices@[i],
                Ok(None) => !is_listed(response.devices@, device_udid@),
                Err(_) => false,
            }),
    {
        match check_status(&response.meta) {
            Err(e) => return Err(e),
            Ok(()) => {},
        }
        let ghost all = response.devices@;
        let mut devices = response.devices;
        let mut i: usize = 0;
        while i < devices.len()
            invariant
                devices@ == all,
                all == response.devices@,
                status_ok(response.meta),
                i <= all.len(),
                forall|j: int| 0 <= j < i ==> #[trigger] all[j].device_number@ != device_udid@,
            decreases all.len() - i,
        {
            if devices[i].device_number.eq(device_udid) {
                let d = devices.remove(i);
                assert(is_first_match(all, device_udid@, i as int));
                return Ok(Some(d));
            }
            i = i + 1;
        }
        Ok(None)
    }

    /// Looks the device up in the team's listing first and registers it only
    /// when the listing does not hold it, so that a device is never registered
    /// twice.
    pub fn qh_ensure_device(
        &self,
        listing: DevicesResponse,
        team_id: &String,
        device_name: &String,
        device_udid: &String,
    ) -> (r: Result<EnsureDevice, Error>)
        ensures
            !status_ok(listing.meta) ==> (match r {
                Err(Error::Remote { code, message }) => code == listing.meta.ec && message@
                    == listing.meta.em@,
                _ => false,
            }),
            status_ok(listing.meta) ==> (match r {
                Ok(EnsureDevice::Found(d)) => !needs_registration(listing.devices@, device_udid@)
                    && exists|i: int|
                    is_first_match(listing.devices@, device_udid@, i) && d == listing.devices@[i],
                Ok(EnsureDevice::Register(req)) => needs_registration(listing.devices@, device_udid@) && (
                req matches QhRequest::AddDevice { team_id: t, name, device_number } && t@
                    == team_id@ && name@ == sanitized(device_name@) && device_number@
                    == device_udid@),
                Err(_) => false,
            }),
    {
        match self.qh_get_device(listing, device_udid) {
            Err(e) => Err(e),
            Ok(Some(d)) => Ok(EnsureDevice::Found(d)),
            Ok(None) => Ok(EnsureDevice::Register(self.qh_add_device(team_id, device_name, device_udid))),
        }
    }

    /// The device that a registration returned, or its remote error.
    pub fn qh_added_device(&self, response: DeviceResponse) -> (r: Result<Device, Error>)
        ensures
            status_ok(response.meta) ==> r == Ok::<Device, Error>(response.device),
            !status_ok(response.meta) ==> (match r {
                Err(Error::Remote { code, message }) => code == response.meta.ec && message@
                    == response.meta.em@,
                _ => false,
            }),
    {
        match check_status(&response.meta) {
            Err(e) => Err(e),
            Ok(()) => Ok(response.device),
        }
    }
}

/// Whether ensuring the device `udid` against a team listing `devices`
/// registers it: exactly when the listing does not hold it.
pub open spec fn needs_registration(devices: Seq<Device>, udid: Seq<char>) -> bool {
    !is_listed(devices, udid)
}

/// The team's listing after ensuring `udid` once against `devices`, where
/// `added` is the device that a registration returns.
pub open spec fn listing_after_ensure(devices: Seq<Device>, added: Device, udid: Seq<char>) -> Seq<
    Device,
> {
    if needs_registration(devices, udid) {
        devices.push(added)
    } else {
        devices
    }
}

/// Ensuring the same device twice registers it at most once: the second
/// call, made against the listing that the first one left, registers
/// nothing.
pub proof fn lemma_ensure_twice_registers_once(devices: Seq<Device>, added: Device, udid: Seq<char>)
    requires
        added.device_number@ == udid,
    ensures
        !needs_registration(listing_after_ensure(devices, added, udid), udid),
{
    let after = listing_after_ensure(devices, added, udid);
    if needs_registration(devices, udid) {
        assert(after[devices.len() as int].device_number@ == udid);
    }
}

} // verus!
