//! The device block of a report: operating system version and hostname.

use crate::ext::{host_name, os_release, os_type};
use crate::jsontext::{append_json_str, json_str};
use vstd::prelude::*;
use vstd::string::StringExecFns;

verus! {

/// Information about the machine the report comes from.
pub struct DeviceInfo {
    os_version: String,
    hostname: String,
}

/// The mathematical content of a device block.
pub struct DeviceInfoModel {
    pub os_version: Seq<char>,
    pub hostname: Seq<char>,
}

impl View for DeviceInfo {
    type V = DeviceInfoModel;

    closed spec fn view(&self) -> DeviceInfoModel {
        DeviceInfoModel { os_version: self.os_version@, hostname: self.hostname@ }
    }
}

/// The JSON object for a device block: both fields are always present.
pub open spec fn device_info_json(d: DeviceInfoModel) -> Seq<char> {
    "{\"osVersion\":"@ + json_str(d.os_version) + ",\"hostname\":"@ + json_str(d.hostname) + "}"@
}

/// The version string built from what the host reports: the system type and
/// release joined by a colon, with fixed placeholders where a part is unknown.
pub open spec fn generated_version(os_type: Option<Seq<char>>, os_release: Option<Seq<char>>)
    -> Seq<char> {
    (match os_type {
        Some(t) => t,
        None => "Unknown"@,
    }) + ":"@ + (match os_release {
        Some(r) => r,
        None => "u.k.n.o.w.n"@,
    })
}

/// The hostname reported by the host, with a fixed placeholder when unknown.
pub open spec fn generated_hostname(hostname: Option<Seq<char>>) -> Seq<char> {
    match hostname {
        Some(h) => h,
        None => "UnknownHost"@,
    }
}

impl DeviceInfo {
    /// A device block with the given version and hostname.
    pub fn new(version: &str, name: &str) -> (d: DeviceInfo)
        ensures
            d@.os_version == version@,
            d@.hostname == name@,
    {
        DeviceInfo { os_version: version.to_owned(), hostname: name.to_owned() }
    }

    /// A device block combining what the host reports, with fixed placeholders
    /// for the parts it does not.
    pub fn from_host_report(
        os_type: Option<String>,
        os_release: Option<String>,
        hostname: Option<String>,
    ) -> (d: DeviceInfo)
        ensures
            d@.os_version == generated_version(os_type.deep_view(), os_release.deep_view()),
            d@.hostname == generated_hostname(hostname.deep_view()),
    {
        let mut version: String = match os_type {
            Some(t) => t,
            None => "Unknown".to_owned(),
        };
        version.append(":");
        match os_release {
            Some(r) => version.append(r.as_str()),
            None => version.append("u.k.n.o.w.n"),
        }
        let host: String = match hostname {
            Some(h) => h,
            None => "UnknownHost".to_owned(),
        };
        let d = DeviceInfo { os_version: version, hostname: host };
        proof {
            assert(d@.os_version =~= generated_version(
                os_type.deep_view(),
                os_release.deep_view(),
            ));
        }
        d
    }

    /// A device block describing this machine, as the host reports it.
    pub fn generate() -> (d: DeviceInfo)
        ensures
            exists|t: Option<Seq<char>>, r: Option<Seq<char>>, h: Option<Seq<char>>|
                d@.os_version == generated_version(t, r) && d@.hostname == generated_hostname(h),
    {
        let t = os_type();
        let r = os_release();
        let h = host_name();
        let ghost gt = t.deep_view();
        let ghost gr = r.deep_view();
        let ghost gh = h.deep_view();
        let d = DeviceInfo::from_host_report(t, r, h);
        proof {
            assert(d@.os_version == generated_version(gt, gr) && d@.hostname
                == generated_hostname(gh));
        }
        d
    }

    /// Replaces the operating system version.
    pub fn set_os_version(&mut self, version: &str)
        ensures
            final(self)@.os_version == version@,
            final(self)@.hostname == old(self)@.hostname,
    {
        self.os_version = version.to_owned();
    }

    /// Replaces the hostname.
    pub fn set_hostname(&mut self, name: &str)
        ensures
            final(self)@.hostname == name@,
            final(self)@.os_version == old(self)@.os_version,
    {
        self.hostname = name.to_owned();
    }

    /// Appends this device block's JSON object.
    pub fn append_json(&self, out: &mut String)
        ensures
            final(out)@ == old(out)@ + device_info_json(self@),
    {
        out.append("{\"osVersion\":");
        append_json_str(out, self.os_version.as_str());
        out.append(",\"hostname\":");
        append_json_str(out, self.hostname.as_str());
        out.append("}");
        proof {
            assert(final(out)@ =~= old(out)@ + device_info_json(self@));
        }
    }
}

impl Clone for DeviceInfo {
    fn clone(&self) -> (r: Self)
        ensures
            r@ == self@,
    {
        DeviceInfo { os_version: self.os_version.clone(), hostname: self.hostname.clone() }
    }
}

} // verus!
