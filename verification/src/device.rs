//! What a synthetic device says of itself: to the account services and to the keychain.
use vstd::prelude::*;

use crate::profile::DeviceProfile;

verus! {

/// How a device describes itself on registration.
#[derive(Debug)]
pub struct RegisterMeta {
    pub hardware_version: String,
    pub os_version: String,
    pub software_version: String,
}

/// How a device describes itself in diagnostics.
#[derive(Debug)]
pub struct DebugMeta {
    pub user_version: String,
    pub hardware_version: String,
    pub serial_number: String,
}

impl DeviceProfile {
    /// The kind of device that is activated.
    pub fn get_activation_device(&self) -> (device: String)
        ensures
            device@ == "iPhone"@,
    {
        "iPhone".to_owned()
    }

    /// The class of the model.
    pub fn get_model_class(&self) -> (class: String)
        ensures
            class@ == self@.model_class,
    {
        self.model_class.clone()
    }

    /// The version of the registration protocol.
    pub fn get_protocol_version(&self) -> (version: u32)
        ensures
            version == 1640,
    {
        1640
    }

    /// How the device describes itself on registration.
    pub fn get_register_meta(&self) -> (meta: RegisterMeta)
        ensures
            meta.hardware_version@ == self@.model,
            meta.os_version@ == "iPhone OS,"@ + self@.os_version + ","@ + self@.build,
            meta.software_version@ == self@.build,
    {
        RegisterMeta {
            hardware_version: self.model.clone(),
            os_version: "iPhone OS,".to_owned().concat(self.os_version.as_str()).concat(",").concat(
                self.build.as_str(),
            ),
            software_version: self.build.clone(),
        }
    }

    /// The user agent under which `item` makes its requests.
    pub fn get_normal_ua(&self, item: &str) -> (agent: String)
        ensures
            agent@ == item@ + " CFNetwork/"@ + self@.cfnetwork_version + " Darwin/"@
                + self@.darwin_version,
    {
        item.to_owned().concat(" CFNetwork/").concat(self.cfnetwork_version.as_str()).concat(
            " Darwin/",
        ).concat(self.darwin_version.as_str())
    }

    /// The client information that goes with requests of `for_item`.
    pub fn get_mme_clientinfo(&self, for_item: &str) -> (info: String)
        ensures
            info@ == "<"@ + self@.model + "> <iPhone OS;"@ + self@.os_version + ";"@ + self@.build
                + "> <"@ + for_item@ + ">"@,
    {
        "<".to_owned().concat(self.model.as_str()).concat("> <iPhone OS;").concat(
            self.os_version.as_str(),
        ).concat(";").concat(self.build.as_str()).concat("> <").concat(for_item).concat(">")
    }

    /// The system, build and model, in brackets.
    pub fn get_version_ua(&self) -> (version: String)
        ensures
            version@ == "[iPhone OS,"@ + self@.os_version + ","@ + self@.build + ","@ + self@.model
                + "]"@,
    {
        "[iPhone OS,".to_owned().concat(self.os_version.as_str()).concat(",").concat(
            self.build.as_str(),
        ).concat(",").concat(self.model.as_str()).concat("]")
    }

    /// The name of the device.
    pub fn get_device_name(&self) -> (name: String)
        ensures
            name@ == self@.name,
    {
        self.name.clone()
    }

    /// The UUID of the device.
    pub fn get_device_uuid(&self) -> (device_uuid: String)
        ensures
            device_uuid@ == self@.device_uuid,
    {
        self.device_uuid.clone()
    }

    /// How the device describes itself in diagnostics.
    pub fn get_debug_meta(&self) -> (meta: DebugMeta)
        ensures
            meta.user_version@ == self@.os_version,
            meta.hardware_version@ == self@.model,
            meta.serial_number@ == self@.serial,
    {
        DebugMeta {
            user_version: self.os_version.clone(),
            hardware_version: self.model.clone(),
            serial_number: self.serial.clone(),
        }
    }

    /// Where delegates of an account are asked for.
    pub fn get_login_url(&self) -> (url: &'static str)
        ensures
            url@ == "https://setup.icloud.com/setup/iosbuddy/loginDelegates"@,
    {
        "https://setup.icloud.com/setup/iosbuddy/loginDelegates"
    }

    /// The serial number of the device.
    pub fn get_serial_number(&self) -> (serial: String)
        ensures
            serial@ == self@.serial,
    {
        self.serial.clone()
    }

    /// The version of the authentication kit.
    pub fn get_aoskit_version(&self) -> (version: String)
        ensures
            version@ == "com.apple.AuthKit/1 (com.apple.akd/1.0)"@,
    {
        "com.apple.AuthKit/1 (com.apple.akd/1.0)".to_owned()
    }

    /// The UDID of the device.
    pub fn get_udid(&self) -> (udid: String)
        ensures
            udid@ == self@.udid,
    {
        self.udid.clone()
    }
}

} // verus!
