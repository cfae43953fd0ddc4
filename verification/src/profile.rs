//! The device profile: the persistent identity that an exporter presents, and its escrow password.
use toml_edit::Document;
use vstd::prelude::*;

use crate::document;
use crate::hexadecimal;
use crate::identity;
use crate::text;

verus! {

/// What can be wrong with a device profile, or with the setting up of its escrow password.
#[derive(Debug, PartialEq, Eq)]
pub enum ProfileFault<T> {
    /// The file is a template, not a private copy of one.
    Template,
    /// The file could not be read.
    Unreadable(T),
    /// The file is not TOML.
    Syntax(T),
    /// A field that must be a string is missing, or is something else.
    NotText { section: T, key: T },
    /// A field that must be a boolean is missing, or is something else.
    NotFlag { section: T, key: T },
    /// A field that must say something is empty.
    Blank { section: T, key: T },
    /// The device UUID is not a UUID.
    BadDeviceUuid,
    /// The UDID is not made of thirty-two hexadecimal digits.
    BadUdid,
    /// Others than its owner may access a file that holds an escrow password.
    Exposed,
    /// There is no escrow password, and nobody to ask for one.
    SetupUnavailable,
    /// The answer to the question how to set the escrow password up is none of those offered.
    BadChoice(T),
}

/// A fault as functions return it.
pub type ProfileError = ProfileFault<String>;

/// A fault with its texts as sequences of characters.
pub open spec fn fault_view(fault: ProfileError) -> ProfileFault<Seq<char>> {
    match fault {
        ProfileFault::Template => ProfileFault::Template,
        ProfileFault::Unreadable(words) => ProfileFault::Unreadable(words@),
        ProfileFault::Syntax(words) => ProfileFault::Syntax(words@),
        ProfileFault::NotText { section, key } => ProfileFault::NotText {
            section: section@,
            key: key@,
        },
        ProfileFault::NotFlag { section, key } => ProfileFault::NotFlag {
            section: section@,
            key: key@,
        },
        ProfileFault::Blank { section, key } => ProfileFault::Blank { section: section@, key: key@ },
        ProfileFault::BadDeviceUuid => ProfileFault::BadDeviceUuid,
        ProfileFault::BadUdid => ProfileFault::BadUdid,
        ProfileFault::Exposed => ProfileFault::Exposed,
        ProfileFault::SetupUnavailable => ProfileFault::SetupUnavailable,
        ProfileFault::BadChoice(choice) => ProfileFault::BadChoice(choice@),
    }
}

/// The sentence about a field of a device profile.
pub open spec fn field_message(section: Seq<char>, key: Seq<char>, complaint: Seq<char>) -> Seq<
    char,
> {
    "device profile field `"@ + section + "."@ + key + "` "@ + complaint
}

/// The words for a fault of the profile at `path`.
pub open spec fn fault_message(fault: ProfileFault<Seq<char>>, path: Seq<char>) -> Seq<char> {
    match fault {
        ProfileFault::Template => path
            + " is a template. Copy it to a private path such as .local/device-profile.toml and use that copy."@,
        ProfileFault::Unreadable(words) => "Could not read device profile "@ + path + ": "@ + words
            + ". Copy device-profile.template.toml to a private path and pass it with --device-profile."@,
        ProfileFault::Syntax(words) => "Invalid device profile "@ + path + ": "@ + words,
        ProfileFault::NotText { section, key } => field_message(
            section,
            key,
            "must be a string"@,
        ),
        ProfileFault::NotFlag { section, key } => field_message(
            section,
            key,
            "must be a boolean"@,
        ),
        ProfileFault::Blank { section, key } => field_message(section, key, "cannot be empty"@),
        ProfileFault::BadDeviceUuid => "device_uuid must be a valid UUID"@,
        ProfileFault::BadUdid => "udid must contain exactly 32 hexadecimal characters"@,
        ProfileFault::Exposed => "Device profile "@ + path
            + " contains the escrow password and must not be accessible by group or other users; run chmod 600 '"@
            + path + "'"@,
        ProfileFault::SetupUnavailable => "No escrow password exists in "@ + path
            + " and interactive setup is unavailable"@,
        ProfileFault::BadChoice(choice) => "Invalid escrow password choice: "@ + choice,
    }
}

fn field_message_text(section: &str, key: &str, complaint: &str) -> (message: String)
    ensures
        message@ == field_message(section@, key@, complaint@),
{
    "device profile field `".to_owned().concat(section).concat(".").concat(key).concat("` ").concat(
        complaint,
    )
}

impl ProfileFault<String> {
    /// The words for this fault of the profile at `path`.
    pub fn message(&self, path: &str) -> (message: String)
        ensures
            message@ == fault_message(fault_view(*self), path@),
    {
        match self {
            ProfileFault::Template => path.to_owned().concat(
                " is a template. Copy it to a private path such as .local/device-profile.toml and use that copy.",
            ),
            ProfileFault::Unreadable(words) => "Could not read device profile ".to_owned().concat(
                path,
            ).concat(": ").concat(words.as_str()).concat(
                ". Copy device-profile.template.toml to a private path and pass it with --device-profile.",
            ),
            ProfileFault::Syntax(words) => "Invalid device profile ".to_owned().concat(path).concat(
                ": ",
            ).concat(words.as_str()),
            ProfileFault::NotText { section, key } => field_message_text(
                section.as_str(),
                key.as_str(),
                "must be a string",
            ),
            ProfileFault::NotFlag { section, key } => field_message_text(
                section.as_str(),
                key.as_str(),
                "must be a boolean",
            ),
            ProfileFault::Blank { section, key } => field_message_text(
                section.as_str(),
                key.as_str(),
                "cannot be empty",
            ),
            ProfileFault::BadDeviceUuid => "device_uuid must be a valid UUID".to_owned(),
            ProfileFault::BadUdid => "udid must contain exactly 32 hexadecimal characters".to_owned(),
            ProfileFault::Exposed => "Device profile ".to_owned().concat(path).concat(
                " contains the escrow password and must not be accessible by group or other users; run chmod 600 '",
            ).concat(path).concat("'"),
            ProfileFault::SetupUnavailable => "No escrow password exists in ".to_owned().concat(
                path,
            ).concat(" and interactive setup is unavailable"),
            ProfileFault::BadChoice(choice) => "Invalid escrow password choice: ".to_owned().concat(
                choice.as_str(),
            ),
        }
    }
}

/// The text in a field.
pub open spec fn text_at(tree: document::Tree, section: Seq<char>, key: Seq<char>) -> Result<
    Seq<char>,
    ProfileFault<Seq<char>>,
> {
    match document::node_at(tree, section, key) {
        Some(document::Node::Text(found)) => Ok(found),
        _ => Err(ProfileFault::NotText { section, key }),
    }
}

/// The text in a field that must not be empty.
pub open spec fn required_text_at(
    tree: document::Tree,
    section: Seq<char>,
    key: Seq<char>,
) -> Result<Seq<char>, ProfileFault<Seq<char>>> {
    match text_at(tree, section, key) {
        Ok(found) => if found.len() == 0 {
            Err(ProfileFault::Blank { section, key })
        } else {
            Ok(found)
        },
        Err(fault) => Err(fault),
    }
}

/// The boolean in a field.
pub open spec fn flag_at(tree: document::Tree, section: Seq<char>, key: Seq<char>) -> Result<
    bool,
    ProfileFault<Seq<char>>,
> {
    match document::node_at(tree, section, key) {
        Some(document::Node::Flag(found)) => Ok(found),
        _ => Err(ProfileFault::NotFlag { section, key }),
    }
}

/// A result with its text and its fault as sequences of characters.
pub open spec fn text_result_view(result: Result<String, ProfileError>) -> Result<
    Seq<char>,
    ProfileFault<Seq<char>>,
> {
    match result {
        Ok(found) => Ok(found@),
        Err(fault) => Err(fault_view(fault)),
    }
}

/// A result with its fault as sequences of characters.
pub open spec fn result_view<A>(result: Result<A, ProfileError>) -> Result<
    A,
    ProfileFault<Seq<char>>,
> {
    match result {
        Ok(found) => Ok(found),
        Err(fault) => Err(fault_view(fault)),
    }
}

/// The text in a field of a profile.
pub fn profile_string(document: &Document, section: &str, key: &str) -> (result: Result<
    String,
    ProfileError,
>)
    ensures
        text_result_view(result) == text_at(
            document::document_contents(*document).tree,
            section@,
            key@,
        ),
{
    match document::text_field(document, section, key) {
        Some(found) => Ok(found),
        None => Err(ProfileFault::NotText { section: section.to_owned(), key: key.to_owned() }),
    }
}

/// The text in a field of a profile that must not be empty.
pub fn required_profile_string(document: &Document, section: &str, key: &str) -> (result: Result<
    String,
    ProfileError,
>)
    ensures
        text_result_view(result) == required_text_at(
            document::document_contents(*document).tree,
            section@,
            key@,
        ),
{
    match profile_string(document, section, key) {
        Ok(found) => if found.as_str().is_empty() {
            Err(ProfileFault::Blank { section: section.to_owned(), key: key.to_owned() })
        } else {
            Ok(found)
        },
        Err(fault) => Err(fault),
    }
}

/// The boolean in a field of a profile.
pub fn profile_bool(document: &Document, section: &str, key: &str) -> (result: Result<
    bool,
    ProfileError,
>)
    ensures
        result_view(result) == flag_at(document::document_contents(*document).tree, section@, key@),
{
    match document::flag_field(document, section, key) {
        Some(found) => Ok(found),
        None => Err(ProfileFault::NotFlag { section: section.to_owned(), key: key.to_owned() }),
    }
}

/// Whether the file name is that of a template.
pub fn is_template_name(file_name: &str) -> (yes: bool)
    ensures
        yes == ".template.toml"@.is_suffix_of(file_name@),
{
    text::ends_with(file_name, ".template.toml")
}

/// Refuses a profile path that leads to a template. `file_name` is the last part of the path,
/// where the path has one and it is Unicode text.
pub fn refuse_template(file_name: Option<&str>) -> (result: Result<(), ProfileError>)
    ensures
        match file_name {
            Some(name) => result == if ".template.toml"@.is_suffix_of(name@) {
                Err(ProfileFault::Template)
            } else {
                Ok::<(), ProfileError>(())
            },
            None => result is Ok,
        },
{
    match file_name {
        Some(name) => if is_template_name(name) {
            Err(ProfileFault::Template)
        } else {
            Ok(())
        },
        None => Ok(()),
    }
}

/// Refuses a file mode that lets group or other users at a profile with an escrow password.
pub fn ensure_private_profile_permissions(mode: u32) -> (result: Result<(), ProfileError>)
    ensures
        result == if mode & 0o077 != 0 {
            Err(ProfileFault::Exposed)
        } else {
            Ok::<(), ProfileError>(())
        },
{
    if mode & 0o077 != 0 {
        Err(ProfileFault::Exposed)
    } else {
        Ok(())
    }
}

/// A mode passes exactly where its six lowest bits, those of group and others, are clear.
pub proof fn law_private_mode(mode: u32)
    ensures
        mode & 0o077 == 0 <==> mode % 64 == 0,
{
    assert(mode & 0o077 == 0 <==> mode % 64 == 0) by (bit_vector);
}

/// The persistent identity of a synthetic device.
#[derive(Clone, Debug, PartialEq, Eq)]
pub struct DeviceProfile {
    pub name: String,
    pub serial: String,
    pub model: String,
    pub model_class: String,
    pub device_uuid: String,
    pub udid: String,
    pub os_version: String,
    pub build: String,
    pub cfnetwork_version: String,
    pub darwin_version: String,
}

/// A device profile with its texts as sequences of characters.
#[verifier::ext_equal]
pub struct ProfileView {
    pub name: Seq<char>,
    pub serial: Seq<char>,
    pub model: Seq<char>,
    pub model_class: Seq<char>,
    pub device_uuid: Seq<char>,
    pub udid: Seq<char>,
    pub os_version: Seq<char>,
    pub build: Seq<char>,
    pub cfnetwork_version: Seq<char>,
    pub darwin_version: Seq<char>,
}

impl View for DeviceProfile {
    type V = ProfileView;

    open spec fn view(&self) -> ProfileView {
        ProfileView {
            name: self.name@,
            serial: self.serial@,
            model: self.model@,
            model_class: self.model_class@,
            device_uuid: self.device_uuid@,
            udid: self.udid@,
            os_version: self.os_version@,
            build: self.build@,
            cfnetwork_version: self.cfnetwork_version@,
            darwin_version: self.darwin_version@,
        }
    }
}

/// The two identifiers of a profile, after those that were missing have been filled in.
#[verifier::ext_equal]
pub struct Identifiers {
    pub device_uuid: Seq<char>,
    pub udid: Seq<char>,
    pub generated: bool,
    pub tree: document::Tree,
}

/// Whether `s` is made of exactly thirty-two hexadecimal digits.
pub open spec fn is_udid(s: Seq<char>) -> bool {
    s.len() == 32 && hexadecimal::all_hex(s)
}

/// The device UUID of a profile: the one it holds, or, where it holds an empty one, a fresh one.
pub open spec fn device_uuid_of(tree: document::Tree, fresh_uuid: Seq<char>) -> Result<
    (Seq<char>, document::Tree, bool),
    ProfileFault<Seq<char>>,
> {
    match text_at(tree, "device"@, "device_uuid"@) {
        Err(fault) => Err(fault),
        Ok(held) => if held.len() == 0 {
            let generated = text::ascii_uppered(fresh_uuid);
            Ok(
                (
                    generated,
                    document::with_node(
                        tree,
                        "device"@,
                        "device_uuid"@,
                        document::Node::Text(generated),
                    ),
                    true,
                ),
            )
        } else if identity::is_uuid(held) {
            Ok((held, tree, false))
        } else {
            Err(ProfileFault::BadDeviceUuid)
        },
    }
}

/// The UDID of a profile: the one it holds, or, where it holds an empty one, a fresh one.
pub open spec fn udid_of(tree: document::Tree, fresh_udid: nat) -> Result<
    (Seq<char>, document::Tree, bool),
    ProfileFault<Seq<char>>,
> {
    match text_at(tree, "device"@, "udid"@) {
        Err(fault) => Err(fault),
        Ok(held) => if held.len() == 0 {
            let generated = hexadecimal::padded_hex(fresh_udid, 32);
            Ok(
                (
                    generated,
                    document::with_node(
                        tree,
                        "device"@,
                        "udid"@,
                        document::Node::Text(generated),
                    ),
                    true,
                ),
            )
        } else if is_udid(held) {
            Ok((held, tree, false))
        } else {
            Err(ProfileFault::BadUdid)
        },
    }
}

/// Both identifiers of a profile, the device UUID first.
pub open spec fn identifiers_of(
    tree: document::Tree,
    fresh_uuid: Seq<char>,
    fresh_udid: nat,
) -> Result<Identifiers, ProfileFault<Seq<char>>> {
    match device_uuid_of(tree, fresh_uuid) {
        Err(fault) => Err(fault),
        Ok((device_uuid, with_uuid, made_uuid)) => match udid_of(with_uuid, fresh_udid) {
            Err(fault) => Err(fault),
            Ok((udid, with_both, made_udid)) => Ok(
                Identifiers {
                    device_uuid,
                    udid,
                    generated: made_uuid || made_udid,
                    tree: with_both,
                },
            ),
        },
    }
}

/// The profile with these identifiers; of the other fields each must be there and say something.
pub open spec fn description_of(
    tree: document::Tree,
    device_uuid: Seq<char>,
    udid: Seq<char>,
) -> Result<ProfileView, ProfileFault<Seq<char>>> {
    let name = required_text_at(tree, "device"@, "name"@);
    let serial = required_text_at(tree, "device"@, "serial"@);
    let model = required_text_at(tree, "software"@, "model"@);
    let model_class = required_text_at(tree, "software"@, "model_class"@);
    let os_version = required_text_at(tree, "software"@, "os_version"@);
    let build = required_text_at(tree, "software"@, "build"@);
    let cfnetwork_version = required_text_at(tree, "software"@, "cfnetwork_version"@);
    let darwin_version = required_text_at(tree, "software"@, "darwin_version"@);
    if name is Err {
        Err(name->Err_0)
    } else if serial is Err {
        Err(serial->Err_0)
    } else if model is Err {
        Err(model->Err_0)
    } else if model_class is Err {
        Err(model_class->Err_0)
    } else if os_version is Err {
        Err(os_version->Err_0)
    } else if build is Err {
        Err(build->Err_0)
    } else if cfnetwork_version is Err {
        Err(cfnetwork_version->Err_0)
    } else if darwin_version is Err {
        Err(darwin_version->Err_0)
    } else {
        Ok(
            ProfileView {
                name: name->Ok_0,
                serial: serial->Ok_0,
                model: model->Ok_0,
                model_class: model_class->Ok_0,
                device_uuid,
                udid,
                os_version: os_version->Ok_0,
                build: build->Ok_0,
                cfnetwork_version: cfnetwork_version->Ok_0,
                darwin_version: darwin_version->Ok_0,
            },
        )
    }
}

/// The escrow password of a profile: the text it holds, where it says that one is configured.
pub open spec fn escrow_of(tree: document::Tree) -> Result<
    Option<Seq<char>>,
    ProfileFault<Seq<char>>,
> {
    match text_at(tree, "escrow"@, "password"@) {
        Err(fault) => Err(fault),
        Ok(password) => match flag_at(tree, "escrow"@, "configured"@) {
            Err(fault) => Err(fault),
            Ok(configured) => Ok(
                if configured {
                    Some(password)
                } else {
                    None
                },
            ),
        },
    }
}

/// What the entries of a profile amount to.
#[verifier::ext_equal]
pub struct ProfileState {
    pub profile: ProfileView,
    pub escrow_password: Option<Seq<char>>,
    pub generated: bool,
    pub tree: document::Tree,
}

/// What the entries of a profile amount to, with fresh identifiers where it holds empty ones.
pub open spec fn profile_state(
    tree: document::Tree,
    fresh_uuid: Seq<char>,
    fresh_udid: nat,
) -> Result<ProfileState, ProfileFault<Seq<char>>> {
    match identifiers_of(tree, fresh_uuid, fresh_udid) {
        Err(fault) => Err(fault),
        Ok(identifiers) => match description_of(
            identifiers.tree,
            identifiers.device_uuid,
            identifiers.udid,
        ) {
            Err(fault) => Err(fault),
            Ok(profile) => match escrow_of(identifiers.tree) {
                Err(fault) => Err(fault),
                Ok(escrow_password) => Ok(
                    ProfileState {
                        profile,
                        escrow_password,
                        generated: identifiers.generated,
                        tree: identifiers.tree,
                    },
                ),
            },
        },
    }
}

/// What a profile text amounts to, with fresh identifiers where it holds empty ones.
pub open spec fn loaded_state(source: Seq<char>, fresh_uuid: Seq<char>, fresh_udid: nat) -> Result<
    ProfileState,
    ProfileFault<Seq<char>>,
> {
    match document::parsed_contents(source) {
        Err(words) => Err(ProfileFault::Syntax(words)),
        Ok(contents) => profile_state(contents.tree, fresh_uuid, fresh_udid),
    }
}

/// The places of the identifiers that a profile holds empty, so that fresh ones are filled in.
pub open spec fn filled_in(tree: document::Tree) -> Set<document::Place> {
    Set::new(
        |place: document::Place|
            (place == ("device"@, "device_uuid"@) || place == ("device"@, "udid"@)) && (text_at(
                tree,
                place.0,
                place.1,
            ) matches Ok(held) && held.len() == 0),
    )
}

/// Fills in the device UUID of a profile that holds an empty one, and tells whether it did.
fn settle_device_uuid(document: &mut Document, fresh_uuid: &str) -> (result: Result<
    (String, bool),
    ProfileError,
>)
    ensures
        document::keeps_parsed_layout(*old(document)) ==> document::keeps_parsed_layout(
            *final(document),
        ),
        match device_uuid_of(document::document_contents(*old(document)).tree, fresh_uuid@) {
            Ok((device_uuid, tree, generated)) => {
                &&& result matches Ok((u, g)) && u@ == device_uuid && g == generated
                &&& document::document_contents(*final(document)).tree == tree
            },
            Err(fault) => result matches Err(e) && fault_view(e) == fault,
        },
        document::layout_changed_only(
            document::document_contents(*old(document)).layout,
            document::document_contents(*final(document)).layout,
            filled_in(document::document_contents(*old(document)).tree),
        ),
        filled_in(document::document_contents(*final(document)).tree).subset_of(
            filled_in(document::document_contents(*old(document)).tree),
        ),
{
    proof {
        lemma_profile_keys();
    }
    match profile_string(document, "device", "device_uuid") {
        Err(fault) => Err(fault),
        Ok(held) => if held.as_str().is_empty() {
            let generated = text::upper_text(fresh_uuid);
            document::set_text(document, "device", "device_uuid", generated.as_str());
            Ok((generated, true))
        } else if identity::valid_uuid(held.as_str()) {
            Ok((held, false))
        } else {
            Err(ProfileFault::BadDeviceUuid)
        },
    }
}

/// Fills in the UDID of a profile that holds an empty one, and tells whether it did.
fn settle_udid(document: &mut Document, fresh_udid: u128) -> (result: Result<
    (String, bool),
    ProfileError,
>)
    ensures
        document::keeps_parsed_layout(*old(document)) ==> document::keeps_parsed_layout(
            *final(document),
        ),
        match udid_of(document::document_contents(*old(document)).tree, fresh_udid as nat) {
            Ok((udid, tree, generated)) => {
                &&& result matches Ok((u, g)) && u@ == udid && g == generated
                &&& document::document_contents(*final(document)).tree == tree
            },
            Err(fault) => result matches Err(e) && fault_view(e) == fault,
        },
        document::layout_changed_only(
            document::document_contents(*old(document)).layout,
            document::document_contents(*final(document)).layout,
            filled_in(document::document_contents(*old(document)).tree),
        ),
{
    match profile_string(document, "device", "udid") {
        Err(fault) => Err(fault),
        Ok(held) => if held.as_str().is_empty() {
            let generated = hexadecimal::padded_hex_text(fresh_udid, 32);
            document::set_text(document, "device", "udid", generated.as_str());
            Ok((generated, true))
        } else {
            let chars = text::chars_of(held.as_str());
            if chars.len() != 32 || !hexadecimal::only_hex_digits(&chars) {
                Err(ProfileFault::BadUdid)
            } else {
                Ok((held, false))
            }
        },
    }
}

/// The profile with these identifiers, from the entries of the document.
fn describe(document: &Document, device_uuid: String, udid: String) -> (result: Result<
    DeviceProfile,
    ProfileError,
>)
    ensures
        match description_of(document::document_contents(*document).tree, device_uuid@, udid@) {
            Ok(profile) => result matches Ok(p) && p@ == profile,
            Err(fault) => result matches Err(e) && fault_view(e) == fault,
        },
{
    let name = match required_profile_string(document, "device", "name") {
        Ok(found) => found,
        Err(fault) => {
            return Err(fault);
        },
    };
    let serial = match required_profile_string(document, "device", "serial") {
        Ok(found) => found,
        Err(fault) => {
            return Err(fault);
        },
    };
    let model = match required_profile_string(document, "software", "model") {
        Ok(found) => found,
        Err(fault) => {
            return Err(fault);
        },
    };
    let model_class = match required_profile_string(document, "software", "model_class") {
        Ok(found) => found,
        Err(fault) => {
            return Err(fault);
        },
    };
    let os_version = match required_profile_string(document, "software", "os_version") {
        Ok(found) => found,
        Err(fault) => {
            return Err(fault);
        },
    };
    let build = match required_profile_string(document, "software", "build") {
        Ok(found) => found,
        Err(fault) => {
            return Err(fault);
        },
    };
    let cfnetwork_version = match required_profile_string(document, "software", "cfnetwork_version") {
        Ok(found) => found,
        Err(fault) => {
            return Err(fault);
        },
    };
    let darwin_version = match required_profile_string(document, "software", "darwin_version") {
        Ok(found) => found,
        Err(fault) => {
            return Err(fault);
        },
    };
    Ok(
        DeviceProfile {
            name,
            serial,
            model,
            model_class,
            device_uuid,
            udid,
            os_version,
            build,
            cfnetwork_version,
            darwin_version,
        },
    )
}

/// The escrow password of a profile, where the document says that one is configured.
fn configured_escrow_password(document: &Document) -> (result: Result<Option<String>, ProfileError>)
    ensures
        match escrow_of(document::document_contents(*document).tree) {
            Ok(password) => result matches Ok(p) && text::text_view(p) == password,
            Err(fault) => result matches Err(e) && fault_view(e) == fault,
        },
{
    match profile_string(document, "escrow", "password") {
        Err(fault) => Err(fault),
        Ok(password) => match profile_bool(document, "escrow", "configured") {
            Err(fault) => Err(fault),
            Ok(configured) => if configured {
                Ok(Some(password))
            } else {
                Ok(None)
            },
        },
    }
}

/// The document of a profile that could be read.
#[derive(Debug)]
pub struct ProfileDocument {
    document: Document,
}

impl ProfileDocument {
    /// The document, as it was parsed and has been changed since.
    pub closed spec fn inner(&self) -> Document {
        self.document
    }

    /// The document came from the parser, and has room for an escrow password.
    pub open spec fn wf(&self) -> bool {
        &&& document::keeps_parsed_layout(self.inner())
        &&& escrow_of(document::document_contents(self.inner()).tree) is Ok
    }
}

/// A device profile together with the document that it was read from.
#[derive(Debug)]
pub struct LoadedDeviceProfile {
    pub profile: DeviceProfile,
    pub document: ProfileDocument,
    pub escrow_password: Option<String>,
}

/// A profile that was read, and what is left to do about its file.
#[derive(Debug)]
pub struct ProfileLoad {
    pub loaded: LoadedDeviceProfile,
    /// The text to replace the file by, where identifiers had to be generated.
    pub rewritten: Option<String>,
    /// Whether the file holds an escrow password, so that its mode has to be private.
    pub holds_password: bool,
}

/// The entries of a profile after `password` was made its escrow password.
pub open spec fn with_escrow_password(tree: document::Tree, password: Seq<char>) -> document::Tree {
    document::with_node(
        document::with_node(tree, "escrow"@, "password"@, document::Node::Text(password)),
        "escrow"@,
        "configured"@,
        document::Node::Flag(true),
    )
}

/// The two places that hold the escrow password of a profile.
pub open spec fn escrow_places() -> Set<document::Place> {
    set![("escrow"@, "password"@), ("escrow"@, "configured"@)]
}

impl LoadedDeviceProfile {
    /// The entries of the document.
    pub open spec fn tree(&self) -> document::Tree {
        document::document_contents(self.document.inner()).tree
    }

    /// The parts of the text of the document.
    pub open spec fn layout(&self) -> Seq<document::Piece> {
        document::document_contents(self.document.inner()).layout
    }

    /// The document came from the parser, and has room for an escrow password.
    pub open spec fn wf(&self) -> bool {
        self.document.wf()
    }

    /// Makes `password` the escrow password of the document, and gives the text to write to the
    /// file. The password counts as saved only once that has been written.
    pub fn save_escrow_password(&mut self, password: &str) -> (source: String)
        requires
            old(self).wf(),
        ensures
            final(self).wf(),
            final(self).profile == old(self).profile,
            final(self).escrow_password == old(self).escrow_password,
            final(self).tree() == with_escrow_password(old(self).tree(), password@),
            document::layout_changed_only(
                old(self).layout(),
                final(self).layout(),
                escrow_places(),
            ),
            source@ == document::written_out(final(self).layout()),
            document::reads_as(source@, final(self).tree()),
    {
        proof {
            lemma_escrow_keys();
        }
        let ghost before = self.layout();
        document::set_text(&mut self.document.document, "escrow", "password", password);
        let ghost between = self.layout();
        document::set_flag(&mut self.document.document, "escrow", "configured", true);
        proof {
            document::lemma_layout_changed_in_turn(
                before,
                between,
                self.layout(),
                set![("escrow"@, "password"@)],
                set![("escrow"@, "configured"@)],
                escrow_places(),
            );
        }
        document::render_document(&self.document.document)
    }

    /// Takes note that `password` was written to the file.
    pub fn escrow_password_saved(&mut self, password: &str)
        ensures
            final(self).escrow_password matches Some(p) && p@ == password@,
            final(self).profile == old(self).profile,
            final(self).document == old(self).document,
            final(self).wf() == old(self).wf(),
    {
        self.escrow_password = Some(password.to_owned());
    }
}

proof fn lemma_escrow_keys()
    ensures
        ("escrow"@, "password"@) != ("escrow"@, "configured"@),
{
    reveal_strlit("password");
    reveal_strlit("configured");
    assert("password"@.len() != "configured"@.len());
}

/// Whether `result` is what a state of a profile, or a fault, comes to.
pub open spec fn load_agrees(
    result: Result<ProfileLoad, ProfileError>,
    state: Result<ProfileState, ProfileFault<Seq<char>>>,
) -> bool {
    match state {
        Err(fault) => result matches Err(e) && fault_view(e) == fault,
        Ok(state) => {
            &&& result matches Ok(load)
            &&& load.loaded.profile@ == state.profile
            &&& load.loaded.tree() == state.tree
            &&& load.loaded.wf()
            &&& text::text_view(load.loaded.escrow_password) == state.escrow_password
            &&& load.rewritten is Some == state.generated
            &&& load.rewritten matches Some(source) ==> source@ == document::written_out(
                load.loaded.layout(),
            ) && document::reads_as(source@, state.tree)
            &&& load.holds_password == state.escrow_password is Some
        },
    }
}

/// Whether a profile that could be taken from a document is laid out as the document was, but for
/// the identifiers that were filled in.
pub open spec fn load_keeps_layout(
    result: Result<ProfileLoad, ProfileError>,
    before: document::Contents,
) -> bool {
    result matches Ok(load) ==> document::layout_changed_only(
        before.layout,
        load.loaded.layout(),
        filled_in(before.tree),
    )
}

/// What comes of a profile whose file has this mode, where files have modes: one that holds an
/// escrow password is refused where group or other users may access the file.
pub open spec fn admitted(
    state: Result<ProfileState, ProfileFault<Seq<char>>>,
    mode: Option<u32>,
) -> Result<ProfileState, ProfileFault<Seq<char>>> {
    match (state, mode) {
        (Ok(found), Some(bits)) => if found.escrow_password is Some && bits & 0o077 != 0 {
            Err(ProfileFault::Exposed)
        } else {
            Ok(found)
        },
        _ => state,
    }
}

/// Refuses a profile that holds an escrow password in a file of a mode that lets group or other
/// users at it. `mode` is the one that the file had when it was read.
pub fn admit_profile(load: &ProfileLoad, mode: u32) -> (result: Result<(), ProfileError>)
    ensures
        result == if load.holds_password && mode & 0o077 != 0 {
            Err(ProfileFault::Exposed)
        } else {
            Ok::<(), ProfileError>(())
        },
{
    if load.holds_password {
        ensure_private_profile_permissions(mode)
    } else {
        Ok(())
    }
}

impl DeviceProfile {
    /// Takes a profile from a parsed document, with these identifiers where it holds empty ones.
    pub fn from_document(document: Document, fresh_uuid: &str, fresh_udid: u128) -> (result: Result<
        ProfileLoad,
        ProfileError,
    >)
        requires
            document::keeps_parsed_layout(document),
        ensures
            load_agrees(
                result,
                profile_state(
                    document::document_contents(document).tree,
                    fresh_uuid@,
                    fresh_udid as nat,
                ),
            ),
            load_keeps_layout(result, document::document_contents(document)),
    {
        let ghost before = document::document_contents(document);
        let mut document = document;
        let (device_uuid, made_uuid) = match settle_device_uuid(&mut document, fresh_uuid) {
            Ok(settled) => settled,
            Err(fault) => {
                return Err(fault);
            },
        };
        let ghost between = document::document_contents(document);
        let (udid, made_udid) = match settle_udid(&mut document, fresh_udid) {
            Ok(settled) => settled,
            Err(fault) => {
                return Err(fault);
            },
        };
        proof {
            document::lemma_layout_changed_in_turn(
                before.layout,
                between.layout,
                document::document_contents(document).layout,
                filled_in(before.tree),
                filled_in(between.tree),
                filled_in(before.tree),
            );
        }
        let profile = match describe(&document, device_uuid, udid) {
            Ok(profile) => profile,
            Err(fault) => {
                return Err(fault);
            },
        };
        let escrow_password = match configured_escrow_password(&document) {
            Ok(escrow_password) => escrow_password,
            Err(fault) => {
                return Err(fault);
            },
        };
        let rewritten = if made_uuid || made_udid {
            Some(document::render_document(&document))
        } else {
            None
        };
        let holds_password = escrow_password.is_some();
        Ok(
            ProfileLoad {
                loaded: LoadedDeviceProfile {
                    profile,
                    document: ProfileDocument { document },
                    escrow_password,
                },
                rewritten,
                holds_password,
            },
        )
    }

    /// Reads a profile, with these identifiers where it holds empty ones.
    pub fn load_with(source: &str, fresh_uuid: &str, fresh_udid: u128) -> (result: Result<
        ProfileLoad,
        ProfileError,
    >)
        ensures
            load_agrees(result, loaded_state(source@, fresh_uuid@, fresh_udid as nat)),
            document::parsed_contents(source@) matches Ok(before) ==> load_keeps_layout(
                result,
                before,
            ),
    {
        match document::parse_document(source) {
            Ok(document) => DeviceProfile::from_document(document, fresh_uuid, fresh_udid),
            Err(words) => Err(ProfileFault::Syntax(words)),
        }
    }

    /// Reads a profile, with random identifiers where it holds empty ones. `mode` is that of its
    /// file as it was read, where files have modes.
    pub fn load(source: &str, mode: Option<u32>) -> (result: Result<ProfileLoad, ProfileError>)
        ensures
            exists|fresh_uuid: Seq<char>, fresh_udid: nat|
                identity::is_random_uuid(fresh_uuid) && fresh_udid <= u128::MAX && load_agrees(
                    result,
                    admitted(#[trigger] loaded_state(source@, fresh_uuid, fresh_udid), mode),
                ),
            document::parsed_contents(source@) matches Ok(before) ==> load_keeps_layout(
                result,
                before,
            ),
    {
        let fresh_uuid = identity::random_uuid();
        let fresh_udid = identity::random_number();
        let read = DeviceProfile::load_with(source, fresh_uuid.as_str(), fresh_udid);
        let ghost state = loaded_state(source@, fresh_uuid@, fresh_udid as nat);
        let result = match (read, mode) {
            (Ok(load), Some(bits)) => match admit_profile(&load, bits) {
                Ok(()) => Ok(load),
                Err(fault) => Err(fault),
            },
            (read, _) => read,
        };
        proof {
            assert(load_agrees(result, admitted(state, mode)));
        }
        result
    }
}

proof fn lemma_profile_keys()
    ensures
        "escrow"@ != "device"@,
        "escrow"@ != "software"@,
        "device"@ != "software"@,
        "device_uuid"@ != "udid"@,
        "device_uuid"@ != "name"@,
        "device_uuid"@ != "serial"@,
        "udid"@ != "name"@,
        "udid"@ != "serial"@,
{
    reveal_strlit("escrow");
    reveal_strlit("device");
    reveal_strlit("software");
    reveal_strlit("device_uuid");
    reveal_strlit("udid");
    reveal_strlit("name");
    reveal_strlit("serial");
    assert("escrow"@[0] != "device"@[0]);
    assert("escrow"@.len() != "software"@.len());
    assert("device"@.len() != "software"@.len());
    assert("device_uuid"@.len() != "udid"@.len());
    assert("device_uuid"@.len() != "name"@.len());
    assert("device_uuid"@.len() != "serial"@.len());
    assert("udid"@[0] != "name"@[0]);
    assert("udid"@.len() != "serial"@.len());
}

/// A profile that was read, and whose rewritten text was kept, reads the same ever after: its
/// identity, its identifiers and its escrow password stay, and nothing is generated again.
pub proof fn law_identifiers_are_stable(
    source: Seq<char>,
    kept: Seq<char>,
    fresh_uuid: Seq<char>,
    fresh_udid: nat,
    later_uuid: Seq<char>,
    later_udid: nat,
)
    requires
        identity::is_random_uuid(fresh_uuid),
        loaded_state(source, fresh_uuid, fresh_udid) is Ok,
        document::reads_as(kept, loaded_state(source, fresh_uuid, fresh_udid)->Ok_0.tree),
    ensures
        loaded_state(kept, later_uuid, later_udid) matches Ok(later) && later == (ProfileState {
            generated: false,
            ..loaded_state(source, fresh_uuid, fresh_udid)->Ok_0
        }),
{
    lemma_profile_keys();
    identity::lemma_upper_keeps_hyphenated(fresh_uuid);
    hexadecimal::lemma_padded_hex(fresh_udid, 32);
    let state = loaded_state(source, fresh_uuid, fresh_udid)->Ok_0;
    let tree = state.tree;
    assert(device_uuid_of(tree, later_uuid) matches Ok(settled) && settled == (
        state.profile.device_uuid,
        tree,
        false,
    ));
    assert(udid_of(tree, later_udid) matches Ok(settled) && settled == (
        state.profile.udid,
        tree,
        false,
    ));
}

/// A profile that was read, and whose escrow password was then saved, reads back with exactly that
/// password, an empty one too. Its identity and its identifiers stay, and nothing is generated again.
pub proof fn law_saved_password_reads_back(
    source: Seq<char>,
    password: Seq<char>,
    kept: Seq<char>,
    fresh_uuid: Seq<char>,
    fresh_udid: nat,
    later_uuid: Seq<char>,
    later_udid: nat,
)
    requires
        identity::is_random_uuid(fresh_uuid),
        loaded_state(source, fresh_uuid, fresh_udid) is Ok,
        document::reads_as(
            kept,
            with_escrow_password(
                loaded_state(source, fresh_uuid, fresh_udid)->Ok_0.tree,
                password,
            ),
        ),
    ensures
        loaded_state(kept, later_uuid, later_udid) matches Ok(later) && later == (ProfileState {
            escrow_password: Some(password),
            generated: false,
            tree: with_escrow_password(
                loaded_state(source, fresh_uuid, fresh_udid)->Ok_0.tree,
                password,
            ),
            ..loaded_state(source, fresh_uuid, fresh_udid)->Ok_0
        }),
{
    lemma_profile_keys();
    lemma_escrow_keys();
    identity::lemma_upper_keeps_hyphenated(fresh_uuid);
    hexadecimal::lemma_padded_hex(fresh_udid, 32);
    let state = loaded_state(source, fresh_uuid, fresh_udid)->Ok_0;
    let tree = with_escrow_password(state.tree, password);
    assert(device_uuid_of(tree, later_uuid) matches Ok(settled) && settled == (
        state.profile.device_uuid,
        tree,
        false,
    ));
    assert(udid_of(tree, later_udid) matches Ok(settled) && settled == (
        state.profile.udid,
        tree,
        false,
    ));
}

/// Where a profile holds both identifiers, what was freshly made plays no part.
pub proof fn law_settled_profile_ignores_fresh_identifiers(
    source: Seq<char>,
    fresh_uuid: Seq<char>,
    fresh_udid: nat,
    later_uuid: Seq<char>,
    later_udid: nat,
)
    requires
        loaded_state(source, fresh_uuid, fresh_udid) matches Ok(state) && !state.generated,
    ensures
        loaded_state(source, later_uuid, later_udid) == loaded_state(
            source,
            fresh_uuid,
            fresh_udid,
        ),
{
}

/// The identifiers of a profile that could be read are a UUID and thirty-two hexadecimal digits.
pub proof fn law_identifiers_are_valid(source: Seq<char>, fresh_uuid: Seq<char>, fresh_udid: nat)
    requires
        identity::is_random_uuid(fresh_uuid),
        loaded_state(source, fresh_uuid, fresh_udid) is Ok,
    ensures
        identity::is_uuid(loaded_state(source, fresh_uuid, fresh_udid)->Ok_0.profile.device_uuid),
        is_udid(loaded_state(source, fresh_uuid, fresh_udid)->Ok_0.profile.udid),
{
    identity::lemma_upper_keeps_hyphenated(fresh_uuid);
    hexadecimal::lemma_padded_hex(fresh_udid, 32);
}

/// A profile that holds an escrow password is refused where group or other users may access its
/// file, whether its identifiers are still to be generated or not. One that holds none is never
/// refused for the mode of its file.
pub proof fn law_exposed_password_is_refused(
    source: Seq<char>,
    fresh_uuid: Seq<char>,
    fresh_udid: nat,
    mode: u32,
)
    requires
        loaded_state(source, fresh_uuid, fresh_udid) is Ok,
    ensures
        ({
            let state = loaded_state(source, fresh_uuid, fresh_udid);
            if state->Ok_0.escrow_password is Some && mode % 64 != 0 {
                admitted(state, Some(mode)) == Err::<ProfileState, ProfileFault<Seq<char>>>(
                    ProfileFault::Exposed,
                )
            } else {
                admitted(state, Some(mode)) == state
            }
        }),
{
    law_private_mode(mode);
}

/// Reading a profile changes none of its entries, of whatever type and at whatever depth, but the
/// identifiers that it holds empty.
pub proof fn law_load_changes_only_empty_identifiers(
    source: Seq<char>,
    fresh_uuid: Seq<char>,
    fresh_udid: nat,
)
    requires
        loaded_state(source, fresh_uuid, fresh_udid) is Ok,
    ensures
        document::changed_only(
            document::parsed_contents(source)->Ok_0.tree,
            loaded_state(source, fresh_uuid, fresh_udid)->Ok_0.tree,
            filled_in(document::parsed_contents(source)->Ok_0.tree),
        ),
{
    lemma_profile_keys();
    let tree = document::parsed_contents(source)->Ok_0.tree;
    let (device_uuid, between, made_uuid) = device_uuid_of(tree, fresh_uuid)->Ok_0;
    let (udid, after, made_udid) = udid_of(between, fresh_udid)->Ok_0;
    let places = filled_in(tree);
    let first = if made_uuid {
        set![("device"@, "device_uuid"@)]
    } else {
        Set::<document::Place>::empty()
    };
    let second = if made_udid {
        set![("device"@, "udid"@)]
    } else {
        Set::<document::Place>::empty()
    };
    if made_uuid {
        document::lemma_with_node(
            tree,
            "device"@,
            "device_uuid"@,
            document::Node::Text(device_uuid),
        );
    }
    if made_udid {
        document::lemma_with_node(between, "device"@, "udid"@, document::Node::Text(udid));
    }
    assert(document::changed_only(tree, between, first));
    assert(document::changed_only(between, after, second));
    document::lemma_changed_in_turn(tree, between, after, first, second, places);
}

/// Saving an escrow password changes no other entry, of whatever type and at whatever depth.
pub proof fn law_saving_changes_only_the_password(tree: document::Tree, password: Seq<char>)
    requires
        escrow_of(tree) is Ok,
    ensures
        document::changed_only(tree, with_escrow_password(tree, password), escrow_places()),
{
    lemma_escrow_keys();
    let between = document::with_node(
        tree,
        "escrow"@,
        "password"@,
        document::Node::Text(password),
    );
    document::lemma_with_node(tree, "escrow"@, "password"@, document::Node::Text(password));
    document::lemma_with_node(between, "escrow"@, "configured"@, document::Node::Flag(true));
    document::lemma_changed_in_turn(
        tree,
        between,
        with_escrow_password(tree, password),
        set![("escrow"@, "password"@)],
        set![("escrow"@, "configured"@)],
        escrow_places(),
    );
}

/// A fault is seen as it is, with its very texts.
pub proof fn law_faults_are_seen_whole(words: String, section: String, key: String)
    ensures
        fault_view(ProfileFault::Template) == ProfileFault::<Seq<char>>::Template,
        fault_view(ProfileFault::Unreadable(words)) == ProfileFault::Unreadable(words@),
        fault_view(ProfileFault::Syntax(words)) == ProfileFault::Syntax(words@),
        fault_view(ProfileFault::NotText { section, key }) == (ProfileFault::NotText {
            section: section@,
            key: key@,
        }),
        fault_view(ProfileFault::NotFlag { section, key }) == (ProfileFault::NotFlag {
            section: section@,
            key: key@,
        }),
        fault_view(ProfileFault::Blank { section, key }) == (ProfileFault::Blank {
            section: section@,
            key: key@,
        }),
        fault_view(ProfileFault::BadDeviceUuid) == ProfileFault::<Seq<char>>::BadDeviceUuid,
        fault_view(ProfileFault::BadUdid) == ProfileFault::<Seq<char>>::BadUdid,
        fault_view(ProfileFault::Exposed) == ProfileFault::<Seq<char>>::Exposed,
        fault_view(ProfileFault::SetupUnavailable) == ProfileFault::<Seq<char>>::SetupUnavailable,
        fault_view(ProfileFault::BadChoice(words)) == ProfileFault::BadChoice(words@),
        text_result_view(Ok(words)) == Ok::<Seq<char>, ProfileFault<Seq<char>>>(words@),
        text_result_view(Err(ProfileFault::Syntax(words))) == Err::<
            Seq<char>,
            ProfileFault<Seq<char>>,
        >(ProfileFault::Syntax(words@)),
        forall|flag: bool| #[trigger]
            result_view(Ok::<bool, ProfileError>(flag)) == Ok::<bool, ProfileFault<Seq<char>>>(flag),
        forall|fault: ProfileError| #[trigger]
            result_view(Err::<bool, ProfileError>(fault)) == Err::<bool, ProfileFault<Seq<char>>>(
                fault_view(fault),
            ),
        forall|fault: ProfileError| #[trigger]
            text_result_view(Err(fault)) == Err::<Seq<char>, ProfileFault<Seq<char>>>(
                fault_view(fault),
            ),
{
}

/// The words for each fault: those about a field name its section and key, those about the file its
/// path, and those that repeat something repeat all of it.
pub proof fn law_fault_messages(
    path: Seq<char>,
    words: Seq<char>,
    section: Seq<char>,
    key: Seq<char>,
)
    ensures
        fault_message(ProfileFault::Template, path) == path
            + " is a template. Copy it to a private path such as .local/device-profile.toml and use that copy."@,
        fault_message(ProfileFault::Unreadable(words), path) == "Could not read device profile "@
            + path + ": "@ + words
            + ". Copy device-profile.template.toml to a private path and pass it with --device-profile."@,
        fault_message(ProfileFault::Syntax(words), path) == "Invalid device profile "@ + path + ": "@
            + words,
        fault_message(ProfileFault::NotText { section, key }, path) == "device profile field `"@
            + section + "."@ + key + "` "@ + "must be a string"@,
        fault_message(ProfileFault::NotFlag { section, key }, path) == "device profile field `"@
            + section + "."@ + key + "` "@ + "must be a boolean"@,
        fault_message(ProfileFault::Blank { section, key }, path) == "device profile field `"@
            + section + "."@ + key + "` "@ + "cannot be empty"@,
        fault_message(ProfileFault::BadDeviceUuid, path) == "device_uuid must be a valid UUID"@,
        fault_message(ProfileFault::BadUdid, path)
            == "udid must contain exactly 32 hexadecimal characters"@,
        fault_message(ProfileFault::Exposed, path) == "Device profile "@ + path
            + " contains the escrow password and must not be accessible by group or other users; run chmod 600 '"@
            + path + "'"@,
        fault_message(ProfileFault::SetupUnavailable, path) == "No escrow password exists in "@
            + path + " and interactive setup is unavailable"@,
        fault_message(ProfileFault::BadChoice(words), path) == "Invalid escrow password choice: "@
            + words,
{
}

/// A profile is seen as it is, field by field, and its document as that was parsed and changed.
pub proof fn law_profile_is_seen_whole(profile: DeviceProfile, loaded: LoadedDeviceProfile)
    ensures
        profile@.name == profile.name@,
        profile@.serial == profile.serial@,
        profile@.model == profile.model@,
        profile@.model_class == profile.model_class@,
        profile@.device_uuid == profile.device_uuid@,
        profile@.udid == profile.udid@,
        profile@.os_version == profile.os_version@,
        profile@.build == profile.build@,
        profile@.cfnetwork_version == profile.cfnetwork_version@,
        profile@.darwin_version == profile.darwin_version@,
        loaded.tree() == document::document_contents(loaded.document.inner()).tree,
        loaded.layout() == document::document_contents(loaded.document.inner()).layout,
        loaded.wf() <==> document::keeps_parsed_layout(loaded.document.inner())
            && node_is_text(loaded.tree(), "escrow"@, "password"@) && node_is_flag(
            loaded.tree(),
            "escrow"@,
            "configured"@,
        ),
{
}

/// Whether there is a text in this place.
pub open spec fn node_is_text(tree: document::Tree, section: Seq<char>, key: Seq<char>) -> bool {
    document::node_at(tree, section, key) matches Some(node) && node is Text
}

/// Whether there is a boolean in this place.
pub open spec fn node_is_flag(tree: document::Tree, section: Seq<char>, key: Seq<char>) -> bool {
    document::node_at(tree, section, key) matches Some(node) && node is Flag
}

/// Whether there is a text in this place that is not empty.
pub open spec fn node_is_filled(tree: document::Tree, section: Seq<char>, key: Seq<char>) -> bool {
    document::node_at(tree, section, key) matches Some(document::Node::Text(words)) && words.len()
        > 0
}

/// Whether this text, which is not empty, is what stands in this place.
pub open spec fn node_says(
    tree: document::Tree,
    section: Seq<char>,
    key: Seq<char>,
    words: Seq<char>,
) -> bool {
    document::node_at(tree, section, key) == Some(document::Node::Text(words)) && words.len() > 0
}

/// A field is read as it stands. A text that is missing or is none is a fault that names the place,
/// and so are an empty one that must say something, and a boolean that is missing or is none.
pub proof fn law_fields_are_read(tree: document::Tree, section: Seq<char>, key: Seq<char>)
    ensures
        document::node_at(tree, section, key) matches Some(document::Node::Text(words)) ==> {
            &&& text_at(tree, section, key) == Ok::<Seq<char>, ProfileFault<Seq<char>>>(words)
            &&& required_text_at(tree, section, key) == if words.len() > 0 {
                Ok::<Seq<char>, ProfileFault<Seq<char>>>(words)
            } else {
                Err(ProfileFault::Blank { section, key })
            }
        },
        !node_is_text(tree, section, key) ==> text_at(tree, section, key) == Err::<
            Seq<char>,
            ProfileFault<Seq<char>>,
        >(ProfileFault::NotText { section, key }) && required_text_at(tree, section, key) == Err::<
            Seq<char>,
            ProfileFault<Seq<char>>,
        >(ProfileFault::NotText { section, key }),
        document::node_at(tree, section, key) matches Some(document::Node::Flag(flag)) ==> flag_at(
            tree,
            section,
            key,
        ) == Ok::<bool, ProfileFault<Seq<char>>>(flag),
        !node_is_flag(tree, section, key) ==> flag_at(tree, section, key) == Err::<
            bool,
            ProfileFault<Seq<char>>,
        >(ProfileFault::NotFlag { section, key }),
{
}

/// What reading a profile gives is what stands in its file: each field as it is there, an identifier
/// too unless it is empty there, and the password exactly where it is said to be configured. The
/// document holds the same, with the identifiers that were filled in, and only where there were such
/// is there a text to write, which reads as the document does.
pub proof fn law_profile_comes_from_its_file(
    result: Result<ProfileLoad, ProfileError>,
    source: Seq<char>,
    fresh_uuid: Seq<char>,
    fresh_udid: nat,
    mode: Option<u32>,
)
    requires
        load_agrees(result, admitted(loaded_state(source, fresh_uuid, fresh_udid), mode)),
        result is Ok,
    ensures
        document::parsed_contents(source) is Ok,
        ({
            let tree = document::parsed_contents(source)->Ok_0.tree;
            let load = result->Ok_0;
            &&& node_says(tree, "device"@, "name"@, load.loaded.profile.name@)
            &&& node_says(tree, "device"@, "serial"@, load.loaded.profile.serial@)
            &&& node_says(tree, "software"@, "model"@, load.loaded.profile.model@)
            &&& node_says(tree, "software"@, "model_class"@, load.loaded.profile.model_class@)
            &&& node_says(tree, "software"@, "os_version"@, load.loaded.profile.os_version@)
            &&& node_says(tree, "software"@, "build"@, load.loaded.profile.build@)
            &&& node_says(tree, "software"@, "cfnetwork_version"@, load.loaded.profile.cfnetwork_version@)
            &&& node_says(tree, "software"@, "darwin_version"@, load.loaded.profile.darwin_version@)
            &&& node_is_text(tree, "device"@, "device_uuid"@)
            &&& node_is_text(tree, "device"@, "udid"@)
            &&& node_is_text(tree, "escrow"@, "password"@)
            &&& node_is_flag(tree, "escrow"@, "configured"@)
        }),
        ({
            let tree = document::parsed_contents(source)->Ok_0.tree;
            let load = result->Ok_0;
            let held = document::node_at(tree, "device"@, "device_uuid"@)->Some_0->Text_0;
            &&& held.len() > 0 ==> load.loaded.profile.device_uuid@ == held && identity::is_uuid(
                held,
            )
            &&& held.len() == 0 ==> load.loaded.profile.device_uuid@ == text::ascii_uppered(
                fresh_uuid,
            )
            &&& document::node_at(load.loaded.tree(), "device"@, "device_uuid"@) == Some(
                document::Node::Text(load.loaded.profile.device_uuid@),
            )
        }),
        ({
            let tree = document::parsed_contents(source)->Ok_0.tree;
            let load = result->Ok_0;
            let held = document::node_at(tree, "device"@, "udid"@)->Some_0->Text_0;
            &&& held.len() > 0 ==> load.loaded.profile.udid@ == held
            &&& held.len() == 0 ==> load.loaded.profile.udid@ == hexadecimal::padded_hex(
                fresh_udid,
                32,
            )
            &&& load.loaded.profile.udid@.len() == 32
            &&& forall|i: int|
                0 <= i < 32 ==> (48 <= #[trigger] load.loaded.profile.udid@[i] as int <= 57 || 65
                    <= load.loaded.profile.udid@[i] as int <= 70 || 97
                    <= load.loaded.profile.udid@[i] as int <= 102)
            &&& document::node_at(load.loaded.tree(), "device"@, "udid"@) == Some(
                document::Node::Text(load.loaded.profile.udid@),
            )
        }),
        ({
            let tree = document::parsed_contents(source)->Ok_0.tree;
            let load = result->Ok_0;
            let password = document::node_at(tree, "escrow"@, "password"@)->Some_0->Text_0;
            let configured = document::node_at(tree, "escrow"@, "configured"@)->Some_0->Flag_0;
            &&& load.holds_password == configured
            &&& configured ==> (load.loaded.escrow_password matches Some(p) && p@ == password)
            &&& !configured ==> load.loaded.escrow_password is None
            &&& configured ==> (mode matches Some(bits) ==> bits % 64 == 0)
            &&& load.loaded.wf()
        }),
        ({
            let tree = document::parsed_contents(source)->Ok_0.tree;
            let load = result->Ok_0;
            &&& load.rewritten is Some <==> !node_is_filled(tree, "device"@, "device_uuid"@)
                || !node_is_filled(tree, "device"@, "udid"@)
            &&& load.rewritten matches Some(kept) ==> kept@ == document::written_out(
                load.loaded.layout(),
            ) && document::parsed_contents(kept@) is Ok && document::parsed_contents(kept@)->Ok_0.tree
                == load.loaded.tree()
            &&& load.rewritten is None ==> load.loaded.tree() == tree
        }),
{
    lemma_profile_keys();
    hexadecimal::lemma_padded_hex(fresh_udid, 32);
    if let Some(bits) = mode {
        law_private_mode(bits);
    }
    let udid = result->Ok_0.loaded.profile.udid@;
    assert forall|i: int| 0 <= i < 32 implies (48 <= #[trigger] udid[i] as int <= 57 || 65
        <= udid[i] as int <= 70 || 97 <= udid[i] as int <= 102) by {
        assert(hexadecimal::is_hex_digit(udid[i]));
    }
}

/// The fields of a profile that must say something, in the order in which they are looked at.
pub open spec fn required_places() -> Seq<document::Place> {
    seq![
        ("device"@, "name"@),
        ("device"@, "serial"@),
        ("software"@, "model"@),
        ("software"@, "model_class"@),
        ("software"@, "os_version"@),
        ("software"@, "build"@),
        ("software"@, "cfnetwork_version"@),
        ("software"@, "darwin_version"@),
    ]
}

/// Whether the device UUID of a profile is empty, or a UUID.
pub open spec fn device_uuid_is_fine(tree: document::Tree) -> bool {
    document::node_at(tree, "device"@, "device_uuid"@) matches Some(document::Node::Text(held)) && (
    held.len() == 0 || identity::is_uuid(held))
}

/// Whether the UDID of a profile is empty, or thirty-two hexadecimal digits.
pub open spec fn udid_is_fine(tree: document::Tree) -> bool {
    document::node_at(tree, "device"@, "udid"@) matches Some(document::Node::Text(held)) && (
    held.len() == 0 || held.len() == 32 && forall|i: int|
        0 <= i < 32 ==> (48 <= #[trigger] held[i] as int <= 57 || 65 <= held[i] as int <= 70 || 97
            <= held[i] as int <= 102))
}

proof fn lemma_udid_is_fine(tree: document::Tree)
    ensures
        udid_is_fine(tree) <==> (document::node_at(tree, "device"@, "udid"@) matches Some(
            document::Node::Text(held),
        ) && (held.len() == 0 || is_udid(held))),
{
    if let Some(document::Node::Text(held)) = document::node_at(tree, "device"@, "udid"@) {
        if is_udid(held) {
            assert forall|i: int| 0 <= i < 32 implies (48 <= #[trigger] held[i] as int <= 57 || 65
                <= held[i] as int <= 70 || 97 <= held[i] as int <= 102) by {
                assert(hexadecimal::is_hex_digit(held[i]));
            }
        } else if held.len() == 32 && udid_is_fine(tree) {
            let i = choose|i: int| 0 <= i < 32 && !hexadecimal::is_hex_digit(#[trigger] held[i]);
            assert(48 <= held[i] as int <= 57 || 65 <= held[i] as int <= 70 || 97 <= held[i] as int
                <= 102);
        }
    }
}

/// When a profile can be read: its file is TOML, its identifiers are empty or fine, each field that
/// must say something does, and there is an escrow password with a boolean that says whether it is
/// configured. Where it is, others must not have access to the file.
pub proof fn law_when_a_profile_can_be_read(
    result: Result<ProfileLoad, ProfileError>,
    source: Seq<char>,
    fresh_uuid: Seq<char>,
    fresh_udid: nat,
    mode: Option<u32>,
)
    requires
        load_agrees(result, admitted(loaded_state(source, fresh_uuid, fresh_udid), mode)),
    ensures
        result is Ok <==> (document::parsed_contents(source) matches Ok(contents) && {
            let tree = contents.tree;
            &&& device_uuid_is_fine(tree)
            &&& udid_is_fine(tree)
            &&& forall|k: int|
                0 <= k < 8 ==> node_is_filled(
                    tree,
                    (#[trigger] required_places()[k]).0,
                    required_places()[k].1,
                )
            &&& node_is_text(tree, "escrow"@, "password"@)
            &&& node_is_flag(tree, "escrow"@, "configured"@)
            &&& document::node_at(tree, "escrow"@, "configured"@) == Some(
                document::Node::Flag(true),
            ) && mode is Some ==> mode->Some_0 % 64 == 0
        }),
{
    lemma_profile_keys();
    if let Some(bits) = mode {
        law_private_mode(bits);
    }
    if let Ok(contents) = document::parsed_contents(source) {
        let tree = contents.tree;
        lemma_udid_is_fine(tree);
        let places = required_places();
        assert((forall|k: int|
            0 <= k < 8 ==> node_is_filled(tree, (#[trigger] places[k]).0, places[k].1)) <==> {
            &&& node_is_filled(tree, "device"@, "name"@)
            &&& node_is_filled(tree, "device"@, "serial"@)
            &&& node_is_filled(tree, "software"@, "model"@)
            &&& node_is_filled(tree, "software"@, "model_class"@)
            &&& node_is_filled(tree, "software"@, "os_version"@)
            &&& node_is_filled(tree, "software"@, "build"@)
            &&& node_is_filled(tree, "software"@, "cfnetwork_version"@)
            &&& node_is_filled(tree, "software"@, "darwin_version"@)
        }) by {
            if forall|k: int|
                0 <= k < 8 ==> node_is_filled(tree, (#[trigger] places[k]).0, places[k].1) {
                assert(node_is_filled(tree, places[0].0, places[0].1));
                assert(node_is_filled(tree, places[1].0, places[1].1));
                assert(node_is_filled(tree, places[2].0, places[2].1));
                assert(node_is_filled(tree, places[3].0, places[3].1));
                assert(node_is_filled(tree, places[4].0, places[4].1));
                assert(node_is_filled(tree, places[5].0, places[5].1));
                assert(node_is_filled(tree, places[6].0, places[6].1));
                assert(node_is_filled(tree, places[7].0, places[7].1));
            }
        }
        if device_uuid_is_fine(tree) && udid_is_fine(tree) {
            lemma_filling_in_keeps_fields(tree, fresh_uuid, fresh_udid);
        }
    }
}

/// Filling in the identifiers of a profile leaves the other fields that are looked at alone.
proof fn lemma_filling_in_keeps_fields(
    tree: document::Tree,
    fresh_uuid: Seq<char>,
    fresh_udid: nat,
)
    requires
        device_uuid_is_fine(tree),
        udid_is_fine(tree),
    ensures
        identifiers_of(tree, fresh_uuid, fresh_udid) is Ok,
        forall|section: Seq<char>, key: Seq<char>|
            !(section == "device"@ && (key == "device_uuid"@ || key == "udid"@))
                ==> #[trigger] document::node_at(
                identifiers_of(tree, fresh_uuid, fresh_udid)->Ok_0.tree,
                section,
                key,
            ) == document::node_at(tree, section, key),
{
    lemma_profile_keys();
    lemma_udid_is_fine(tree);
}

/// Which fault a profile that cannot be read is refused for: the first one in the order file,
/// device UUID, UDID, the fields that must say something, escrow password, and last the mode of the
/// file.
pub proof fn law_first_fault_is_told(
    result: Result<ProfileLoad, ProfileError>,
    source: Seq<char>,
    fresh_uuid: Seq<char>,
    fresh_udid: nat,
    mode: Option<u32>,
    k: int,
)
    requires
        load_agrees(result, admitted(loaded_state(source, fresh_uuid, fresh_udid), mode)),
    ensures
        document::parsed_contents(source) matches Err(words) ==> (result matches Err(fault)
            && fault_view(fault) == ProfileFault::Syntax(words)),
        document::parsed_contents(source) matches Ok(contents) ==> {
            let tree = contents.tree;
            let settled = device_uuid_is_fine(tree) && udid_is_fine(tree);
            let described = settled && forall|j: int|
                0 <= j < 8 ==> node_is_filled(
                    tree,
                    (#[trigger] required_places()[j]).0,
                    required_places()[j].1,
                );
            &&& !node_is_text(tree, "device"@, "device_uuid"@) ==> refused_for(
                result,
                ProfileFault::NotText { section: "device"@, key: "device_uuid"@ },
            )
            &&& node_is_text(tree, "device"@, "device_uuid"@) && !device_uuid_is_fine(tree)
                ==> refused_for(result, ProfileFault::BadDeviceUuid)
            &&& device_uuid_is_fine(tree) && !node_is_text(tree, "device"@, "udid"@) ==> refused_for(
                result,
                ProfileFault::NotText { section: "device"@, key: "udid"@ },
            )
            &&& device_uuid_is_fine(tree) && node_is_text(tree, "device"@, "udid"@)
                && !udid_is_fine(tree) ==> refused_for(result, ProfileFault::BadUdid)
            &&& settled && 0 <= k < 8 && !node_is_filled(
                tree,
                required_places()[k].0,
                required_places()[k].1,
            ) && (forall|j: int|
                0 <= j < k ==> node_is_filled(
                    tree,
                    (#[trigger] required_places()[j]).0,
                    required_places()[j].1,
                )) ==> refused_for(
                result,
                if node_is_text(tree, required_places()[k].0, required_places()[k].1) {
                    ProfileFault::Blank {
                        section: required_places()[k].0,
                        key: required_places()[k].1,
                    }
                } else {
                    ProfileFault::NotText {
                        section: required_places()[k].0,
                        key: required_places()[k].1,
                    }
                },
            )
            &&& described && !node_is_text(tree, "escrow"@, "password"@) ==> refused_for(
                result,
                ProfileFault::NotText { section: "escrow"@, key: "password"@ },
            )
            &&& described && node_is_text(tree, "escrow"@, "password"@) && !node_is_flag(
                tree,
                "escrow"@,
                "configured"@,
            ) ==> refused_for(
                result,
                ProfileFault::NotFlag { section: "escrow"@, key: "configured"@ },
            )
            &&& described && node_is_text(tree, "escrow"@, "password"@) && document::node_at(
                tree,
                "escrow"@,
                "configured"@,
            ) == Some(document::Node::Flag(true)) && mode is Some && mode->Some_0 % 64 != 0
                ==> refused_for(result, ProfileFault::Exposed)
        },
{
    lemma_profile_keys();
    if let Some(bits) = mode {
        law_private_mode(bits);
    }
    if let Ok(contents) = document::parsed_contents(source) {
        let tree = contents.tree;
        lemma_udid_is_fine(tree);
        let places = required_places();
        if device_uuid_is_fine(tree) && udid_is_fine(tree) {
            lemma_filling_in_keeps_fields(tree, fresh_uuid, fresh_udid);
            let filled = |j: int| node_is_filled(tree, places[j].0, places[j].1);
            if 0 <= k < 8 && !filled(k) && (forall|j: int|
                0 <= j < k ==> node_is_filled(tree, (#[trigger] places[j]).0, places[j].1)) {
                assert(0 < k ==> node_is_filled(tree, places[0].0, places[0].1));
                assert(1 < k ==> node_is_filled(tree, places[1].0, places[1].1));
                assert(2 < k ==> node_is_filled(tree, places[2].0, places[2].1));
                assert(3 < k ==> node_is_filled(tree, places[3].0, places[3].1));
                assert(4 < k ==> node_is_filled(tree, places[4].0, places[4].1));
                assert(5 < k ==> node_is_filled(tree, places[5].0, places[5].1));
                assert(6 < k ==> node_is_filled(tree, places[6].0, places[6].1));
            }
            if forall|j: int|
                0 <= j < 8 ==> node_is_filled(tree, (#[trigger] places[j]).0, places[j].1) {
                assert(node_is_filled(tree, places[0].0, places[0].1));
                assert(node_is_filled(tree, places[1].0, places[1].1));
                assert(node_is_filled(tree, places[2].0, places[2].1));
                assert(node_is_filled(tree, places[3].0, places[3].1));
                assert(node_is_filled(tree, places[4].0, places[4].1));
                assert(node_is_filled(tree, places[5].0, places[5].1));
                assert(node_is_filled(tree, places[6].0, places[6].1));
                assert(node_is_filled(tree, places[7].0, places[7].1));
            }
        }
    }
}

/// Whether a profile was refused for this fault.
pub open spec fn refused_for(
    result: Result<ProfileLoad, ProfileError>,
    fault: ProfileFault<Seq<char>>,
) -> bool {
    result matches Err(told) && fault_view(told) == fault
}

/// What saving a password does to a document: the password is in its place, the other place says
/// that one is configured, and what stands in any third place, in whatever section, stays.
pub proof fn law_saved_places(
    tree: document::Tree,
    password: Seq<char>,
    section: Seq<char>,
    key: Seq<char>,
)
    requires
        node_is_text(tree, "escrow"@, "password"@),
        node_is_flag(tree, "escrow"@, "configured"@),
    ensures
        ({
            let after = with_escrow_password(tree, password);
            &&& document::node_at(after, "escrow"@, "password"@) == Some(
                document::Node::Text(password),
            )
            &&& document::node_at(after, "escrow"@, "configured"@) == Some(
                document::Node::Flag(true),
            )
            &&& !(section == "escrow"@ && (key == "password"@ || key == "configured"@))
                ==> document::node_at(after, section, key) == document::node_at(tree, section, key)
            &&& after.dom().contains(section) <==> tree.dom().contains(section)
            &&& section != "escrow"@ && tree.dom().contains(section) ==> after[section]
                == tree[section]
        }),
        forall|place: document::Place| #[trigger]
            escrow_places().contains(place) <==> place.0 == "escrow"@ && (place.1 == "password"@
                || place.1 == "configured"@),
{
    lemma_escrow_keys();
}

/// What reading a profile does to its document: only an identifier that is empty is replaced. What
/// stands in any other place, in whatever section, stays.
pub proof fn law_filled_places(
    result: Result<ProfileLoad, ProfileError>,
    source: Seq<char>,
    fresh_uuid: Seq<char>,
    fresh_udid: nat,
    mode: Option<u32>,
    section: Seq<char>,
    key: Seq<char>,
)
    requires
        load_agrees(result, admitted(loaded_state(source, fresh_uuid, fresh_udid), mode)),
        result is Ok,
    ensures
        ({
            let tree = document::parsed_contents(source)->Ok_0.tree;
            let after = result->Ok_0.loaded.tree();
            &&& !(section == "device"@ && (key == "device_uuid"@ || key == "udid"@)
                && document::node_at(tree, section, key) == Some(
                document::Node::Text(Seq::<char>::empty()),
            )) ==> document::node_at(after, section, key) == document::node_at(tree, section, key)
            &&& after.dom().contains(section) <==> tree.dom().contains(section)
            &&& section != "device"@ && tree.dom().contains(section) ==> after[section]
                == tree[section]
        }),
        forall|tree: document::Tree, place: document::Place| #[trigger]
            filled_in(tree).contains(place) <==> place.0 == "device"@ && (place.1 == "device_uuid"@
                || place.1 == "udid"@) && document::node_at(tree, place.0, place.1) == Some(
                document::Node::Text(Seq::<char>::empty()),
            ),
{
    lemma_profile_keys();
    let tree = document::parsed_contents(source)->Ok_0.tree;
    if let Some(document::Node::Text(held)) = document::node_at(tree, section, key) {
        if held.len() == 0 {
            assert(held =~= Seq::<char>::empty());
        }
    }
    assert forall|tree: document::Tree, place: document::Place| #[trigger]
        filled_in(tree).contains(place) <==> place.0 == "device"@ && (place.1 == "device_uuid"@
            || place.1 == "udid"@) && document::node_at(tree, place.0, place.1) == Some(
            document::Node::Text(Seq::<char>::empty()),
        ) by {
        if let Some(document::Node::Text(held)) = document::node_at(tree, place.0, place.1) {
            if held.len() == 0 {
                assert(held =~= Seq::<char>::empty());
            }
        }
        assert(place == (place.0, place.1));
    }
}

/// A profile that could be read is laid out as its file was, part by part, but for what is written
/// in the places of identifiers that were empty.
pub proof fn law_layout_is_kept(
    result: Result<ProfileLoad, ProfileError>,
    before: document::Contents,
)
    requires
        load_keeps_layout(result, before),
        result is Ok,
    ensures
        document::layout_changed_only(
            before.layout,
            result->Ok_0.loaded.layout(),
            filled_in(before.tree),
        ),
        before.layout.len() == result->Ok_0.loaded.layout().len(),
        forall|i: int|
            0 <= i < before.layout.len() && before.layout[i] is Words
                ==> #[trigger] result->Ok_0.loaded.layout()[i] == before.layout[i],
{
    let after = result->Ok_0.loaded.layout();
    assert forall|i: int| 0 <= i < before.layout.len() && before.layout[i] is Words implies
        #[trigger] after[i] == before.layout[i] by {
        assert(document::piece_changed_only(before.layout[i], after[i], filled_in(before.tree)));
    }
}

} // verus!
