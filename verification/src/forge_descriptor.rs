//! The version descriptor inside a Forge installer: which entry holds it
//! and which of its two forms it has.

use vstd::prelude::*;
use vstd::string::*;
use vstd::utf8::{decode_utf8, valid_utf8};
use crate::archive::{archive_read, read_archive_entry, EntryRead, ReadModel};
use crate::forge::{ForgeInstallError, ForgeInstaller};
use crate::json::forge::{ForgeDescriptor, JsonDetails, JsonInstallProfile};
use crate::text::utf8_text;

verus! {

/// The entry that holds a flat descriptor.
pub const VERSION_JSON: &'static str = "version.json";

/// The entry that holds a wrapped descriptor.
pub const INSTALL_PROFILE_JSON: &'static str = "install_profile.json";

/// The entry that a descriptor was found in.
#[derive(PartialEq, Eq, Structural, Clone, Copy, Debug)]
pub enum DescriptorSource {
    VersionJson,
    InstallProfile,
}

/// Why an installer gives no descriptor text.
pub enum DescriptorFailure {
    /// The installer is not an archive.
    NotArchive,
    /// The named entry could not be read as text.
    Unreadable(Seq<char>),
    /// Neither entry is there.
    Absent,
}

/// The descriptor text that two reads give: the flat entry's where it is
/// there, the wrapped entry's otherwise. An entry that is there and is not
/// text is a failure, not a reason to go on to the next.
pub open spec fn chosen_text(flat: ReadModel, wrapped: ReadModel) -> Result<
    (DescriptorSource, Seq<char>),
    DescriptorFailure,
> {
    match flat {
        ReadModel::NotArchive => Err(DescriptorFailure::NotArchive),
        ReadModel::Unreadable => Err(DescriptorFailure::Unreadable(VERSION_JSON@)),
        ReadModel::Data(data) => if valid_utf8(data) {
            Ok((DescriptorSource::VersionJson, decode_utf8(data)))
        } else {
            Err(DescriptorFailure::Unreadable(VERSION_JSON@))
        },
        ReadModel::Missing => match wrapped {
            ReadModel::NotArchive => Err(DescriptorFailure::NotArchive),
            ReadModel::Unreadable => Err(DescriptorFailure::Unreadable(INSTALL_PROFILE_JSON@)),
            ReadModel::Data(data) => if valid_utf8(data) {
                Ok((DescriptorSource::InstallProfile, decode_utf8(data)))
            } else {
                Err(DescriptorFailure::Unreadable(INSTALL_PROFILE_JSON@))
            },
            ReadModel::Missing => Err(DescriptorFailure::Absent),
        },
    }
}

/// Whether `r` reports `expected` for the game version `game_version`.
pub open spec fn reports(
    r: Result<(DescriptorSource, String), ForgeInstallError>,
    expected: Result<(DescriptorSource, Seq<char>), DescriptorFailure>,
    game_version: Seq<char>,
) -> bool {
    match expected {
        Ok((source, text)) => r matches Ok(found) && found.0 == source && found.1@ == text,
        Err(DescriptorFailure::NotArchive) => r matches Err(ForgeInstallError::Zip),
        Err(DescriptorFailure::Unreadable(name)) => r matches Err(ForgeInstallError::ZipIoError(n))
            && n@ == name,
        Err(DescriptorFailure::Absent) => r matches Err(ForgeInstallError::NoInstallJson(v)) && v@
            == game_version,
    }
}

/// The form that a descriptor text has, given what its entry was and how
/// reading it in either form went: a flat entry must be a flat descriptor;
/// a wrapped entry may be either, the wrapped form first.
pub open spec fn recognized(
    source: DescriptorSource,
    flat: Option<JsonDetails>,
    wrapped: Option<JsonInstallProfile>,
) -> Option<ForgeDescriptor> {
    match source {
        DescriptorSource::VersionJson => match flat {
            Some(details) => Some(ForgeDescriptor::Flat(details)),
            None => None,
        },
        DescriptorSource::InstallProfile => match wrapped {
            Some(profile) => Some(ForgeDescriptor::Wrapped(profile)),
            None => match flat {
                Some(details) => Some(ForgeDescriptor::Flat(details)),
                None => None,
            },
        },
    }
}

/// The descriptor and the text to keep of it: a flat descriptor with its
/// text as it was found; a wrapped one as written out again, or as it was
/// found where that cannot be done.
pub open spec fn normalized(
    descriptor: ForgeDescriptor,
    text: String,
    rewritten: Option<String>,
) -> (JsonDetails, String) {
    match descriptor {
        ForgeDescriptor::Flat(details) => (details, text),
        ForgeDescriptor::Wrapped(profile) => (
            profile.versionInfo,
            match rewritten {
                Some(again) => again,
                None => text,
            },
        ),
    }
}

/// The text of an entry that was read, where it is text.
fn text_of(data: &Vec<u8>, name: &str) -> (r: Result<String, ForgeInstallError>)
    ensures
        valid_utf8(data@) ==> (r matches Ok(text) && text@ == decode_utf8(data@)),
        !valid_utf8(data@) ==> (r matches Err(ForgeInstallError::ZipIoError(n)) && n@ == name@),
{
    match utf8_text(data.as_slice()) {
        Some(text) => Ok(text),
        None => Err(ForgeInstallError::ZipIoError(String::from_str(name))),
    }
}

/// The descriptor text that the reads of the two entries give.
pub fn choose_descriptor(flat: EntryRead, wrapped: EntryRead, game_version: &str) -> (r: Result<
    (DescriptorSource, String),
    ForgeInstallError,
>)
    ensures
        reports(r, chosen_text(flat@, wrapped@), game_version@),
{
    match flat {
        EntryRead::NotArchive => Err(ForgeInstallError::Zip),
        EntryRead::Unreadable => Err(ForgeInstallError::ZipIoError(String::from_str(VERSION_JSON))),
        EntryRead::Data(data) => match text_of(&data, VERSION_JSON) {
            Ok(text) => Ok((DescriptorSource::VersionJson, text)),
            Err(e) => Err(e),
        },
        EntryRead::Missing => match wrapped {
            EntryRead::NotArchive => Err(ForgeInstallError::Zip),
            EntryRead::Unreadable => Err(
                ForgeInstallError::ZipIoError(String::from_str(INSTALL_PROFILE_JSON)),
            ),
            EntryRead::Data(data) => match text_of(&data, INSTALL_PROFILE_JSON) {
                Ok(text) => Ok((DescriptorSource::InstallProfile, text)),
                Err(e) => Err(e),
            },
            EntryRead::Missing => Err(
                ForgeInstallError::NoInstallJson(String::from_str(game_version)),
            ),
        },
    }
}

/// The form that a descriptor text has, once it was read in both forms.
pub fn recognize(
    source: DescriptorSource,
    flat: Option<JsonDetails>,
    wrapped: Option<JsonInstallProfile>,
) -> (r: Option<ForgeDescriptor>)
    ensures
        r == recognized(source, flat, wrapped),
{
    match source {
        DescriptorSource::VersionJson => match flat {
            Some(details) => Some(ForgeDescriptor::Flat(details)),
            None => None,
        },
        DescriptorSource::InstallProfile => match wrapped {
            Some(profile) => Some(ForgeDescriptor::Wrapped(profile)),
            None => match flat {
                Some(details) => Some(ForgeDescriptor::Flat(details)),
                None => None,
            },
        },
    }
}

/// The descriptor and the text to keep of it, once the text was read in
/// both forms. A text that has neither form is an error that holds it.
pub fn descriptor_from_parse(
    source: DescriptorSource,
    text: String,
    flat: Option<JsonDetails>,
    wrapped: Option<JsonInstallProfile>,
    rewritten: Option<String>,
) -> (r: Result<(JsonDetails, String), ForgeInstallError>)
    ensures
        match recognized(source, flat, wrapped) {
            Some(descriptor) => r == Ok::<(JsonDetails, String), ForgeInstallError>(
                normalized(descriptor, text, rewritten),
            ),
            None => r == Err::<(JsonDetails, String), ForgeInstallError>(
                ForgeInstallError::Json(text),
            ),
        },
{
    match recognize(source, flat, wrapped) {
        Some(ForgeDescriptor::Flat(details)) => Ok((details, text)),
        Some(ForgeDescriptor::Wrapped(profile)) => {
            let kept = match rewritten {
                Some(again) => again,
                None => text,
            };
            Ok((profile.versionInfo, kept))
        },
        None => Err(ForgeInstallError::Json(text)),
    }
}

impl ForgeInstaller {
    /// The descriptor text inside the installer archive `installer_file`,
    /// and the entry that it stands in.
    pub fn get_forge_json(&self, installer_file: &[u8]) -> (r: Result<
        (DescriptorSource, String),
        ForgeInstallError,
    >)
        ensures
            reports(
                r,
                chosen_text(
                    archive_read(installer_file@, VERSION_JSON@),
                    archive_read(installer_file@, INSTALL_PROFILE_JSON@),
                ),
                self.minecraft_version@,
            ),
    {
        let flat = read_archive_entry(installer_file, VERSION_JSON);
        let wrapped = match flat {
            EntryRead::Missing => read_archive_entry(installer_file, INSTALL_PROFILE_JSON),
            _ => EntryRead::Missing,
        };
        choose_descriptor(flat, wrapped, self.minecraft_version.as_str())
    }
}

} // verus!
