//! Where an installed project's file goes, and what an install records and
//! removes once the file is in place.

use vstd::prelude::*;
use crate::model::ContentKind;
use crate::path::{file_name, file_name_spec, join, join_spec, strip_dir, strip_dir_spec, opt_view_path};
use crate::text::{ends_with, is_suffix, str_eq};

verus! {

/// The directory of the game directory that holds content of `kind` (data packs
/// go into a world instead).
pub open spec fn kind_directory(kind: ContentKind) -> Seq<char> {
    match kind {
        ContentKind::Mod => "mods"@,
        ContentKind::ResourcePack => "resourcepacks"@,
        ContentKind::Shader => "shaderpacks"@,
        ContentKind::DataPack => "datapacks"@,
    }
}

/// Why a data pack cannot be installed.
pub open spec fn invalid_world_message() -> Seq<char> {
    "Invalid datapack target world"@
}

/// Where content of `kind` is installed for the game directory `minecraft_dir`:
/// a data pack into the `datapacks` directory of its target world, which must lie
/// in the game directory's `saves` (else the install is refused); anything else
/// into the game directory's directory for its kind.
pub open spec fn install_destination_spec(kind: ContentKind, minecraft_dir: Seq<char>, target_world: Option<Seq<char>>)
    -> Result<Seq<char>, Seq<char>>
{
    match kind {
        ContentKind::DataPack => match target_world {
            Some(w) => {
                let d = join_spec(w, "datapacks"@);
                if strip_dir_spec(d, join_spec(minecraft_dir, "saves"@)) is Some {
                    Ok(d)
                } else {
                    Err(invalid_world_message())
                }
            },
            None => Err(invalid_world_message()),
        },
        _ => Ok(join_spec(minecraft_dir, kind_directory(kind))),
    }
}

/// Where content of `kind` is installed (see `install_destination_spec`).
pub fn install_destination(kind: ContentKind, minecraft_dir: &str, target_world: Option<&str>) -> (r: Result<String, String>)
    ensures
        install_destination_spec(kind, minecraft_dir@, match target_world { Some(w) => Some(w@), None => None })
            == (match r { Ok(d) => Ok(d@), Err(e) => Err(e@) }),
{
    proof {
        reveal_strlit("mods");
        reveal_strlit("resourcepacks");
        reveal_strlit("shaderpacks");
        reveal_strlit("datapacks");
    }
    match kind {
        ContentKind::DataPack => match target_world {
            Some(world) => {
                let destination = join(world, "datapacks");
                let saves = join(minecraft_dir, "saves");
                match strip_dir(destination.as_str(), saves.as_str()) {
                    Some(_) => Ok(destination),
                    None => Err(String::from_str("Invalid datapack target world")),
                }
            },
            None => Err(String::from_str("Invalid datapack target world")),
        },
        ContentKind::Mod => Ok(join(minecraft_dir, "mods")),
        ContentKind::ResourcePack => Ok(join(minecraft_dir, "resourcepacks")),
        ContentKind::Shader => Ok(join(minecraft_dir, "shaderpacks")),
    }
}


/// What the manifest and the disk are told once an installed file is in place.
#[derive(Clone, Debug, PartialEq, Eq)]
pub struct InstalledFile {
    /// The file's path relative to the game directory.
    pub relative_path: String,
    /// Whether the file is enabled: its name does not end in `.disabled`.
    pub enabled: bool,
    /// Whether an earlier version was replaced by a new download.
    pub replaced: bool,
    /// The earlier version's path relative to the game directory, dropped from
    /// the manifest when the file moved.
    pub forget: Option<String>,
    /// The earlier version's file, deleted when a new file took its place.
    pub delete: Option<String>,
}

/// The suffix of a disabled content file.
pub open spec fn disabled_suffix() -> Seq<char> {
    ".disabled"@
}

/// `installed_file`'s result as plain values: for the file `path` that an install
/// left in place (`skipped` when an identical file was already there), replacing
/// the file at `installed_path` if any. `None` when `path` does not lie in the
/// game directory `minecraft_dir`.
pub open spec fn installed_file_spec(
    minecraft_dir: Seq<char>,
    path: Seq<char>,
    installed_path: Option<Seq<char>>,
    skipped: bool,
) -> Option<(Seq<char>, bool, bool, Option<Seq<char>>, Option<Seq<char>>)> {
    match strip_dir_spec(path, minecraft_dir) {
        None => None,
        Some(relative) => Some((
            relative,
            !is_suffix(disabled_suffix(), file_name_spec(path)),
            installed_path is Some && !skipped,
            match installed_path {
                Some(old) => if old != path { strip_dir_spec(old, minecraft_dir) } else { None },
                None => None,
            },
            match installed_path {
                Some(old) => if !skipped && old != path { Some(old) } else { None },
                None => None,
            },
        )),
    }
}

/// An `InstalledFile` as plain values, in the order of `installed_file_spec`.
pub open spec fn installed_file_view(f: InstalledFile) -> (Seq<char>, bool, bool, Option<Seq<char>>, Option<Seq<char>>) {
    (f.relative_path@, f.enabled, f.replaced, opt_view_path(f.forget), opt_view_path(f.delete))
}

/// What an install records and removes once its file is at `path` (see
/// `installed_file_spec`).
pub fn installed_file(minecraft_dir: &str, path: &str, installed_path: Option<&str>, skipped: bool) -> (r: Option<InstalledFile>)
    ensures
        installed_file_spec(minecraft_dir@, path@, match installed_path { Some(p) => Some(p@), None => None }, skipped)
            == (match r { Some(f) => Some(installed_file_view(f)), None => None }),
{
    let relative_path = match strip_dir(path, minecraft_dir) {
        Some(relative) => relative,
        None => return None,
    };
    proof { reveal_strlit(".disabled"); }
    let name = file_name(path);
    let enabled = !ends_with(name.as_str(), ".disabled");
    let (forget, delete) = match installed_path {
        Some(old) => {
            let moved = !str_eq(old, path);
            let forget = if moved { strip_dir(old, minecraft_dir) } else { None };
            let delete = if !skipped && moved { Some(crate::text::owned(old)) } else { None };
            (forget, delete)
        },
        None => (None, None),
    };
    Some(InstalledFile { relative_path, enabled, replaced: installed_path.is_some() && !skipped, forget, delete })
}

} // verus!
