//! Where a level lies on disk.

use std::path::PathBuf;
use vstd::prelude::*;

verus! {

/// The owned path of the standard library.
#[verifier::external_type_specification]
#[verifier::external_body]
pub struct ExPathBuf(PathBuf);

/// The path that joining a name to a path gives.
pub uninterp spec fn joined(base: PathBuf, name: Seq<char>) -> PathBuf;

/// Calls [`std::path::Path::join`]. The contract names the path that it gives
/// and says nothing of how that path is spelled.
#[verifier::external_body]
fn join(base: &PathBuf, name: &str) -> (path: PathBuf)
    ensures
        path == joined(*base, name@),
{
    base.join(name)
}

/// [`PathBuf`]'s `clone` gives the same path again.
pub assume_specification[ <PathBuf as Clone>::clone ](path: &PathBuf) -> (copy: PathBuf)
    ensures
        copy == *path,
;

/// The folders of a level: its root, and the two in it that hold the chunks
/// and the entities.
pub struct LevelFolder {
    pub root_folder: PathBuf,
    pub region_folder: PathBuf,
    pub entities_folder: PathBuf,
}

impl Clone for LevelFolder {
    fn clone(&self) -> (copy: LevelFolder)
        ensures
            copy == *self,
    {
        LevelFolder {
            root_folder: self.root_folder.clone(),
            region_folder: self.region_folder.clone(),
            entities_folder: self.entities_folder.clone(),
        }
    }
}

/// One of the two folders in a level's root.
#[derive(Clone, Copy, Debug, PartialEq, Eq, Structural)]
pub enum Subfolder {
    Region,
    Entities,
}

impl LevelFolder {
    /// The folders of a level with the given root.
    pub open spec fn of_root(root_folder: PathBuf) -> LevelFolder {
        LevelFolder {
            root_folder,
            region_folder: joined(root_folder, "region"@),
            entities_folder: joined(root_folder, "entities"@),
        }
    }

    /// Lays out the folders of a level with the given root.
    pub fn from_root(root_folder: PathBuf) -> (folder: LevelFolder)
        ensures
            folder == LevelFolder::of_root(root_folder),
    {
        let region_folder = join(&root_folder, "region");
        let entities_folder = join(&root_folder, "entities");
        LevelFolder { root_folder, region_folder, entities_folder }
    }

    /// The folder whose presence is looked up before the level is opened.
    pub fn subfolder(&self, which: Subfolder) -> (path: &PathBuf)
        ensures
            *path == (match which {
                Subfolder::Region => self.region_folder,
                Subfolder::Entities => self.entities_folder,
            }),
    {
        match which {
            Subfolder::Region => &self.region_folder,
            Subfolder::Entities => &self.entities_folder,
        }
    }

    /// The folder to create before the level is opened, given whether one of
    /// its two subfolders is there. Whichever of the two is missing, it is the
    /// region folder that is created.
    pub fn folder_to_create(&self, which: Subfolder, exists: bool) -> (path: Option<&PathBuf>)
        ensures
            path is None <==> exists,
            path is Some ==> *path->0 == self.region_folder,
    {
        if exists {
            None
        } else {
            match which {
                Subfolder::Region => Some(&self.region_folder),
                Subfolder::Entities => Some(&self.region_folder),
            }
        }
    }
}

/// The two folders of a level lie in its root, each under its own name.
pub proof fn law_folders_lie_in_the_root(root_folder: PathBuf)
    ensures
        LevelFolder::of_root(root_folder).root_folder == root_folder,
        LevelFolder::of_root(root_folder).region_folder == joined(root_folder, "region"@),
        LevelFolder::of_root(root_folder).entities_folder == joined(root_folder, "entities"@),
{
}

} // verus!
