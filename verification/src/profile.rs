//! The slice of a profile the engine reads: target executables, declared
//! packages, explicit keep/prune overrides and the resource-filter toggles.
//! Loading and parsing profiles is a collaborator's job; here the profile is
//! plain, read-only data for the duration of one run.

use vstd::prelude::*;

verus! {

/// Declarative description of what one run must retain.
pub struct Profile {
    /// Target executable paths, in declaration order.
    pub targets: Vec<String>,
    /// Declared package names, in declaration order.
    pub packages: Vec<String>,
    /// Paths retained unconditionally, bypassing all prior filtering.
    pub keep_paths: Vec<String>,
    /// Paths knocked out unconditionally; prune wins over keep.
    pub prune_paths: Vec<String>,
    /// Remove archive files.
    pub filter_arc: bool,
    /// Remove image, picture and vector-graphic files.
    pub filter_img: bool,
}

impl Profile {
    /// A profile with the given contents.
    pub fn new(
        targets: Vec<String>,
        packages: Vec<String>,
        keep_paths: Vec<String>,
        prune_paths: Vec<String>,
        filter_arc: bool,
        filter_img: bool,
    ) -> (p: Profile)
        ensures
            p.targets == targets,
            p.packages == packages,
            p.keep_paths == keep_paths,
            p.prune_paths == prune_paths,
            p.filter_arc == filter_arc,
            p.filter_img == filter_img,
    {
        Profile { targets, packages, keep_paths, prune_paths, filter_arc, filter_img }
    }

    /// The declared target executables.
    pub fn get_targets(&self) -> (r: &Vec<String>)
        ensures
            r == &self.targets,
    {
        &self.targets
    }

    /// The declared package names.
    pub fn get_packages(&self) -> (r: &Vec<String>)
        ensures
            r == &self.packages,
    {
        &self.packages
    }

    /// The explicitly retained paths.
    pub fn get_keep_paths(&self) -> (r: &Vec<String>)
        ensures
            r == &self.keep_paths,
    {
        &self.keep_paths
    }

    /// The explicitly knocked-out paths.
    pub fn get_prune_paths(&self) -> (r: &Vec<String>)
        ensures
            r == &self.prune_paths,
    {
        &self.prune_paths
    }

    /// Whether archives are to be removed.
    pub fn filter_arc(&self) -> (r: bool)
        ensures
            r == self.filter_arc,
    {
        self.filter_arc
    }

    /// Whether images are to be removed.
    pub fn filter_img(&self) -> (r: bool)
        ensures
            r == self.filter_img,
    {
        self.filter_img
    }
}

impl Default for Profile {
    /// An empty profile: nothing targeted, nothing declared, no overrides,
    /// both resource toggles off.
    fn default() -> (p: Profile)
        ensures
            p.targets@.len() == 0,
            p.packages@.len() == 0,
            p.keep_paths@.len() == 0,
            p.prune_paths@.len() == 0,
            !p.filter_arc,
            !p.filter_img,
    {
        Profile {
            targets: Vec::new(),
            packages: Vec::new(),
            keep_paths: Vec::new(),
            prune_paths: Vec::new(),
            filter_arc: false,
            filter_img: false,
        }
    }
}

} // verus!
