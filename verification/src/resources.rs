//! Resource filter: removes archive and image files — resources that are not
//! necessary for runtime execution — from the candidate keep set, under two
//! toggles fixed at construction time from the profile.

use vstd::prelude::*;
use crate::pathstr::{is_suffix_of, views_of};
use crate::pathset::PathSet;
use crate::profile::Profile;

verus! {

/// The path ends with one of the archive suffixes.
pub open spec fn is_archive_name(s: Seq<char>) -> bool {
    ||| is_suffix_of(".tar"@, s)
    ||| is_suffix_of(".gz"@, s)
    ||| is_suffix_of(".bz2"@, s)
    ||| is_suffix_of(".xz"@, s)
    ||| is_suffix_of(".zst"@, s)
    ||| is_suffix_of(".zip"@, s)
    ||| is_suffix_of(".tgz"@, s)
    ||| is_suffix_of(".rar"@, s)
    ||| is_suffix_of(".7z"@, s)
    ||| is_suffix_of(".lzma"@, s)
}

/// The path ends with one of the image, picture or vector-graphic suffixes
/// (not disk blobs: pictures).
pub open spec fn is_image_name(s: Seq<char>) -> bool {
    ||| is_suffix_of(".png"@, s)
    ||| is_suffix_of(".jpg"@, s)
    ||| is_suffix_of(".jpeg"@, s)
    ||| is_suffix_of(".gif"@, s)
    ||| is_suffix_of(".bmp"@, s)
    ||| is_suffix_of(".ico"@, s)
    ||| is_suffix_of(".svg"@, s)
    ||| is_suffix_of(".xpm"@, s)
    ||| is_suffix_of(".tiff"@, s)
    ||| is_suffix_of(".webp"@, s)
}

/// Whether a path survives the resource filter under the given toggles.
pub open spec fn resource_keep(arc: bool, img: bool, s: Seq<char>) -> bool {
    !(arc && is_archive_name(s)) && !(img && is_image_name(s))
}

/// Checks a path against the archive suffix table.
pub fn has_archive_suffix(p: &str) -> (r: bool)
    ensures
        r == is_archive_name(p@),
{
    crate::pathstr::str_ends_with(p, ".tar") || crate::pathstr::str_ends_with(p, ".gz")
        || crate::pathstr::str_ends_with(p, ".bz2") || crate::pathstr::str_ends_with(p, ".xz")
        || crate::pathstr::str_ends_with(p, ".zst") || crate::pathstr::str_ends_with(p, ".zip")
        || crate::pathstr::str_ends_with(p, ".tgz") || crate::pathstr::str_ends_with(p, ".rar")
        || crate::pathstr::str_ends_with(p, ".7z") || crate::pathstr::str_ends_with(p, ".lzma")
}

/// Checks a path against the image suffix table.
pub fn has_image_suffix(p: &str) -> (r: bool)
    ensures
        r == is_image_name(p@),
{
    crate::pathstr::str_ends_with(p, ".png") || crate::pathstr::str_ends_with(p, ".jpg")
        || crate::pathstr::str_ends_with(p, ".jpeg") || crate::pathstr::str_ends_with(p, ".gif")
        || crate::pathstr::str_ends_with(p, ".bmp") || crate::pathstr::str_ends_with(p, ".ico")
        || crate::pathstr::str_ends_with(p, ".svg") || crate::pathstr::str_ends_with(p, ".xpm")
        || crate::pathstr::str_ends_with(p, ".tiff") || crate::pathstr::str_ends_with(p, ".webp")
}

/// Removes archive and image resource files by suffix, under toggles taken
/// from the profile at construction time. It inspects path text only and
/// never touches the filesystem.
pub struct ResourcesDataFilter {
    /// The candidate paths, snapshotted at construction.
    pub data: Vec<String>,
    /// Remove archives.
    pub remove_archives: bool,
    /// Remove images, pictures and vector graphics.
    pub remove_images: bool,
}

impl ResourcesDataFilter {
    /// A filter over the given candidates with toggles from the profile.
    pub fn new(data: Vec<String>, profile: &Profile) -> (f: ResourcesDataFilter)
        ensures
            f.data == data,
            f.remove_archives == profile.filter_arc,
            f.remove_images == profile.filter_img,
    {
        ResourcesDataFilter {
            data,
            remove_archives: profile.filter_arc(),
            remove_images: profile.filter_img(),
        }
    }

    /// Whether a path survives this filter.
    pub open spec fn keeps(&self, s: Seq<char>) -> bool {
        resource_keep(self.remove_archives, self.remove_images, s)
    }

    /// The path is an archive and archives are being removed.
    pub fn filter_archives(&self, p: &String) -> (r: bool)
        ensures
            r == (self.remove_archives && is_archive_name(p@)),
    {
        if !self.remove_archives {
            return false;
        }
        has_archive_suffix(p.as_str())
    }

    /// The path is an image and images are being removed.
    pub fn filter_images(&self, p: &String) -> (r: bool)
        ensures
            r == (self.remove_images && is_image_name(p@)),
    {
        if !self.remove_images {
            return false;
        }
        has_image_suffix(p.as_str())
    }

    /// Replaces the set's contents with the surviving candidates: a single
    /// atomic replace (clear-then-extend), not an incremental mutation.
    pub fn filter(&self, data: &mut PathSet)
        ensures
            final(data).wf(),
            final(data)@ == views_of(self.data@).to_set().filter(
                |s: Seq<char>| self.keeps(s),
            ),
    {
        let mut out = PathSet::new();
        let mut i: usize = 0;
        proof {
            assert(out@ =~= views_of(self.data@.take(0)).to_set().filter(
                |s: Seq<char>| self.keeps(s),
            ));
        }
        while i < self.data.len()
            invariant
                i <= self.data@.len(),
                out.wf(),
                out@ == views_of(self.data@.take(i as int)).to_set().filter(
                    |s: Seq<char>| self.keeps(s),
                ),
            decreases self.data@.len() - i,
        {
            let p = &self.data[i];
            let drop_it = self.filter_archives(p) || self.filter_images(p);
            if !drop_it {
                out.insert(p.clone());
            }
            proof {
                let pred = |s: Seq<char>| self.keeps(s);
                let pre = views_of(self.data@.take(i as int)).to_set().filter(pred);
                let post = views_of(self.data@.take(i + 1)).to_set().filter(pred);
                let cur = self.data@[i as int]@;
                assert forall|x: Seq<char>| post.contains(x) == (pre.contains(x) || (x == cur
                    && pred(x))) by {
                    let t = views_of(self.data@.take(i as int));
                    let t1 = views_of(self.data@.take(i + 1));
                    assert(t1 =~= t.push(self.data@[i as int]@));
                    if t1.contains(x) {
                        let k = choose|k: int| 0 <= k < t1.len() && t1[k] == x;
                        if k < t.len() {
                            assert(t[k] == x);
                        }
                    }
                    if t.contains(x) {
                        let k = choose|k: int| 0 <= k < t.len() && t[k] == x;
                        assert(t1[k] == x);
                    }
                    if x == self.data@[i as int]@ {
                        assert(t1[t.len() as int] == x);
                    }
                }
                if !drop_it {
                    assert(post =~= pre.insert(self.data@[i as int]@));
                } else {
                    assert(post =~= pre);
                }
            }
            i += 1;
        }
        proof {
            assert(self.data@.take(self.data@.len() as int) =~= self.data@);
        }
        *data = out;
    }
}

/// A filter may only remove entries, never invent new retained paths: the
/// resource filter's output is a subset of the set it was built over.
pub proof fn lemma_resource_filter_shrinks(f: ResourcesDataFilter)
    ensures
        views_of(f.data@).to_set().filter(|s: Seq<char>| f.keeps(s)).subset_of(
            views_of(f.data@).to_set(),
        ),
{
}

/// A filter must be idempotent: filtering an already-filtered set changes
/// nothing.
pub proof fn lemma_resource_filter_idempotent(f: ResourcesDataFilter)
    ensures
        views_of(f.data@).to_set().filter(|s: Seq<char>| f.keeps(s)).filter(
            |s: Seq<char>| f.keeps(s),
        ) == views_of(f.data@).to_set().filter(|s: Seq<char>| f.keeps(s)),
{
    assert(views_of(f.data@).to_set().filter(|s: Seq<char>| f.keeps(s)).filter(
        |s: Seq<char>| f.keeps(s),
    ) =~= views_of(f.data@).to_set().filter(|s: Seq<char>| f.keeps(s)));
}

/// With both toggles disabled the resource filter keeps every candidate:
/// its output set equals its input set.
pub proof fn lemma_resource_filter_noop(f: ResourcesDataFilter)
    requires
        !f.remove_archives,
        !f.remove_images,
    ensures
        views_of(f.data@).to_set().filter(|s: Seq<char>| f.keeps(s)) == views_of(
            f.data@,
        ).to_set(),
{
    assert(views_of(f.data@).to_set().filter(|s: Seq<char>| f.keeps(s)) =~= views_of(
        f.data@,
    ).to_set());
}

} // verus!
