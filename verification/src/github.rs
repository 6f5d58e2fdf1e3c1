//! Releases published on GitHub: which of them carry an installable image.

use vstd::prelude::*;

use crate::oci::concat;
use crate::text;

verus! {

broadcast use vstd::seq_lib::group_seq_properties;

/// A release that can be installed.
#[derive(Debug, Clone)]
pub struct Release {
    pub tag: String,
    pub date: String,
    pub image_url: String,
    pub image_checksum: Option<String>,
}

/// A failed request for the list of releases.
#[derive(Debug, Clone)]
pub struct Error(pub String);

impl Error {
    /// The text shown for the error.
    pub fn message(&self) -> (res: String)
        ensures
            res@ == self.0@,
    {
        self.0.clone()
    }

    /// The error for an answer that is not a success; `status` is how the
    /// status reads.
    pub fn api_status(status: &str) -> (res: Error)
        ensures
            res.0@ == "GitHub API returned "@ + status@,
    {
        Error(concat("GitHub API returned ", status))
    }
}

/// A file attached to a GitHub release.
pub struct GithubAsset {
    pub name: String,
    pub browser_download_url: String,
}

/// A release as the GitHub API lists it.
pub struct GithubRelease {
    pub tag_name: String,
    pub published_at: String,
    pub assets: Vec<GithubAsset>,
}

/// The download URL of the first asset whose name ends with `.img.xz`.
pub open spec fn image_url(assets: Seq<GithubAsset>) -> Option<Seq<char>>
    decreases assets.len(),
{
    if assets.len() == 0 {
        None
    } else if ".img.xz"@.is_suffix_of(assets[0].name@) {
        Some(assets[0].browser_download_url@)
    } else {
        image_url(assets.drop_first())
    }
}

/// The download URL of the first asset named `SHA256SUMS`.
pub open spec fn sums_url(assets: Seq<GithubAsset>) -> Option<Seq<char>>
    decreases assets.len(),
{
    if assets.len() == 0 {
        None
    } else if assets[0].name@ == "SHA256SUMS"@ {
        Some(assets[0].browser_download_url@)
    } else {
        sums_url(assets.drop_first())
    }
}

/// Tag, date, image URL and checksum URL of an installable release.
pub type ReleaseModel = (Seq<char>, Seq<char>, Seq<char>, Option<Seq<char>>);

/// What `r` offers for installation: nothing without an `.img.xz` asset;
/// the date is the part of the publication time before its `T`.
pub open spec fn installable(r: GithubRelease) -> Option<ReleaseModel> {
    match image_url(r.assets@) {
        None => None,
        Some(url) => Some(
            (r.tag_name@, text::split(r.published_at@, 'T')[0], url, sums_url(r.assets@)),
        ),
    }
}

pub open spec fn installable_fn() -> spec_fn(GithubRelease) -> Option<ReleaseModel> {
    |r: GithubRelease| installable(r)
}

pub open spec fn release_model(r: Release) -> ReleaseModel {
    (
        r.tag@,
        r.date@,
        r.image_url@,
        match r.image_checksum {
            Some(c) => Some(c@),
            None => None,
        },
    )
}

fn find_image(assets: &Vec<GithubAsset>) -> (res: Option<String>)
    ensures
        match res {
            Some(u) => image_url(assets@) == Some(u@),
            None => image_url(assets@).is_none(),
        },
{
    let mut i: usize = 0;
    while i < assets.len()
        invariant
            i <= assets@.len(),
            image_url(assets@) == image_url(assets@.skip(i as int)),
        decreases assets@.len() - i,
    {
        let ghost rest = assets@.skip(i as int);
        proof {
            assert(rest[0] == assets@[i as int]);
            assert(rest.drop_first() =~= assets@.skip(i + 1));
        }
        if text::str_ends_with(assets[i].name.as_str(), ".img.xz") {
            return Some(assets[i].browser_download_url.clone());
        }
        i = i + 1;
    }
    None
}

fn find_sums(assets: &Vec<GithubAsset>) -> (res: Option<String>)
    ensures
        match res {
            Some(u) => sums_url(assets@) == Some(u@),
            None => sums_url(assets@).is_none(),
        },
{
    let mut i: usize = 0;
    while i < assets.len()
        invariant
            i <= assets@.len(),
            sums_url(assets@) == sums_url(assets@.skip(i as int)),
        decreases assets@.len() - i,
    {
        let ghost rest = assets@.skip(i as int);
        proof {
            assert(rest[0] == assets@[i as int]);
            assert(rest.drop_first() =~= assets@.skip(i + 1));
        }
        if text::str_eq(assets[i].name.as_str(), "SHA256SUMS") {
            return Some(assets[i].browser_download_url.clone());
        }
        i = i + 1;
    }
    None
}

/// The part of a timestamp before its first `T`.
fn date_part(published_at: &str) -> (res: String)
    ensures
        res@ == text::split(published_at@, 'T')[0],
{
    let v = text::chars_of(published_at);
    let parts = text::split_ranges(&v, 'T');
    proof {
        assert(text::split(v@, 'T').len() > 0) by {
            text::lemma_split_nonempty(v@, 'T');
        }
    }
    text::string_from(&v, parts[0].0, parts[0].1)
}

/// The installable releases among those GitHub lists, in its order.
pub fn releases_from(list: &Vec<GithubRelease>) -> (res: Vec<Release>)
    ensures
        res@.map_values(|r: Release| release_model(r)) == list@.filter_map(installable_fn()),
{
    let mut out: Vec<Release> = Vec::new();
    let mut i: usize = 0;
    while i < list.len()
        invariant
            i <= list@.len(),
            out@.map_values(|r: Release| release_model(r)) == list@.take(i as int).filter_map(
                installable_fn(),
            ),
        decreases list@.len() - i,
    {
        let r = &list[i];
        let ghost old_out = out@;
        proof {
            list@.lemma_filter_map_take_succ(installable_fn(), i as int);
        }
        match find_image(&r.assets) {
            Some(url) => {
                let rel = Release {
                    tag: r.tag_name.clone(),
                    date: date_part(r.published_at.as_str()),
                    image_url: url,
                    image_checksum: find_sums(&r.assets),
                };
                out.push(rel);
                proof {
                    assert(out@.map_values(|r: Release| release_model(r)) =~= old_out.map_values(
                        |r: Release| release_model(r),
                    ).push(release_model(rel)));
                }
            },
            None => {},
        }
        i = i + 1;
    }
    proof {
        assert(list@.take(list@.len() as int) =~= list@);
    }
    out
}

} // verus!
