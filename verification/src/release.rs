use vstd::prelude::*;
use crate::arch::{patterns_of, Architecture};
use crate::text::{contains_seq, lower_of};

verus! {

/// One downloadable file attached to a release.
#[derive(Debug)]
pub struct GitHubAsset {
    pub name: String,
    pub browser_download_url: String,
    pub size: u64,
}

#[verifier::ext_equal]
pub struct AssetView {
    pub name: Seq<char>,
    pub browser_download_url: Seq<char>,
    pub size: u64,
}

impl View for GitHubAsset {
    type V = AssetView;

    open spec fn view(&self) -> AssetView {
        AssetView {
            name: self.name@,
            browser_download_url: self.browser_download_url@,
            size: self.size,
        }
    }
}

impl Clone for GitHubAsset {
    fn clone(&self) -> (r: Self)
        ensures
            r@ == self@,
    {
        GitHubAsset {
            name: self.name.clone(),
            browser_download_url: self.browser_download_url.clone(),
            size: self.size,
        }
    }
}

/// One published release: its tag, human name, prerelease flag and assets,
/// in the order the host listed them (assumed newest first).
#[derive(Debug)]
pub struct GitHubRelease {
    pub tag_name: String,
    pub name: String,
    pub prerelease: bool,
    pub assets: Vec<GitHubAsset>,
}

#[verifier::ext_equal]
pub struct ReleaseView {
    pub tag_name: Seq<char>,
    pub name: Seq<char>,
    pub prerelease: bool,
    pub assets: Seq<AssetView>,
}

impl View for GitHubRelease {
    type V = ReleaseView;

    open spec fn view(&self) -> ReleaseView {
        ReleaseView {
            tag_name: self.tag_name@,
            name: self.name@,
            prerelease: self.prerelease,
            assets: self.assets@.map_values(|a: GitHubAsset| a@),
        }
    }
}

/// Index of the first release that qualifies under the prerelease-inclusion
/// flag, in listed order.
pub open spec fn first_qualifying(rs: Seq<ReleaseView>, include_prerelease: bool) -> Option<int>
    decreases rs.len(),
{
    if rs.len() == 0 {
        None
    } else if include_prerelease || !rs[0].prerelease {
        Some(0)
    } else {
        match first_qualifying(rs.drop_first(), include_prerelease) {
            Some(j) => Some(j + 1),
            None => None,
        }
    }
}

/// A release that the selection passes over under the given flag.
pub open spec fn skipped_release(r: ReleaseView, include_prerelease: bool) -> bool {
    !include_prerelease && r.prerelease
}

pub proof fn lemma_first_qualifying_at(rs: Seq<ReleaseView>, include_prerelease: bool, i: int)
    requires
        0 <= i < rs.len(),
        forall|j: int| 0 <= j < i ==> skipped_release(#[trigger] rs[j], include_prerelease),
        include_prerelease || !rs[i].prerelease,
    ensures
        first_qualifying(rs, include_prerelease) == Some(i),
    decreases i,
{
    if i > 0 {
        assert(skipped_release(rs[0], include_prerelease));
        let tail = rs.drop_first();
        assert forall|j: int| 0 <= j < i - 1 implies skipped_release(
            #[trigger] tail[j],
            include_prerelease,
        ) by {
            assert(tail[j] == rs[j + 1]);
        }
        assert(tail[i - 1] == rs[i]);
        lemma_first_qualifying_at(tail, include_prerelease, i - 1);
    }
}

pub proof fn lemma_first_qualifying_none(rs: Seq<ReleaseView>, include_prerelease: bool)
    requires
        forall|j: int| 0 <= j < rs.len() ==> skipped_release(#[trigger] rs[j], include_prerelease),
    ensures
        first_qualifying(rs, include_prerelease) is None,
    decreases rs.len(),
{
    if rs.len() > 0 {
        assert(skipped_release(rs[0], include_prerelease));
        let tail = rs.drop_first();
        assert forall|j: int| 0 <= j < tail.len() implies skipped_release(
            #[trigger] tail[j],
            include_prerelease,
        ) by {
            assert(tail[j] == rs[j + 1]);
        }
        lemma_first_qualifying_none(tail, include_prerelease);
    }
}

/// How many of the patterns occur in the lowercased asset name.
pub open spec fn match_count(low_name: Seq<char>, pats: Seq<Seq<char>>) -> nat
    decreases pats.len(),
{
    if pats.len() == 0 {
        0
    } else {
        match_count(low_name, pats.drop_last()) + if contains_seq(low_name, pats.last()) {
            1nat
        } else {
            0nat
        }
    }
}

/// The score of an asset for an architecture.
pub open spec fn asset_score(a: AssetView, arch: Architecture) -> nat {
    match_count(lower_of(a.name), patterns_of(arch))
}

/// Index of the first asset scoring at least `k`, in listed order.
pub open spec fn first_scoring(assets: Seq<AssetView>, arch: Architecture, k: nat) -> Option<int>
    decreases assets.len(),
{
    if assets.len() == 0 {
        None
    } else if asset_score(assets[0], arch) >= k {
        Some(0)
    } else {
        match first_scoring(assets.drop_first(), arch, k) {
            Some(j) => Some(j + 1),
            None => None,
        }
    }
}

/// The selection policy: the first asset matching at least two patterns,
/// else the first matching at least one, else nothing.
pub open spec fn selected_asset(assets: Seq<AssetView>, arch: Architecture) -> Option<int> {
    match first_scoring(assets, arch, 2) {
        Some(i) => Some(i),
        None => first_scoring(assets, arch, 1),
    }
}

pub proof fn lemma_first_scoring_at(assets: Seq<AssetView>, arch: Architecture, k: nat, i: int)
    requires
        0 <= i < assets.len(),
        forall|j: int| 0 <= j < i ==> asset_score(#[trigger] assets[j], arch) < k,
        asset_score(assets[i], arch) >= k,
    ensures
        first_scoring(assets, arch, k) == Some(i),
    decreases i,
{
    if i > 0 {
        assert(asset_score(assets[0], arch) < k);
        let tail = assets.drop_first();
        assert forall|j: int| 0 <= j < i - 1 implies asset_score(#[trigger] tail[j], arch) < k by {
            assert(tail[j] == assets[j + 1]);
        }
        assert(tail[i - 1] == assets[i]);
        lemma_first_scoring_at(tail, arch, k, i - 1);
    }
}

pub proof fn lemma_first_scoring_none(assets: Seq<AssetView>, arch: Architecture, k: nat)
    requires
        forall|j: int| 0 <= j < assets.len() ==> asset_score(#[trigger] assets[j], arch) < k,
    ensures
        first_scoring(assets, arch, k) is None,
    decreases assets.len(),
{
    if assets.len() > 0 {
        assert(asset_score(assets[0], arch) < k);
        let tail = assets.drop_first();
        assert forall|j: int| 0 <= j < tail.len() implies asset_score(#[trigger] tail[j], arch) < k by {
            assert(tail[j] == assets[j + 1]);
        }
        lemma_first_scoring_none(tail, arch, k);
    }
}

} // verus!
