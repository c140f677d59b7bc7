//! Statistics over the positions of a portfolio.
use vstd::prelude::*;
use crate::funds::{asset_category, asset_category_label, category, category_label};
use crate::group::{group_by, group_views, grouped, label_views, Group, Label};
use crate::symbols::{platform_label, platform_name};

verus! {

/// The labels of platforms: their codes and names.
pub open spec fn platform_labels(platforms: Seq<String>) -> Seq<Label> {
    platforms.map_values(|p: String| (p@, platform_label(p@)))
}

/// The positions by platform.
pub fn by_platform(platforms: &Vec<String>) -> (r: Vec<Group>)
    ensures
        group_views(r@) == grouped(platform_labels(platforms@)),
{
    let mut labels: Vec<(String, String)> = Vec::new();
    let mut i: usize = 0;
    while i < platforms.len()
        invariant
            i <= platforms@.len(),
            labels@.len() == i,
            forall|k: int|
                0 <= k < i ==> ((#[trigger] labels@[k]).0@, labels@[k].1@) == platform_labels(
                    platforms@,
                )[k],
        decreases platforms@.len() - i,
    {
        labels.push((platforms[i].clone(), platform_name(platforms[i].as_str())));
        i += 1;
    }
    assert(label_views(labels@) =~= platform_labels(platforms@));
    group_by(&labels)
}

/// The labels of fund types: their classes of assets and what these are called.
pub open spec fn asset_labels(types: Seq<String>) -> Seq<Label> {
    types.map_values(|t: String| (category(t@), category_label(category(t@))))
}

/// The positions by class of assets.
pub fn by_asset(types: &Vec<String>) -> (r: Vec<Group>)
    ensures
        group_views(r@) == grouped(asset_labels(types@)),
{
    let mut labels: Vec<(String, String)> = Vec::new();
    let mut i: usize = 0;
    while i < types.len()
        invariant
            i <= types@.len(),
            labels@.len() == i,
            forall|k: int|
                0 <= k < i ==> ((#[trigger] labels@[k]).0@, labels@[k].1@) == asset_labels(
                    types@,
                )[k],
        decreases types@.len() - i,
    {
        let c = asset_category(types[i].as_str());
        labels.push((c.to_owned(), asset_category_label(c).to_owned()));
        i += 1;
    }
    assert(label_views(labels@) =~= asset_labels(types@));
    group_by(&labels)
}

} // verus!
