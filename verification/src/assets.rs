//! The files a game brings along, found by name.

use vstd::prelude::*;
use std::path::PathBuf;

verus! {

/// A path in the file system, carried through as it is.
#[verifier::external_type_specification]
#[verifier::external_body]
pub struct ExPathBuf(PathBuf);

/// `PathBuf::clone` hands back a path equal to the one it was given.
pub assume_specification[ <PathBuf as Clone>::clone ](path: &PathBuf) -> (copy: PathBuf)
    ensures
        copy == *path,
;

/// A file of a game under the name by which it is asked for.
#[derive(Clone, Debug, PartialEq, Eq)]
pub struct Asset {
    pub name: String,
    pub path: PathBuf,
}

impl Asset {
    pub fn new(name: String, path: PathBuf) -> (asset: Self)
        ensures
            asset.name == name,
            asset.path == path,
    {
        Self { name, path }
    }
}

/// Whether one of `assets` goes by `name`.
pub open spec fn has_name(assets: Seq<Asset>, name: Seq<char>) -> bool {
    exists|i: int| 0 <= i < assets.len() && #[trigger] assets[i].name@ == name
}

/// Whether the asset at index `i` is the first of `assets` that goes by `name`.
pub open spec fn is_first_named(assets: Seq<Asset>, name: Seq<char>, i: int) -> bool {
    &&& 0 <= i < assets.len()
    &&& assets[i].name@ == name
    &&& forall|k: int| 0 <= k < i ==> (#[trigger] assets[k]).name@ != name
}

/// Whether no two of `assets` go by the same name.
pub open spec fn names_differ(assets: Seq<Asset>) -> bool {
    forall|i: int, j: int|
        0 <= i < j < assets.len() ==> #[trigger] assets[i].name@ != #[trigger] assets[j].name@
}

/// What is left of `entries` when each entry whose name an earlier entry
/// bears is dropped.
pub open spec fn first_of_each_name(entries: Seq<Asset>) -> Seq<Asset>
    decreases entries.len(),
{
    if entries.len() == 0 {
        Seq::empty()
    } else {
        let kept = first_of_each_name(entries.drop_last());
        if has_name(kept, entries.last().name@) {
            kept
        } else {
            kept.push(entries.last())
        }
    }
}

/// A set of assets in which a name stands for one asset only.
#[derive(Debug)]
pub struct Assets(Vec<Asset>);

impl View for Assets {
    type V = Seq<Asset>;

    closed spec fn view(&self) -> Seq<Asset> {
        self.0@
    }
}

impl Default for Assets {
    fn default() -> (assets: Self)
        ensures
            assets@ == Seq::<Asset>::empty(),
    {
        Assets(Vec::new())
    }
}

impl Assets {
    /// Adds `asset` unless an asset of that name is there already; tells
    /// whether it was added. The asset that was there first stays.
    pub fn add(&mut self, asset: Asset) -> (added: bool)
        ensures
            added == !has_name(old(self)@, asset.name@),
            final(self)@ == if added {
                old(self)@.push(asset)
            } else {
                old(self)@
            },
            names_differ(old(self)@) ==> names_differ(final(self)@),
    {
        let mut i: usize = 0;
        while i < self.0.len()
            invariant
                i <= self.0@.len(),
                self.0@ == old(self)@,
                forall|k: int| 0 <= k < i ==> (#[trigger] self.0@[k]).name@ != asset.name@,
            decreases self.0@.len() - i,
        {
            if self.0[i].name == asset.name {
                return false;
            }
            i += 1;
        }
        self.0.push(asset);
        true
    }

    /// The asset that goes by `name`, if there is one.
    pub fn get(&self, name: &str) -> (found: Option<&Asset>)
        ensures
            match found {
                Some(asset) => exists|i: int|
                    #[trigger] is_first_named(self@, name@, i) && self@[i] == *asset,
                None => !has_name(self@, name@),
            },
    {
        let wanted = name.to_owned();
        let mut i: usize = 0;
        while i < self.0.len()
            invariant
                i <= self.0@.len(),
                wanted@ == name@,
                forall|k: int| 0 <= k < i ==> (#[trigger] self.0@[k]).name@ != name@,
            decreases self.0@.len() - i,
        {
            if self.0[i].name == wanted {
                assert(is_first_named(self@, name@, i as int));
                return Some(&self.0[i]);
            }
            i += 1;
        }
        None
    }

    /// Number of assets.
    pub fn len(&self) -> (len: usize)
        ensures
            len == self@.len(),
    {
        self.0.len()
    }

    /// The set made of `entries`, added one after the other: of entries
    /// that share a name only the first is kept.
    pub fn from_entries(entries: Vec<Asset>) -> (assets: Self)
        ensures
            assets@ == first_of_each_name(entries@),
            names_differ(assets@),
    {
        let mut assets = Assets::default();
        let mut rest = entries;
        let ghost mut taken: int = 0;
        proof {
            assert(entries@.take(0) =~= Seq::<Asset>::empty());
            assert(rest@ =~= entries@.skip(0));
        }
        while rest.len() > 0
            invariant
                0 <= taken <= entries@.len(),
                rest@ == entries@.skip(taken),
                assets@ == first_of_each_name(entries@.take(taken)),
                names_differ(assets@),
            decreases rest@.len(),
        {
            let asset = rest.remove(0);
            assets.add(asset);
            proof {
                assert(entries@.take(taken + 1).drop_last() =~= entries@.take(taken));
                assert(entries@.take(taken + 1).last() == asset);
                assert(rest@ =~= entries@.skip(taken + 1));
                taken = taken + 1;
            }
        }
        proof {
            assert(entries@.take(taken) =~= entries@);
        }
        assets
    }
}

} // verus!
