use vstd::prelude::*;
use crate::docs::{replace, replace_spec};
use crate::text::{contains_spec, contains_str, has_prefix, starts_with};

verus! {

/// A release of Lead: its tag and its downloadable files.
pub struct Release {
    pub tag_name: String,
    pub assets: Vec<Asset>,
}

/// A downloadable file of a release.
pub struct Asset {
    pub name: String,
    pub browser_download_url: String,
}

/// `binaries_`
pub open spec fn binaries_prefix() -> Seq<char> {
    seq!['b', 'i', 'n', 'a', 'r', 'i', 'e', 's', '_']
}

/// The asset `a` holds the binaries for the operating system `os` and the
/// architecture `arch`; macOS is named `darwin` in asset names.
pub open spec fn asset_fits(a: Seq<char>, os: Seq<char>, arch: Seq<char>) -> bool {
    &&& has_prefix(a, binaries_prefix())
    &&& contains_spec(a, replace_spec(os, seq!['m', 'a', 'c', 'o', 's'], seq!['d', 'a', 'r', 'w', 'i', 'n']))
    &&& contains_spec(a, arch)
}

/// The first asset of the release that holds the binaries for `os` and
/// `arch`; `None` when there is none, where the installer panics.
pub fn select_asset(release: &Release, os: &str, arch: &str) -> (r: Option<usize>)
    ensures
        match r {
            Some(i) => i < release.assets@.len() && asset_fits(release.assets@[i as int].name@, os@, arch@)
                && forall|j: int| 0 <= j < i ==> !asset_fits(release.assets@[j].name@, os@, arch@),
            None => forall|j: int|
                0 <= j < release.assets@.len() ==> !asset_fits(release.assets@[j].name@, os@, arch@),
        },
{
    let prefix = "binaries_";
    let macos = "macos";
    let darwin = "darwin";
    proof {
        reveal_strlit("binaries_");
        reveal_strlit("macos");
        reveal_strlit("darwin");
        assert(prefix@ =~= binaries_prefix());
        assert(macos@ =~= seq!['m', 'a', 'c', 'o', 's']);
        assert(darwin@ =~= seq!['d', 'a', 'r', 'w', 'i', 'n']);
    }
    let os_name = replace(os, macos, darwin);
    let mut i: usize = 0;
    while i < release.assets.len()
        invariant
            i <= release.assets@.len(),
            prefix@ == binaries_prefix(),
            os_name@ == replace_spec(os@, seq!['m', 'a', 'c', 'o', 's'], seq!['d', 'a', 'r', 'w', 'i', 'n']),
            forall|j: int| 0 <= j < i ==> !asset_fits(release.assets@[j].name@, os@, arch@),
        decreases release.assets@.len() - i,
    {
        let n = release.assets[i].name.as_str();
        if starts_with(n, prefix) && contains_str(n, os_name.as_str()) && contains_str(n, arch) {
            return Some(i);
        }
        i = i + 1;
    }
    None
}

} // verus!
