//! Theme and icon-theme files contributed by extensions.

use crate::extension::store::json_paths;
use crate::paths::path_sorted;
use crate::text::strs;
use vstd::prelude::*;

verus! {

/// `(extension folder, icon theme file)` for each icon theme file of each
/// listed extension, in order.
pub open spec fn icon_theme_pairs(listings: Seq<(String, Vec<String>)>) -> Seq<(Seq<char>, Seq<char>)>
    decreases listings.len(),
{
    if listings.len() == 0 {
        Seq::empty()
    } else {
        let (dir, entries) = listings.last();
        icon_theme_pairs(listings.drop_last()) + path_sorted(json_paths(strs(entries@))).map_values(
            |f: Seq<char>| (dir@, f),
        )
    }
}

/// Every icon theme file contributed by installed extensions, paired with
/// the folder of its extension (icons resolve relative to it). Each listing
/// is an extension folder with the entries of its `icon_themes/`.
pub fn icon_theme_files(listings: &[(String, Vec<String>)]) -> (r: Vec<(String, String)>)
    ensures
        r@.map_values(|p: (String, String)| (p.0@, p.1@)) == icon_theme_pairs(listings@),
{
    let mut out: Vec<(String, String)> = Vec::new();
    let mut i: usize = 0;
    while i < listings.len()
        invariant
            0 <= i <= listings@.len(),
            out@.map_values(|p: (String, String)| (p.0@, p.1@)) == icon_theme_pairs(listings@.take(i as int)),
        decreases listings@.len() - i,
    {
        let dir = &listings[i].0;
        let files = crate::extension::store::json_files_in(listings[i].1.as_slice());
        let ghost base = out@.map_values(|p: (String, String)| (p.0@, p.1@));
        let ghost fs = strs(files@).map_values(|f: Seq<char>| (dir@, f));
        let mut j: usize = 0;
        while j < files.len()
            invariant
                0 <= j <= files@.len(),
                fs == strs(files@).map_values(|f: Seq<char>| (dir@, f)),
                out@.map_values(|p: (String, String)| (p.0@, p.1@)) == base + fs.take(j as int),
            decreases files@.len() - j,
        {
            let ghost before = out@;
            out.push((dir.clone(), files[j].clone()));
            proof {
                assert(out@.map_values(|p: (String, String)| (p.0@, p.1@)) =~= before.map_values(
                    |p: (String, String)| (p.0@, p.1@),
                ).push(fs[j as int]));
                assert(fs.take(j + 1) =~= fs.take(j as int).push(fs[j as int]));
            }
            j = j + 1;
        }
        proof {
            assert(fs.take(j as int) =~= fs);
            assert(listings@.take(i + 1).drop_last() =~= listings@.take(i as int));
        }
        i = i + 1;
    }
    assert(listings@.take(i as int) =~= listings@);
    out
}

} // verus!
