//! Finding the logo shown in the title bar.

use vstd::prelude::*;

verus! {

/// Where the logo is looked for, in order.
pub open spec fn logo_candidates() -> Seq<Seq<char>> {
    seq![
        "assets/logo/ezicode.png"@,
        "app/assets/logo/ezicode.png"@,
        "ezicode.png"@,
        "logo.png"@,
        "assets/logo/olova.png"@,
        "app/assets/logo/olova.png"@,
    ]
}

/// The places the logo is looked for, in order.
pub fn logo_candidate_paths() -> (r: Vec<&'static str>)
    ensures
        r@.map_values(|s: &str| s@) == logo_candidates(),
        r@.len() == 6,
{
    let r = vec![
        "assets/logo/ezicode.png",
        "app/assets/logo/ezicode.png",
        "ezicode.png",
        "logo.png",
        "assets/logo/olova.png",
        "app/assets/logo/olova.png",
    ];
    assert(r@.map_values(|s: &str| s@) =~= logo_candidates());
    r
}

/// Whether candidate `i` is known to exist.
pub open spec fn found(exists: Seq<bool>, i: int) -> bool {
    0 <= i < exists.len() && exists[i]
}

/// The logo file: the first candidate that exists, given whether each one
/// does (in the order of the candidates; missing flags count as absent).
pub fn logo_path(exists: &[bool]) -> (r: Option<String>)
    ensures
        match r {
            Some(p) => exists|i: int|
                0 <= i < 6 && found(exists@, i) && (forall|j: int| 0 <= j < i ==> !found(exists@, j))
                    && p@ == logo_candidates()[i],
            None => forall|i: int| 0 <= i < 6 ==> !found(exists@, i),
        },
{
    let candidates = logo_candidate_paths();
    let mut i: usize = 0;
    while i < candidates.len()
        invariant
            0 <= i <= 6,
            candidates@.len() == 6,
            candidates@.map_values(|s: &str| s@) == logo_candidates(),
            forall|j: int| 0 <= j < i ==> !found(exists@, j),
        decreases 6 - i,
    {
        if i < exists.len() && exists[i] {
            assert(candidates@[i as int]@ == logo_candidates()[i as int]);
            let p = candidates[i].to_string();
            assert(found(exists@, i as int));
            return Some(p);
        }
        i = i + 1;
    }
    None
}

} // verus!
