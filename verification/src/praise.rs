//! The celebration reply: three fragments, independently chosen from
//! externally supplied template sets, concatenated in order.

use rand::Rng;
use vstd::prelude::*;
use vstd::string::StringExecFns;

use crate::errors::ConfigError;

verus! {

/// The three fragment sets that the template provider supplies.
pub struct PraiseMessages {
    pub start: Vec<String>,
    pub count: Vec<String>,
    pub end: Vec<String>,
}

/// Mathematical view of the template sets.
pub ghost struct PraiseModel {
    pub start: Seq<Seq<char>>,
    pub count: Seq<Seq<char>>,
    pub end: Seq<Seq<char>>,
}

impl View for PraiseMessages {
    type V = PraiseModel;

    open spec fn view(&self) -> PraiseModel {
        PraiseModel {
            start: self.start.deep_view(),
            count: self.count.deep_view(),
            end: self.end.deep_view(),
        }
    }
}

/// Every fragment set holds at least one entry, so a celebration reply can
/// be composed.
pub open spec fn praise_usable(p: PraiseModel) -> bool {
    p.start.len() > 0 && p.count.len() > 0 && p.end.len() > 0
}

/// The celebration text made of the fragments at the given indices.
pub open spec fn composed_praise(p: PraiseModel, i: int, j: int, k: int) -> Seq<char> {
    p.start[i] + p.count[j] + p.end[k]
}

/// Relies on rand's `thread_rng` and `Rng::gen_range` over `0..len`: the
/// range is non-empty, so the call does not panic, and the sampled index is
/// below `len`. Nothing more is assumed of the choice.
#[verifier::external_body]
fn pick_index(len: usize) -> (r: usize)
    requires
        len > 0,
    ensures
        r < len,
{
    rand::thread_rng().gen_range(0..len)
}

/// Concatenates the fragments at the given indices, in set order.
pub fn compose_praise(p: &PraiseMessages, i: usize, j: usize, k: usize) -> (r: String)
    requires
        i < p@.start.len(),
        j < p@.count.len(),
        k < p@.end.len(),
    ensures
        r@ == composed_praise(p@, i as int, j as int, k as int),
{
    let s = p.start[i].clone();
    let t = s.concat(p.count[j].as_str());
    t.concat(p.end[k].as_str())
}

/// Builds the milestone celebration reply from one independently chosen
/// fragment of each set; refuses a template whose fragment sets are not all
/// non-empty.
pub fn generate_praise(p: &PraiseMessages) -> (r: Result<String, ConfigError>)
    ensures
        match r {
            Ok(s) => praise_usable(p@) && (exists|i: int, j: int, k: int|
                0 <= i < p@.start.len() && 0 <= j < p@.count.len() && 0 <= k < p@.end.len() && s@
                    == composed_praise(p@, i, j, k)),
            Err(_) => !praise_usable(p@),
        },
{
    let ns = p.start.len();
    let nc = p.count.len();
    let ne = p.end.len();
    if ns == 0 || nc == 0 || ne == 0 {
        return Err(ConfigError);
    }
    let i = pick_index(ns);
    let j = pick_index(nc);
    let k = pick_index(ne);
    let s = compose_praise(p, i, j, k);
    proof {
        assert(s@ == composed_praise(p@, i as int, j as int, k as int));
    }
    Ok(s)
}

} // verus!
