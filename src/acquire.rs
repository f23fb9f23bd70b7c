use vstd::prelude::*;
use crate::manifest::{AssetRecord, ExtractPair};
use crate::archive::{enclosed, opens, ArchiveVerdict};

verus! {

/// The HTTP status that a probe must answer for a download to go ahead.
pub const STATUS_OK: u16 = 200;

/// The pairs whose destination is not yet on disk, in declaration order.
pub open spec fn pending_spec(pairs: Seq<ExtractPair>, present: Seq<bool>) -> Seq<ExtractPair>
    decreases pairs.len(),
{
    if pairs.len() == 0 || present.len() == 0 {
        Seq::empty()
    } else {
        let prev = pending_spec(pairs.drop_last(), present.drop_last());
        if present.last() {
            prev
        } else {
            prev.push(pairs.last())
        }
    }
}

/// What to do for one work item.
#[derive(Debug, PartialEq, Eq)]
pub enum Action {
    /// The manifest has no record for the id.
    NotFound,
    /// Everything the asset provides is already on disk: no request is made.
    Skip,
    /// Download the artifact.
    Fetch,
    /// Download the archive, extract these pairs, then delete the archive.
    FetchAndExtract { plan: Vec<ExtractPair> },
}

/// The decision for a work item, given its record, which declared extraction
/// destinations exist, and whether the artifact exists and was kept.
pub open spec fn decide_spec(rec: Option<AssetRecord>, dst_present: Seq<bool>, artifact_present: bool) -> Action {
    match rec {
        None => Action::NotFound,
        Some(r) => match r.extract_to {
            Some(pairs) => {
                if pending_spec(pairs@, dst_present).len() == 0 {
                    Action::Skip
                } else {
                    Action::FetchAndExtract { plan: choose|v: Vec<ExtractPair>| v@ == pending_spec(pairs@, dst_present) }
                }
            },
            None => if artifact_present {
                Action::Skip
            } else {
                Action::Fetch
            },
        },
    }
}

/// Whether the actions agree: the same variant, and the same plan.
pub open spec fn same_action(a: Action, b: Action) -> bool {
    match (a, b) {
        (Action::FetchAndExtract { plan: p }, Action::FetchAndExtract { plan: q }) => p@ == q@,
        (Action::FetchAndExtract { .. }, _) => false,
        (_, Action::FetchAndExtract { .. }) => false,
        _ => a == b,
    }
}

/// The extraction plan: the pairs whose destination is not yet on disk.
pub fn pending_pairs(pairs: &Vec<ExtractPair>, present: &Vec<bool>) -> (r: Vec<ExtractPair>)
    requires
        pairs@.len() == present@.len(),
    ensures
        r@ == pending_spec(pairs@, present@),
{
    let mut out: Vec<ExtractPair> = Vec::new();
    let n = pairs.len();
    let mut k: usize = 0;
    while k < n
        invariant
            n == pairs@.len(),
            n == present@.len(),
            k <= n,
            out@ == pending_spec(pairs@.subrange(0, k as int), present@.subrange(0, k as int)),
        decreases n - k,
    {
        proof {
            assert(pairs@.subrange(0, k + 1).drop_last() =~= pairs@.subrange(0, k as int));
            assert(present@.subrange(0, k + 1).drop_last() =~= present@.subrange(0, k as int));
        }
        if !present[k] {
            out.push(pairs[k].duplicate());
        }
        k = k + 1;
    }
    proof {
        assert(pairs@.subrange(0, n as int) =~= pairs@);
        assert(present@.subrange(0, n as int) =~= present@);
    }
    out
}

/// Decides what to do for one work item. `dst_present` says, for each
/// declared extraction pair, whether its destination exists;
/// `artifact_present` whether the artifact exists and passed its check.
pub fn decide(rec: Option<&AssetRecord>, dst_present: &Vec<bool>, artifact_present: bool) -> (r: Action)
    requires
        rec is Some && rec.unwrap().extract_to is Some ==> dst_present@.len()
            == rec.unwrap().extract_to.unwrap()@.len(),
    ensures
        same_action(
            r,
            decide_spec(
                match rec {
                    Some(x) => Some(*x),
                    None => None,
                },
                dst_present@,
                artifact_present,
            ),
        ),
{
    match rec {
        None => Action::NotFound,
        Some(record) => match &record.extract_to {
            Some(pairs) => {
                let plan = pending_pairs(pairs, dst_present);
                if plan.len() == 0 {
                    Action::Skip
                } else {
                    Action::FetchAndExtract { plan }
                }
            },
            None => if artifact_present {
                Action::Skip
            } else {
                Action::Fetch
            },
        },
    }
}

/// The archive extension.
pub open spec fn archive_suffix() -> Seq<char> {
    seq!['.', 'z', 'i', 'p']
}

/// Whether a file name ends in the archive extension.
pub open spec fn is_archive_name(name: Seq<char>) -> bool {
    name.len() >= 4 && name.subrange(name.len() - 4, name.len() as int) == archive_suffix()
}

/// Whether a file name ends in the archive extension, `.zip`.
pub fn has_archive_extension(name: &str) -> (r: bool)
    ensures
        r == is_archive_name(name@),
{
    let n = name.unicode_len();
    if n < 4 {
        return false;
    }
    let r = name.get_char(n - 4) == '.' && name.get_char(n - 3) == 'z' && name.get_char(n - 2) == 'i'
        && name.get_char(n - 1) == 'p';
    proof {
        let t = name@.subrange(n - 4, n as int);
        if r {
            assert(t =~= archive_suffix());
        } else {
            assert(t[0] != '.' || t[1] != 'z' || t[2] != 'i' || t[3] != 'p');
        }
    }
    r
}

/// Whether an existing artifact counts as present: it exists and, where it
/// was checked as an archive, the check kept it.
pub open spec fn trusted_spec(exists: bool, verdict: Option<ArchiveVerdict>) -> bool {
    exists && match verdict {
        Some(v) => v.keeps(),
        None => true,
    }
}

/// Whether an existing artifact counts as present. An archive that failed its
/// check is to be deleted and fetched again.
pub fn trust_existing(exists: bool, verdict: &Option<ArchiveVerdict>) -> (r: bool)
    ensures
        r == trusted_spec(exists, *verdict),
{
    exists && match verdict {
        Some(v) => v.is_sound(),
        None => true,
    }
}

/// Whether the answer to the existence probe lets the download go ahead.
pub fn probe_ok(status: u16) -> (r: bool)
    ensures
        r == (status == STATUS_OK),
{
    status == STATUS_OK
}

/// An asset whose declared extraction destinations all exist, or which
/// declares none and whose artifact exists and was kept, is skipped: a second
/// run over a complete output tree makes no request for it.
pub proof fn lemma_complete_asset_skipped(rec: AssetRecord, dst_present: Seq<bool>, artifact_present: bool)
    requires
        rec.extract_to is Some ==> dst_present.len() == rec.extract_to.unwrap()@.len()
            && forall|k: int| 0 <= k < dst_present.len() ==> dst_present[k],
        rec.extract_to is None ==> artifact_present,
    ensures
        decide_spec(Some(rec), dst_present, artifact_present) is Skip,
{
    if rec.extract_to is Some {
        lemma_all_present_nothing_pending(rec.extract_to.unwrap()@, dst_present);
    }
}

proof fn lemma_all_present_nothing_pending(pairs: Seq<ExtractPair>, present: Seq<bool>)
    requires
        pairs.len() == present.len(),
        forall|k: int| 0 <= k < present.len() ==> present[k],
    ensures
        pending_spec(pairs, present).len() == 0,
    decreases pairs.len(),
{
    if pairs.len() > 0 {
        lemma_all_present_nothing_pending(pairs.drop_last(), present.drop_last());
    }
}

/// Every pair whose destination is missing is in the plan, so a run that
/// extracts the whole plan leaves every destination present.
pub proof fn lemma_plan_covers_missing(pairs: Seq<ExtractPair>, present: Seq<bool>, k: int)
    requires
        pairs.len() == present.len(),
        0 <= k < pairs.len(),
        !present[k],
    ensures
        pending_spec(pairs, present).contains(pairs[k]),
    decreases pairs.len(),
{
    let prev = pending_spec(pairs.drop_last(), present.drop_last());
    if k == pairs.len() - 1 {
        assert(pending_spec(pairs, present).last() == pairs[k]);
    } else {
        lemma_plan_covers_missing(pairs.drop_last(), present.drop_last(), k);
        let j = choose|j: int| 0 <= j < prev.len() && prev[j] == pairs[k];
        if !present.last() {
            assert(prev.push(pairs.last())[j] == pairs[k]);
        }
    }
}

/// A run that writes every destination of its plan leaves the asset complete:
/// the run after it skips the asset and makes no request for it.
pub proof fn lemma_second_run_skips(rec: AssetRecord, before: Seq<bool>, after: Seq<bool>, artifact_present: bool)
    requires
        rec.extract_to is Some,
        before.len() == rec.extract_to.unwrap()@.len(),
        after.len() == before.len(),
        forall|k: int| 0 <= k < before.len() && before[k] ==> after[k],
        forall|k: int|
            0 <= k < before.len() && pending_spec(rec.extract_to.unwrap()@, before).contains(
                rec.extract_to.unwrap()@[k],
            ) ==> after[k],
    ensures
        decide_spec(Some(rec), after, artifact_present) is Skip,
{
    let pairs = rec.extract_to.unwrap()@;
    assert forall|k: int| 0 <= k < after.len() implies after[k] by {
        if !before[k] {
            lemma_plan_covers_missing(pairs, before, k);
        }
    }
    lemma_complete_asset_skipped(rec, after, artifact_present);
}

/// An existing archive with a member whose path would escape the extraction
/// root is not kept, whatever the check answers of it, and an asset that
/// declares no extraction is then fetched again.
pub proof fn lemma_escaping_archive_refetched(
    members: Seq<(Seq<char>, bool, bool, bool, Seq<u8>)>,
    verdict: ArchiveVerdict,
    rec: AssetRecord,
    i: int,
)
    requires
        0 <= i < members.len(),
        !enclosed(members[i]),
        verdict.fits(members),
        rec.extract_to is None,
    ensures
        !trusted_spec(true, Some(verdict)),
        decide_spec(Some(rec), Seq::empty(), trusted_spec(true, Some(verdict))) is Fetch,
{
}


/// An archive whose every member opens and stays inside the extraction root
/// is judged sound, and so it is kept as downloaded.
pub proof fn lemma_sound_archive_kept(members: Seq<(Seq<char>, bool, bool, bool, Seq<u8>)>, verdict: ArchiveVerdict)
    requires
        forall|i: int| 0 <= i < members.len() ==> opens(members[i]) && enclosed(members[i]),
        verdict.fits(members),
    ensures
        verdict is Sound,
        trusted_spec(true, Some(verdict)),
{
}

} // verus!
