use vstd::prelude::*;

verus! {

/// One member of an archive to place at a path relative to the output root.
#[derive(Debug, PartialEq, Eq)]
pub struct ExtractPair {
    pub src: String,
    pub dst: String,
}

impl ExtractPair {
    pub fn new(src: String, dst: String) -> (r: Self)
        ensures
            r.src == src,
            r.dst == dst,
    {
        ExtractPair { src, dst }
    }

    /// A copy with equal fields.
    pub fn duplicate(&self) -> (r: Self)
        ensures
            r == *self,
    {
        ExtractPair::new(self.src.clone(), self.dst.clone())
    }
}

/// One asset of the manifest.
#[derive(Debug, PartialEq, Eq)]
pub struct AssetRecord {
    /// Where the artifact is downloaded from.
    pub download: String,
    /// File name to store the artifact under, in place of the one in the URL.
    pub copy_to: Option<String>,
    /// Present when the artifact is an archive whose members are placed one by one.
    pub extract_to: Option<Vec<ExtractPair>>,
    /// Assets this one depends on.
    pub require: Option<Vec<String>>,
    /// Older spelling of `require`, read only where `require` is absent.
    pub required: Option<Vec<String>>,
}

/// The assets known for one emulator, keyed by asset id.
pub struct Manifest {
    pub entries: Vec<(String, AssetRecord)>,
}

/// The declared dependencies of an asset: `require`, else `required`, else none.
pub open spec fn dependencies(rec: AssetRecord) -> Seq<String> {
    match rec.require {
        Some(v) => v@,
        None => match rec.required {
            Some(v) => v@,
            None => Seq::empty(),
        },
    }
}

impl Manifest {
    /// Entry `i` is the first one whose id is `id`.
    pub open spec fn first_match(&self, id: Seq<char>, i: int) -> bool {
        &&& 0 <= i < self.entries@.len()
        &&& self.entries@[i].0@ == id
        &&& forall|j: int| 0 <= j < i ==> self.entries@[j].0@ != id
    }

    pub open spec fn has_id(&self, id: Seq<char>) -> bool {
        exists|j: int| 0 <= j < self.entries@.len() && self.entries@[j].0@ == id
    }

    /// Position of the record for `id`: the first entry with that id.
    pub fn lookup(&self, id: &String) -> (r: Option<usize>)
        ensures
            match r {
                Some(i) => self.first_match(id@, i as int),
                None => !self.has_id(id@),
            },
    {
        let n = self.entries.len();
        let mut i: usize = 0;
        while i < n
            invariant
                n == self.entries@.len(),
                i <= n,
                forall|j: int| 0 <= j < i ==> self.entries@[j].0@ != id@,
            decreases n - i,
        {
            if self.entries[i].0 == *id {
                return Some(i);
            }
            i = i + 1;
        }
        None
    }

    /// The record for `id`, if the manifest has one.
    pub fn record(&self, id: &String) -> (r: Option<&AssetRecord>)
        ensures
            match r {
                Some(rec) => exists|i: int| self.first_match(id@, i) && *rec == self.entries@[i].1,
                None => !self.has_id(id@),
            },
    {
        match self.lookup(id) {
            Some(i) => Some(&self.entries[i].1),
            None => None,
        }
    }

    /// The work list for `root`: empty when the manifest lacks it, else `root`
    /// followed by its declared dependencies in order, one level deep.
    pub open spec fn expansion(&self, root: String) -> Seq<String> {
        if self.has_id(root@) {
            let i = choose|i: int| self.first_match(root@, i);
            seq![root].add(dependencies(self.entries@[i].1))
        } else {
            Seq::empty()
        }
    }

    /// Expands `root` into the ordered work list of asset ids to acquire.
    pub fn expand(&self, root: &String) -> (r: Vec<String>)
        ensures
            r@ == self.expansion(*root),
    {
        let mut queue: Vec<String> = Vec::new();
        match self.lookup(root) {
            None => {},
            Some(i) => {
                let rec = &self.entries[i].1;
                queue.push(root.clone());
                let deps: &Vec<String> = match &rec.require {
                    Some(v) => v,
                    None => match &rec.required {
                        Some(v) => v,
                        None => {
                            proof {
                                first_match_unique(self, root@, i as int);
                                assert(queue@ =~= self.expansion(*root));
                            }
                            return queue;
                        },
                    },
                };
                let n = deps.len();
                let mut k: usize = 0;
                while k < n
                    invariant
                        n == deps@.len(),
                        k <= n,
                        queue@ == seq![*root].add(deps@.subrange(0, k as int)),
                    decreases n - k,
                {
                    queue.push(deps[k].clone());
                    proof {
                        assert(deps@.subrange(0, k + 1) =~= deps@.subrange(0, k as int).push(deps@[k as int]));
                    }
                    k = k + 1;
                }
                proof {
                    assert(deps@.subrange(0, n as int) =~= deps@);
                    first_match_unique(self, root@, i as int);
                    assert(dependencies(self.entries@[i as int].1) == deps@);
                }
            },
        }
        queue
    }
}

/// At most one entry is the first match of an id, so `expansion` picks `i`.
pub proof fn first_match_unique(m: &Manifest, id: Seq<char>, i: int)
    requires
        m.first_match(id, i),
    ensures
        m.has_id(id),
        forall|j: int| m.first_match(id, j) ==> j == i,
        (choose|j: int| m.first_match(id, j)) == i,
{
    assert(m.entries@[i].0@ == id);
    assert forall|j: int| m.first_match(id, j) implies j == i by {
        if j < i {
            assert(m.entries@[j].0@ != id);
        } else if i < j {
            assert(m.entries@[i].0@ != id);
        }
    }
}

/// An asset that declares `require` expands to itself followed by exactly
/// those ids, whatever its `required` list holds.
pub proof fn lemma_require_takes_precedence(m: &Manifest, root: String, i: int, deps: Vec<String>)
    requires
        m.first_match(root@, i),
        m.entries@[i].1.require == Some(deps),
    ensures
        m.expansion(root) == seq![root].add(deps@),
{
    first_match_unique(m, root@, i);
}

} // verus!
