use vstd::prelude::*;

verus! {

/// Where an emulator keeps its ROMs, and how its asset ids are written.
pub struct EmulatorProfile {
    /// Output root, relative to the program's directory.
    pub roms_folder: String,
    /// Output roots per platform id, for an emulator with several platforms.
    pub platforms: Option<Vec<(String, String)>>,
    /// A prefix that asset ids may carry.
    pub prefix: Option<String>,
    /// The manifest lists ids without `prefix`, so it is stripped before lookup.
    pub dont_add_prefix_to_json_file: bool,
}

/// Where one request is resolved to.
#[derive(Debug, PartialEq, Eq)]
pub struct Target {
    /// The asset id to look up in the manifest.
    pub rom_id: String,
    /// The platform id taken off the requested id, or empty.
    pub platform_id: String,
    /// The output root.
    pub roms_folder: String,
    /// The manifest file to read.
    pub manifest_file: String,
}

#[derive(Debug, PartialEq, Eq)]
pub enum Resolution {
    Resolved { target: Target },
    /// The requested id names a platform that the emulator lacks.
    UnknownPlatform { platform_id: String },
}

/// Position of the first `c` in `s`, or -1.
pub open spec fn first_pos(s: Seq<char>, c: char) -> int
    decreases s.len(),
{
    if s.len() == 0 {
        -1
    } else if s[0] == c {
        0
    } else if first_pos(s.drop_first(), c) < 0 {
        -1
    } else {
        first_pos(s.drop_first(), c) + 1
    }
}

/// The first entry of `table` with key `k`, if any.
pub open spec fn table_get(table: Seq<(String, String)>, k: Seq<char>) -> Option<String>
    decreases table.len(),
{
    if table.len() == 0 {
        None
    } else if table[0].0@ == k {
        Some(table[0].1)
    } else {
        table_get(table.drop_first(), k)
    }
}

/// `id` without `prefix` where it starts with it; else `id`.
pub open spec fn strip_prefix_spec(id: Seq<char>, prefix: Seq<char>) -> Seq<char> {
    if prefix.is_prefix_of(id) {
        id.subrange(prefix.len() as int, id.len() as int)
    } else {
        id
    }
}

/// The manifest file for an emulator and platform: `{emulator}_roms.json`, or
/// `{emulator}_{platform}_roms.json` where a platform is given.
pub open spec fn manifest_file_spec(emulator: Seq<char>, platform: Seq<char>) -> Seq<char> {
    if platform.len() == 0 {
        emulator + "_roms.json"@
    } else {
        emulator + "_"@ + platform + "_roms.json"@
    }
}

/// The id after the platform split: the part after the first `_` where the
/// emulator has platforms and the id holds one; else the whole id.
pub open spec fn split_id(p: EmulatorProfile, id: Seq<char>) -> (Seq<char>, Seq<char>) {
    if p.platforms is Some && first_pos(id, '_') >= 0 {
        (id.subrange(0, first_pos(id, '_')), id.subrange(first_pos(id, '_') + 1, id.len() as int))
    } else {
        (Seq::empty(), id)
    }
}

/// The manifest id for the rest of a requested id, once the platform is off.
pub open spec fn lookup_id(p: EmulatorProfile, rest: Seq<char>) -> Seq<char> {
    match p.prefix {
        Some(pre) => if p.dont_add_prefix_to_json_file {
            strip_prefix_spec(rest, pre@)
        } else {
            rest
        },
        None => rest,
    }
}

proof fn lemma_first_pos_bounds(s: Seq<char>, c: char)
    ensures
        -1 <= first_pos(s, c) < s.len(),
        first_pos(s, c) >= 0 ==> s[first_pos(s, c)] == c,
    decreases s.len(),
{
    if s.len() > 0 && s[0] != c {
        lemma_first_pos_bounds(s.drop_first(), c);
    }
}

/// Position of the first `c` in `s`.
pub fn first_index_of(s: &str, c: char) -> (r: Option<usize>)
    ensures
        match r {
            Some(p) => first_pos(s@, c) == p,
            None => first_pos(s@, c) == -1,
        },
{
    let n = s.unicode_len();
    let mut i: usize = n;
    let mut found: Option<usize> = None;
    while i > 0
        invariant
            n == s@.len(),
            i <= n,
            match found {
                Some(p) => i <= p && first_pos(s@.subrange(i as int, n as int), c) == p - i,
                None => first_pos(s@.subrange(i as int, n as int), c) == -1,
            },
        decreases i,
    {
        i = i - 1;
        proof {
            assert(s@.subrange(i as int, n as int).drop_first() =~= s@.subrange(i + 1, n as int));
        }
        if s.get_char(i) == c {
            found = Some(i);
        }
    }
    proof {
        assert(s@.subrange(0, n as int) =~= s@);
    }
    found
}

/// The output root that `table` gives for `k`.
pub fn table_lookup(table: &Vec<(String, String)>, k: &str) -> (r: Option<String>)
    ensures
        r == table_get(table@, k@),
{
    let n = table.len();
    let mut i: usize = n;
    let mut found: Option<String> = None;
    while i > 0
        invariant
            n == table@.len(),
            i <= n,
            found == table_get(table@.subrange(i as int, n as int), k@),
        decreases i,
    {
        i = i - 1;
        proof {
            assert(table@.subrange(i as int, n as int).drop_first() =~= table@.subrange(i + 1, n as int));
        }
        if table[i].0.as_str().unicode_len() == k.unicode_len() && str_eq(table[i].0.as_str(), k) {
            found = Some(table[i].1.clone());
        }
    }
    proof {
        assert(table@.subrange(0, n as int) =~= table@);
    }
    found
}

/// Whether two strings hold the same characters.
pub fn str_eq(a: &str, b: &str) -> (r: bool)
    ensures
        r == (a@ == b@),
{
    let n = a.unicode_len();
    if n != b.unicode_len() {
        return false;
    }
    let mut i: usize = 0;
    while i < n
        invariant
            n == a@.len(),
            n == b@.len(),
            i <= n,
            forall|j: int| 0 <= j < i ==> a@[j] == b@[j],
        decreases n - i,
    {
        if a.get_char(i) != b.get_char(i) {
            return false;
        }
        i = i + 1;
    }
    proof {
        assert(a@ =~= b@);
    }
    true
}

/// `id` without `prefix` where it starts with it.
pub fn strip_prefix(id: &str, prefix: &str) -> (r: String)
    ensures
        r@ == strip_prefix_spec(id@, prefix@),
{
    let n = id.unicode_len();
    let m = prefix.unicode_len();
    if m > n {
        return id.to_string();
    }
    let head = id.substring_char(0, m);
    if str_eq(head, prefix) {
        proof {
            assert(prefix@.is_prefix_of(id@));
        }
        id.substring_char(m, n).to_string()
    } else {
        proof {
            if prefix@.is_prefix_of(id@) {
                assert(head@ =~= prefix@);
            }
        }
        id.to_string()
    }
}

/// The manifest file for an emulator and platform.
pub fn manifest_file(emulator: &str, platform: &str) -> (r: String)
    ensures
        r@ == manifest_file_spec(emulator@, platform@),
{
    let base = emulator.to_string();
    if platform.unicode_len() == 0 {
        base.concat("_roms.json")
    } else {
        base.concat("_").concat(platform).concat("_roms.json")
    }
}

impl EmulatorProfile {
    /// Resolves a requested id: takes a platform id off its front where the
    /// emulator has platforms, picks the output root, strips the prefix where
    /// the manifest omits it, and names the manifest file.
    pub fn resolve(&self, emulator: &str, requested: &str) -> (r: Resolution)
        ensures
            ({
                let (platform, rest) = split_id(*self, requested@);
                match r {
                    Resolution::UnknownPlatform { platform_id } => {
                        &&& platform_id@ == platform
                        &&& table_get(self.platforms.unwrap()@, platform) is None
                        &&& self.platforms is Some && first_pos(requested@, '_') >= 0
                    },
                    Resolution::Resolved { target } => {
                        &&& target.platform_id@ == platform
                        &&& target.rom_id@ == lookup_id(*self, rest)
                        &&& target.manifest_file@ == manifest_file_spec(emulator@, platform)
                        &&& if self.platforms is Some && first_pos(requested@, '_') >= 0 {
                            table_get(self.platforms.unwrap()@, platform) == Some(target.roms_folder)
                        } else {
                            target.roms_folder == self.roms_folder
                        }
                    },
                }
            }),
    {
        proof {
            lemma_first_pos_bounds(requested@, '_');
        }
        let n = requested.unicode_len();
        let mut roms_folder = self.roms_folder.clone();
        let mut platform_id = String::new();
        let mut rest = requested.to_string();
        match &self.platforms {
            Some(table) => match first_index_of(requested, '_') {
                Some(p) => {
                    platform_id = requested.substring_char(0, p).to_string();
                    rest = requested.substring_char(p + 1, n).to_string();
                    match table_lookup(table, platform_id.as_str()) {
                        Some(folder) => {
                            roms_folder = folder;
                        },
                        None => {
                            return Resolution::UnknownPlatform { platform_id };
                        },
                    }
                },
                None => {},
            },
            None => {},
        }
        let rom_id = match &self.prefix {
            Some(pre) => if self.dont_add_prefix_to_json_file {
                strip_prefix(rest.as_str(), pre.as_str())
            } else {
                rest
            },
            None => rest,
        };
        let manifest_file = manifest_file(emulator, platform_id.as_str());
        Resolution::Resolved { target: Target { rom_id, platform_id, roms_folder, manifest_file } }
    }
}

} // verus!
