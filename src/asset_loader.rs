use vstd::hash_map::StringHashMap;
use vstd::prelude::*;

verus! {

/// A path separator: a slash or a backslash.
pub open spec fn is_separator(c: char) -> bool {
    c == '/' || c == '\\'
}

/// `s` with every backslash turned into a forward slash.
pub open spec fn forward_slashes(s: Seq<char>) -> Seq<char> {
    s.map_values(|c: char| if c == '\\' { '/' } else { c })
}

/// `s` without its last character when that character is a slash.
pub open spec fn strip_trailing_slash(s: Seq<char>) -> Seq<char> {
    if s.len() > 0 && s.last() == '/' {
        s.drop_last()
    } else {
        s
    }
}

/// `s` without its first character when that character is a slash.
pub open spec fn strip_leading_slash(s: Seq<char>) -> Seq<char> {
    if s.len() > 0 && s[0] == '/' {
        s.drop_first()
    } else {
        s
    }
}

/// `s` without a leading `?` marker and the character after it.
pub open spec fn strip_marker(s: Seq<char>) -> Seq<char> {
    if s.len() > 0 && s[0] == '?' {
        if s.len() >= 2 {
            s.skip(2)
        } else {
            Seq::empty()
        }
    } else {
        s
    }
}

/// The pack name that a raw directory or configuration string denotes: backslashes become
/// slashes, then one leading slash, a leading `?` marker (two characters) and one trailing
/// slash are removed.
pub open spec fn normalize_pack(s: Seq<char>) -> Seq<char> {
    strip_trailing_slash(strip_marker(strip_leading_slash(forward_slashes(s))))
}

/// Copies `s`, turning each backslash into a forward slash.
fn to_forward_slashes(s: &str) -> (r: String)
    ensures
        r@ == forward_slashes(s@),
{
    let n = s.unicode_len();
    let mut out = String::new();
    let mut i: usize = 0;
    while i < n
        invariant
            n == s@.len(),
            i <= n,
            out@ == forward_slashes(s@.take(i as int)),
        decreases n - i,
    {
        let c = s.get_char(i);
        let piece = s.substring_char(i, i + 1);
        proof {
            reveal_strlit("/");
            assert(s@.take(i + 1) == s@.take(i as int).push(c));
        }
        if c == '\\' {
            out.append("/");
        } else {
            out.append(piece);
        }
        assert(out@ == forward_slashes(s@.take(i + 1)));
        i = i + 1;
    }
    assert(s@.take(n as int) == s@);
    out
}

/// Removes one trailing slash from `path`, if there is one.
fn sanitize_path_trail_only(path: &str) -> (r: String)
    ensures
        r@ == strip_trailing_slash(path@),
{
    let n = path.unicode_len();
    if n > 0 && path.get_char(n - 1) == '/' {
        String::from_str(path.substring_char(0, n - 1))
    } else {
        String::from_str(path)
    }
}

/// Normalizes a raw pack name (see `normalize_pack`).
fn sanitize_path(path: &str) -> (r: String)
    ensures
        r@ == normalize_pack(path@),
{
    let slashed = to_forward_slashes(path);
    let s = slashed.as_str();
    let n = s.unicode_len();
    let mut start: usize = 0;
    if n > 0 && s.get_char(0) == '/' {
        start = 1;
    }
    if start < n && s.get_char(start) == '?' {
        start = if start + 2 <= n {
            start + 2
        } else {
            n
        };
    }
    let mut end: usize = n;
    if start < end && s.get_char(end - 1) == '/' {
        end = end - 1;
    }
    let ghost a = strip_leading_slash(s@);
    let ghost b = strip_marker(a);
    assert(a == s@.skip(if n > 0 && s@[0] == '/' { 1 } else { 0 }));
    assert(b == s@.subrange(start as int, n as int));
    String::from_str(s.substring_char(start, end))
}

/// The place of an asset inside a pack: `base/pack/asset`.
pub open spec fn pack_path(base: Seq<char>, pack: Seq<char>, asset: Seq<char>) -> Seq<char> {
    base + seq!['/'] + pack + seq!['/'] + asset
}

/// The views of a sequence of strings.
pub open spec fn string_views(v: Seq<String>) -> Seq<Seq<char>> {
    v.map_values(|s: String| s@)
}

/// The view of an optional string.
pub open spec fn opt_string_view(o: Option<String>) -> Option<Seq<char>> {
    match o {
        Some(s) => Some(s@),
        None => None,
    }
}

/// Which path serves `asset`, given the files that exist: the last pack of `packs` other than
/// the default one that holds the asset; failing that, the default pack, if it holds it.
pub open spec fn resolve_in(
    base: Seq<char>,
    default_pack: Seq<char>,
    packs: Seq<Seq<char>>,
    asset: Seq<char>,
    files: Seq<Seq<char>>,
) -> Option<Seq<char>>
    decreases packs.len(),
{
    if packs.len() == 0 {
        if files.contains(pack_path(base, default_pack, asset)) {
            Some(pack_path(base, default_pack, asset))
        } else {
            None
        }
    } else {
        let p = packs.last();
        if p != default_pack && files.contains(pack_path(base, p, asset)) {
            Some(pack_path(base, p, asset))
        } else {
            resolve_in(base, default_pack, packs.drop_last(), asset, files)
        }
    }
}

/// The packs other than the default one, in discovery order.
pub open spec fn override_packs(default_pack: Seq<char>, packs: Seq<Seq<char>>) -> Seq<Seq<char>>
    decreases packs.len(),
{
    if packs.len() == 0 {
        Seq::empty()
    } else if packs.last() != default_pack {
        override_packs(default_pack, packs.drop_last()).push(packs.last())
    } else {
        override_packs(default_pack, packs.drop_last())
    }
}

/// The paths probed to resolve `asset`, in the order of probing: the default pack's first,
/// then one for each override pack.
pub open spec fn probe_paths(
    base: Seq<char>,
    default_pack: Seq<char>,
    packs: Seq<Seq<char>>,
    asset: Seq<char>,
) -> Seq<Seq<char>> {
    seq![pack_path(base, default_pack, asset)] + override_packs(default_pack, packs).map_values(
        |p: Seq<char>| pack_path(base, p, asset),
    )
}

/// `entry` without the prefix `base`, when it begins with it.
pub open spec fn strip_base(base: Seq<char>, entry: Seq<char>) -> Seq<char> {
    if base.is_prefix_of(entry) {
        entry.skip(base.len() as int)
    } else {
        entry
    }
}

/// The pack name of a directory entry listed under `base`.
pub open spec fn entry_pack_name(base: Seq<char>, entry: Seq<char>) -> Seq<char> {
    normalize_pack(strip_base(base, entry))
}

/// The packs known after a discovery step: the cached ones when there are any; otherwise those
/// named by the entries of the base directory's listing, in listing order, when it was read.
pub open spec fn discovered(
    base: Seq<char>,
    cached: Seq<Seq<char>>,
    listing: Option<Seq<Seq<char>>>,
) -> Seq<Seq<char>> {
    if cached.len() > 0 {
        cached
    } else {
        match listing {
            Some(entries) => entries.map_values(|e: Seq<char>| entry_pack_name(base, e)),
            None => cached,
        }
    }
}

/// The views of an optional listing.
pub open spec fn opt_listing_view(o: Option<&Vec<String>>) -> Option<Seq<Seq<char>>> {
    match o {
        Some(v) => Some(string_views(v@)),
        None => None,
    }
}

/// What an `AssetLoader` holds: the base directory, the default pack, and the packs found
/// there, in discovery order (empty until they are discovered).
pub struct LoaderView {
    pub base: Seq<char>,
    pub default_pack: Seq<char>,
    pub packs: Seq<Seq<char>>,
}

impl LoaderView {
    /// Which path serves `asset`, given the files that exist.
    pub open spec fn resolve(self, asset: Seq<char>, files: Seq<Seq<char>>) -> Option<Seq<char>> {
        resolve_in(self.base, self.default_pack, self.packs, asset, files)
    }

    /// The paths probed to resolve `asset`.
    pub open spec fn probes(self, asset: Seq<char>) -> Seq<Seq<char>> {
        probe_paths(self.base, self.default_pack, self.packs, asset)
    }
}

/// Resolves assets against layered asset packs: a default pack and override packs, all
/// directories under one base directory. A pack found later in discovery order overrides one
/// found earlier, and every override pack overrides the default pack.
pub struct AssetLoader {
    base_path: String,
    default_pack: String,
    asset_packs: Vec<String>,
}

impl View for AssetLoader {
    type V = LoaderView;

    closed spec fn view(&self) -> LoaderView {
        LoaderView {
            base: self.base_path@,
            default_pack: self.default_pack@,
            packs: string_views(self.asset_packs@),
        }
    }
}

/// Whether `files` holds a string equal to `p`.
fn contains_path(files: &Vec<String>, p: &String) -> (r: bool)
    ensures
        r == string_views(files@).contains(p@),
{
    let mut i: usize = 0;
    while i < files.len()
        invariant
            i <= files@.len(),
            forall|j: int| 0 <= j < i ==> files@[j]@ != p@,
        decreases files.len() - i,
    {
        if files[i] == *p {
            assert(string_views(files@)[i as int] == p@);
            return true;
        }
        i = i + 1;
    }
    assert(!string_views(files@).contains(p@)) by {
        if string_views(files@).contains(p@) {
            let k = choose|k: int| 0 <= k < string_views(files@).len() && string_views(files@)[k] == p@;
            assert(files@[k]@ == p@);
        }
    }
    false
}

/// Whether `base` is a prefix of `s`.
fn starts_with(s: &str, base: &str) -> (r: bool)
    ensures
        r == base@.is_prefix_of(s@),
{
    let n = base.unicode_len();
    let m = s.unicode_len();
    if n > m {
        return false;
    }
    let mut i: usize = 0;
    while i < n
        invariant
            n == base@.len(),
            m == s@.len(),
            n <= m,
            i <= n,
            forall|j: int| 0 <= j < i ==> base@[j] == s@[j],
        decreases n - i,
    {
        if base.get_char(i) != s.get_char(i) {
            assert(base@[i as int] != s@.subrange(0, n as int)[i as int]);
            return false;
        }
        i = i + 1;
    }
    assert(base@ =~= s@.subrange(0, n as int));
    true
}

/// The pack name of the directory entry `entry` listed under `base`.
fn pack_name_of_entry(base: &str, entry: &str) -> (r: String)
    ensures
        r@ == entry_pack_name(base@, entry@),
{
    if starts_with(entry, base) {
        let n = base.unicode_len();
        let m = entry.unicode_len();
        assert(entry@.subrange(n as int, m as int) == entry@.skip(n as int));
        sanitize_path(entry.substring_char(n, m))
    } else {
        sanitize_path(entry)
    }
}

impl AssetLoader {
    /// A loader over the packs under `base_path`, with `default_pack` as the base content
    /// layer. One trailing slash is removed from `base_path`; `default_pack` is normalized.
    /// No pack has been discovered yet: see `get_asset_packs`.
    pub fn new(base_path: &str, default_pack: &str) -> (r: Self)
        requires
            default_pack@.len() > 0,
        ensures
            r@ == (LoaderView {
                base: strip_trailing_slash(base_path@),
                default_pack: normalize_pack(default_pack@),
                packs: Seq::empty(),
            }),
    {
        let r = AssetLoader {
            base_path: sanitize_path_trail_only(base_path),
            default_pack: sanitize_path(default_pack),
            asset_packs: Vec::new(),
        };
        assert(string_views(r.asset_packs@) == Seq::<Seq<char>>::empty());
        r
    }

    /// The base directory, without a trailing slash: the directory whose listing
    /// `get_asset_packs` takes.
    pub fn base_path(&self) -> (r: &str)
        ensures
            r@ == self@.base,
    {
        self.base_path.as_str()
    }

    /// Whether the packs are still to be discovered: no pack is known yet.
    pub fn needs_discovery(&self) -> (r: bool)
        ensures
            r == (self@.packs.len() == 0),
    {
        self.asset_packs.len() == 0
    }

    /// The known packs, in discovery order. When none is known yet, they are taken from
    /// `listing`, the full paths of the entries of the base directory (`None` when it could not
    /// be read); once known they are kept, whatever a later listing says.
    pub fn get_asset_packs(&mut self, listing: Option<&Vec<String>>) -> (r: &Vec<String>)
        ensures
            final(self)@ == (LoaderView {
                packs: discovered(old(self)@.base, old(self)@.packs, opt_listing_view(listing)),
                ..old(self)@
            }),
            string_views(r@) == final(self)@.packs,
    {
        if self.asset_packs.len() == 0 {
            if let Some(entries) = listing {
                let mut names: Vec<String> = Vec::new();
                let mut i: usize = 0;
                while i < entries.len()
                    invariant
                        i <= entries@.len(),
                        string_views(names@) == string_views(entries@).take(i as int).map_values(
                            |e: Seq<char>| entry_pack_name(self.base_path@, e),
                        ),
                    decreases entries.len() - i,
                {
                    let name = pack_name_of_entry(self.base_path.as_str(), entries[i].as_str());
                    let ghost before = names@;
                    names.push(name);
                    assert(string_views(names@) =~= string_views(before).push(name@));
                    assert(string_views(entries@).take(i + 1) == string_views(entries@).take(
                        i as int,
                    ).push(entries@[i as int]@));
                    assert(string_views(names@) =~= string_views(entries@).take(i + 1).map_values(
                        |e: Seq<char>| entry_pack_name(self.base_path@, e),
                    ));
                    i = i + 1;
                }
                assert(string_views(entries@).take(entries@.len() as int) == string_views(
                    entries@,
                ));
                self.asset_packs = names;
            }
        }
        &self.asset_packs
    }

    /// The paths at which `path` is looked for, in the order in which `resolve_path` consults
    /// them: the default pack's first, then one for each override pack in discovery order.
    pub fn candidate_paths(&self, path: &str) -> (r: Vec<String>)
        ensures
            string_views(r@) == self@.probes(path@),
    {
        let mut out: Vec<String> = Vec::new();
        out.push(self.path_in_pack(path, self.default_pack.as_str()));
        let mut i: usize = 0;
        while i < self.asset_packs.len()
            invariant
                i <= self.asset_packs@.len(),
                string_views(out@) == seq![pack_path(self@.base, self@.default_pack, path@)]
                    + override_packs(self@.default_pack, self@.packs.take(i as int)).map_values(
                    |p: Seq<char>| pack_path(self@.base, p, path@),
                ),
            decreases self.asset_packs.len() - i,
        {
            let p = &self.asset_packs[i];
            let ghost prefix = self@.packs.take(i + 1);
            assert(prefix.drop_last() == self@.packs.take(i as int));
            assert(prefix.last() == p@);
            let ghost before = out@;
            let ghost ovs = override_packs(self@.default_pack, self@.packs.take(i as int));
            if !(*p == self.default_pack) {
                out.push(self.path_in_pack(path, p.as_str()));
                assert(override_packs(self@.default_pack, prefix) == ovs.push(p@));
                assert(string_views(out@) =~= string_views(before).push(
                    pack_path(self@.base, p@, path@),
                ));
                assert(ovs.push(p@).map_values(|q: Seq<char>| pack_path(self@.base, q, path@))
                    =~= ovs.map_values(|q: Seq<char>| pack_path(self@.base, q, path@)).push(
                    pack_path(self@.base, p@, path@),
                ));
            } else {
                assert(override_packs(self@.default_pack, prefix) == ovs);
            }
            assert(string_views(out@) =~= seq![pack_path(self@.base, self@.default_pack, path@)]
                + override_packs(self@.default_pack, prefix).map_values(
                |q: Seq<char>| pack_path(self@.base, q, path@),
            ));
            i = i + 1;
        }
        assert(self@.packs.take(self@.packs.len() as int) == self@.packs);
        out
    }

    /// The path of `path` inside `pack`.
    fn path_in_pack(&self, path: &str, pack: &str) -> (r: String)
        ensures
            r@ == pack_path(self@.base, pack@, path@),
    {
        proof {
            reveal_strlit("/");
        }
        let mut abs = self.base_path.clone();
        abs.append("/");
        abs.append(pack);
        abs.append("/");
        abs.append(path);
        abs
    }

    /// The path of `path` inside `pack`, if that file is among `existing`.
    fn resolve_path_for_pack(&self, path: &str, pack: &str, existing: &Vec<String>) -> (r: Option<
        String,
    >)
        ensures
            opt_string_view(r) == (if string_views(existing@).contains(
                pack_path(self@.base, pack@, path@),
            ) {
                Some(pack_path(self@.base, pack@, path@))
            } else {
                None
            }),
    {
        let abs = self.path_in_pack(path, pack);
        if contains_path(existing, &abs) {
            Some(abs)
        } else {
            None
        }
    }

    /// The path that serves the asset `path`, given the paths of the files that exist: that of
    /// the last override pack holding it, else that of the default pack if it holds it, else
    /// `None`.
    pub fn resolve_path(&self, path: &str, existing: &Vec<String>) -> (r: Option<String>)
        ensures
            opt_string_view(r) == self@.resolve(path@, string_views(existing@)),
    {
        let ghost files = string_views(existing@);
        let mut res = self.resolve_path_for_pack(path, self.default_pack.as_str(), existing);
        let mut i: usize = 0;
        while i < self.asset_packs.len()
            invariant
                i <= self.asset_packs@.len(),
                files == string_views(existing@),
                opt_string_view(res) == resolve_in(
                    self@.base,
                    self@.default_pack,
                    self@.packs.take(i as int),
                    path@,
                    files,
                ),
            decreases self.asset_packs.len() - i,
        {
            let p = &self.asset_packs[i];
            let ghost prefix = self@.packs.take(i + 1);
            assert(prefix.drop_last() == self@.packs.take(i as int));
            assert(prefix.last() == p@);
            if !(*p == self.default_pack) {
                if let Some(r) = self.resolve_path_for_pack(path, p.as_str(), existing) {
                    res = Some(r);
                }
            }
            assert(opt_string_view(res) == resolve_in(
                self@.base,
                self@.default_pack,
                prefix,
                path@,
                files,
            ));
            i = i + 1;
        }
        assert(self@.packs.take(self@.packs.len() as int) == self@.packs);
        res
    }
}

impl AssetLoader {
    /// The handle cached for the asset `path`, if any.
    pub fn get_asset_handle<H: Clone>(path: &str, ali: &AssetLoaderInternal<H>) -> (r: Option<H>)
        ensures
            match r {
                Some(h) => ali@.contains_key(path@) && cloned(ali@[path@], h),
                None => !ali@.contains_key(path@),
            },
    {
        match ali.assets.get(path) {
            Some(h) => Some(h.clone()),
            None => None,
        }
    }

    /// The handle of the asset `path`: the cached one if there is one; otherwise, when the
    /// asset resolves among the `existing` files, the handle that `load_from` makes from the
    /// resolved path, which is then cached under `path`. `None` when the asset is neither
    /// cached nor found, and then the cache is left as it was.
    pub fn load<H: Clone, F: FnOnce(String) -> H>(
        &self,
        path: &str,
        existing: &Vec<String>,
        ali: &mut AssetLoaderInternal<H>,
        load_from: F,
    ) -> (r: Option<H>)
        requires
            forall|p: String| load_from.requires((p,)),
        ensures
            old(ali)@.contains_key(path@) ==> {
                &&& final(ali)@ == old(ali)@
                &&& r is Some
                &&& cloned(old(ali)@[path@], r->0)
            },
            !old(ali)@.contains_key(path@) ==> match self@.resolve(path@, string_views(existing@)) {
                None => r is None && final(ali)@ == old(ali)@,
                Some(found) => {
                    &&& final(ali)@ == old(ali)@.insert(path@, final(ali)@[path@])
                    &&& exists|p: String| p@ == found && load_from.ensures((p,), final(ali)@[path@])
                    &&& r is Some
                    &&& cloned(final(ali)@[path@], r->0)
                },
            },
    {
        if let Some(handle) = AssetLoader::get_asset_handle(path, ali) {
            return Some(handle);
        }
        if let Some(p) = self.resolve_path(path, existing) {
            let handle = load_from(p);
            let cached = handle.clone();
            ali.assets.insert(String::from_str(path), handle);
            assert(ali@[path@] == handle);
            return Some(cached);
        }
        None
    }

    /// Drops the cached handle of the asset `path`. The asset itself stays loaded while other
    /// handles to it are alive.
    pub fn unload<H>(path: &str, ali: &mut AssetLoaderInternal<H>)
        ensures
            final(ali)@ == old(ali)@.remove(path@),
    {
        ali.assets.remove(path);
    }
}

/// The handles of the assets loaded so far, by asset path.
#[verifier::reject_recursive_types(H)]
pub struct AssetLoaderInternal<H> {
    pub assets: StringHashMap<H>,
}

impl<H> View for AssetLoaderInternal<H> {
    type V = Map<Seq<char>, H>;

    open spec fn view(&self) -> Map<Seq<char>, H> {
        self.assets@
    }
}

impl<H> AssetLoaderInternal<H> {
    /// An empty cache.
    pub fn new() -> (r: Self)
        ensures
            r@ == Map::<Seq<char>, H>::empty(),
    {
        AssetLoaderInternal { assets: StringHashMap::new() }
    }
}

impl<H> Default for AssetLoaderInternal<H> {
    /// An empty cache.
    fn default() -> (r: Self)
        ensures
            r@ == Map::<Seq<char>, H>::empty(),
    {
        Self::new()
    }
}

} // verus!
