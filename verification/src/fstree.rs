//! The modeled directory tree and the asset locator. A scan of the real
//! filesystem arrives as a value of `FsNode`; discovery of a language's
//! folders and control files is a verified traversal of that value. A link
//! point is represented with whatever its target shows, and discovery is
//! proved never to look inside one.

use vstd::prelude::*;

verus! {

use vstd::string::StrSliceExecFns;
use vstd::string::StringExecFns;
use crate::lang::{LangCode, spec_code_str, code_str, str_eq};

/// One directory entry of the modeled tree.
pub struct FsEntry {
    pub name: String,
    pub node: FsNode,
}

/// A node of the modeled tree: an ordinary directory with its entries, a
/// link point (directory link or junction) with whatever its target shows,
/// or a plain file.
pub enum FsNode {
    Dir(Vec<FsEntry>),
    Link(Vec<FsEntry>),
    File,
}

/// The folder name variants accepted for a code: the code itself and the
/// code with the `vo` prefix.
pub open spec fn spec_vo_folder_name(code: LangCode) -> Seq<char> {
    "vo"@ + spec_code_str(code)
}

/// The control-file name variants accepted for a code.
pub open spec fn spec_toc_name(code: LangCode) -> Seq<char> {
    spec_code_str(code) + ".toc"@
}

/// The control-file name with the `vo` prefix.
pub open spec fn spec_vo_toc_name(code: LangCode) -> Seq<char> {
    "vo"@ + spec_code_str(code) + ".toc"@
}

/// Whether a directory name is one of the two accepted folder names.
pub open spec fn spec_folder_match(name: Seq<char>, code: LangCode) -> bool {
    name == spec_code_str(code) || name == spec_vo_folder_name(code)
}

/// Whether a file name is one of the two accepted control-file names.
pub open spec fn spec_file_match(name: Seq<char>, code: LangCode) -> bool {
    name == spec_toc_name(code) || name == spec_vo_toc_name(code)
}

/// The code's folder name with the `vo` prefix.
pub fn vo_folder_name(code: LangCode) -> (r: String)
    ensures
        r@ == spec_vo_folder_name(code),
{
    "vo".to_owned().concat(code_str(code))
}

/// The code's control-file name.
pub fn toc_name(code: LangCode) -> (r: String)
    ensures
        r@ == spec_toc_name(code),
{
    code_str(code).to_owned().concat(".toc")
}

/// The code's control-file name with the `vo` prefix.
pub fn vo_toc_name(code: LangCode) -> (r: String)
    ensures
        r@ == spec_vo_toc_name(code),
{
    let r = "vo".to_owned().concat(code_str(code)).concat(".toc");
    proof {
        assert(r@ =~= spec_vo_toc_name(code));
    }
    r
}

/// Whether a directory name is one of the two accepted folder names.
pub fn folder_name_matches(name: &str, code: LangCode) -> (r: bool)
    ensures
        r == spec_folder_match(name@, code),
{
    str_eq(name, code_str(code)) || str_eq(name, vo_folder_name(code).as_str())
}

/// Whether a file name is one of the two accepted control-file names.
pub fn file_name_matches(name: &str, code: LangCode) -> (r: bool)
    ensures
        r == spec_file_match(name@, code),
{
    str_eq(name, toc_name(code).as_str()) || str_eq(name, vo_toc_name(code).as_str())
}

/// What discovery finds among the first `n` entries of a directory whose
/// path relative to the scanned root is `prefix`: the set of matched folder
/// paths and the set of matched control-file paths.
///
/// A link point is recorded when its name matches and is never entered. A
/// matching ordinary directory is recorded and not entered either. A
/// non-matching ordinary directory is entered. A file is recorded when its
/// name matches.
pub open spec fn spec_locate_upto(
    entries: Seq<FsEntry>,
    n: int,
    prefix: Seq<Seq<char>>,
    code: LangCode,
) -> (Set<Seq<Seq<char>>>, Set<Seq<Seq<char>>>)
    decreases entries, n,
{
    if n <= 0 || n > entries.len() {
        (Set::<Seq<Seq<char>>>::empty(), Set::<Seq<Seq<char>>>::empty())
    } else {
        let prev = spec_locate_upto(entries, n - 1, prefix, code);
        let e = entries[n - 1];
        match e.node {
            FsNode::File => {
                if spec_file_match(e.name@, code) {
                    (prev.0, prev.1.insert(prefix.push(e.name@)))
                } else {
                    prev
                }
            },
            FsNode::Link(target) => {
                if spec_folder_match(e.name@, code) {
                    (prev.0.insert(prefix.push(e.name@)), prev.1)
                } else {
                    prev
                }
            },
            FsNode::Dir(children) => {
                if spec_folder_match(e.name@, code) {
                    (prev.0.insert(prefix.push(e.name@)), prev.1)
                } else {
                    let sub = spec_locate_upto(
                        children@,
                        children@.len() as int,
                        prefix.push(e.name@),
                        code,
                    );
                    (prev.0 + sub.0, prev.1 + sub.1)
                }
            },
        }
    }
}

/// What discovery finds in a whole directory listing.
pub open spec fn spec_locate(entries: Seq<FsEntry>, prefix: Seq<Seq<char>>, code: LangCode) -> (
    Set<Seq<Seq<char>>>,
    Set<Seq<Seq<char>>>,
) {
    spec_locate_upto(entries, entries.len() as int, prefix, code)
}

/// The result of one discovery run: the matched folder paths and matched
/// control-file paths, each relative to the scanned root and split into
/// components. Order carries no meaning; the contracts speak of the sets.
pub struct AssetSet {
    pub folders: Vec<Vec<String>>,
    pub toc_files: Vec<Vec<String>>,
}

impl AssetSet {
    /// The set of matched folder paths.
    pub open spec fn folders_set(&self) -> Set<Seq<Seq<char>>> {
        self.folders.deep_view().to_set()
    }

    /// The set of matched control-file paths.
    pub open spec fn toc_set(&self) -> Set<Seq<Seq<char>>> {
        self.toc_files.deep_view().to_set()
    }
}

/// Pushing onto a sequence grows its set by that element.
pub proof fn lemma_push_to_set<A>(s: Seq<A>, x: A)
    ensures
        s.push(x).to_set() =~= s.to_set().insert(x),
{
    assert forall|a: A| s.push(x).to_set().contains(a) implies s.to_set().insert(x).contains(
        a,
    ) by {
        let i = choose|i: int| 0 <= i < s.push(x).len() && s.push(x)[i] == a;
        if i < s.len() {
            assert(s[i] == a);
        }
    }
    assert forall|a: A| s.to_set().insert(x).contains(a) implies s.push(x).to_set().contains(
        a,
    ) by {
        if s.to_set().contains(a) {
            let i = choose|i: int| 0 <= i < s.len() && s[i] == a;
            assert(s.push(x)[i] == a);
        } else {
            assert(s.push(x)[s.len() as int] == x);
        }
    }
}

/// Discovery over one directory listing, accumulating into the result
/// vectors. `prefix` is the listing's path relative to the scanned root.
fn locate_into(
    entries: &Vec<FsEntry>,
    prefix: &Vec<String>,
    code: LangCode,
    folders: &mut Vec<Vec<String>>,
    toc_files: &mut Vec<Vec<String>>,
)
    ensures
        final(folders).deep_view().to_set() =~= old(folders).deep_view().to_set() + spec_locate(
            entries@,
            prefix.deep_view(),
            code,
        ).0,
        final(toc_files).deep_view().to_set() =~= old(toc_files).deep_view().to_set()
            + spec_locate(entries@, prefix.deep_view(), code).1,
    decreases entries@,
{
    let n = entries.len();
    let mut i: usize = 0;
    while i < n
        invariant
            0 <= i <= n,
            n == entries@.len(),
            folders.deep_view().to_set() =~= old(folders).deep_view().to_set()
                + spec_locate_upto(entries@, i as int, prefix.deep_view(), code).0,
            toc_files.deep_view().to_set() =~= old(toc_files).deep_view().to_set()
                + spec_locate_upto(entries@, i as int, prefix.deep_view(), code).1,
        decreases n - i,
    {
        let entry: &FsEntry = &entries[i];
        let ghost fprev = folders.deep_view();
        let ghost tprev = toc_files.deep_view();
        match &entry.node {
            FsNode::File => {
                if file_name_matches(entry.name.as_str(), code) {
                    let mut p: Vec<String> = prefix.clone();
                    p.push(entry.name.clone());
                    proof {
                        assert(p.deep_view() =~~= prefix.deep_view().push(entry.name@));
                    }
                    toc_files.push(p);
                    proof {
                        assert(toc_files.deep_view() =~~= tprev.push(
                            prefix.deep_view().push(entry.name@),
                        ));
                        lemma_push_to_set(tprev, prefix.deep_view().push(entry.name@));
                    }
                }
            },
            FsNode::Link(_) => {
                if folder_name_matches(entry.name.as_str(), code) {
                    let mut p: Vec<String> = prefix.clone();
                    p.push(entry.name.clone());
                    proof {
                        assert(p.deep_view() =~~= prefix.deep_view().push(entry.name@));
                    }
                    folders.push(p);
                    proof {
                        assert(folders.deep_view() =~~= fprev.push(
                            prefix.deep_view().push(entry.name@),
                        ));
                        lemma_push_to_set(fprev, prefix.deep_view().push(entry.name@));
                    }
                }
            },
            FsNode::Dir(children) => {
                if folder_name_matches(entry.name.as_str(), code) {
                    let mut p: Vec<String> = prefix.clone();
                    p.push(entry.name.clone());
                    proof {
                        assert(p.deep_view() =~~= prefix.deep_view().push(entry.name@));
                    }
                    folders.push(p);
                    proof {
                        assert(folders.deep_view() =~~= fprev.push(
                            prefix.deep_view().push(entry.name@),
                        ));
                        lemma_push_to_set(fprev, prefix.deep_view().push(entry.name@));
                    }
                } else {
                    let mut p: Vec<String> = prefix.clone();
                    p.push(entry.name.clone());
                    proof {
                        assert(p.deep_view() =~~= prefix.deep_view().push(entry.name@));
                    }
                    locate_into(children, &p, code, folders, toc_files);
                }
            },
        }
        i = i + 1;
    }
}

/// Discovers the folders and control files of a code in a scanned tree:
/// every path is relative to the root, link points are recorded when their
/// name matches but never entered, and matched folders are not searched
/// inside.
pub fn find_voice_files(root: &Vec<FsEntry>, code: LangCode) -> (r: AssetSet)
    ensures
        r.folders_set() == spec_locate(root@, Seq::<Seq<char>>::empty(), code).0,
        r.toc_set() == spec_locate(root@, Seq::<Seq<char>>::empty(), code).1,
{
    let mut folders: Vec<Vec<String>> = Vec::new();
    let mut toc_files: Vec<Vec<String>> = Vec::new();
    let prefix: Vec<String> = Vec::new();
    proof {
        assert(prefix.deep_view() =~~= Seq::<Seq<char>>::empty());
        assert(folders.deep_view().to_set() =~= Set::<Seq<Seq<char>>>::empty());
        assert(toc_files.deep_view().to_set() =~= Set::<Seq<Seq<char>>>::empty());
    }
    locate_into(root, &prefix, code, &mut folders, &mut toc_files);
    proof {
        assert(Set::<Seq<Seq<char>>>::empty() + spec_locate(root@, Seq::empty(), code).0
            =~= spec_locate(root@, Seq::empty(), code).0);
        assert(Set::<Seq<Seq<char>>>::empty() + spec_locate(root@, Seq::empty(), code).1
            =~= spec_locate(root@, Seq::empty(), code).1);
    }
    AssetSet { folders, toc_files }
}

/// Two trees that agree everywhere outside link points: same entry names and
/// node kinds throughout, with ordinary directories equal recursively, while
/// what the link points show may differ arbitrarily.
pub open spec fn same_outside_links(a: Seq<FsEntry>, b: Seq<FsEntry>) -> bool
    decreases a,
{
    &&& a.len() == b.len()
    &&& forall|i: int|
        0 <= i < a.len() ==> {
            &&& (#[trigger] a[i]).name@ == b[i].name@
            &&& match (a[i].node, b[i].node) {
                (FsNode::File, FsNode::File) => true,
                (FsNode::Link(_), FsNode::Link(_)) => true,
                (FsNode::Dir(ca), FsNode::Dir(cb)) => same_outside_links(ca@, cb@),
                _ => false,
            }
        }
}

/// Discovery never descends through an existing link point: what a link's
/// target shows has no effect on the result. Two trees that agree outside
/// link points are discovered identically.
pub proof fn lemma_locate_ignores_link_contents(
    a: Seq<FsEntry>,
    b: Seq<FsEntry>,
    n: int,
    prefix: Seq<Seq<char>>,
    code: LangCode,
)
    requires
        same_outside_links(a, b),
    ensures
        spec_locate_upto(a, n, prefix, code) == spec_locate_upto(b, n, prefix, code),
    decreases a, n,
{
    if n <= 0 || n > a.len() {
    } else {
        lemma_locate_ignores_link_contents(a, b, n - 1, prefix, code);
        let ea = a[n - 1];
        let eb = b[n - 1];
        assert(ea.name@ == eb.name@);
        match (ea.node, eb.node) {
            (FsNode::Dir(ca), FsNode::Dir(cb)) => {
                assert(same_outside_links(ca@, cb@));
                if !spec_folder_match(ea.name@, code) {
                    lemma_locate_ignores_link_contents(
                        ca@,
                        cb@,
                        ca@.len() as int,
                        prefix.push(ea.name@),
                        code,
                    );
                    assert(cb@.len() == ca@.len());
                }
            },
            (FsNode::File, FsNode::File) => {},
            (FsNode::Link(_), FsNode::Link(_)) => {},
            _ => {
                assert(false);
            },
        }
    }
}

/// The same, stated for a whole directory listing.
pub proof fn lemma_discovery_never_enters_links(
    a: Seq<FsEntry>,
    b: Seq<FsEntry>,
    prefix: Seq<Seq<char>>,
    code: LangCode,
)
    requires
        same_outside_links(a, b),
    ensures
        spec_locate(a, prefix, code) == spec_locate(b, prefix, code),
{
    lemma_locate_ignores_link_contents(a, b, a.len() as int, prefix, code);
}

/// Every discovered path extends the prefix of the listing it was found in
/// by at least one component, and its final component carries a matching
/// name: folder paths end in one of the two folder names, control-file paths
/// in one of the two control-file names. For a scan started at the root the
/// prefix is empty, so every result is a non-empty path relative to the
/// root.
pub proof fn lemma_locate_paths_shape(
    entries: Seq<FsEntry>,
    n: int,
    prefix: Seq<Seq<char>>,
    code: LangCode,
)
    ensures
        forall|p: Seq<Seq<char>>|
            #[trigger] spec_locate_upto(entries, n, prefix, code).0.contains(p) ==> p.len()
                > prefix.len() && p.subrange(0, prefix.len() as int) == prefix
                && spec_folder_match(p[p.len() - 1], code),
        forall|p: Seq<Seq<char>>|
            #[trigger] spec_locate_upto(entries, n, prefix, code).1.contains(p) ==> p.len()
                > prefix.len() && p.subrange(0, prefix.len() as int) == prefix && spec_file_match(
                p[p.len() - 1],
                code,
            ),
    decreases entries, n,
{
    if n <= 0 || n > entries.len() {
    } else {
        lemma_locate_paths_shape(entries, n - 1, prefix, code);
        let cur = spec_locate_upto(entries, n, prefix, code);
        let prev = spec_locate_upto(entries, n - 1, prefix, code);
        let e = entries[n - 1];
        let own = prefix.push(e.name@);
        assert(own.subrange(0, prefix.len() as int) =~= prefix);
        assert(own[own.len() - 1] == e.name@);
        match e.node {
            FsNode::File => {
                assert forall|p: Seq<Seq<char>>| #[trigger] cur.1.contains(p) implies p.len()
                    > prefix.len() && p.subrange(0, prefix.len() as int) == prefix
                    && spec_file_match(p[p.len() - 1], code) by {
                    if !prev.1.contains(p) {
                        assert(p == own);
                    }
                }
            },
            FsNode::Link(_) => {
                assert forall|p: Seq<Seq<char>>| #[trigger] cur.0.contains(p) implies p.len()
                    > prefix.len() && p.subrange(0, prefix.len() as int) == prefix
                    && spec_folder_match(p[p.len() - 1], code) by {
                    if !prev.0.contains(p) {
                        assert(p == own);
                    }
                }
            },
            FsNode::Dir(children) => {
                if spec_folder_match(e.name@, code) {
                    assert forall|p: Seq<Seq<char>>| #[trigger] cur.0.contains(p) implies p.len()
                        > prefix.len() && p.subrange(0, prefix.len() as int) == prefix
                        && spec_folder_match(p[p.len() - 1], code) by {
                        if !prev.0.contains(p) {
                            assert(p == own);
                        }
                    }
                } else {
                    lemma_locate_paths_shape(children@, children@.len() as int, own, code);
                    let sub = spec_locate_upto(children@, children@.len() as int, own, code);
                    assert(cur.0 == prev.0 + sub.0);
                    assert(cur.1 == prev.1 + sub.1);
                    assert forall|p: Seq<Seq<char>>|
                        (sub.0.contains(p) || sub.1.contains(p)) implies p.len() > prefix.len()
                        && p.subrange(0, prefix.len() as int) == prefix by {
                        assert(p.len() > own.len());
                        assert(p.subrange(0, own.len() as int) == own);
                        assert(p.subrange(0, prefix.len() as int) =~= p.subrange(
                            0,
                            own.len() as int,
                        ).subrange(0, prefix.len() as int));
                    }
                }
            },
        }
    }
}

/// A tree in which no directory listing carries the same name twice, as a
/// real filesystem guarantees. Link targets are exempt: neither discovery
/// nor the link probe ever descends through a link point.
pub open spec fn unique_sibling_names(entries: Seq<FsEntry>) -> bool
    decreases entries,
{
    &&& forall|a: int, b: int|
        #![trigger entries[a], entries[b]]
        0 <= a < b < entries.len() ==> entries[a].name@ != entries[b].name@
    &&& forall|i: int|
        0 <= i < entries.len() ==> match (#[trigger] entries[i]).node {
            FsNode::Dir(children) => unique_sibling_names(children@),
            _ => true,
        }
}

/// The first entry of a listing carrying a name, in listing order.
pub open spec fn spec_first_entry(entries: Seq<FsEntry>, name: Seq<char>) -> Option<FsEntry>
    decreases entries.len(),
{
    if entries.len() == 0 {
        None
    } else if entries[0].name@ == name {
        Some(entries[0])
    } else {
        spec_first_entry(entries.drop_first(), name)
    }
}

/// The node a relative path leads to, resolving each component to the first
/// entry of that name and descending only through ordinary directories. The
/// empty path leads nowhere.
pub open spec fn spec_node_at(entries: Seq<FsEntry>, path: Seq<Seq<char>>) -> Option<FsNode>
    decreases path.len(),
{
    if path.len() == 0 {
        None
    } else {
        match spec_first_entry(entries, path[0]) {
            None => None,
            Some(e) => {
                if path.len() == 1 {
                    Some(e.node)
                } else {
                    match e.node {
                        FsNode::Dir(children) => spec_node_at(children@, path.drop_first()),
                        _ => None,
                    }
                }
            },
        }
    }
}

/// Whether a relative path leads to a link point. This is the probe that the
/// removal operations consult before touching a discovered folder.
pub open spec fn spec_is_link_at(entries: Seq<FsEntry>, path: Seq<Seq<char>>) -> bool {
    match spec_node_at(entries, path) {
        Some(FsNode::Link(_)) => true,
        _ => false,
    }
}

/// In a listing without repeated names, the first entry carrying a name is
/// the one entry that carries it.
proof fn lemma_first_entry_unique(entries: Seq<FsEntry>, j: int)
    requires
        0 <= j < entries.len(),
        forall|a: int, b: int|
            #![trigger entries[a], entries[b]]
            0 <= a < b < entries.len() ==> entries[a].name@ != entries[b].name@,
    ensures
        spec_first_entry(entries, entries[j].name@) == Some(entries[j]),
    decreases j,
{
    if entries[0].name@ == entries[j].name@ {
        assert(j == 0);
    } else {
        let d = entries.drop_first();
        assert(forall|a: int, b: int|
            #![trigger d[a], d[b]]
            0 <= a < b < d.len() ==> d[a].name@ != d[b].name@) by {
            assert(forall|a: int| 0 <= a < d.len() ==> d[a] == entries[a + 1]);
        }
        assert(d[j - 1] == entries[j]);
        lemma_first_entry_unique(d, j - 1);
    }
}

/// Every proper ancestor of a relative path resolves to an ordinary
/// directory: the path goes through no link point on its way down.
pub open spec fn ancestors_are_plain_dirs(entries: Seq<FsEntry>, rel: Seq<Seq<char>>) -> bool {
    forall|k: int|
        0 < k < rel.len() ==> (#[trigger] spec_node_at(entries, rel.take(k))) matches Some(
            FsNode::Dir(_),
        )
}

/// Discovery in a tree without repeated sibling names yields no path with a
/// link point among its proper ancestors, stated for every scan position.
proof fn lemma_no_link_ancestor_upto(
    entries: Seq<FsEntry>,
    n: int,
    prefix: Seq<Seq<char>>,
    code: LangCode,
)
    requires
        unique_sibling_names(entries),
    ensures
        forall|p: Seq<Seq<char>>|
            #[trigger] spec_locate_upto(entries, n, prefix, code).0.contains(p)
                ==> ancestors_are_plain_dirs(entries, p.skip(prefix.len() as int)),
        forall|p: Seq<Seq<char>>|
            #[trigger] spec_locate_upto(entries, n, prefix, code).1.contains(p)
                ==> ancestors_are_plain_dirs(entries, p.skip(prefix.len() as int)),
    decreases entries, n,
{
    if n <= 0 || n > entries.len() {
    } else {
        lemma_no_link_ancestor_upto(entries, n - 1, prefix, code);
        lemma_locate_paths_shape(entries, n, prefix, code);
        let cur = spec_locate_upto(entries, n, prefix, code);
        let prev = spec_locate_upto(entries, n - 1, prefix, code);
        let e = entries[n - 1];
        let own = prefix.push(e.name@);
        assert(own.skip(prefix.len() as int) =~= seq![e.name@]);
        assert(ancestors_are_plain_dirs(entries, seq![e.name@]));
        match e.node {
            FsNode::File => {
                assert(cur.0 == prev.0);
                assert forall|p: Seq<Seq<char>>| #[trigger] cur.1.contains(p)
                    implies ancestors_are_plain_dirs(entries, p.skip(prefix.len() as int)) by {
                    if !prev.1.contains(p) {
                        assert(p == own);
                    }
                }
            },
            FsNode::Link(_) => {
                assert(cur.1 == prev.1);
                assert forall|p: Seq<Seq<char>>| #[trigger] cur.0.contains(p)
                    implies ancestors_are_plain_dirs(entries, p.skip(prefix.len() as int)) by {
                    if !prev.0.contains(p) {
                        assert(p == own);
                    }
                }
            },
            FsNode::Dir(children) => {
                if spec_folder_match(e.name@, code) {
                    assert(cur.1 == prev.1);
                    assert forall|p: Seq<Seq<char>>| #[trigger] cur.0.contains(p)
                        implies ancestors_are_plain_dirs(entries, p.skip(prefix.len() as int)) by {
                        if !prev.0.contains(p) {
                            assert(p == own);
                        }
                    }
                } else {
                    assert(unique_sibling_names(children@));
                    lemma_no_link_ancestor_upto(
                        children@,
                        children@.len() as int,
                        own,
                        code,
                    );
                    lemma_locate_paths_shape(children@, children@.len() as int, own, code);
                    lemma_first_entry_unique(entries, n - 1);
                    let sub = spec_locate_upto(children@, children@.len() as int, own, code);
                    assert(cur.0 == prev.0 + sub.0);
                    assert(cur.1 == prev.1 + sub.1);
                    assert forall|p: Seq<Seq<char>>|
                        (sub.0.contains(p) || sub.1.contains(p))
                        implies ancestors_are_plain_dirs(entries, p.skip(prefix.len() as int)) by {
                        let rel = p.skip(prefix.len() as int);
                        let rel_child = p.skip(own.len() as int);
                        assert(p.len() > own.len());
                        assert(p.subrange(0, own.len() as int) == own);
                        assert(p[prefix.len() as int] == e.name@) by {
                            assert(p.subrange(0, own.len() as int)[prefix.len() as int]
                                == p[prefix.len() as int]);
                            assert(own[prefix.len() as int] == e.name@);
                        }
                        assert(ancestors_are_plain_dirs(children@, rel_child));
                        assert forall|k: int| 0 < k < rel.len() implies (
                            #[trigger] spec_node_at(entries, rel.take(k))) matches Some(
                            FsNode::Dir(_),
                        ) by {
                            let t = rel.take(k);
                            assert(t[0] == e.name@);
                            assert(spec_first_entry(entries, t[0]) == Some(e));
                            if k == 1 {
                                assert(spec_node_at(entries, t) == Some(e.node));
                            } else {
                                assert(t.drop_first() =~= rel_child.take(k - 1));
                                assert(spec_node_at(entries, t) == spec_node_at(
                                    children@,
                                    rel_child.take(k - 1),
                                ));
                                assert(0 < k - 1 < rel_child.len());
                                assert(spec_node_at(children@, rel_child.take(k - 1)) matches Some(
                                    FsNode::Dir(_),
                                ));
                            }
                        }
                    }
                }
            },
        }
    }
}

/// Law: discovery never descends through an existing link point. In a tree
/// without repeated sibling names — as on a real filesystem — every proper
/// ancestor of a discovered folder or control-file path resolves to an
/// ordinary directory, never to a link point.
pub proof fn lemma_no_link_point_ancestor(entries: Seq<FsEntry>, code: LangCode)
    requires
        unique_sibling_names(entries),
    ensures
        forall|p: Seq<Seq<char>>|
            #[trigger] spec_locate(entries, Seq::<Seq<char>>::empty(), code).0.contains(p)
                ==> ancestors_are_plain_dirs(entries, p),
        forall|p: Seq<Seq<char>>|
            #[trigger] spec_locate(entries, Seq::<Seq<char>>::empty(), code).1.contains(p)
                ==> ancestors_are_plain_dirs(entries, p),
{
    lemma_no_link_ancestor_upto(entries, entries.len() as int, Seq::empty(), code);
    assert forall|p: Seq<Seq<char>>|
        #[trigger] spec_locate(entries, Seq::<Seq<char>>::empty(), code).0.contains(p)
        implies ancestors_are_plain_dirs(entries, p) by {
        assert(p.skip(0) =~= p);
    }
    assert forall|p: Seq<Seq<char>>|
        #[trigger] spec_locate(entries, Seq::<Seq<char>>::empty(), code).1.contains(p)
        implies ancestors_are_plain_dirs(entries, p) by {
        assert(p.skip(0) =~= p);
    }
}

/// Skipping over non-matching entries does not change which entry is first.
proof fn lemma_first_entry_skip(entries: Seq<FsEntry>, name: Seq<char>, i: int)
    requires
        0 <= i <= entries.len(),
        forall|j: int| 0 <= j < i ==> entries[j].name@ != name,
    ensures
        spec_first_entry(entries, name) == spec_first_entry(entries.skip(i), name),
    decreases i,
{
    if i > 0 {
        assert(entries.drop_first().skip(i - 1) =~= entries.skip(i));
        lemma_first_entry_skip(entries.drop_first(), name, i - 1);
    } else {
        assert(entries.skip(0) =~= entries);
    }
}

/// Finds the first entry of a listing carrying a name.
fn find_entry<'a>(entries: &'a Vec<FsEntry>, name: &str) -> (r: Option<&'a FsEntry>)
    ensures
        match r {
            Some(e) => spec_first_entry(entries@, name@) == Some(*e),
            None => spec_first_entry(entries@, name@) is None,
        },
{
    let mut i: usize = 0;
    while i < entries.len()
        invariant
            0 <= i <= entries.len(),
            forall|j: int| 0 <= j < i ==> entries@[j].name@ != name@,
        decreases entries.len() - i,
    {
        if str_eq(entries[i].name.as_str(), name) {
            proof {
                lemma_first_entry_skip(entries@, name@, i as int);
                assert(entries@.skip(i as int)[0] == entries@[i as int]);
            }
            return Some(&entries[i]);
        }
        i = i + 1;
    }
    proof {
        lemma_first_entry_skip(entries@, name@, entries@.len() as int);
        assert(entries@.skip(entries@.len() as int) =~= Seq::<FsEntry>::empty());
    }
    None
}

/// Probes from component `k` of the path onward.
fn is_link_probe(entries: &Vec<FsEntry>, path: &Vec<String>, k: usize) -> (r: bool)
    requires
        k <= path@.len(),
    ensures
        r == spec_is_link_at(entries@, path.deep_view().skip(k as int)),
    decreases path@.len() - k,
{
    if k == path.len() {
        return false;
    }
    proof {
        assert(path.deep_view().skip(k as int)[0] == path.deep_view()[k as int]);
        assert(path.deep_view()[k as int] == path@[k as int]@);
    }
    match find_entry(entries, path[k].as_str()) {
        None => false,
        Some(e) => {
            if k + 1 == path.len() {
                match &e.node {
                    FsNode::Link(_) => true,
                    _ => false,
                }
            } else {
                proof {
                    assert(path.deep_view().skip(k as int).drop_first() =~= path.deep_view().skip(
                        k + 1,
                    ));
                }
                match &e.node {
                    FsNode::Dir(children) => is_link_probe(children, path, k + 1),
                    _ => false,
                }
            }
        },
    }
}

/// Whether a relative path in a scanned tree leads to a link point.
pub fn is_link_at(entries: &Vec<FsEntry>, path: &Vec<String>) -> (r: bool)
    ensures
        r == spec_is_link_at(entries@, path.deep_view()),
{
    proof {
        assert(path.deep_view().skip(0) =~= path.deep_view());
    }
    is_link_probe(entries, path, 0)
}

} // verus!

