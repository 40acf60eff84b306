//! The folder tree: which entries of a directory are listed and in what
//! order, which directories are open, the listings already read, and the
//! selection.
use vstd::prelude::*;
use crate::paths::{is_data_file, is_data_file_spec, is_supported, is_supported_spec};
use crate::text::{chars_of, starts_with, str_eq, to_owned_string};

verus! {

/// What `str::to_lowercase` gives for a text (full Unicode lower-casing).
pub uninterp spec fn unicode_lowercase(s: Seq<char>) -> Seq<char>;

/// Calls `str::to_lowercase`.  Claims the text is [`unicode_lowercase`] of
/// the argument, a function of the argument alone.
#[verifier::external_body]
pub(crate) fn to_lowercase(s: &str) -> (r: String)
    ensures
        r@ == unicode_lowercase(s@),
{
    s.to_lowercase()
}

/// A listed entry of a directory.
#[derive(Debug, Clone)]
pub struct DirEntry {
    pub name: String,
    pub path: String,
    pub is_dir: bool,
}

pub struct EntryModel {
    pub name: Seq<char>,
    pub path: Seq<char>,
    pub is_dir: bool,
}

impl DirEntry {
    pub open spec fn model(self) -> EntryModel {
        EntryModel { name: self.name@, path: self.path@, is_dir: self.is_dir }
    }
}

pub open spec fn entry_models(es: Seq<DirEntry>) -> Seq<EntryModel> {
    es.map_values(|e: DirEntry| e.model())
}

/// Result of interacting with the tree.
#[derive(Debug, Clone)]
pub enum TreeAction {
    /// Open tabular data.
    OpenData(String),
    /// Load an SQL file into the editor.
    LoadSql(String),
}

/// `a` before `b` in the order of `String`'s `Ord` (by code point).
pub open spec fn lex_lt(a: Seq<char>, b: Seq<char>) -> bool
    decreases a.len(),
{
    if a.len() == 0 {
        b.len() > 0
    } else if b.len() == 0 {
        false
    } else if a[0] != b[0] {
        (a[0] as u32) < (b[0] as u32)
    } else {
        lex_lt(a.drop_first(), b.drop_first())
    }
}

/// The listing order: directories first, then names without regard to case.
pub open spec fn entry_before(a: EntryModel, b: EntryModel) -> bool {
    ||| (a.is_dir && !b.is_dir)
    ||| (a.is_dir == b.is_dir && lex_lt(unicode_lowercase(a.name), unicode_lowercase(b.name)))
}

/// Where a later entry goes in a sorted listing: before the first entry it
/// precedes, after all others (so entries equal in the order keep theirs).
pub open spec fn entry_insert_pos(sorted: Seq<EntryModel>, e: EntryModel) -> int
    decreases sorted.len(),
{
    if sorted.len() == 0 {
        0
    } else if entry_before(e, sorted[0]) {
        0
    } else {
        1 + entry_insert_pos(sorted.drop_first(), e)
    }
}

/// The entries in listing order (a stable sort).
pub open spec fn sort_entries(es: Seq<EntryModel>) -> Seq<EntryModel>
    decreases es.len(),
{
    if es.len() == 0 {
        Seq::empty()
    } else {
        let s = sort_entries(es.drop_last());
        s.insert(entry_insert_pos(s, es.last()), es.last())
    }
}

/// An entry of a directory as read from the file system.
pub struct RawEntry {
    pub name: String,
    pub path: String,
    pub is_dir: bool,
}

pub open spec fn raw_model(r: RawEntry) -> EntryModel {
    EntryModel { name: r.name@, path: r.path@, is_dir: r.is_dir }
}

/// An entry is listed when its name does not start with `.` and it is a
/// directory or a file of a supported kind.
pub open spec fn listed(r: EntryModel) -> bool {
    !starts_with(r.name, seq!['.']) && (r.is_dir || is_supported_spec(r.path))
}

pub open spec fn listed_entries(raw: Seq<EntryModel>) -> Seq<EntryModel>
    decreases raw.len(),
{
    if raw.len() == 0 {
        Seq::empty()
    } else {
        listed_entries(raw.drop_last()) + if listed(raw.last()) {
            seq![raw.last()]
        } else {
            Seq::empty()
        }
    }
}

/// The listing of a directory: the listed entries, sorted.
pub open spec fn listing_of(raw: Seq<EntryModel>) -> Seq<EntryModel> {
    sort_entries(listed_entries(raw))
}

fn lex_lt_exec(a: &Vec<char>, b: &Vec<char>) -> (r: bool)
    ensures
        r == lex_lt(a@, b@),
{
    let mut i: usize = 0;
    assert(a@.skip(0) =~= a@);
    assert(b@.skip(0) =~= b@);
    while i < a.len() && i < b.len() && a[i] == b[i]
        invariant
            i <= a@.len(),
            i <= b@.len(),
            lex_lt(a@, b@) == lex_lt(a@.skip(i as int), b@.skip(i as int)),
        decreases a.len() - i,
    {
        assert(a@.skip(i as int).drop_first() =~= a@.skip(i + 1));
        assert(b@.skip(i as int).drop_first() =~= b@.skip(i + 1));
        i += 1;
    }
    if i == a.len() {
        assert(a@.skip(i as int).len() == 0);
        i < b.len()
    } else if i == b.len() {
        assert(b@.skip(i as int).len() == 0);
        false
    } else {
        assert(a@.skip(i as int)[0] == a@[i as int]);
        assert(b@.skip(i as int)[0] == b@[i as int]);
        (a[i] as u32) < (b[i] as u32)
    }
}

/// An entry with its lower-cased name, as the sort compares it.
struct SortItem {
    entry: DirEntry,
    key: Vec<char>,
}

pub open spec fn sort_key_ok(it_entry: DirEntry, key: Seq<char>) -> bool {
    key == unicode_lowercase(it_entry.name@)
}

fn before_exec(a: &SortItem, b: &SortItem) -> (r: bool)
    requires
        sort_key_ok(a.entry, a.key@),
        sort_key_ok(b.entry, b.key@),
    ensures
        r == entry_before(a.entry.model(), b.entry.model()),
{
    (a.entry.is_dir && !b.entry.is_dir) || (a.entry.is_dir == b.entry.is_dir && lex_lt_exec(
        &a.key,
        &b.key,
    ))
}

/// The listing of a directory from what the file system gave: hidden
/// entries and unsupported files left out, directories first, then by name
/// without regard to case; entries equal in that order keep the file
/// system's order.
pub fn listing_from(raw: &Vec<RawEntry>) -> (r: Vec<DirEntry>)
    ensures
        entry_models(r@) == listing_of(raw@.map_values(|x: RawEntry| raw_model(x))),
{
    let ghost rv = raw@.map_values(|x: RawEntry| raw_model(x));
    let mut items: Vec<SortItem> = Vec::new();
    let n = raw.len();
    let ghost orig = raw@;
    let mut i: usize = 0;
    while i < n
        invariant
            i <= n,
            n == orig.len(),
            rv == orig.map_values(|x: RawEntry| raw_model(x)),
            raw@ == orig,
            forall|k: int| 0 <= k < items@.len() ==> sort_key_ok(#[trigger] items@[k].entry, items@[k].key@),
            items@.map_values(|it: SortItem| it.entry.model()) == sort_entries(
                listed_entries(rv.take(i as int)),
            ),
        decreases n - i,
    {
        let name = raw[i].name.clone();
        let path = raw[i].path.clone();
        let is_dir = raw[i].is_dir;
        proof {
            assert(rv.take(i + 1).drop_last() =~= rv.take(i as int));
            assert(rv.take(i + 1).last() == rv[i as int]);
            assert(rv[i as int] == raw_model(orig[i as int]));
        }
        let name_chars = chars_of(name.as_str());
        let hidden = name_chars.len() > 0 && name_chars[0] == '.';
        proof {
            if name@.len() > 0 {
                assert(name@.subrange(0, 1)[0] == name_chars@[0]);
                if name_chars@[0] == '.' {
                    assert(name@.subrange(0, 1) =~= seq!['.']);
                }
            }
            assert(hidden == starts_with(name@, seq!['.']));
        }
        let keep = !hidden && (is_dir || is_supported(path.as_str()));
        let ghost prev_listed = listed_entries(rv.take(i as int));
        proof {
            assert(raw_model(orig[i as int]) == EntryModel { name: name@, path: path@, is_dir });
            assert(keep == listed(rv[i as int]));
            if keep {
                assert(listed_entries(rv.take(i + 1)) =~= prev_listed.push(rv[i as int]));
                assert(prev_listed.push(rv[i as int]).drop_last() =~= prev_listed);
            } else {
                assert(listed_entries(rv.take(i + 1)) =~= prev_listed);
            }
        }
        if keep {
            let key = chars_of(to_lowercase(name.as_str()).as_str());
            let item = SortItem { entry: DirEntry { name, path, is_dir }, key };
            let ghost before = items@;
            let ghost sorted_model = before.map_values(|it: SortItem| it.entry.model());
            let mut p: usize = 0;
            assert(sorted_model.skip(0) =~= sorted_model);
            while p < items.len() && !before_exec(&item, &items[p])
                invariant
                    p <= items@.len(),
                    items@ == before,
                    sort_key_ok(item.entry, item.key@),
                    forall|k: int| 0 <= k < items@.len() ==> sort_key_ok(#[trigger] items@[k].entry, items@[k].key@),
                    sorted_model == before.map_values(|it: SortItem| it.entry.model()),
                    entry_insert_pos(sorted_model, item.entry.model()) == p + entry_insert_pos(
                        sorted_model.skip(p as int),
                        item.entry.model(),
                    ),
                decreases items.len() - p,
            {
                assert(sorted_model.skip(p as int)[0] == items@[p as int].entry.model());
                assert(sorted_model.skip(p as int).drop_first() =~= sorted_model.skip(p + 1));
                p += 1;
            }
            proof {
                if p < items.len() {
                    assert(sorted_model.skip(p as int)[0] == items@[p as int].entry.model());
                } else {
                    assert(sorted_model.skip(p as int).len() == 0);
                }
            }
            let ghost em = item.entry.model();
            items.insert(p, item);
            assert(items@.map_values(|it: SortItem| it.entry.model()) =~= sorted_model.insert(
                p as int,
                em,
            ));
        }
        assert(items@.map_values(|it: SortItem| it.entry.model()) == sort_entries(
            listed_entries(rv.take(i + 1)),
        ));
        i += 1;
    }
    assert(rv.take(n as int) =~= rv);
    let ghost target = items@.map_values(|it: SortItem| it.entry.model());
    let mut rev: Vec<DirEntry> = Vec::new();
    let m = items.len();
    while items.len() > 0
        invariant
            items@.len() + rev@.len() == m,
            m == target.len(),
            forall|k: int| 0 <= k < items@.len() ==> (#[trigger] items@[k]).entry.model() == target[k],
            forall|k: int| 0 <= k < rev@.len() ==> (#[trigger] rev@[k]).model() == target[m - 1 - k],
        decreases items.len(),
    {
        let it = items.pop().unwrap();
        rev.push(it.entry);
    }
    let mut out: Vec<DirEntry> = Vec::new();
    while rev.len() > 0
        invariant
            rev@.len() + out@.len() == m,
            m == target.len(),
            forall|k: int| 0 <= k < rev@.len() ==> (#[trigger] rev@[k]).model() == target[m - 1 - k],
            forall|k: int| 0 <= k < out@.len() ==> (#[trigger] out@[k]).model() == target[k],
        decreases rev.len(),
    {
        let e = rev.pop().unwrap();
        out.push(e);
    }
    assert(entry_models(out@) =~= target);
    out
}

// ---------------------------------------------------------------------------
// The tree's state
// ---------------------------------------------------------------------------

/// The folder tree's state: the root, the open directories, the listings
/// read so far, the selected path and the last error.
pub struct FolderTree {
    pub root: Option<String>,
    pub expanded: Vec<String>,
    pub cache: Vec<(String, Vec<DirEntry>)>,
    pub selected: Option<String>,
    pub error: Option<String>,
}

pub open spec fn opt_view(o: Option<String>) -> Option<Seq<char>> {
    match o {
        Some(s) => Some(s@),
        None => None,
    }
}

/// The listing stored for `dir` (the first one stored).
pub open spec fn cache_lookup(c: Seq<(Seq<char>, Seq<EntryModel>)>, dir: Seq<char>) -> Option<Seq<EntryModel>>
    decreases c.len(),
{
    if c.len() == 0 {
        None
    } else if c[0].0 == dir {
        Some(c[0].1)
    } else {
        cache_lookup(c.drop_first(), dir)
    }
}

proof fn lemma_cache_lookup_push(c: Seq<(Seq<char>, Seq<EntryModel>)>, e: (Seq<char>, Seq<EntryModel>), d: Seq<char>)
    requires
        cache_lookup(c, e.0) is None,
    ensures
        cache_lookup(c.push(e), d) == if d == e.0 {
            Some(e.1)
        } else {
            cache_lookup(c, d)
        },
    decreases c.len(),
{
    if c.len() == 0 {
        assert(c.push(e).drop_first() =~= Seq::<(Seq<char>, Seq<EntryModel>)>::empty());
    } else {
        assert(c.push(e).drop_first() =~= c.drop_first().push(e));
        if c[0].0 != d {
            lemma_cache_lookup_push(c.drop_first(), e, d);
        }
    }
}

/// `v` is the text of one of the first `n` strings of `s`.
pub open spec fn appears_in(s: Seq<String>, n: int, v: Seq<char>) -> bool {
    exists|m: int| 0 <= m < n && (#[trigger] s[m])@ == v
}

impl FolderTree {
    /// Whether a directory is open.
    pub open spec fn is_open(self, path: Seq<char>) -> bool {
        appears_in(self.expanded@, self.expanded@.len() as int, path)
    }

    pub open spec fn cache_view(self) -> Seq<(Seq<char>, Seq<EntryModel>)> {
        self.cache@.map_values(|e: (String, Vec<DirEntry>)| (e.0@, entry_models(e.1@)))
    }

    /// The listing read for a directory, if it has been read.
    pub open spec fn listing(self, dir: Seq<char>) -> Option<Seq<EntryModel>> {
        cache_lookup(self.cache_view(), dir)
    }

    /// An empty tree: no root, nothing open, nothing read, nothing selected.
    pub fn new() -> (r: FolderTree)
        ensures
            r.root is None,
            r.selected is None,
            r.error is None,
            forall|p: Seq<char>| !r.is_open(p),
            forall|p: Seq<char>| (#[trigger] r.listing(p)) is None,
    {
        FolderTree { root: None, expanded: Vec::new(), cache: Vec::new(), selected: None, error: None }
    }

    /// Shows a new root: only the root is open, nothing is read or selected,
    /// and the error is cleared.
    pub fn set_root(&mut self, root: String)
        ensures
            opt_view(final(self).root) == Some(root@),
            forall|p: Seq<char>| #[trigger] final(self).is_open(p) <==> p == root@,
            forall|p: Seq<char>| (#[trigger] final(self).listing(p)) is None,
            final(self).error is None,
            final(self).selected is None,
    {
        let ghost rv = root@;
        let copy = root.clone();
        self.root = Some(root);
        self.expanded = Vec::new();
        self.expanded.push(copy);
        self.cache = Vec::new();
        self.error = None;
        self.selected = None;
        assert(self.cache_view().len() == 0);
        assert forall|p: Seq<char>| #[trigger] self.is_open(p) <==> p == rv by {
            if p == rv {
                assert(self.expanded@[0]@ == rv);
            }
        }
    }

    /// Forgets every listing read (they are read again when shown) and the
    /// error; the root, the open directories and the selection stay.
    pub fn refresh(&mut self)
        ensures
            *final(self) == (FolderTree { cache: final(self).cache, error: None, ..*old(self) }),
            forall|p: Seq<char>| (#[trigger] final(self).listing(p)) is None,
    {
        self.cache = Vec::new();
        self.error = None;
        assert(self.cache_view().len() == 0);
    }

    /// Whether a directory is open.
    pub fn is_expanded(&self, path: &str) -> (b: bool)
        ensures
            b == self.is_open(path@),
    {
        let mut i: usize = 0;
        while i < self.expanded.len()
            invariant
                i <= self.expanded@.len(),
                forall|k: int| 0 <= k < i ==> (#[trigger] self.expanded@[k])@ != path@,
            decreases self.expanded.len() - i,
        {
            if str_eq(self.expanded[i].as_str(), path) {
                assert(self.expanded@[i as int]@ == path@);
                return true;
            }
            i += 1;
        }
        false
    }

    /// Opens a closed directory, closes an open one.
    pub fn toggle_expanded(&mut self, path: &str)
        ensures
            *final(self) == (FolderTree { expanded: final(self).expanded, ..*old(self) }),
            forall|p: Seq<char>|
                #[trigger] final(self).is_open(p) == if p == path@ {
                    !old(self).is_open(p)
                } else {
                    old(self).is_open(p)
                },
    {
        if self.is_expanded(path) {
            let mut kept: Vec<String> = Vec::new();
            let mut i: usize = 0;
            let ghost old_exp = self.expanded@;
            while i < self.expanded.len()
                invariant
                    i <= self.expanded@.len(),
                    self.expanded@ == old_exp,
                    forall|k: int| 0 <= k < kept@.len() ==> (#[trigger] kept@[k])@ != path@,
                    forall|k: int| 0 <= k < kept@.len() ==> appears_in(old_exp, i as int, #[trigger] kept@[k]@),
                    forall|m: int| 0 <= m < i && (#[trigger] old_exp[m])@ != path@ ==> appears_in(kept@, kept@.len() as int, old_exp[m]@),
                decreases self.expanded.len() - i,
            {
                if !str_eq(self.expanded[i].as_str(), path) {
                    let c = self.expanded[i].clone();
                    let ghost before = kept@;
                    kept.push(c);
                    assert(kept@[kept@.len() - 1]@ == old_exp[i as int]@);
                    assert forall|m: int| 0 <= m < i + 1 && (#[trigger] old_exp[m])@ != path@ implies appears_in(kept@, kept@.len() as int, old_exp[m]@) by {
                        if m < i {
                            let k = choose|k: int| 0 <= k < before.len() && (#[trigger] before[k])@ == old_exp[m]@;
                            assert(kept@[k] == before[k]);
                        } else {
                            assert(kept@[kept@.len() - 1]@ == old_exp[m]@);
                        }
                    }
                    assert forall|k: int| 0 <= k < kept@.len() implies appears_in(old_exp, i + 1, #[trigger] kept@[k]@) by {
                        if k < before.len() {
                            assert(kept@[k] == before[k]);
                            let m = choose|m: int| 0 <= m < i && (#[trigger] old_exp[m])@ == before[k]@;
                        } else {
                            assert(old_exp[i as int]@ == kept@[k]@);
                        }
                    }
                }
                i += 1;
            }
            self.expanded = kept;
            assert forall|p: Seq<char>| #[trigger] self.is_open(p) == if p == path@ {
                !old(self).is_open(p)
            } else {
                old(self).is_open(p)
            } by {
                if p != path@ && old(self).is_open(p) {
                    let m = choose|m: int| 0 <= m < old_exp.len() && (#[trigger] old_exp[m])@ == p;
                    assert(appears_in(self.expanded@, self.expanded@.len() as int, old_exp[m]@));
                    let k = choose|k: int| 0 <= k < self.expanded@.len() && (#[trigger] self.expanded@[k])@ == old_exp[m]@;
                    assert(self.expanded@[k]@ == p);
                }
                if self.is_open(p) {
                    let k = choose|k: int| 0 <= k < self.expanded@.len() && (#[trigger] self.expanded@[k])@ == p;
                    assert(appears_in(old_exp, old_exp.len() as int, self.expanded@[k]@));
                    let m = choose|m: int| 0 <= m < old_exp.len() && (#[trigger] old_exp[m])@ == self.expanded@[k]@;
                    assert(old_exp[m]@ == p);
                }
            }
        } else {
            let ghost old_exp = self.expanded@;
            self.expanded.push(to_owned_string(path));
            assert forall|p: Seq<char>| #[trigger] self.is_open(p) == if p == path@ {
                !old(self).is_open(p)
            } else {
                old(self).is_open(p)
            } by {
                if p == path@ {
                    assert(self.expanded@[old_exp.len() as int]@ == p);
                }
                if old(self).is_open(p) {
                    let m = choose|m: int| 0 <= m < old_exp.len() && (#[trigger] old_exp[m])@ == p;
                    assert(self.expanded@[m] == old_exp[m]);
                }
                if self.is_open(p) && p != path@ {
                    let k = choose|k: int| 0 <= k < self.expanded@.len() && (#[trigger] self.expanded@[k])@ == p;
                    assert(k < old_exp.len());
                    assert(old_exp[k] == self.expanded@[k]);
                }
            }
        }
    }

    /// The listing read for a directory, if any.
    pub fn cached(&self, dir: &str) -> (r: Option<&Vec<DirEntry>>)
        ensures
            match r {
                Some(v) => self.listing(dir@) == Some(entry_models(v@)),
                None => self.listing(dir@) is None,
            },
    {
        let ghost cv = self.cache_view();
        let mut i: usize = 0;
        assert(cv.skip(0) =~= cv);
        while i < self.cache.len()
            invariant
                i <= self.cache@.len(),
                cv == self.cache_view(),
                cache_lookup(cv, dir@) == cache_lookup(cv.skip(i as int), dir@),
            decreases self.cache.len() - i,
        {
            assert(cv.skip(i as int)[0] == cv[i as int]);
            if str_eq(self.cache[i].0.as_str(), dir) {
                return Some(&self.cache[i].1);
            }
            assert(cv.skip(i as int).drop_first() =~= cv.skip(i + 1));
            i += 1;
        }
        assert(cv.skip(i as int).len() == 0);
        None
    }

    /// Stores the listing read for a directory, unless one is stored already.
    pub fn cache_listing(&mut self, dir: &str, entries: Vec<DirEntry>)
        ensures
            *final(self) == (FolderTree { cache: final(self).cache, ..*old(self) }),
            forall|d: Seq<char>|
                #[trigger] final(self).listing(d) == if d == dir@ && old(self).listing(d) is None {
                    Some(entry_models(entries@))
                } else {
                    old(self).listing(d)
                },
    {
        if self.cached(dir).is_some() {
            return;
        }
        let ghost cv = self.cache_view();
        let ghost ev = (dir@, entry_models(entries@));
        self.cache.push((to_owned_string(dir), entries));
        assert(self.cache_view() =~= cv.push(ev));
        assert forall|d: Seq<char>| #[trigger] self.listing(d) == if d == dir@ && old(self).listing(d) is None {
            Some(entry_models(entries@))
        } else {
            old(self).listing(d)
        } by {
            lemma_cache_lookup_push(cv, ev, d);
        }
    }

    /// Records the error of reading a directory.
    pub fn set_error(&mut self, message: String)
        ensures
            opt_view(final(self).error) == Some(message@),
            *final(self) == (FolderTree { error: final(self).error, ..*old(self) }),
    {
        self.error = Some(message);
    }

    /// Selects a path.
    pub fn select(&mut self, path: &str)
        ensures
            opt_view(final(self).selected) == Some(path@),
            *final(self) == (FolderTree { selected: final(self).selected, ..*old(self) }),
    {
        self.selected = Some(to_owned_string(path));
    }

    /// Whether a path is the selected one.
    pub fn is_selected(&self, path: &str) -> (b: bool)
        ensures
            b == (opt_view(self.selected) == Some(path@)),
    {
        match &self.selected {
            Some(s) => str_eq(s.as_str(), path),
            None => false,
        }
    }

    /// Selects a path and asks for it to be opened as data.
    pub fn open_data(&mut self, path: &str) -> (a: TreeAction)
        ensures
            opt_view(final(self).selected) == Some(path@),
            a matches TreeAction::OpenData(p) && p@ == path@,
            *final(self) == (FolderTree { selected: final(self).selected, ..*old(self) }),
    {
        self.select(path);
        TreeAction::OpenData(to_owned_string(path))
    }

    /// Selects an SQL file and asks for it to be loaded into the editor.
    pub fn load_sql(&mut self, path: &str) -> (a: TreeAction)
        ensures
            opt_view(final(self).selected) == Some(path@),
            a matches TreeAction::LoadSql(p) && p@ == path@,
            *final(self) == (FolderTree { selected: final(self).selected, ..*old(self) }),
    {
        self.select(path);
        TreeAction::LoadSql(to_owned_string(path))
    }
}

/// The most entries drawn for one directory.
pub open spec fn max_render() -> nat {
    300
}

/// How many entries of a directory are drawn, and how many are left out
/// (mentioned in a line of their own).
pub fn render_window(total: usize) -> (r: (usize, usize))
    ensures
        r.0 == if total > max_render() {
            max_render()
        } else {
            total as nat
        },
        r.0 + r.1 == total,
{
    if total > 300 {
        (300, total - 300)
    } else {
        (total, 0)
    }
}

/// Whether the search for a first data file descends into a directory of
/// this name: not hidden, not `lost+found`, not `build-cache`.
pub open spec fn scan_enters(name: Seq<char>) -> bool {
    !starts_with(name, seq!['.']) && name != "lost+found"@ && name != "build-cache"@
}

pub fn scan_enters_dir(name: &str) -> (b: bool)
    ensures
        b == scan_enters(name@),
{
    let v = chars_of(name);
    let hidden = v.len() > 0 && v[0] == '.';
    proof {
        if name@.len() > 0 {
            assert(name@.subrange(0, 1)[0] == v@[0]);
            if v@[0] == '.' {
                assert(name@.subrange(0, 1) =~= seq!['.']);
            }
        }
    }
    !hidden && !str_eq(name, "lost+found") && !str_eq(name, "build-cache")
}

/// The deepest level the search for a first data file reaches.
pub open spec fn max_scan_depth() -> nat {
    6
}

pub fn scan_depth_ok(depth: u32) -> (b: bool)
    ensures
        b == (depth <= max_scan_depth()),
{
    depth <= 6
}

// ---------------------------------------------------------------------------
// Laws of the listing
// ---------------------------------------------------------------------------

pub open spec fn dirs_first(es: Seq<EntryModel>) -> bool {
    forall|i: int, j: int| 0 <= i < j < es.len() ==> (#[trigger] es[i]).is_dir || !(#[trigger] es[j]).is_dir
}

proof fn lemma_insert_pos_bounds(s: Seq<EntryModel>, e: EntryModel)
    ensures
        0 <= entry_insert_pos(s, e) <= s.len(),
        forall|k: int| 0 <= k < entry_insert_pos(s, e) ==> !entry_before(e, #[trigger] s[k]),
        entry_insert_pos(s, e) < s.len() ==> entry_before(e, s[entry_insert_pos(s, e)]),
    decreases s.len(),
{
    if s.len() > 0 && !entry_before(e, s[0]) {
        lemma_insert_pos_bounds(s.drop_first(), e);
        assert forall|k: int| 0 <= k < entry_insert_pos(s, e) implies !entry_before(e, #[trigger] s[k]) by {
            if k > 0 {
                assert(s[k] == s.drop_first()[k - 1]);
            }
        }
    }
}

proof fn lemma_sort_entries_dirs_first(es: Seq<EntryModel>)
    ensures
        sort_entries(es).len() == es.len(),
        dirs_first(sort_entries(es)),
    decreases es.len(),
{
    if es.len() > 0 {
        lemma_sort_entries_dirs_first(es.drop_last());
        let s = sort_entries(es.drop_last());
        let e = es.last();
        let p = entry_insert_pos(s, e);
        lemma_insert_pos_bounds(s, e);
        let r = s.insert(p, e);
        assert forall|i: int, j: int| 0 <= i < j < r.len() implies (#[trigger] r[i]).is_dir || !(#[trigger] r[j]).is_dir by {
            if i < p && j < p {
            } else if i < p && j == p {
                assert(!entry_before(e, s[i]));
            } else if i < p && j > p {
                assert(r[j] == s[j - 1]);
            } else if i == p && j > p {
                assert(r[j] == s[j - 1]);
                if !e.is_dir && p < s.len() {
                    assert(entry_before(e, s[p]));
                    assert(!s[p].is_dir);
                    if j - 1 > p {
                        assert(s[p].is_dir || !s[j - 1].is_dir);
                    }
                }
            } else {
                assert(r[i] == s[i - 1]);
                assert(r[j] == s[j - 1]);
            }
        }
    }
}

proof fn lemma_listed_entries_listed(raw: Seq<EntryModel>)
    ensures
        forall|i: int| 0 <= i < listed_entries(raw).len() ==> listed(#[trigger] listed_entries(raw)[i]),
    decreases raw.len(),
{
    if raw.len() > 0 {
        lemma_listed_entries_listed(raw.drop_last());
        let p = listed_entries(raw.drop_last());
        assert forall|i: int| 0 <= i < listed_entries(raw).len() implies listed(#[trigger] listed_entries(raw)[i]) by {
            if i < p.len() {
                assert(listed_entries(raw)[i] == p[i]);
            }
        }
    }
}

proof fn lemma_sort_entries_members(es: Seq<EntryModel>)
    ensures
        forall|i: int| 0 <= i < sort_entries(es).len() ==> es.contains(#[trigger] sort_entries(es)[i]),
    decreases es.len(),
{
    if es.len() > 0 {
        lemma_sort_entries_members(es.drop_last());
        let s = sort_entries(es.drop_last());
        let e = es.last();
        let p = entry_insert_pos(s, e);
        lemma_insert_pos_bounds(s, e);
        lemma_sort_entries_dirs_first(es.drop_last());
        assert forall|i: int| 0 <= i < sort_entries(es).len() implies es.contains(#[trigger] sort_entries(es)[i]) by {
            let r = s.insert(p, e);
            if i < p {
                assert(r[i] == s[i]);
                let k = choose|k: int| 0 <= k < es.drop_last().len() && es.drop_last()[k] == s[i];
                assert(es[k] == s[i]);
            } else if i == p {
                assert(es[es.len() - 1] == e);
            } else {
                assert(r[i] == s[i - 1]);
                let k = choose|k: int| 0 <= k < es.drop_last().len() && es.drop_last()[k] == s[i - 1];
                assert(es[k] == s[i - 1]);
            }
        }
    }
}

proof fn lemma_lex_lt_irreflexive(a: Seq<char>)
    ensures
        !lex_lt(a, a),
    decreases a.len(),
{
    if a.len() > 0 {
        lemma_lex_lt_irreflexive(a.drop_first());
    }
}

proof fn lemma_lex_lt_transitive(a: Seq<char>, b: Seq<char>, c: Seq<char>)
    requires
        lex_lt(a, b),
        lex_lt(b, c),
    ensures
        lex_lt(a, c),
    decreases a.len(),
{
    if a.len() > 0 && a[0] == b[0] && b[0] == c[0] {
        lemma_lex_lt_transitive(a.drop_first(), b.drop_first(), c.drop_first());
    }
}

proof fn lemma_entry_before_strict(a: EntryModel, b: EntryModel, c: EntryModel)
    ensures
        !entry_before(a, a),
        entry_before(a, b) && entry_before(b, c) ==> entry_before(a, c),
{
    lemma_lex_lt_irreflexive(unicode_lowercase(a.name));
    if entry_before(a, b) && entry_before(b, c) && a.is_dir == c.is_dir {
        lemma_lex_lt_transitive(
            unicode_lowercase(a.name),
            unicode_lowercase(b.name),
            unicode_lowercase(c.name),
        );
    }
}

/// No entry of the sequence comes strictly before an earlier one.
pub open spec fn in_listing_order(es: Seq<EntryModel>) -> bool {
    forall|i: int, j: int| 0 <= i < j < es.len() ==> !entry_before(#[trigger] es[j], #[trigger] es[i])
}

proof fn lemma_sort_entries_sorted(es: Seq<EntryModel>)
    ensures
        in_listing_order(sort_entries(es)),
    decreases es.len(),
{
    if es.len() > 0 {
        lemma_sort_entries_sorted(es.drop_last());
        lemma_sort_entries_dirs_first(es.drop_last());
        let s = sort_entries(es.drop_last());
        let e = es.last();
        let p = entry_insert_pos(s, e);
        lemma_insert_pos_bounds(s, e);
        let r = s.insert(p, e);
        assert forall|i: int, j: int| 0 <= i < j < r.len() implies !entry_before(#[trigger] r[j], #[trigger] r[i]) by {
            if j < p {
            } else if j == p {
                assert(!entry_before(e, s[i]));
            } else if i < p {
                assert(r[j] == s[j - 1]);
            } else if i == p {
                assert(r[j] == s[j - 1]);
                assert(entry_before(e, s[p]));
                lemma_entry_before_strict(e, s[p], e);
                if j - 1 > p {
                    assert(!entry_before(s[j - 1], s[p]));
                    lemma_entry_before_strict(s[j - 1], e, s[p]);
                }
            } else {
                assert(r[i] == s[i - 1]);
                assert(r[j] == s[j - 1]);
            }
        }
    }
}

proof fn lemma_sort_entries_permutes(es: Seq<EntryModel>)
    ensures
        sort_entries(es).to_multiset() == es.to_multiset(),
    decreases es.len(),
{
    broadcast use vstd::seq_lib::to_multiset_insert, vstd::seq_lib::to_multiset_build;

    if es.len() == 0 {
        assert(sort_entries(es) =~= es);
    } else {
        lemma_sort_entries_permutes(es.drop_last());
        lemma_sort_entries_dirs_first(es.drop_last());
        let s = sort_entries(es.drop_last());
        lemma_insert_pos_bounds(s, es.last());
        assert(es =~= es.drop_last().push(es.last()));
    }
}

/// A directory's listing shows directories before files, then names in
/// order without regard to case; it holds exactly the listed entries (no
/// hidden names, no unsupported files), each as often as the directory
/// gave it.
pub proof fn lemma_listing_shape(raw: Seq<EntryModel>)
    ensures
        dirs_first(listing_of(raw)),
        in_listing_order(listing_of(raw)),
        listing_of(raw).to_multiset() == listed_entries(raw).to_multiset(),
        forall|i: int| 0 <= i < listing_of(raw).len() ==> listed(#[trigger] listing_of(raw)[i]),
{
    let l = listed_entries(raw);
    lemma_sort_entries_dirs_first(l);
    lemma_sort_entries_sorted(l);
    lemma_sort_entries_permutes(l);
    lemma_listed_entries_listed(raw);
    lemma_sort_entries_members(l);
    assert forall|i: int| 0 <= i < listing_of(raw).len() implies listed(#[trigger] listing_of(raw)[i]) by {
        assert(l.contains(listing_of(raw)[i]));
        let k = choose|k: int| 0 <= k < l.len() && l[k] == listing_of(raw)[i];
    }
}

proof fn lemma_listed_entries_keep(raw: Seq<EntryModel>, i: int)
    requires
        0 <= i < raw.len(),
        listed(raw[i]),
    ensures
        listed_entries(raw).contains(raw[i]),
    decreases raw.len(),
{
    let p = listed_entries(raw.drop_last());
    if i == raw.len() - 1 {
        assert(listed_entries(raw)[p.len() as int] == raw[i]);
    } else {
        assert(raw.drop_last()[i] == raw[i]);
        lemma_listed_entries_keep(raw.drop_last(), i);
        let k = choose|k: int| 0 <= k < p.len() && p[k] == raw[i];
        assert(listed_entries(raw)[k] == p[k]);
    }
}

/// What a listing shows of a directory's entries: every directory whose
/// name does not start with `.` (whatever else its name holds) and every
/// file of a listed kind whose name does not start with `.`; never an entry
/// whose name starts with `.`, nor a file of another kind.
pub proof fn lemma_listing_members(raw: Seq<EntryModel>, i: int)
    requires
        0 <= i < raw.len(),
    ensures
        raw[i].is_dir && !starts_with(raw[i].name, seq!['.']) ==> listing_of(raw).contains(raw[i]),
        is_supported_spec(raw[i].path) && !starts_with(raw[i].name, seq!['.'])
            ==> listing_of(raw).contains(raw[i]),
        starts_with(raw[i].name, seq!['.']) ==> !listing_of(raw).contains(raw[i]),
        !raw[i].is_dir && !is_supported_spec(raw[i].path) ==> !listing_of(raw).contains(raw[i]),
{
    broadcast use vstd::seq_lib::to_multiset_contains;

    lemma_listing_shape(raw);
    if listed(raw[i]) {
        lemma_listed_entries_keep(raw, i);
        assert(listed_entries(raw).to_multiset().count(raw[i]) > 0);
        assert(listing_of(raw).to_multiset().count(raw[i]) > 0);
    } else if listing_of(raw).contains(raw[i]) {
        let k = choose|k: int| 0 <= k < listing_of(raw).len() && listing_of(raw)[k] == raw[i];
        assert(listed(listing_of(raw)[k]));
    }
}

} // verus!
