//! The search for a first data file under a directory, to open when the
//! explorer starts on a folder: a depth-first walk, one directory listing at
//! a time.  Reading a directory is the caller's part; each step takes the
//! listing of the directory asked for and says which one to read next.
use vstd::prelude::*;
use crate::paths::{is_data_file, is_data_file_spec};
use crate::tree::{max_scan_depth, scan_depth_ok, scan_enters, scan_enters_dir};

verus! {

/// What the file system says of one entry of a directory.
pub struct DirFacts {
    pub path: String,
    /// The entry's name where it is Unicode, else empty.
    pub name: String,
    pub is_file: bool,
    pub is_dir: bool,
}

pub struct FactsModel {
    pub path: Seq<char>,
    pub name: Seq<char>,
    pub is_file: bool,
    pub is_dir: bool,
}

pub open spec fn facts_models(es: Seq<DirFacts>) -> Seq<FactsModel> {
    es.map_values(|e: DirFacts| FactsModel { path: e.path@, name: e.name@, is_file: e.is_file, is_dir: e.is_dir })
}

/// The first entry that is a data file, in the listing's order.
pub open spec fn first_data_file(es: Seq<FactsModel>) -> Option<Seq<char>>
    decreases es.len(),
{
    if es.len() == 0 {
        None
    } else if es[0].is_file && is_data_file_spec(es[0].path) {
        Some(es[0].path)
    } else {
        first_data_file(es.drop_first())
    }
}

/// The directories the search descends into, in the listing's order: not
/// hidden, not `lost+found`, not `build-cache`.
pub open spec fn subdirs_of(es: Seq<FactsModel>) -> Seq<Seq<char>>
    decreases es.len(),
{
    if es.len() == 0 {
        Seq::empty()
    } else {
        (if es[0].is_dir && scan_enters(es[0].name) {
            seq![es[0].path]
        } else {
            Seq::empty()
        }) + subdirs_of(es.drop_first())
    }
}

/// Directories waiting to be read, the next one last, each with its depth.
pub open spec fn pushed(stack: Seq<(Seq<char>, u32)>, subs: Seq<Seq<char>>, depth: u32) -> Seq<(Seq<char>, u32)>
    decreases subs.len(),
{
    if subs.len() == 0 {
        stack
    } else {
        pushed(stack, subs.drop_first(), depth).push((subs[0], depth))
    }
}

/// Takes the next directory to read off the stack: directories deeper than
/// the search goes are dropped unread.
pub open spec fn advance(stack: Seq<(Seq<char>, u32)>) -> (Seq<(Seq<char>, u32)>, Option<(Seq<char>, u32)>)
    decreases stack.len(),
{
    if stack.len() == 0 {
        (stack, None)
    } else if stack.last().1 <= max_scan_depth() {
        (stack.drop_last(), Some(stack.last()))
    } else {
        advance(stack.drop_last())
    }
}

/// What the search needs next.
pub enum SearchAction {
    /// Read this directory and hand its listing to `step` (`None` where it
    /// cannot be read).
    ReadDir(String),
    /// The search is over: the first data file found, if any.
    Finished(Option<String>),
}

/// A depth-first search in progress.
pub struct TabularSearch {
    stack: Vec<(String, u32)>,
    dir: String,
    depth: u32,
    reading: bool,
}

pub open spec fn stack_view(s: Seq<(String, u32)>) -> Seq<(Seq<char>, u32)> {
    s.map_values(|e: (String, u32)| (e.0@, e.1))
}

/// One step of the search, given the listing of the directory it read.
pub open spec fn search_step_spec(
    old: TabularSearch,
    listing: Option<Seq<FactsModel>>,
    new: TabularSearch,
    a: SearchAction,
) -> bool {
    let found = match listing {
        Some(es) => first_data_file(es),
        None => None,
    };
    let base = match listing {
        Some(es) => pushed(old.pending(), subdirs_of(es), (old.current_depth() + 1) as u32),
        None => old.pending(),
    };
    let (rest, next) = advance(base);
    if found is Some {
        &&& a matches SearchAction::Finished(Some(p)) && Some(p@) == found
        &&& !new.waiting()
    } else {
        &&& new.pending() == rest
        &&& match next {
            Some((p, d)) => {
                &&& a matches SearchAction::ReadDir(q) && q@ == p
                &&& new.current_dir() == p
                &&& new.current_depth() == d
                &&& new.waiting()
            },
            None => a matches SearchAction::Finished(None) && !new.waiting(),
        }
    }
}

/// Where the first data file of a listing stands, if it has one.
fn first_data_index(es: &Vec<DirFacts>) -> (r: Option<usize>)
    ensures
        match r {
            Some(j) => j < es@.len() && first_data_file(facts_models(es@)) == Some(es@[j as int].path@),
            None => first_data_file(facts_models(es@)) is None,
        },
{
    let ghost m = facts_models(es@);
    let mut i: usize = 0;
    assert(m.skip(0) =~= m);
    while i < es.len()
        invariant
            i <= es@.len(),
            m == facts_models(es@),
            first_data_file(m) == first_data_file(m.skip(i as int)),
        decreases es.len() - i,
    {
        assert(m.skip(i as int)[0] == m[i as int]);
        if es[i].is_file && is_data_file(es[i].path.as_str()) {
            return Some(i);
        }
        assert(m.skip(i as int).drop_first() =~= m.skip(i + 1));
        i += 1;
    }
    assert(m.skip(i as int).len() == 0);
    None
}

impl TabularSearch {
    /// The directories still to read, the next one last.
    pub closed spec fn pending(self) -> Seq<(Seq<char>, u32)> {
        stack_view(self.stack@)
    }

    /// The directory being read.
    pub closed spec fn current_dir(self) -> Seq<char> {
        self.dir@
    }

    /// The depth of the directory being read.
    pub closed spec fn current_depth(self) -> u32 {
        self.depth
    }

    /// The search waits for the listing of a directory.
    pub closed spec fn waiting(self) -> bool {
        self.reading && self.depth <= max_scan_depth()
    }

    fn next_action(&mut self) -> (a: SearchAction)
        ensures
            ({
                let (rest, next) = advance(stack_view(old(self).stack@));
                &&& stack_view(final(self).stack@) == rest
                &&& match next {
                    Some((p, d)) => {
                        &&& a matches SearchAction::ReadDir(q) && q@ == p
                        &&& final(self).dir@ == p
                        &&& final(self).depth == d
                        &&& final(self).waiting()
                    },
                    None => a matches SearchAction::Finished(None) && !final(self).reading,
                }
            }),
    {
        let ghost start = stack_view(self.stack@);
        loop
            invariant
                start == stack_view(old(self).stack@),
                advance(stack_view(self.stack@)) == advance(start),
            decreases self.stack@.len(),
        {
            let ghost before = stack_view(self.stack@);
            match self.stack.pop() {
                None => {
                    self.reading = false;
                    return SearchAction::Finished(None);
                },
                Some((p, d)) => {
                    assert(before.last() == (p@, d));
                    assert(stack_view(self.stack@) =~= before.drop_last());
                    if scan_depth_ok(d) {
                        self.dir = crate::text::to_owned_string(p.as_str());
                        self.depth = d;
                        self.reading = true;
                        return SearchAction::ReadDir(p);
                    }
                },
            }
        }
    }

    /// Whether the search waits for a listing (whether `step` may be called).
    pub fn is_waiting(&self) -> (b: bool)
        ensures
            b == self.waiting(),
    {
        self.reading && scan_depth_ok(self.depth)
    }

    /// Starts the search at a directory (depth 0): it is read first.
    pub fn start(root: &str) -> (r: (TabularSearch, SearchAction))
        ensures
            r.0.waiting(),
            r.0.current_dir() == root@,
            r.0.current_depth() == 0,
            r.0.pending().len() == 0,
            r.1 matches SearchAction::ReadDir(p) && p@ == root@,
    {
        let mut s = TabularSearch { stack: Vec::new(), dir: String::new(), depth: 0, reading: false };
        s.stack.push((crate::text::to_owned_string(root), 0));
        assert(stack_view(s.stack@) =~= seq![(root@, 0u32)]);
        let a = s.next_action();
        (s, a)
    }

    /// Takes the listing of the directory asked for (`None` where it could
    /// not be read).  A data file in it ends the search with the first one;
    /// otherwise its subdirectories are visited next, in order and one level
    /// deeper, before the directories still pending; then the next directory
    /// to read is asked for, or the search ends without a file.
    pub fn step(&mut self, listing: Option<Vec<DirFacts>>) -> (a: SearchAction)
        requires
            old(self).waiting(),
        ensures
            search_step_spec(
                *old(self),
                match listing {
                    Some(es) => Some(facts_models(es@)),
                    None => None,
                },
                *final(self),
                a,
            ),
    {
        match listing {
            None => self.next_action(),
            Some(es) => {
                let ghost m = facts_models(es@);
                match first_data_index(&es) {
                    Some(j) => {
                        self.reading = false;
                        return SearchAction::Finished(Some(es[j].path.clone()));
                    },
                    None => {},
                }
                let d = self.depth + 1;
                let mut k: usize = es.len();
                let ghost old_stack = stack_view(self.stack@);
                assert(m.skip(k as int).len() == 0);
                while k > 0
                    invariant
                        k <= es@.len(),
                        m == facts_models(es@),
                        stack_view(self.stack@) == pushed(old_stack, subdirs_of(m.skip(k as int)), d),
                        old_stack == stack_view(old(self).stack@),
                        d == old(self).depth + 1,
                    decreases k,
                {
                    k -= 1;
                    let ghost tail = m.skip(k as int);
                    assert(tail[0] == m[k as int]);
                    assert(tail.drop_first() =~= m.skip(k + 1));
                    let e = &es[k];
                    if e.is_dir && scan_enters_dir(e.name.as_str()) {
                        let ghost prev = subdirs_of(m.skip(k + 1));
                        assert((seq![e.path@] + prev).drop_first() =~= prev);
                        self.stack.push((e.path.clone(), d));
                        assert(stack_view(self.stack@) =~= pushed(old_stack, prev, d).push((e.path@, d)));
                    } else {
                        assert(subdirs_of(tail) =~= subdirs_of(m.skip(k + 1)));
                    }
                }
                assert(m.skip(0) =~= m);
                self.next_action()
            },
        }
    }
}

// ---------------------------------------------------------------------------
// What the search finds
// ---------------------------------------------------------------------------

/// A file system as the search sees it: the listing of each directory, or
/// `None` where it cannot be read.
pub type Listings = spec_fn(Seq<char>) -> Option<Seq<FactsModel>>;

pub open spec fn first_some(a: Option<Seq<char>>, b: Option<Seq<char>>) -> Option<Seq<char>> {
    match a {
        Some(x) => Some(x),
        None => b,
    }
}

/// The first data file of a depth-first walk from `dir` at `depth`: a data
/// file of the directory itself, else the first found under its
/// subdirectories, in order; nothing below the deepest level.
pub open spec fn walk_dir(fs: Listings, dir: Seq<char>, depth: nat) -> Option<Seq<char>>
    decreases max_scan_depth() + 1 - depth, 0nat,
{
    if depth > max_scan_depth() {
        None
    } else {
        match fs(dir) {
            None => None,
            Some(es) => match first_data_file(es) {
                Some(p) => Some(p),
                None => walk_list(fs, subdirs_of(es), depth + 1),
            },
        }
    }
}

/// The first data file found walking the given directories in order.
pub open spec fn walk_list(fs: Listings, subs: Seq<Seq<char>>, depth: nat) -> Option<Seq<char>>
    decreases max_scan_depth() + 1 - depth, subs.len() + 1,
{
    if subs.len() == 0 {
        None
    } else {
        first_some(walk_dir(fs, subs[0], depth), walk_list(fs, subs.drop_first(), depth))
    }
}

/// The first data file found walking the pending directories, the last one
/// first.
pub open spec fn walk_stack(fs: Listings, stack: Seq<(Seq<char>, u32)>) -> Option<Seq<char>>
    decreases stack.len(),
{
    if stack.len() == 0 {
        None
    } else {
        first_some(walk_dir(fs, stack.last().0, stack.last().1 as nat), walk_stack(fs, stack.drop_last()))
    }
}

/// What a waiting search will find: the walk from the directory being read,
/// then from the pending ones.
pub open spec fn answer(fs: Listings, s: TabularSearch) -> Option<Seq<char>> {
    first_some(walk_dir(fs, s.current_dir(), s.current_depth() as nat), walk_stack(fs, s.pending()))
}

proof fn lemma_walk_pushed(fs: Listings, stack: Seq<(Seq<char>, u32)>, subs: Seq<Seq<char>>, d: u32)
    ensures
        walk_stack(fs, pushed(stack, subs, d)) == first_some(walk_list(fs, subs, d as nat), walk_stack(fs, stack)),
    decreases subs.len(),
{
    if subs.len() > 0 {
        lemma_walk_pushed(fs, stack, subs.drop_first(), d);
        let inner = pushed(stack, subs.drop_first(), d);
        let outer = inner.push((subs[0], d));
        assert(outer.drop_last() =~= inner);
        assert(outer.last() == (subs[0], d));
    }
}

proof fn lemma_walk_advance(fs: Listings, stack: Seq<(Seq<char>, u32)>)
    ensures
        walk_stack(fs, stack) == match advance(stack).1 {
            Some((p, d)) => first_some(walk_dir(fs, p, d as nat), walk_stack(fs, advance(stack).0)),
            None => None,
        },
    decreases stack.len(),
{
    if stack.len() > 0 && stack.last().1 > max_scan_depth() {
        lemma_walk_advance(fs, stack.drop_last());
    }
}

/// A search started at a directory will find the first data file of the
/// depth-first walk from it.
pub proof fn lemma_start_answer(fs: Listings, root: Seq<char>, s: TabularSearch)
    requires
        s.waiting(),
        s.current_dir() == root,
        s.current_depth() == 0,
        s.pending().len() == 0,
    ensures
        answer(fs, s) == walk_dir(fs, root, 0),
{
}

/// Each step keeps what the search will find, when the listing handed to it
/// is that of the directory it asked for: the search ends with exactly the
/// first data file of the depth-first walk, or with none where the walk
/// finds none.
pub proof fn lemma_step_keeps_answer(fs: Listings, old: TabularSearch, new: TabularSearch, a: SearchAction)
    requires
        old.waiting(),
        search_step_spec(old, fs(old.current_dir()), new, a),
    ensures
        match a {
            SearchAction::Finished(r) => match r {
                Some(p) => answer(fs, old) == Some(p@),
                None => answer(fs, old) is None,
            },
            SearchAction::ReadDir(_) => new.waiting() && answer(fs, new) == answer(fs, old),
        },
{
    let c = old.current_dir();
    let k = old.current_depth();
    let listing = fs(c);
    let base = match listing {
        Some(es) => pushed(old.pending(), subdirs_of(es), (k + 1) as u32),
        None => old.pending(),
    };
    lemma_walk_advance(fs, base);
    match listing {
        Some(es) => {
            lemma_walk_pushed(fs, old.pending(), subdirs_of(es), (k + 1) as u32);
        },
        None => {},
    }
}

} // verus!
