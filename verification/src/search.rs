//! Where the file of a library is looked for.

use vstd::prelude::*;

use crate::host::{entry_views, EntryView, FindEntry};
use crate::path::{
    clone_strings, host_parts, join_path, joined, sandbox_parts, split_leaf, split_pattern,
    string_views,
};
use crate::text::{append_str, chars_of, eq_ignore_case, same_ignoring_case, string_of};
use crate::util::{first_index, lemma_first_index, lemma_first_index_is, lemma_first_index_none};

verus! {

/// How many directories deep a search goes.
pub const MAX_DEPTH: u32 = 6;

/// The places where the file of a library is looked for before the whole tree is
/// searched: as it was asked for, next to the running program, on the drive, and in the
/// temporary directory.
pub open spec fn library_places(path: Seq<char>, name: Seq<char>, program: Seq<char>) -> Seq<
    Seq<Seq<char>>,
> {
    seq![
        sandbox_parts(path),
        sandbox_parts(joined(split_leaf(program).0, name)),
        sandbox_parts("C:\\"@ + name),
        sandbox_parts("C:\\Temp\\"@ + name),
    ]
}

/// The views of some places.
pub open spec fn place_views(s: Seq<Vec<String>>) -> Seq<Seq<Seq<char>>> {
    Seq::new(s.len(), |i: int| string_views(s[i]@))
}

/// The places where the file of a library is looked for first; `program` is the path of
/// the running program.
pub fn find_dll_file(path: &str, name: &str, program: &str) -> (r: Vec<Vec<String>>)
    ensures
        place_views(r@) == library_places(path@, name@, program@),
{
    let (dir, _leaf) = split_pattern(program);
    let beside = join_path(dir.as_str(), name);
    let mut root: Vec<char> = chars_of("C:\\");
    append_str(&mut root, name);
    assert(root@ =~= "C:\\"@ + name@);
    let mut temp: Vec<char> = chars_of("C:\\Temp\\");
    append_str(&mut temp, name);
    assert(temp@ =~= "C:\\Temp\\"@ + name@);
    let on_root = string_of(&root);
    let in_temp = string_of(&temp);
    let r: Vec<Vec<String>> = vec![
        host_parts(path),
        host_parts(beside.as_str()),
        host_parts(on_root.as_str()),
        host_parts(in_temp.as_str()),
    ];
    assert(place_views(r@) =~= library_places(path@, name@, program@));
    r
}

/// A directory that has still to be searched.
pub struct Pending {
    pub path: Vec<String>,
    pub depth: u32,
}

/// A directory that has still to be searched, as mathematics.
pub struct PendingView {
    pub path: Seq<Seq<char>>,
    pub depth: u32,
}

impl View for Pending {
    type V = PendingView;

    open spec fn view(&self) -> PendingView {
        PendingView { path: string_views(self.path@), depth: self.depth }
    }
}

/// The views of some directories.
pub open spec fn pending_views(s: Seq<Pending>) -> Seq<PendingView> {
    Seq::new(s.len(), |i: int| s[i]@)
}

/// The condition of being the file that is looked for.
pub open spec fn is_wanted(name: Seq<char>) -> spec_fn(EntryView) -> bool {
    |e: EntryView| !e.is_dir && same_ignoring_case(e.name, name)
}

/// The directories among some entries of `dir`, the first one last.
pub open spec fn below(dir: PendingView, entries: Seq<EntryView>) -> Seq<PendingView>
    decreases entries.len(),
{
    if entries.len() == 0 {
        Seq::empty()
    } else {
        let rest = below(dir, entries.skip(1));
        if entries[0].is_dir && dir.depth < MAX_DEPTH {
            rest.push(
                PendingView {
                    path: dir.path.push(entries[0].name),
                    depth: (dir.depth + 1) as u32,
                },
            )
        } else {
            rest
        }
    }
}

/// A search of a tree of directories: each directory before those in it, and those
/// in order.
pub struct TreeSearch {
    pub name: String,
    /// The directories that have still to be searched; the last one is next.
    pub pending: Vec<Pending>,
    pub found: Option<Vec<String>>,
}

/// A search of a tree of directories as mathematics.
#[verifier::ext_equal]
pub struct SearchView {
    pub name: Seq<char>,
    pub pending: Seq<PendingView>,
    pub found: Option<Seq<Seq<char>>>,
}

/// The view of what was found.
pub open spec fn found_path(p: Option<Vec<String>>) -> Option<Seq<Seq<char>>> {
    match p {
        Some(v) => Some(string_views(v@)),
        None => None,
    }
}

impl View for TreeSearch {
    type V = SearchView;

    open spec fn view(&self) -> SearchView {
        SearchView {
            name: self.name@,
            pending: pending_views(self.pending@),
            found: found_path(self.found),
        }
    }
}

impl SearchView {
    /// No directory is too deep.
    pub open spec fn wf(self) -> bool {
        forall|i: int|
            0 <= i < self.pending.len() ==> (#[trigger] self.pending[i]).depth <= MAX_DEPTH
    }

    /// What the next directory leads to, given what it holds.
    pub open spec fn stepped(self, entries: Seq<EntryView>) -> SearchView {
        let dir = self.pending.last();
        match first_index(entries, is_wanted(self.name)) {
            Some(i) => SearchView {
                pending: Seq::empty(),
                found: Some(dir.path.push(entries[i].name)),
                ..self
            },
            None => SearchView {
                pending: self.pending.drop_last() + below(dir, entries),
                ..self
            },
        }
    }
}

/// Directories in a directory that is not too deep are not too deep.
proof fn lemma_below_depth(dir: PendingView, entries: Seq<EntryView>)
    requires
        dir.depth <= MAX_DEPTH,
    ensures
        forall|i: int|
            0 <= i < below(dir, entries).len() ==> (#[trigger] below(dir, entries)[i]).depth
                <= MAX_DEPTH,
    decreases entries.len(),
{
    if entries.len() > 0 {
        lemma_below_depth(dir, entries.skip(1));
        let rest = below(dir, entries.skip(1));
        assert forall|i: int| 0 <= i < below(dir, entries).len() implies (#[trigger] below(
            dir,
            entries,
        )[i]).depth <= MAX_DEPTH by {
            if i < rest.len() {
                assert(below(dir, entries)[i] == rest[i]);
            }
        }
    }
}

/// A path with one more part.
fn with_part(path: &Vec<String>, part: &str) -> (r: Vec<String>)
    ensures
        string_views(r@) == string_views(path@).push(part@),
{
    let mut out = clone_strings(path);
    let ghost before = string_views(out@);
    let cs = chars_of(part);
    out.push(string_of(&cs));
    assert(string_views(out@) =~= before.push(part@));
    out
}

impl TreeSearch {
    /// A search of the whole sandbox for a file, whatever the case of its name.
    pub fn find_in_tree(name: &str) -> (s: TreeSearch)
        ensures
            s@ == (SearchView {
                name: name@,
                pending: seq![PendingView { path: Seq::empty(), depth: 0 }],
                found: None,
            }),
            s@.wf(),
    {
        let cs = chars_of(name);
        let root: Vec<String> = Vec::new();
        assert(string_views(root@) =~= Seq::empty());
        let s = TreeSearch {
            name: string_of(&cs),
            pending: vec![Pending { path: root, depth: 0 }],
            found: None,
        };
        assert(s@.pending =~= seq![PendingView { path: Seq::empty(), depth: 0 }]);
        s
    }

    /// Take in what the next directory holds; one that cannot be read holds nothing.
    pub fn listed(&mut self, entries: &Vec<FindEntry>)
        requires
            old(self)@.wf(),
            old(self).pending.len() > 0,
        ensures
            final(self)@ == old(self)@.stepped(entry_views(entries@)),
            final(self)@.wf(),
    {
        let ghost v = self@;
        let ghost es = entry_views(entries@);
        let dir = match self.pending.pop() {
            Some(d) => d,
            None => {
                return;
            },
        };
        let ghost rest = v.pending.drop_last();
        let ghost dv = dir@;
        proof {
            assert(v.pending.last() == dv);
            assert(pending_views(self.pending@) =~= rest);
            lemma_first_index(es, is_wanted(v.name));
            lemma_below_depth(dv, es);
        }
        let mut i: usize = 0;
        while i < entries.len()
            invariant
                i <= entries.len(),
                self.name@ == v.name,
                self.found == old(self).found,
                pending_views(self.pending@) == rest,
                v == old(self)@,
                v.pending.len() > 0,
                dv == dir@,
                dv == v.pending.last(),
                es == entry_views(entries@),
                forall|j: int| 0 <= j < i ==> !is_wanted(v.name)(#[trigger] es[j]),
            decreases entries.len() - i,
        {
            let e = &entries[i];
            assert(es[i as int] == e@);
            if !e.is_dir && eq_ignore_case(e.name.as_str(), self.name.as_str()) {
                proof {
                    lemma_first_index_is(es, is_wanted(v.name), i as int);
                }
                self.found = Some(with_part(&dir.path, e.name.as_str()));
                self.pending.clear();
                assert(self@ =~= v.stepped(es));
                return;
            }
            i = i + 1;
        }
        proof {
            lemma_first_index_none(es, is_wanted(v.name));
        }
        assert(es.skip(es.len() as int) =~= Seq::empty());
        assert(rest + below(dv, es.skip(es.len() as int)) =~= rest);
        let mut k: usize = entries.len();
        while k > 0
            invariant
                k <= entries.len(),
                self.name@ == v.name,
                self.found == old(self).found,
                v == old(self)@,
                dv == dir@,
                es == entry_views(entries@),
                pending_views(self.pending@) == rest + below(dv, es.skip(k as int)),
            decreases k,
        {
            k = k - 1;
            let e = &entries[k];
            proof {
                assert(es[k as int] == e@);
                assert(es.skip(k as int)[0] == es[k as int]);
                assert(es.skip(k as int).skip(1) =~= es.skip(k + 1));
            }
            if e.is_dir && dir.depth < MAX_DEPTH {
                let ghost before = pending_views(self.pending@);
                let next = Pending {
                    path: with_part(&dir.path, e.name.as_str()),
                    depth: dir.depth + 1,
                };
                let ghost nv = next@;
                self.pending.push(next);
                assert(pending_views(self.pending@) =~= before.push(nv));
                assert(before.push(nv) =~= rest + below(dv, es.skip(k as int)));
            }
        }
        assert(es.skip(0) =~= es);
        assert(self@ =~= v.stepped(es));
        assert forall|i: int| 0 <= i < self@.pending.len() implies (#[trigger] self@.pending[i]).depth
            <= MAX_DEPTH by {
            if i < rest.len() {
                assert(self@.pending[i] == v.pending[i]);
            } else {
                assert(self@.pending[i] == below(dv, es)[i - rest.len()]);
            }
        }
    }
}

/// A search that found a file found one of the wanted name, and is over.
pub proof fn lemma_found_is_wanted(s: SearchView, entries: Seq<EntryView>)
    requires
        s.found is None,
        s.stepped(entries).found is Some,
    ensures
        s.stepped(entries).pending.len() == 0,
        s.stepped(entries).found->0.len() == s.pending.last().path.len() + 1,
        same_ignoring_case(s.stepped(entries).found->0.last(), s.name),
{
    lemma_first_index(entries, is_wanted(s.name));
}

} // verus!
