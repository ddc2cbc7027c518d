//! The directory index: for each configured root that could be read, its
//! immediate subdirectories, in root order and then in the order they were
//! read.
use vstd::prelude::*;

verus! {

/// What reading one root directory gave.
#[derive(Debug)]
pub struct RootListing {
    /// The root as configured.
    pub root: String,
    /// The root's immediate entries in the order they were read, each with
    /// whether it is a directory; `None` when the root could not be read.
    pub entries: Option<Vec<(String, bool)>>,
}

/// A root listing as the specification sees it.
pub struct RootListingView {
    pub root: Seq<char>,
    pub entries: Option<Seq<(Seq<char>, bool)>>,
}

impl View for RootListing {
    type V = RootListingView;

    open spec fn view(&self) -> RootListingView {
        RootListingView {
            root: self.root@,
            entries: match self.entries {
                Some(entries) => Some(entries.deep_view()),
                None => None,
            },
        }
    }
}

/// One root of the index with its subdirectories.
pub type IndexedRoot = (String, Vec<String>);

/// The paths of the entries that are directories, in order.
pub open spec fn directories(entries: Seq<(Seq<char>, bool)>) -> Seq<Seq<char>>
    decreases entries.len(),
{
    if entries.len() == 0 {
        Seq::empty()
    } else {
        let rest = directories(entries.drop_last());
        if entries.last().1 {
            rest.push(entries.last().0)
        } else {
            rest
        }
    }
}

/// The index built from the listings: each root that could be read, with
/// its subdirectories; the roots that could not be read are left out.
pub open spec fn index_of(listings: Seq<RootListingView>) -> Seq<(Seq<char>, Seq<Seq<char>>)>
    decreases listings.len(),
{
    if listings.len() == 0 {
        Seq::empty()
    } else {
        let rest = index_of(listings.drop_last());
        match listings.last().entries {
            Some(entries) => rest.push((listings.last().root, directories(entries))),
            None => rest,
        }
    }
}

/// All the directories of the index, root after root.
pub open spec fn flatten_index(index: Seq<(Seq<char>, Seq<Seq<char>>)>) -> Seq<Seq<char>>
    decreases index.len(),
{
    if index.len() == 0 {
        Seq::empty()
    } else {
        flatten_index(index.drop_last()) + index.last().1
    }
}

/// The paths of the entries that are directories, in order.
pub fn directories_of(entries: &Vec<(String, bool)>) -> (r: Vec<String>)
    ensures
        r.deep_view() == directories(entries.deep_view()),
{
    let ghost e = entries.deep_view();
    let mut r: Vec<String> = Vec::new();
    let mut i: usize = 0;
    while i < entries.len()
        invariant
            e == entries.deep_view(),
            i <= e.len(),
            r.deep_view() == directories(e.subrange(0, i as int)),
        decreases e.len() - i,
    {
        let ghost before = r.deep_view();
        assert(e.subrange(0, i + 1).drop_last() =~= e.subrange(0, i as int));
        assert(e[i as int] == (entries@[i as int].0@, entries@[i as int].1));
        if entries[i].1 {
            r.push(entries[i].0.clone());
            assert(r.deep_view() =~= before.push(e[i as int].0));
        }
        i = i + 1;
    }
    assert(e.subrange(0, e.len() as int) =~= e);
    r
}

/// Builds the index from what reading each configured root gave.
pub fn build_index(listings: &Vec<RootListing>) -> (r: Vec<IndexedRoot>)
    ensures
        r.deep_view() == index_of(listings@.map_values(|l: RootListing| l@)),
{
    let ghost ls = listings@.map_values(|l: RootListing| l@);
    let mut r: Vec<IndexedRoot> = Vec::new();
    let mut i: usize = 0;
    while i < listings.len()
        invariant
            ls == listings@.map_values(|l: RootListing| l@),
            i <= ls.len(),
            r.deep_view() == index_of(ls.subrange(0, i as int)),
        decreases ls.len() - i,
    {
        let ghost before = r.deep_view();
        assert(ls.subrange(0, i + 1).drop_last() =~= ls.subrange(0, i as int));
        let listing = &listings[i];
        assert(ls[i as int] == listing@);
        match &listing.entries {
            Some(entries) => {
                let dirs = directories_of(entries);
                r.push((listing.root.clone(), dirs));
                assert(r.deep_view() =~= before.push(
                    (listing.root@, directories(entries.deep_view())),
                ));
            },
            None => {},
        }
        i = i + 1;
    }
    assert(ls.subrange(0, ls.len() as int) =~= ls);
    r
}

/// All the directories of the index, root after root.
pub fn flatten(index: &Vec<IndexedRoot>) -> (r: Vec<String>)
    ensures
        r.deep_view() == flatten_index(index.deep_view()),
{
    let ghost x = index.deep_view();
    let mut r: Vec<String> = Vec::new();
    let mut i: usize = 0;
    while i < index.len()
        invariant
            x == index.deep_view(),
            i <= x.len(),
            r.deep_view() == flatten_index(x.subrange(0, i as int)),
        decreases x.len() - i,
    {
        assert(x.subrange(0, i + 1).drop_last() =~= x.subrange(0, i as int));
        let dirs = &index[i].1;
        let ghost start = r.deep_view();
        assert(x[i as int].1 == dirs.deep_view());
        let mut j: usize = 0;
        while j < dirs.len()
            invariant
                j <= dirs@.len(),
                r.deep_view() == start + dirs.deep_view().subrange(0, j as int),
            decreases dirs@.len() - j,
        {
            let ghost before = r.deep_view();
            r.push(dirs[j].clone());
            assert(r.deep_view() =~= before.push(dirs[j as int]@));
            assert(r.deep_view() =~= start + dirs.deep_view().subrange(0, j + 1));
            j = j + 1;
        }
        assert(dirs.deep_view().subrange(0, dirs@.len() as int) =~= dirs.deep_view());
        i = i + 1;
    }
    assert(x.subrange(0, x.len() as int) =~= x);
    r
}

/// The directory index, built once from the configured roots and read-only
/// afterwards.
#[derive(Debug)]
pub struct DirIndex {
    roots: Vec<IndexedRoot>,
}

impl View for DirIndex {
    type V = Seq<(Seq<char>, Seq<Seq<char>>)>;

    closed spec fn view(&self) -> Seq<(Seq<char>, Seq<Seq<char>>)> {
        self.roots.deep_view()
    }
}

impl DirIndex {
    /// The index of nothing.
    pub fn empty() -> (r: DirIndex)
        ensures
            r@.len() == 0,
    {
        DirIndex { roots: Vec::new() }
    }

    /// Builds the index from what reading each configured root gave.
    pub fn build(listings: &Vec<RootListing>) -> (r: DirIndex)
        ensures
            r@ == index_of(listings@.map_values(|l: RootListing| l@)),
    {
        DirIndex { roots: build_index(listings) }
    }

    /// All the directories of the index, root after root.
    pub fn all_paths(&self) -> (r: Vec<String>)
        ensures
            r.deep_view() == flatten_index(self@),
    {
        flatten(&self.roots)
    }
}

} // verus!
