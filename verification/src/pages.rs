//! The markdown pages of the site: their order, the directories that hold
//! them and the root that indexes everything.
use vstd::prelude::*;
use indexmap::IndexMap;
use std::cmp::Ordering;
use crate::datetime::UtcTimestamp;
use crate::frontmatter::MyFrontmatter;
use vstd::hash_map::StringHashMap;

verus! {

/// A rendered markdown page with its frontmatter.
#[derive(Clone, Debug)]
pub struct MdPage {
    pub frontmatter: MyFrontmatter,
    pub html: String,
}

/// Publication order of optional dates: an undated page comes before every
/// dated one, dated pages in chronological order.
pub open spec fn date_before(a: Option<UtcTimestamp>, b: Option<UtcTimestamp>) -> bool {
    match (a, b) {
        (None, Some(_)) => true,
        (Some(x), Some(y)) => x.before(y),
        _ => false,
    }
}

/// Neither date comes before the other.
pub open spec fn same_date(a: Option<UtcTimestamp>, b: Option<UtcTimestamp>) -> bool {
    !date_before(a, b) && !date_before(b, a)
}

/// The order in which a directory lists its pages: newer pages first.
/// `Greater` when `a` was published before `b`, `Less` when after.
pub open spec fn newest_first_order(a: Option<UtcTimestamp>, b: Option<UtcTimestamp>) -> Ordering {
    if date_before(a, b) {
        Ordering::Greater
    } else if date_before(b, a) {
        Ordering::Less
    } else {
        Ordering::Equal
    }
}

/// The newest-first order is a consistent order, as sorting needs: it is
/// antisymmetric, and both "published before" and "not published after"
/// are transitive.
pub proof fn newest_first_order_is_consistent(a: Option<UtcTimestamp>, b: Option<UtcTimestamp>, c: Option<UtcTimestamp>)
    ensures
        (newest_first_order(a, b) == Ordering::Less) <==> (newest_first_order(b, a) == Ordering::Greater),
        (newest_first_order(a, b) == Ordering::Equal) <==> (newest_first_order(b, a) == Ordering::Equal),
        !(date_before(a, b) && date_before(b, a)),
        date_before(a, b) && date_before(b, c) ==> date_before(a, c),
        !date_before(a, b) && !date_before(b, c) ==> !date_before(a, c),
{
}

fn order_dates(a: Option<UtcTimestamp>, b: Option<UtcTimestamp>) -> (res: Ordering)
    ensures
        res == newest_first_order(a, b),
{
    let a_before_b = match (a, b) {
        (None, Some(_)) => true,
        (Some(x), Some(y)) => x.is_before(&y),
        _ => false,
    };
    let b_before_a = match (b, a) {
        (None, Some(_)) => true,
        (Some(x), Some(y)) => x.is_before(&y),
        _ => false,
    };
    if a_before_b {
        Ordering::Greater
    } else if b_before_a {
        Ordering::Less
    } else {
        Ordering::Equal
    }
}

impl MdPage {
    /// The page's publication date.
    pub open spec fn date(self) -> Option<UtcTimestamp> {
        self.frontmatter.date_published
    }

    /// Compares two pages so that newer pages come first.
    pub fn cmp(&self, other: &Self) -> (res: Ordering)
        ensures
            res == newest_first_order(self.date(), other.date()),
    {
        order_dates(self.frontmatter.date_published, other.frontmatter.date_published)
    }
}

/// How a directory's index refers to one of its pages: the page's place in
/// the directory's storage, whether it is dated, and its date.
pub type PageSlot = (usize, bool, i64, u32);

/// The date a slot carries.
pub open spec fn slot_date(s: (usize, bool, i64, u32)) -> Option<UtcTimestamp> {
    if s.1 {
        Some(UtcTimestamp { secs: s.2, nanos: s.3 })
    } else {
        None
    }
}

/// The slot that refers to a page stored at `at`.
pub open spec fn slot_of(at: usize, page: MdPage) -> (usize, bool, i64, u32) {
    match page.date() {
        Some(d) => (at, true, d.secs, d.nanos),
        None => (at, false, 0, 0),
    }
}

fn make_slot(at: usize, page: &MdPage) -> (res: PageSlot)
    ensures
        res == slot_of(at, *page),
{
    match page.frontmatter.date_published {
        Some(d) => (at, true, d.secs, d.nanos),
        None => (at, false, 0i64, 0u32),
    }
}

fn order_slots(a: &PageSlot, b: &PageSlot) -> (res: Ordering)
    ensures
        res == newest_first_order(slot_date(*a), slot_date(*b)),
{
    let da = if a.1 { Some(UtcTimestamp { secs: a.2, nanos: a.3 }) } else { None };
    let db = if b.1 { Some(UtcTimestamp { secs: b.2, nanos: b.3 }) } else { None };
    order_dates(da, db)
}

#[verifier::external_type_specification]
#[verifier::external_body]
#[verifier::reject_recursive_types(K)]
#[verifier::reject_recursive_types(V)]
#[verifier::reject_recursive_types(S)]
pub struct ExIndexMap<K, V, S>(IndexMap<K, V, S>);

/// The entries of an `IndexMap` of slots, in the map's order.
pub uninterp spec fn index_entries(m: IndexMap<String, (usize, bool, i64, u32)>) -> Seq<(Seq<char>, (usize, bool, i64, u32))>;

/// `p` rearranges `from` into `to`: `to[i]` is `from[p[i]]` and every place
/// of `from` is used once.
pub open spec fn rearranges<T>(from: Seq<T>, to: Seq<T>, p: Seq<int>) -> bool {
    &&& p.len() == from.len()
    &&& to.len() == from.len()
    &&& forall|i: int| 0 <= i < p.len() ==> 0 <= #[trigger] p[i] < from.len()
    &&& forall|i: int, j: int| 0 <= i < j < p.len() ==> p[i] != p[j]
    &&& forall|i: int| 0 <= i < p.len() ==> to[i] == from[#[trigger] p[i]]
}

/// `to` is the index entries `from` sorted newest first by a stable sort: a
/// rearrangement in which no entry precedes a newer one, and entries of equal
/// date keep their former relative order.
pub open spec fn sorted_entries(from: Seq<(Seq<char>, (usize, bool, i64, u32))>, to: Seq<(Seq<char>, (usize, bool, i64, u32))>) -> bool {
    exists|p: Seq<int>| {
        &&& #[trigger] rearranges(from, to, p)
        &&& forall|i: int, j: int| 0 <= i < j < to.len() ==> !date_before(entry_date(to[i]), entry_date(to[j]))
        &&& forall|i: int, j: int| 0 <= i < j < to.len()
            && same_date(entry_date(to[i]), entry_date(to[j])) ==> p[i] < p[j]
    }
}

/// `to` is the named pages `from` sorted newest first by a stable sort: a
/// rearrangement in which no page precedes a newer one, and pages of equal
/// date keep their former relative order.
pub open spec fn sorted_pages(from: Seq<(Seq<char>, MdPage)>, to: Seq<(Seq<char>, MdPage)>) -> bool {
    exists|p: Seq<int>| {
        &&& #[trigger] rearranges(from, to, p)
        &&& forall|i: int, j: int| 0 <= i < j < to.len() ==> !date_before(to[i].1.date(), to[j].1.date())
        &&& forall|i: int, j: int| 0 <= i < j < to.len()
            && same_date(to[i].1.date(), to[j].1.date()) ==> p[i] < p[j]
    }
}

/// The date of an index entry.
pub open spec fn entry_date(e: (Seq<char>, (usize, bool, i64, u32))) -> Option<UtcTimestamp> {
    slot_date(e.1)
}

/// `IndexMap::new`. Trusted: a new map has no entries.
#[verifier::external_body]
fn index_new() -> (res: IndexMap<String, PageSlot>)
    ensures
        index_entries(res) == Seq::<(Seq<char>, PageSlot)>::empty(),
{
    IndexMap::new()
}

/// `IndexMap::len`. Trusted: the number of entries.
#[verifier::external_body]
fn index_len(m: &IndexMap<String, PageSlot>) -> (res: usize)
    ensures
        res == index_entries(*m).len(),
{
    m.len()
}

/// `IndexMap::insert`. Trusted: as indexmap documents it, an existing key
/// keeps its place and gets the new value; a new key goes last.
#[verifier::external_body]
fn index_insert(m: &mut IndexMap<String, PageSlot>, k: String, v: PageSlot)
    ensures
        (exists|i: int| 0 <= i < index_entries(*old(m)).len() && index_entries(*old(m))[i].0 == k@)
            ==> (exists|i: int| 0 <= i < index_entries(*old(m)).len()
                && index_entries(*old(m))[i].0 == k@
                && (forall|j: int| 0 <= j < i ==> index_entries(*old(m))[j].0 != k@)
                && index_entries(*final(m)) == index_entries(*old(m)).update(i, (k@, v))),
        !(exists|i: int| 0 <= i < index_entries(*old(m)).len() && index_entries(*old(m))[i].0 == k@)
            ==> index_entries(*final(m)) == index_entries(*old(m)).push((k@, v)),
{
    m.insert(k, v);
}

/// `IndexMap::get`. Trusted: the value of the first entry with that key.
#[verifier::external_body]
fn index_get(m: &IndexMap<String, PageSlot>, k: &str) -> (res: Option<PageSlot>)
    ensures
        match res {
            Some(v) => exists|i: int| 0 <= i < index_entries(*m).len()
                && index_entries(*m)[i] == (k@, v)
                && (forall|j: int| 0 <= j < i ==> index_entries(*m)[j].0 != k@),
            None => forall|i: int| 0 <= i < index_entries(*m).len() ==> index_entries(*m)[i].0 != k@,
        },
{
    m.get(k).copied()
}

/// `IndexMap::get_index`. Trusted: the entry at a position inside the map,
/// its key copied.
#[verifier::external_body]
fn index_entry(m: &IndexMap<String, PageSlot>, i: usize) -> (res: (String, PageSlot))
    requires
        i < index_entries(*m).len(),
    ensures
        res.0@ == index_entries(*m)[i as int].0,
        res.1 == index_entries(*m)[i as int].1,
{
    let (k, v) = m.get_index(i).unwrap();
    (k.clone(), *v)
}

/// `IndexMap::sort_by` with the newest-first order of slots. Trusted:
/// indexmap documents the sort as stable and sorts its entries with
/// `slice::sort_by`, whose result is the stable arrangement by the
/// comparison, which here is a total preorder.
#[verifier::external_body]
fn index_sort_newest_first(m: &mut IndexMap<String, PageSlot>)
    ensures
        sorted_entries(index_entries(*old(m)), index_entries(*final(m))),
{
    m.sort_by(|_ka, a, _kb, b| order_slots(a, b));
}

/// The entries of a directory after storing `page` under `name`: an existing
/// name keeps its place and takes the new page, a new name goes last.
pub open spec fn dir_insert(v: Seq<(Seq<char>, MdPage)>, name: Seq<char>, page: MdPage) -> Seq<(Seq<char>, MdPage)> {
    if exists|i: int| 0 <= i < v.len() && v[i].0 == name {
        let i = choose|i: int| 0 <= i < v.len() && v[i].0 == name;
        v.update(i, (name, page))
    } else {
        v.push((name, page))
    }
}

/// The pages of a directory after storing each named page in turn.
pub open spec fn dir_contents(list: Seq<(Seq<char>, MdPage)>) -> Seq<(Seq<char>, MdPage)>
    decreases list.len(),
{
    if list.len() == 0 {
        Seq::empty()
    } else {
        dir_insert(dir_contents(list.drop_last()), list.last().0, list.last().1)
    }
}

/// Named pages with their names as text.
pub open spec fn named_pages(v: Seq<(String, MdPage)>) -> Seq<(Seq<char>, MdPage)> {
    v.map_values(|e: (String, MdPage)| (e.0@, e.1))
}

/// Storing a page in a directory keeps every name once, makes the page the
/// one found under its name, and leaves the other names' pages in place.
pub proof fn stored_page_is_found(v: Seq<(Seq<char>, MdPage)>, name: Seq<char>, page: MdPage)
    requires
        unique_names(v),
    ensures
        unique_names(dir_insert(v, name, page)),
        exists|i: int| 0 <= i < dir_insert(v, name, page).len() && dir_insert(v, name, page)[i] == (name, page),
        forall|i: int| 0 <= i < v.len() && v[i].0 != name ==> dir_insert(v, name, page)[i] == v[i],
        dir_insert(v, name, page).len() == v.len() + (if exists|i: int| 0 <= i < v.len() && v[i].0 == name { 0int } else { 1int }),
{
    if exists|i: int| 0 <= i < v.len() && v[i].0 == name {
        let i = choose|i: int| 0 <= i < v.len() && v[i].0 == name;
        assert(dir_insert(v, name, page)[i] == (name, page));
    } else {
        assert(dir_insert(v, name, page)[v.len() as int] == (name, page));
    }
}

/// No name occurs twice.
pub open spec fn unique_names<T>(v: Seq<(Seq<char>, T)>) -> bool {
    forall|i: int, j: int| 0 <= i < j < v.len() ==> v[i].0 != v[j].0
}

/// A directory of pages: an ordered index from page name to page.
pub struct MdDir {
    index: IndexMap<String, PageSlot>,
    pages: Vec<MdPage>,
}

impl MdDir {
    /// The index and the storage agree: one slot per stored page, each slot
    /// carrying its page's date, and no name twice.
    pub closed spec fn wf(self) -> bool {
        let e = index_entries(self.index);
        &&& e.len() == self.pages.len()
        &&& unique_names(e)
        &&& forall|i: int, j: int| 0 <= i < j < e.len() ==> e[i].1.0 != e[j].1.0
        &&& forall|i: int| 0 <= i < e.len() ==> #[trigger] e[i].1.0 < self.pages.len()
            && e[i].1 == slot_of(e[i].1.0, self.pages[e[i].1.0 as int])
    }

    /// The pages of the directory by name, in the directory's order.
    pub closed spec fn view(self) -> Seq<(Seq<char>, MdPage)> {
        let e = index_entries(self.index);
        Seq::new(e.len(), |i: int| (e[i].0, self.pages[e[i].1.0 as int]))
    }

    /// An empty directory.
    pub fn new() -> (res: Self)
        ensures
            res.wf(),
            res@ == Seq::<(Seq<char>, MdPage)>::empty(),
    {
        let res = MdDir { index: index_new(), pages: Vec::new() };
        assert(res@ =~= Seq::<(Seq<char>, MdPage)>::empty());
        res
    }

    /// Number of pages.
    pub fn len(&self) -> (res: usize)
        requires
            self.wf(),
        ensures
            res == self@.len(),
    {
        index_len(&self.index)
    }

    /// A directory holding the given pages, stored one after the other in
    /// the given order (a later page of the same name replaces the earlier).
    pub fn from_pages(list: Vec<(String, MdPage)>) -> (res: Self)
        ensures
            res.wf(),
            res@ == dir_contents(named_pages(list@)),
    {
        let ghost all = named_pages(list@);
        let mut list = list;
        let mut dir = MdDir::new();
        let ghost mut k: int = 0;
        while list.len() > 0
            invariant
                dir.wf(),
                0 <= k <= all.len(),
                named_pages(list@) == all.skip(k),
                dir@ == dir_contents(all.take(k)),
            decreases list.len(),
        {
            let ghost before = list@;
            assert(named_pages(before).len() == before.len());
            assert(named_pages(before)[0] == all[k]);
            let (name, page) = list.remove(0);
            proof {
                assert(list@ =~= before.subrange(1, before.len() as int));
                assert forall|i: int| 0 <= i < list@.len() implies named_pages(list@)[i] == all.skip(k + 1)[i] by {
                    assert(named_pages(before)[i + 1] == all.skip(k)[i + 1]);
                }
                assert(named_pages(list@) =~= all.skip(k + 1));
                assert(all.take(k + 1).drop_last() =~= all.take(k));
                assert(all[k] == (name@, page));
                k = k + 1;
            }
            dir.insert(name, page);
        }
        assert(all.take(k) =~= all);
        dir
    }

    /// Stores a page under a name, as `IndexMap::insert` does.
    pub fn insert(&mut self, name: String, page: MdPage)
        requires
            old(self).wf(),
        ensures
            final(self).wf(),
            final(self)@ == dir_insert(old(self)@, name@, page),
    {
        let ghost old_e = index_entries(self.index);
        let ghost old_view = self@;
        let ghost k = name@;
        match index_get(&self.index, name.as_str()) {
            Some(found) => {
                let at = found.0;
                let ghost i0 = choose|i: int| 0 <= i < old_e.len() && old_e[i] == (k, found)
                    && (forall|j: int| 0 <= j < i ==> old_e[j].0 != k);
                assert(at < self.pages.len());
                let slot = make_slot(at, &page);
                self.pages.set(at, page);
                index_insert(&mut self.index, name, slot);
                let ghost e = index_entries(self.index);
                assert(old_view[i0].0 == k);
                assert(e == old_e.update(i0, (k, slot))) by {
                    let i1 = choose|i: int| 0 <= i < old_e.len() && old_e[i].0 == k
                        && (forall|j: int| 0 <= j < i ==> old_e[j].0 != k)
                        && index_entries(self.index) == old_e.update(i, (k, slot));
                    assert(i1 == i0);
                }
                assert forall|i: int| 0 <= i < old_view.len() && old_view[i].0 == k implies i == i0 by {
                    if i != i0 {
                        assert(old_e[i].0 == old_e[i0].0);
                    }
                }
                assert(self@ =~= old_view.update(i0, (k, page)));
            },
            None => {
                let at = self.pages.len();
                let slot = make_slot(at, &page);
                self.pages.push(page);
                index_insert(&mut self.index, name, slot);
                assert forall|i: int| 0 <= i < old_view.len() implies old_view[i].0 != k by {
                    assert(old_e[i].0 != k);
                }
                assert(self@ =~= old_view.push((k, page)));
            },
        }
    }

    /// The page stored under a name.
    pub fn get(&self, name: &str) -> (res: Option<&MdPage>)
        requires
            self.wf(),
        ensures
            match res {
                Some(p) => exists|i: int| 0 <= i < self@.len() && self@[i] == (name@, *p),
                None => forall|i: int| 0 <= i < self@.len() ==> self@[i].0 != name@,
            },
    {
        match index_get(&self.index, name) {
            Some(found) => {
                let ghost e = index_entries(self.index);
                let ghost i0 = choose|i: int| 0 <= i < e.len() && e[i] == (name@, found)
                    && (forall|j: int| 0 <= j < i ==> e[j].0 != name@);
                assert(self@[i0] == (name@, self.pages[found.0 as int]));
                Some(&self.pages[found.0])
            },
            None => {
                assert forall|i: int| 0 <= i < self@.len() implies self@[i].0 != name@ by {
                    assert(index_entries(self.index)[i].0 != name@);
                }
                None
            },
        }
    }

    /// Sorts the pages newest first, keeping the order of pages published at
    /// the same instant (`IndexMap::sort_by` with [`MdPage::cmp`]).
    pub fn sort_newest_first(&mut self)
        requires
            old(self).wf(),
        ensures
            final(self).wf(),
            sorted_pages(old(self)@, final(self)@),
    {
        let ghost old_e = index_entries(self.index);
        let ghost old_view = self@;
        index_sort_newest_first(&mut self.index);
        let ghost e = index_entries(self.index);
        proof {
            let p = choose|p: Seq<int>| {
                &&& #[trigger] rearranges(old_e, e, p)
                &&& forall|i: int, j: int| 0 <= i < j < e.len() ==> !date_before(entry_date(e[i]), entry_date(e[j]))
                &&& forall|i: int, j: int| 0 <= i < j < e.len()
                    && same_date(entry_date(e[i]), entry_date(e[j])) ==> p[i] < p[j]
            };
            assert forall|i: int| 0 <= i < e.len() implies entry_date(#[trigger] e[i]) == self@[i].1.date() by {
                assert(e[i] == old_e[p[i]]);
            }
            assert forall|i: int, j: int| 0 <= i < j < e.len() implies e[i].0 != e[j].0 && e[i].1.0 != e[j].1.0 by {
                assert(e[i] == old_e[p[i]]);
                assert(e[j] == old_e[p[j]]);
                if p[i] < p[j] {
                } else {
                }
            }
            assert forall|i: int| 0 <= i < e.len() implies #[trigger] e[i].1.0 < self.pages.len()
                && e[i].1 == slot_of(e[i].1.0, self.pages[e[i].1.0 as int]) by {
                assert(e[i] == old_e[p[i]]);
            }
            assert(rearranges(old_view, self@, p)) by {
                assert forall|i: int| 0 <= i < p.len() implies self@[i] == old_view[#[trigger] p[i]] by {
                    assert(e[i] == old_e[p[i]]);
                }
            }
            assert forall|i: int, j: int| 0 <= i < j < self@.len() implies !date_before(self@[i].1.date(), self@[j].1.date()) by {
                assert(entry_date(e[i]) == self@[i].1.date());
                assert(entry_date(e[j]) == self@[j].1.date());
            }
            assert forall|i: int, j: int| 0 <= i < j < self@.len()
                && same_date(self@[i].1.date(), self@[j].1.date()) implies p[i] < p[j] by {
                assert(entry_date(e[i]) == self@[i].1.date());
                assert(entry_date(e[j]) == self@[j].1.date());
            }
        }
    }

    /// The name and page at a position of the directory's order.
    pub fn entry(&self, i: usize) -> (res: (String, &MdPage))
        requires
            self.wf(),
            i < self@.len(),
        ensures
            res.0@ == self@[i as int].0,
            *res.1 == self@[i as int].1,
    {
        let (name, slot) = index_entry(&self.index, i);
        (name, &self.pages[slot.0])
    }
}

/// One item found in the markdown folder: a page at the top level, or a
/// directory of pages.
pub enum ContentEntry {
    Page { name: String, page: MdPage },
    Dir { name: String, pages: Vec<(String, MdPage)> },
}

/// The top-level pages after storing the entries in turn.
pub open spec fn top_pages_of(entries: Seq<ContentEntry>) -> Map<Seq<char>, MdPage>
    decreases entries.len(),
{
    if entries.len() == 0 {
        Map::empty()
    } else {
        let m = top_pages_of(entries.drop_last());
        match entries.last() {
            ContentEntry::Page { name, page } => m.insert(name@, page),
            ContentEntry::Dir { .. } => m,
        }
    }
}

/// The directories, each with its pages in the order they were stored,
/// after storing the entries in turn.
pub open spec fn dirs_of(entries: Seq<ContentEntry>) -> Map<Seq<char>, Seq<(Seq<char>, MdPage)>>
    decreases entries.len(),
{
    if entries.len() == 0 {
        Map::empty()
    } else {
        let m = dirs_of(entries.drop_last());
        match entries.last() {
            ContentEntry::Page { .. } => m,
            ContentEntry::Dir { name, pages } => m.insert(name@, dir_contents(named_pages(pages@))),
        }
    }
}

/// Every date of every page in the entries is one chrono can represent.
pub open spec fn entries_valid(entries: Seq<ContentEntry>) -> bool {
    forall|i: int| 0 <= i < entries.len() ==> match #[trigger] entries[i] {
        ContentEntry::Page { page, .. } => page.frontmatter.valid(),
        ContentEntry::Dir { pages, .. } => forall|j: int| 0 <= j < pages@.len()
            ==> (#[trigger] pages@[j]).1.frontmatter.valid(),
    }
}

/// Every page of every directory has a valid frontmatter.
pub open spec fn dirs_valid(dirs: Map<Seq<char>, Seq<(Seq<char>, MdPage)>>) -> bool {
    forall|k: Seq<char>, i: int| dirs.contains_key(k) && 0 <= i < dirs[k].len()
        ==> (#[trigger] dirs[k][i]).1.frontmatter.valid()
}

/// The directories allow a newest publication date to be found: some
/// directory has a page, and every directory that has pages has a dated one.
pub open spec fn can_index(dirs: Map<Seq<char>, Seq<(Seq<char>, MdPage)>>) -> bool {
    &&& exists|k: Seq<char>| dirs.contains_key(k) && dirs[k].len() > 0
    &&& forall|k: Seq<char>| dirs.contains_key(k) && dirs[k].len() > 0
        ==> exists|i: int| 0 <= i < dirs[k].len() && (#[trigger] dirs[k][i]).1.date() is Some
}

/// Some page of the directory has that name.
pub open spec fn names_page(v: Seq<(Seq<char>, MdPage)>, name: Seq<char>) -> bool {
    exists|i: int| 0 <= i < v.len() && v[i].0 == name
}

/// The pages the site looks up as it starts: the top-level page `contact`,
/// and the directory `blog` with its pages `i-bought-a-thinkpad` and
/// `starship-velociraptor-an-amazing-album`.
pub open spec fn has_startup_pages(top: Map<Seq<char>, MdPage>, dirs: Map<Seq<char>, Seq<(Seq<char>, MdPage)>>) -> bool {
    &&& top.contains_key("contact"@)
    &&& dirs.contains_key("blog"@)
    &&& names_page(dirs["blog"@], "i-bought-a-thinkpad"@)
    &&& names_page(dirs["blog"@], "starship-velociraptor-an-amazing-album"@)
}

/// `t` is the newest publication date of all pages in the directories: no
/// page was published after it, and some page was published at it.
pub open spec fn is_latest(dirs: Map<Seq<char>, Seq<(Seq<char>, MdPage)>>, t: UtcTimestamp) -> bool {
    &&& forall|k: Seq<char>, i: int| dirs.contains_key(k) && 0 <= i < dirs[k].len()
        && (#[trigger] dirs[k][i]).1.date() is Some ==> !t.before(dirs[k][i].1.date()->0)
    &&& exists|k: Seq<char>, i: int| dirs.contains_key(k) && 0 <= i < dirs[k].len()
        && (#[trigger] dirs[k][i]).1.date() == Some(t)
}

/// Pages are listed newest first.
pub open spec fn newest_first(v: Seq<(Seq<char>, MdPage)>) -> bool {
    forall|i: int, j: int| 0 <= i < j < v.len() ==> !date_before(v[i].1.date(), v[j].1.date())
}

proof fn lemma_dir_insert_valid(v: Seq<(Seq<char>, MdPage)>, name: Seq<char>, page: MdPage)
    requires
        forall|i: int| 0 <= i < v.len() ==> (#[trigger] v[i]).1.frontmatter.valid(),
        page.frontmatter.valid(),
    ensures
        forall|i: int| 0 <= i < dir_insert(v, name, page).len()
            ==> (#[trigger] dir_insert(v, name, page)[i]).1.frontmatter.valid(),
{
}

proof fn lemma_dir_contents_valid(list: Seq<(Seq<char>, MdPage)>)
    requires
        forall|i: int| 0 <= i < list.len() ==> (#[trigger] list[i]).1.frontmatter.valid(),
    ensures
        forall|i: int| 0 <= i < dir_contents(list).len() ==> (#[trigger] dir_contents(list)[i]).1.frontmatter.valid(),
    decreases list.len(),
{
    if list.len() > 0 {
        lemma_dir_contents_valid(list.drop_last());
        lemma_dir_insert_valid(dir_contents(list.drop_last()), list.last().0, list.last().1);
    }
}

/// The pages of a sorted arrangement are those it rearranges: a page is
/// dated in one exactly when some page is dated in the other, and all stay
/// valid.
proof fn lemma_sorted_keeps(from: Seq<(Seq<char>, MdPage)>, to: Seq<(Seq<char>, MdPage)>)
    requires
        sorted_pages(from, to),
    ensures
        to.len() == from.len(),
        newest_first(to),
        (exists|i: int| 0 <= i < from.len() && (#[trigger] from[i]).1.date() is Some)
            <==> (exists|i: int| 0 <= i < to.len() && (#[trigger] to[i]).1.date() is Some),
        (forall|i: int| 0 <= i < from.len() ==> (#[trigger] from[i]).1.frontmatter.valid())
            ==> (forall|i: int| 0 <= i < to.len() ==> (#[trigger] to[i]).1.frontmatter.valid()),
{
    let p = choose|p: Seq<int>| {
        &&& #[trigger] rearranges(from, to, p)
        &&& forall|i: int, j: int| 0 <= i < j < to.len() ==> !date_before(to[i].1.date(), to[j].1.date())
        &&& forall|i: int, j: int| 0 <= i < j < to.len()
            && same_date(to[i].1.date(), to[j].1.date()) ==> p[i] < p[j]
    };
    if exists|i: int| 0 <= i < to.len() && (#[trigger] to[i]).1.date() is Some {
        let i = choose|i: int| 0 <= i < to.len() && (#[trigger] to[i]).1.date() is Some;
        assert(from[p[i]] == to[i]);
    }
    if exists|i: int| 0 <= i < from.len() && (#[trigger] from[i]).1.date() is Some {
        let i = choose|i: int| 0 <= i < from.len() && (#[trigger] from[i]).1.date() is Some;
        // p is onto: an injective map of n places into n places
        lemma_injective_onto(p, from.len() as int, i);
        let j = choose|j: int| 0 <= j < p.len() && p[j] == i;
        assert(to[j] == from[i]);
    }
    if forall|i: int| 0 <= i < from.len() ==> (#[trigger] from[i]).1.frontmatter.valid() {
        assert forall|i: int| 0 <= i < to.len() implies (#[trigger] to[i]).1.frontmatter.valid() by {
            assert(to[i] == from[p[i]]);
        }
    }
}

/// A sorted arrangement holds the same names as the pages it rearranges.
proof fn lemma_sorted_keeps_names(from: Seq<(Seq<char>, MdPage)>, to: Seq<(Seq<char>, MdPage)>, name: Seq<char>)
    requires
        sorted_pages(from, to),
    ensures
        names_page(from, name) <==> names_page(to, name),
{
    let p = choose|p: Seq<int>| {
        &&& #[trigger] rearranges(from, to, p)
        &&& forall|i: int, j: int| 0 <= i < j < to.len() ==> !date_before(to[i].1.date(), to[j].1.date())
        &&& forall|i: int, j: int| 0 <= i < j < to.len()
            && same_date(to[i].1.date(), to[j].1.date()) ==> p[i] < p[j]
    };
    if names_page(to, name) {
        let i = choose|i: int| 0 <= i < to.len() && to[i].0 == name;
        assert(from[p[i]] == to[i]);
    }
    if names_page(from, name) {
        let i = choose|i: int| 0 <= i < from.len() && from[i].0 == name;
        lemma_injective_onto(p, from.len() as int, i);
        let j = choose|j: int| 0 <= j < p.len() && p[j] == i;
        assert(to[j] == from[i]);
    }
}

/// A directory holding only undated pages leaves no newest date.
proof fn lemma_undated_dir_blocks_index(dirs: Map<Seq<char>, Seq<(Seq<char>, MdPage)>>, key: Seq<char>, arranged: Seq<(Seq<char>, MdPage)>)
    requires
        dirs.contains_key(key),
        sorted_pages(dirs[key], arranged),
        arranged.len() > 0,
        forall|x: int| 0 <= x < arranged.len() ==> (#[trigger] arranged[x]).1.date() is None,
    ensures
        !can_index(dirs),
{
    lemma_sorted_keeps(dirs[key], arranged);
    if can_index(dirs) {
        let x = choose|x: int| 0 <= x < dirs[key].len() && (#[trigger] dirs[key][x]).1.date() is Some;
        assert(exists|i: int| 0 <= i < dirs[key].len() && (#[trigger] dirs[key][i]).1.date() is Some);
    }
}

/// An injective sequence of `n` places inside `0..n` reaches every place.
proof fn lemma_injective_onto(p: Seq<int>, n: int, target: int)
    requires
        p.len() == n,
        0 <= target < n,
        forall|i: int| 0 <= i < p.len() ==> 0 <= #[trigger] p[i] < n,
        forall|i: int, j: int| 0 <= i < j < p.len() ==> p[i] != p[j],
    ensures
        exists|j: int| 0 <= j < p.len() && p[j] == target,
    decreases n,
{
    if !(exists|j: int| 0 <= j < p.len() && p[j] == target) {
        // Map every value above `target` one down: n - 1 distinct values below n - 1.
        let q = p.map_values(|x: int| if x > target { x - 1 } else { x });
        assert forall|i: int, j: int| 0 <= i < j < q.len() implies q[i] != q[j] by {
            assert(p[i] != target && p[j] != target);
        }
        if n > 1 {
            let last = q.len() - 1;
            let inner = q.drop_last();
            if exists|j: int| 0 <= j < inner.len() && inner[j] == q[last] {
                let j = choose|j: int| 0 <= j < inner.len() && inner[j] == q[last];
                assert(q[j] == q[last]);
            } else {
                assert forall|i: int| 0 <= i < inner.len() implies 0 <= #[trigger] inner[i] < n - 1 by {
                    assert(p[i] != target);
                }
                if 0 <= q[last] < n - 1 {
                    lemma_injective_onto(inner, n - 1, q[last]);
                }
                assert(p[last] != target);
            }
        } else {
            assert(p[0] != target);
        }
    }
}

/// The pages of the site: top-level pages by name, directories of pages by
/// name, and the newest publication date among the directories' pages.
pub struct MdRoot {
    sub_dirs: StringHashMap<MdDir>,
    dir_names: Vec<String>,
    pages: StringHashMap<MdPage>,
    latest_date: UtcTimestamp,
}

impl MdRoot {
    /// The directories by name, each with its pages in listing order.
    pub closed spec fn dirs(self) -> Map<Seq<char>, Seq<(Seq<char>, MdPage)>> {
        Map::new(|k: Seq<char>| self.sub_dirs@.contains_key(k), |k: Seq<char>| self.sub_dirs@[k]@)
    }

    /// The top-level pages by name.
    pub closed spec fn top_pages(self) -> Map<Seq<char>, MdPage> {
        self.pages@
    }

    /// The newest publication date among the directories' pages.
    pub closed spec fn latest(self) -> UtcTimestamp {
        self.latest_date
    }

    /// The names of the directories, in the order in which they were found.
    pub closed spec fn dir_order(self) -> Seq<Seq<char>> {
        self.dir_names@.map_values(|s: String| s@)
    }

    /// The root's parts agree: every directory is well formed and listed
    /// newest first, its name listed once, and the latest date is the newest
    /// publication date.
    pub closed spec fn wf(self) -> bool {
        &&& forall|k: Seq<char>| self.sub_dirs@.contains_key(k) ==> (#[trigger] self.sub_dirs@[k]).wf()
        &&& forall|k: Seq<char>| self.sub_dirs@.contains_key(k) ==> newest_first(#[trigger] self.sub_dirs@[k]@)
        &&& forall|i: int, j: int| 0 <= i < j < self.dir_names@.len() ==> self.dir_names@[i]@ != self.dir_names@[j]@
        &&& forall|k: Seq<char>| self.sub_dirs@.contains_key(k) <==>
            exists|i: int| 0 <= i < self.dir_names@.len() && (#[trigger] self.dir_names@[i])@ == k
        &&& dirs_valid(self.dirs())
        &&& forall|k: Seq<char>| self.pages@.contains_key(k) ==> (#[trigger] self.pages@[k]).frontmatter.valid()
        &&& is_latest(self.dirs(), self.latest_date)
        &&& self.latest_date.valid()
    }

    /// Indexes the entries found in the markdown folder: top-level pages by
    /// name, directories by name with their pages sorted newest first, and
    /// the newest publication date of the directories' pages. A later entry
    /// of the same name replaces an earlier one. `None` when a page the site
    /// looks up as it starts is missing, or when no newest date exists: no
    /// directory holds a page, or one holds only undated pages.
    pub fn new(entries: Vec<ContentEntry>) -> (res: Option<MdRoot>)
        requires
            entries_valid(entries@),
        ensures
            res is Some <==> can_index(dirs_of(entries@)) && has_startup_pages(top_pages_of(entries@), dirs_of(entries@)),
            res matches Some(root) ==> {
                &&& root.wf()
                &&& root.top_pages() == top_pages_of(entries@)
                &&& root.dirs().dom() == dirs_of(entries@).dom()
                &&& forall|k: Seq<char>| #[trigger] dirs_of(entries@).contains_key(k)
                    ==> sorted_pages(dirs_of(entries@)[k], root.dirs()[k])
            },
    {
        let ghost all = entries@;
        let mut todo = entries;
        let mut sub_dirs: StringHashMap<MdDir> = StringHashMap::new();
        let mut dir_names: Vec<String> = Vec::new();
        let mut pages: StringHashMap<MdPage> = StringHashMap::new();
        let ghost mut k: int = 0;
        while todo.len() > 0
            invariant
                0 <= k <= all.len(),
                entries_valid(all),
                todo@ == all.skip(k),
                pages@ == top_pages_of(all.take(k)),
                forall|key: Seq<char>| pages@.contains_key(key) ==> (#[trigger] pages@[key]).frontmatter.valid(),
                sub_dirs@.dom() == dirs_of(all.take(k)).dom(),
                forall|key: Seq<char>| sub_dirs@.contains_key(key) ==> (#[trigger] sub_dirs@[key]).wf(),
                forall|key: Seq<char>| #[trigger] sub_dirs@.contains_key(key)
                    ==> sorted_pages(dirs_of(all.take(k))[key], sub_dirs@[key]@),
                forall|key: Seq<char>, i: int| sub_dirs@.contains_key(key) && 0 <= i < sub_dirs@[key]@.len()
                    ==> (#[trigger] sub_dirs@[key]@[i]).1.frontmatter.valid(),
                forall|i: int, j: int| 0 <= i < j < dir_names@.len() ==> dir_names@[i]@ != dir_names@[j]@,
                forall|key: Seq<char>| sub_dirs@.contains_key(key) <==>
                    exists|i: int| 0 <= i < dir_names@.len() && (#[trigger] dir_names@[i])@ == key,
            decreases todo.len(),
        {
            let ghost before = todo@;
            assert(before[0] == all[k]);
            let entry = todo.remove(0);
            proof {
                assert(todo@ =~= all.skip(k + 1));
                assert(all.take(k + 1).drop_last() =~= all.take(k));
                assert(all.take(k + 1).last() == entry);
            }
            match entry {
                ContentEntry::Page { name, page } => {
                    assert(match all[k] {
                        ContentEntry::Page { page, .. } => page.frontmatter.valid(),
                        ContentEntry::Dir { pages, .. } => forall|j: int| 0 <= j < pages@.len()
                            ==> (#[trigger] pages@[j]).1.frontmatter.valid(),
                    });
                    pages.insert(name, page);
                },
                ContentEntry::Dir { name, pages: list } => {
                    proof {
                        assert(entries_valid(all));
                        assert(match all[k] {
                            ContentEntry::Page { page, .. } => page.frontmatter.valid(),
                            ContentEntry::Dir { pages, .. } => forall|j: int| 0 <= j < pages@.len()
                                ==> (#[trigger] pages@[j]).1.frontmatter.valid(),
                        });
                        assert forall|j: int| 0 <= j < named_pages(list@).len()
                            implies (#[trigger] named_pages(list@)[j]).1.frontmatter.valid() by {
                            assert(list@[j].1.frontmatter.valid());
                        }
                        lemma_dir_contents_valid(named_pages(list@));
                    }
                    let ghost contents = dir_contents(named_pages(list@));
                    let mut dir = MdDir::from_pages(list);
                    dir.sort_newest_first();
                    proof {
                        lemma_sorted_keeps(contents, dir@);
                    }
                    let ghost key = name@;
                    if !sub_dirs.contains_key(name.as_str()) {
                        let ghost old_names = dir_names@;
                        dir_names.push(name.clone());
                        proof {
                            assert(dir_names@[old_names.len() as int]@ == key);
                            assert forall|kk: Seq<char>| (sub_dirs@.contains_key(kk) || kk == key) <==>
                                exists|i: int| 0 <= i < dir_names@.len() && (#[trigger] dir_names@[i])@ == kk by {
                                if sub_dirs@.contains_key(kk) {
                                    let i = choose|i: int| 0 <= i < old_names.len() && (#[trigger] old_names[i])@ == kk;
                                    assert(dir_names@[i] == old_names[i]);
                                }
                                if exists|i: int| 0 <= i < dir_names@.len() && (#[trigger] dir_names@[i])@ == kk {
                                    let i = choose|i: int| 0 <= i < dir_names@.len() && (#[trigger] dir_names@[i])@ == kk;
                                    if i < old_names.len() {
                                        assert(old_names[i] == dir_names@[i]);
                                    }
                                }
                            }
                            assert forall|i: int, j: int| 0 <= i < j < dir_names@.len()
                                implies dir_names@[i]@ != dir_names@[j]@ by {
                                if j == old_names.len() {
                                    assert(old_names[i] == dir_names@[i]);
                                    if old_names[i]@ == key {
                                        assert(sub_dirs@.contains_key(key));
                                    }
                                } else {
                                    assert(old_names[i] == dir_names@[i]);
                                    assert(old_names[j] == dir_names@[j]);
                                }
                            }
                        }
                    }
                    sub_dirs.insert(name, dir);
                },
            }
            proof {
                k = k + 1;
            }
        }
        assert(all.take(k) =~= all);
        assert(k == all.len());
        proof {
            assert forall|key: Seq<char>| #[trigger] sub_dirs@.contains_key(key) implies newest_first(sub_dirs@[key]@) by {
                lemma_sorted_keeps(dirs_of(all)[key], sub_dirs@[key]@);
            }
        }
        let ghost dirs = dirs_of(all);
        let has_contact = pages.contains_key("contact");
        let has_blog_pages = match sub_dirs.get("blog") {
            Some(blog) => blog.get("i-bought-a-thinkpad").is_some()
                && blog.get("starship-velociraptor-an-amazing-album").is_some(),
            None => false,
        };
        proof {
            if sub_dirs@.contains_key("blog"@) {
                lemma_sorted_keeps_names(dirs["blog"@], sub_dirs@["blog"@]@, "i-bought-a-thinkpad"@);
                lemma_sorted_keeps_names(dirs["blog"@], sub_dirs@["blog"@]@, "starship-velociraptor-an-amazing-album"@);
            }
        }
        if !has_contact || !has_blog_pages {
            return None;
        }
        assert(has_startup_pages(top_pages_of(all), dirs));
        let ghost view_dirs = Map::new(|kk: Seq<char>| sub_dirs@.contains_key(kk), |kk: Seq<char>| sub_dirs@[kk]@);

        // The newest of the first (newest) dates of the non-empty directories.
        let mut best: Option<UtcTimestamp> = None;
        let mut i: usize = 0;
        while i < dir_names.len()
            invariant
                i <= dir_names@.len(),
                dirs == dirs_of(all),
                all == entries@,
                has_startup_pages(top_pages_of(all), dirs),
                sub_dirs@.dom() == dirs.dom(),
                forall|key: Seq<char>| #[trigger] sub_dirs@.contains_key(key)
                    ==> sorted_pages(dirs[key], sub_dirs@[key]@),
                forall|key: Seq<char>| sub_dirs@.contains_key(key) ==> (#[trigger] sub_dirs@[key]).wf(),
                forall|key: Seq<char>| #[trigger] sub_dirs@.contains_key(key) ==> newest_first(sub_dirs@[key]@),
                forall|key: Seq<char>, j: int| sub_dirs@.contains_key(key) && 0 <= j < sub_dirs@[key]@.len()
                    ==> (#[trigger] sub_dirs@[key]@[j]).1.frontmatter.valid(),
                forall|key: Seq<char>| sub_dirs@.contains_key(key) <==>
                    exists|j: int| 0 <= j < dir_names@.len() && (#[trigger] dir_names@[j])@ == key,
                forall|j: int| 0 <= j < i ==> sub_dirs@.contains_key(#[trigger] dir_names@[j]@)
                    && (sub_dirs@[dir_names@[j]@]@.len() > 0 ==> sub_dirs@[dir_names@[j]@]@[0].1.date() is Some),
                best is None ==> forall|j: int| 0 <= j < i ==> sub_dirs@[#[trigger] dir_names@[j]@]@.len() == 0,
                best matches Some(b) ==> {
                    &&& b.valid()
                    &&& forall|j: int, x: int| 0 <= j < i && 0 <= x < sub_dirs@[dir_names@[j]@]@.len()
                        && (#[trigger] sub_dirs@[#[trigger] dir_names@[j]@]@[x]).1.date() is Some
                        ==> !b.before(sub_dirs@[dir_names@[j]@]@[x].1.date()->0)
                    &&& exists|key: Seq<char>, x: int| sub_dirs@.contains_key(key) && 0 <= x < sub_dirs@[key]@.len()
                        && (#[trigger] sub_dirs@[key]@[x]).1.date() == Some(b)
                },
            decreases dir_names@.len() - i,
        {
            let ghost key = dir_names@[i as int]@;
            assert(sub_dirs@.contains_key(key));
            match sub_dirs.get(dir_names[i].as_str()) {
                Some(dir) => {
                    assert(dir == sub_dirs@[key]);
                    if dir.len() > 0 {
                        let (_, first) = dir.entry(0);
                        match first.frontmatter.date_published {
                            None => {
                                proof {
                                    // every page of this directory is undated
                                    assert forall|x: int| 0 <= x < dir@.len() implies (#[trigger] dir@[x]).1.date() is None by {
                                        if x > 0 {
                                            assert(!date_before(dir@[0].1.date(), dir@[x].1.date()));
                                        }
                                    }
                                    lemma_undated_dir_blocks_index(dirs, key, sub_dirs@[key]@);
                                }
                                return None;
                            },
                            Some(t) => {
                                proof {
                                    assert(dir@[0].1.frontmatter.valid());
                                    assert forall|x: int| 0 <= x < dir@.len() && (#[trigger] dir@[x]).1.date() is Some
                                        implies !t.before(dir@[x].1.date()->0) by {
                                        if x > 0 {
                                            assert(!date_before(dir@[0].1.date(), dir@[x].1.date()));
                                        }
                                    }
                                }
                                let replace = match best {
                                    None => true,
                                    Some(b) => b.is_before(&t),
                                };
                                if replace {
                                    best = Some(t);
                                }
                            },
                        }
                    }
                },
                None => {},
            }
            i = i + 1;
        }
        match best {
            None => {
                proof {
                    assert forall|kk: Seq<char>| dirs.contains_key(kk) implies dirs[kk].len() == 0 by {
                        assert(sub_dirs@.contains_key(kk));
                        let j = choose|j: int| 0 <= j < dir_names@.len() && (#[trigger] dir_names@[j])@ == kk;
                        lemma_sorted_keeps(dirs[kk], sub_dirs@[kk]@);
                    }
                }
                None
            },
            Some(b) => {
                let root = MdRoot { sub_dirs, dir_names, pages, latest_date: b };
                proof {
                    assert(root.dirs() =~= view_dirs);
                    assert forall|kk: Seq<char>| dirs.contains_key(kk) && dirs[kk].len() > 0 implies
                        exists|x: int| 0 <= x < dirs[kk].len() && (#[trigger] dirs[kk][x]).1.date() is Some by {
                        let j = choose|j: int| 0 <= j < root.dir_names@.len() && (#[trigger] root.dir_names@[j])@ == kk;
                        lemma_sorted_keeps(dirs[kk], root.sub_dirs@[kk]@);
                        assert(root.sub_dirs@[kk]@[0].1.date() is Some);
                    }
                    let key = choose|key: Seq<char>, x: int| root.sub_dirs@.contains_key(key) && 0 <= x < root.sub_dirs@[key]@.len()
                        && (#[trigger] root.sub_dirs@[key]@[x]).1.date() == Some(b);
                    lemma_sorted_keeps(dirs[key.0], root.sub_dirs@[key.0]@);
                    assert(dirs[key.0].len() > 0);
                    assert forall|kk: Seq<char>, x: int| root.dirs().contains_key(kk) && 0 <= x < root.dirs()[kk].len()
                        && (#[trigger] root.dirs()[kk][x]).1.date() is Some implies !b.before(root.dirs()[kk][x].1.date()->0) by {
                        let j = choose|j: int| 0 <= j < root.dir_names@.len() && (#[trigger] root.dir_names@[j])@ == kk;
                        assert(root.sub_dirs@[root.dir_names@[j]@]@[x] == root.dirs()[kk][x]);
                    }
                    assert(root.dirs()[key.0][key.1] == root.sub_dirs@[key.0]@[key.1]);
                }
                Some(root)
            },
        }
    }
}

/// Where a top-level address leads.
pub enum TopLevelRoute<'a> {
    /// The address names a directory: show the list of its pages.
    DirectoryListing,
    /// The address names a top-level page.
    Page(&'a MdPage),
    /// Nothing has that name.
    Missing,
}

impl MdRoot {
    /// The newest publication date among the directories' pages.
    pub fn latest_date(&self) -> (res: UtcTimestamp)
        requires
            self.wf(),
        ensures
            res == self.latest(),
            res.valid(),
    {
        self.latest_date
    }

    /// The top-level page of that name.
    pub fn page(&self, name: &str) -> (res: Option<&MdPage>)
        requires
            self.wf(),
        ensures
            match res {
                Some(p) => self.top_pages().contains_key(name@) && *p == self.top_pages()[name@]
                    && p.frontmatter.valid(),
                None => !self.top_pages().contains_key(name@),
            },
    {
        self.pages.get(name)
    }

    /// The directory of that name.
    pub fn dir(&self, name: &str) -> (res: Option<&MdDir>)
        requires
            self.wf(),
        ensures
            match res {
                Some(d) => self.dirs().contains_key(name@) && d@ == self.dirs()[name@] && d.wf(),
                None => !self.dirs().contains_key(name@),
            },
    {
        self.sub_dirs.get(name)
    }

    /// Whether a directory of that name exists.
    pub fn has_dir(&self, name: &str) -> (res: bool)
        ensures
            res == self.dirs().contains_key(name@),
    {
        self.sub_dirs.contains_key(name)
    }

    /// Number of directories.
    pub fn dir_count(&self) -> (res: usize)
        ensures
            res == self.dir_order().len(),
    {
        self.dir_names.len()
    }

    /// The name of the `i`th directory, in the order they were found.
    pub fn dir_name(&self, i: usize) -> (res: &String)
        requires
            i < self.dir_order().len(),
        ensures
            res@ == self.dir_order()[i as int],
    {
        &self.dir_names[i]
    }

    /// Where a top-level address leads: a directory's list when a directory
    /// has that name, else the top-level page of that name.
    pub fn route_top_level(&self, name: &str) -> (res: TopLevelRoute)
        requires
            self.wf(),
        ensures
            self.dirs().contains_key(name@) ==> res is DirectoryListing,
            !self.dirs().contains_key(name@) ==> match res {
                TopLevelRoute::Page(p) => self.top_pages().contains_key(name@) && *p == self.top_pages()[name@]
                    && p.frontmatter.valid(),
                TopLevelRoute::Missing => !self.top_pages().contains_key(name@),
                TopLevelRoute::DirectoryListing => false,
            },
    {
        if self.has_dir(name) {
            TopLevelRoute::DirectoryListing
        } else {
            match self.page(name) {
                Some(p) => TopLevelRoute::Page(p),
                None => TopLevelRoute::Missing,
            }
        }
    }

    /// The page `page` of the directory `dir`.
    pub fn sub_page(&self, dir: &str, page: &str) -> (res: Option<&MdPage>)
        requires
            self.wf(),
        ensures
            match res {
                Some(p) => self.dirs().contains_key(dir@) && p.frontmatter.valid()
                    && exists|i: int| 0 <= i < self.dirs()[dir@].len() && self.dirs()[dir@][i] == (page@, *p),
                None => !self.dirs().contains_key(dir@)
                    || forall|i: int| 0 <= i < self.dirs()[dir@].len() ==> self.dirs()[dir@][i].0 != page@,
            },
    {
        match self.dir(dir) {
            Some(d) => d.get(page),
            None => None,
        }
    }
}

/// The site's latest date is the newest publication date of all the
/// directories' pages: no page in any directory was published after it, and
/// some page was published at it.
pub proof fn latest_is_newest(root: MdRoot)
    requires
        root.wf(),
    ensures
        is_latest(root.dirs(), root.latest()),
{
}

/// Every listed directory name names a directory, each only once.
pub proof fn dir_order_names_dirs(root: MdRoot)
    requires
        root.wf(),
    ensures
        forall|i: int| 0 <= i < root.dir_order().len() ==> root.dirs().contains_key(#[trigger] root.dir_order()[i]),
        forall|i: int, j: int| 0 <= i < j < root.dir_order().len() ==> root.dir_order()[i] != root.dir_order()[j],
        forall|k: Seq<char>| root.dirs().contains_key(k) ==> root.dir_order().contains(k),
{
    assert forall|i: int| 0 <= i < root.dir_order().len() implies root.dirs().contains_key(#[trigger] root.dir_order()[i]) by {
        assert(root.dir_order()[i] == root.dir_names@[i]@);
    }
    assert forall|k: Seq<char>| root.dirs().contains_key(k) implies root.dir_order().contains(k) by {
        let i = choose|i: int| 0 <= i < root.dir_names@.len() && (#[trigger] root.dir_names@[i])@ == k;
        assert(root.dir_order()[i] == k);
    }
}

/// Every page of every directory of the site has a valid frontmatter.
pub proof fn dirs_are_valid(root: MdRoot, name: Seq<char>)
    requires
        root.wf(),
        root.dirs().contains_key(name),
    ensures
        forall|i: int| 0 <= i < root.dirs()[name].len() ==> (#[trigger] root.dirs()[name][i]).1.frontmatter.valid(),
{
}

/// Every directory of the site lists its pages newest first.
pub proof fn dirs_are_newest_first(root: MdRoot, name: Seq<char>)
    requires
        root.wf(),
        root.dirs().contains_key(name),
    ensures
        newest_first(root.dirs()[name]),
{
}

} // verus!
