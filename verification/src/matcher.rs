//! Matching a window against a rule, and the registry of the placeholders
//! that still wait for their window.

use vstd::prelude::*;
use vstd::utf8::encode_utf8_decode_utf8;
use vstd::string::StringSliceAdditionalSpecFns;
use crate::node::{matchers_view, text, Matcher, MatcherView, Window, WindowView};
use crate::position::{first_index, lemma_first_index, lemma_first_index_is, lemma_first_index_none};

verus! {

/// One field of a matcher against the same field of a window: an absent field
/// accepts anything, a present one only a window that has the field with the
/// same text.
pub open spec fn field_accepts(want: Option<Seq<char>>, have: Option<Seq<char>>) -> bool {
    match want {
        None => true,
        Some(t) => have == Some(t),
    }
}

impl MatcherView {
    /// A matcher accepts a window when each of its four fields does.
    pub open spec fn matches(self, w: WindowView) -> bool {
        &&& field_accepts(self.app_id, w.app_id)
        &&& field_accepts(self.name, w.name)
        &&& field_accepts(self.class, w.class)
        &&& field_accepts(self.instance, w.instance)
    }

    /// The matcher without any field: a wildcard.
    pub open spec fn empty() -> MatcherView {
        MatcherView { app_id: None, class: None, instance: None, name: None }
    }
}

/// Some matcher of the list accepts the window.
pub open spec fn any_matches(ms: Seq<MatcherView>, w: WindowView) -> bool {
    exists|k: int| 0 <= k < ms.len() && #[trigger] ms[k].matches(w)
}

impl Matcher {
    /// Whether this matcher accepts the window.
    pub fn matches(&self, window: &Window) -> (r: bool)
        ensures
            r == self@.matches(window@),
    {
        Self::field_matches(&self.app_id, &window.app_id)
            && Self::field_matches(&self.name, &window.name)
            && Self::field_matches(&self.class, &window.class)
            && Self::field_matches(&self.instance, &window.instance)
    }

    fn field_matches(want: &Option<String>, have: &Option<String>) -> (r: bool)
        ensures
            r == field_accepts(text(*want), text(*have)),
    {
        match want {
            None => true,
            Some(w) => match have {
                Some(h) => Self::match_inner(w.as_str(), h.as_str()),
                None => false,
            },
        }
    }

    /// Whether two texts are the same, character for character.
    pub fn match_inner(matcher: &str, target: &str) -> (r: bool)
        ensures
            r == (matcher@ == target@),
    {
        let a = matcher.as_bytes();
        let b = target.as_bytes();
        proof {
            encode_utf8_decode_utf8(matcher@);
            encode_utf8_decode_utf8(target@);
        }
        if a.len() != b.len() {
            return false;
        }
        let mut i: usize = 0;
        while i < a.len()
            invariant
                i <= a.len(),
                a.len() == b.len(),
                a@ == matcher.spec_bytes(),
                b@ == target.spec_bytes(),
                forall|j: int| 0 <= j < i ==> a@[j] == b@[j],
            decreases a.len() - i,
        {
            if a[i] != b[i] {
                return false;
            }
            i += 1;
        }
        assert(a@ =~= b@);
        true
    }
}

/// Whether any of the matchers accepts the window.
pub fn any_match(matchers: &Vec<Matcher>, window: &Window) -> (r: bool)
    ensures
        r == any_matches(matchers_view(matchers@), window@),
{
    let mut k: usize = 0;
    while k < matchers.len()
        invariant
            k <= matchers.len(),
            forall|j: int|
                0 <= j < k ==> !(#[trigger] matchers_view(matchers@)[j]).matches(window@),
        decreases matchers.len() - k,
    {
        if matchers[k].matches(window) {
            assert(matchers_view(matchers@)[k as int].matches(window@));
            return true;
        }
        k += 1;
    }
    false
}

/// One placeholder that waits for its window, and the matchers that say which
/// window that is.
pub struct EntryView {
    pub id: int,
    pub matchers: Seq<MatcherView>,
}

impl EntryView {
    /// The placeholder may be filled by the window.
    pub open spec fn accepts(self, w: WindowView) -> bool {
        any_matches(self.matchers, w)
    }
}

/// The first entry that accepts the window, by its index.
pub open spec fn first_accepting(entries: Seq<EntryView>, w: WindowView) -> Option<int> {
    first_index(entries, |e: EntryView| e.accepts(w))
}

/// The first entry with the given id, by its index.
pub open spec fn first_with_id(entries: Seq<EntryView>, id: int) -> Option<int> {
    first_index(entries, |e: EntryView| e.id == id)
}

/// What `consume` returns and leaves behind: the id of the first entry that
/// accepts the window, and the entries without it.
pub open spec fn consumed(entries: Seq<EntryView>, w: WindowView) -> (Option<int>, Seq<EntryView>) {
    match first_accepting(entries, w) {
        Some(i) => (Some(entries[i].id), entries.remove(i)),
        None => (None, entries),
    }
}

/// What `remove` returns and leaves behind: whether an entry had the id, and
/// the entries without the first that had.
pub open spec fn removed(entries: Seq<EntryView>, id: int) -> (bool, Seq<EntryView>) {
    match first_with_id(entries, id) {
        Some(i) => (true, entries.remove(i)),
        None => (false, entries),
    }
}

/// The view of an optional container id.
pub open spec fn id_view(id: Option<i64>) -> Option<int> {
    match id {
        Some(i) => Some(i as int),
        None => None,
    }
}

/// The placeholders that still wait for a window, oldest first.
pub struct Matchers {
    data: Vec<(i64, Vec<Matcher>)>,
}

impl View for Matchers {
    type V = Seq<EntryView>;

    closed spec fn view(&self) -> Seq<EntryView> {
        self.data@.map_values(
            |e: (i64, Vec<Matcher>)| EntryView { id: e.0 as int, matchers: matchers_view(e.1@) },
        )
    }
}

impl Matchers {
    /// A registry without entries.
    pub fn new() -> (r: Self)
        ensures
            r@ == Seq::<EntryView>::empty(),
    {
        Self { data: Vec::new() }
    }

    /// The index of the first entry that accepts the window.
    pub fn matches(&self, window: &Window) -> (r: Option<usize>)
        ensures
            match r {
                Some(i) => first_accepting(self@, window@) == Some(i as int),
                None => first_accepting(self@, window@) is None,
            },
    {
        let mut i: usize = 0;
        while i < self.data.len()
            invariant
                i <= self.data.len(),
                self@.len() == self.data.len(),
                forall|j: int| 0 <= j < i ==> !self@[j].accepts(window@),
            decreases self.data.len() - i,
        {
            if any_match(&self.data[i].1, window) {
                proof {
                    assert(self@[i as int].accepts(window@));
                    lemma_first_index_is(self@, |e: EntryView| e.accepts(window@), i as int);
                }
                return Some(i);
            }
            i += 1;
        }
        proof {
            lemma_first_index_none(self@, |e: EntryView| e.accepts(window@));
        }
        None
    }

    /// Hands out the first entry that accepts the window: returns its id and
    /// takes it off the registry. Where no entry accepts the window, returns
    /// nothing and leaves the registry as it is.
    pub fn consume(&mut self, window: &Window) -> (r: Option<i64>)
        ensures
            (id_view(r), final(self)@) == consumed(old(self)@, window@),
    {
        match self.matches(window) {
            Some(idx) => {
                proof {
                    lemma_first_index(self@, |e: EntryView| e.accepts(window@));
                }
                let (id, _) = self.data.remove(idx);
                assert(self@ =~= old(self)@.remove(idx as int));
                Some(id)
            },
            None => None,
        }
    }

    /// Cancels the first entry with the given id. Says whether there was one.
    pub fn remove(&mut self, id: i64) -> (r: bool)
        ensures
            (r, final(self)@) == removed(old(self)@, id as int),
    {
        let mut i: usize = 0;
        while i < self.data.len()
            invariant
                i <= self.data.len(),
                *self == *old(self),
                self@.len() == self.data.len(),
                forall|j: int| 0 <= j < i ==> self@[j].id != id,
            decreases self.data.len() - i,
        {
            if self.data[i].0 == id {
                proof {
                    assert(self@[i as int].id == id);
                    lemma_first_index_is(self@, |e: EntryView| e.id == id as int, i as int);
                }
                self.data.remove(i);
                assert(self@ =~= old(self)@.remove(i as int));
                return true;
            }
            i += 1;
        }
        proof {
            lemma_first_index_none(self@, |e: EntryView| e.id == id as int);
        }
        false
    }

    /// Whether no placeholder waits any more.
    pub fn is_empty(&self) -> (r: bool)
        ensures
            r == (self@.len() == 0),
    {
        self.data.is_empty()
    }

    /// Appends an entry for the placeholder `id`. Entries are told apart by
    /// their id, so the caller hands in one that no entry has yet.
    pub fn add(&mut self, id: i64, ms: Vec<Matcher>)
        ensures
            final(self)@ == old(self)@.push(
                EntryView { id: id as int, matchers: matchers_view(ms@) },
            ),
    {
        self.data.push((id, ms));
        assert(self@ =~= old(self)@.push(
            EntryView { id: id as int, matchers: matchers_view(ms@) },
        ));
    }

    /// How many placeholders wait.
    pub fn len(&self) -> (r: usize)
        ensures
            r == self@.len(),
    {
        self.data.len()
    }
}


/// A matcher that asks for an application id and for nothing else accepts
/// exactly the windows that have this application id, whatever else they have.
pub proof fn lemma_app_id_alone_decides(app_id: Seq<char>, w: WindowView)
    ensures
        (MatcherView { app_id: Some(app_id), class: None, instance: None, name: None }).matches(w)
            == (w.app_id == Some(app_id)),
{
}

/// A matcher that asks for a field accepts no window that lacks the field.
pub proof fn lemma_missing_field_fails(m: MatcherView, w: WindowView)
    ensures
        m.app_id is Some && w.app_id is None ==> !m.matches(w),
        m.name is Some && w.name is None ==> !m.matches(w),
        m.class is Some && w.class is None ==> !m.matches(w),
        m.instance is Some && w.instance is None ==> !m.matches(w),
{
}

/// The matcher without fields accepts every window.
pub proof fn lemma_empty_matches_all(w: WindowView)
    ensures
        MatcherView::empty().matches(w),
{
}

/// What `consume` hands out is an entry that accepts the window, and no
/// entry before it does.
pub proof fn lemma_consumed_is_first(entries: Seq<EntryView>, w: WindowView)
    ensures
        match first_accepting(entries, w) {
            Some(i) => {
                &&& 0 <= i < entries.len()
                &&& entries[i].accepts(w)
                &&& forall|j: int| 0 <= j < i ==> !entries[j].accepts(w)
            },
            None => forall|j: int| 0 <= j < entries.len() ==> !entries[j].accepts(w),
        },
{
    lemma_first_index(entries, |e: EntryView| e.accepts(w));
}

/// Oldest first: of two entries added one after the other, both of which
/// accept a window that no older entry accepts, `consume` hands out the first,
/// and a second `consume` for the same window hands out the other.
pub proof fn lemma_oldest_entry_wins(
    entries: Seq<EntryView>,
    a: EntryView,
    b: EntryView,
    w: WindowView,
)
    requires
        first_accepting(entries, w) is None,
        a.accepts(w),
        b.accepts(w),
    ensures
        consumed(entries.push(a).push(b), w) == (Some(a.id), entries.push(b)),
        consumed(entries.push(b), w) == (Some(b.id), entries),
{
    let p = |e: EntryView| e.accepts(w);
    let n = entries.len() as int;
    lemma_first_index(entries, p);
    lemma_first_index_is(entries.push(a).push(b), p, n);
    lemma_first_index_is(entries.push(b), p, n);
    assert(entries.push(a).push(b).remove(n) =~= entries.push(b));
    assert(entries.push(b).remove(n) =~= entries);
}

/// A window that no entry accepts takes nothing: `consume` returns nothing
/// and the registry keeps its entries in their order.
pub proof fn lemma_no_match_changes_nothing(entries: Seq<EntryView>, w: WindowView)
    requires
        forall|j: int| 0 <= j < entries.len() ==> !entries[j].accepts(w),
    ensures
        consumed(entries, w) == (None::<int>, entries),
{
    lemma_first_index_none(entries, |e: EntryView| e.accepts(w));
}

/// `consume` and `remove` only ever take an entry away: what stays is the
/// old registry with at most one entry less, in the old order.
pub proof fn lemma_registry_shrinks(entries: Seq<EntryView>, w: WindowView, id: int)
    ensures
        consumed(entries, w).1.len() <= entries.len(),
        consumed(entries, w).0 is Some ==> consumed(entries, w).1.len() == entries.len() - 1,
        removed(entries, id).1.len() <= entries.len(),
        removed(entries, id).0 ==> removed(entries, id).1.len() == entries.len() - 1,
{
    lemma_first_index(entries, |e: EntryView| e.accepts(w));
    lemma_first_index(entries, |e: EntryView| e.id == id);
}

} // verus!
