use vstd::prelude::*;
use vstd::string::StrSliceExecFns;

verus! {

/// The four reserved loop-metadata identifiers that the engine exposes
/// inside a `for` body; they never name an externally supplied variable.
pub open spec fn loop_meta(id: Seq<char>) -> bool {
    ||| id == "loop.index"@
    ||| id == "loop.index0"@
    ||| id == "loop.first"@
    ||| id == "loop.last"@
}

/// One tracked name suppresses an identifier when the identifier is the name
/// itself, or a dotted (`name.`) or bracket-indexed (`name[`) access under
/// it.  This is a textual prefix test, so `product` suppresses
/// `product.name` and `product[0]` but not `productx`.
pub open spec fn deny_matches(name: Seq<char>, id: Seq<char>) -> bool {
    ||| id == name
    ||| (id.len() > name.len() && id.subrange(0, name.len() as int) == name && (id[name.len()
        as int] == '.' || id[name.len() as int] == '['))
}

/// An identifier is excluded when some tracked name suppresses it.
pub open spec fn excluded(names: Seq<Seq<char>>, id: Seq<char>) -> bool {
    exists|i: int| 0 <= i < names.len() && deny_matches(names[i], id)
}

/// Character-for-character string equality, proved against the string views.
pub fn str_eq(a: &str, b: &str) -> (r: bool)
    ensures
        r == (a@ == b@),
{
    let alen = a.unicode_len();
    let blen = b.unicode_len();
    if alen != blen {
        return false;
    }
    let mut i: usize = 0;
    while i < alen
        invariant
            i <= alen,
            alen == a@.len(),
            alen == b@.len(),
            forall|j: int| 0 <= j < i ==> a@[j] == b@[j],
        decreases alen - i,
    {
        if a.get_char(i) != b.get_char(i) {
            return false;
        }
        i = i + 1;
    }
    proof {
        assert(a@ =~= b@);
    }
    true
}

/// Whether `id` is one of the four reserved loop-metadata identifiers.
pub fn is_loop_meta(id: &String) -> (r: bool)
    ensures
        r == loop_meta(id@),
{
    str_eq(id.as_str(), "loop.index") || str_eq(id.as_str(), "loop.index0") || str_eq(
        id.as_str(),
        "loop.first",
    ) || str_eq(id.as_str(), "loop.last")
}

/// Whether one tracked name suppresses the identifier: equality, or a
/// `name.` / `name[` prefix.
pub fn entry_matches(name: &String, id: &String) -> (r: bool)
    ensures
        r == deny_matches(name@, id@),
{
    let nlen = name.as_str().unicode_len();
    let ilen = id.as_str().unicode_len();
    if nlen == ilen {
        return str_eq(name.as_str(), id.as_str());
    }
    if ilen < nlen {
        return false;
    }
    let mut i: usize = 0;
    while i < nlen
        invariant
            i <= nlen,
            nlen == name@.len(),
            ilen == id@.len(),
            ilen > nlen,
            forall|j: int| 0 <= j < i ==> id@[j] == name@[j],
        decreases nlen - i,
    {
        if id.as_str().get_char(i) != name.as_str().get_char(i) {
            return false;
        }
        i = i + 1;
    }
    proof {
        assert(id@.subrange(0, name@.len() as int) =~= name@);
    }
    let sep = id.as_str().get_char(nlen);
    sep == '.' || sep == '['
}

/// The deny-list of identifier names currently bound inside the template:
/// loop variables of the `for` constructs the walk is inside, and every
/// `set`-bound name seen so far.
pub struct ScopeTracker {
    names: Vec<String>,
}

impl ScopeTracker {
    /// The tracked names, each as its character sequence, in the order they
    /// were added.
    pub closed spec fn names_view(&self) -> Seq<Seq<char>> {
        self.names.deep_view()
    }

    /// An empty tracker: nothing is excluded.
    pub fn new() -> (r: ScopeTracker)
        ensures
            r.names_view() =~= Seq::<Seq<char>>::empty(),
    {
        ScopeTracker { names: Vec::new() }
    }

    /// A copy of this tracker with `name` appended.  The receiver is
    /// untouched, so the copy's later growth never leaks back: this is the
    /// value-semantics entry used for `for` bodies.
    pub fn enter_loop_scope(&self, name: String) -> (r: ScopeTracker)
        ensures
            r.names_view() =~= self.names_view().push(name@),
    {
        let mut names = clone_names(&self.names);
        names.push(name);
        ScopeTracker { names }
    }

    /// Appends `name` to this tracker in place, visible to all walking done
    /// from here on: the forward-only entry used for `set` bindings.
    pub fn bind_forever(&mut self, name: String)
        ensures
            final(self).names_view() =~= old(self).names_view().push(name@),
    {
        self.names.push(name);
    }

    /// Whether `id` is currently excluded: equal to a tracked name, or a
    /// dotted or bracket-indexed access under one.
    pub fn is_excluded(&self, id: &String) -> (r: bool)
        ensures
            r == excluded(self.names_view(), id@),
    {
        let mut i: usize = 0;
        while i < self.names.len()
            invariant
                i <= self.names.len(),
                forall|j: int| 0 <= j < i ==> !deny_matches(self.names_view()[j], id@),
            decreases self.names.len() - i,
        {
            if entry_matches(&self.names[i], id) {
                proof {
                    assert(self.names_view()[i as int] == self.names@[i as int]@);
                    assert(deny_matches(self.names_view()[i as int], id@));
                }
                return true;
            }
            i = i + 1;
        }
        false
    }
}

/// An element-for-element copy of a list of names.
fn clone_names(v: &Vec<String>) -> (r: Vec<String>)
    ensures
        r.deep_view() =~= v.deep_view(),
{
    let mut r: Vec<String> = Vec::new();
    let mut i: usize = 0;
    while i < v.len()
        invariant
            i <= v.len(),
            r.len() == i,
            forall|j: int| 0 <= j < i ==> r.deep_view()[j] == v.deep_view()[j],
        decreases v.len() - i,
    {
        r.push(v[i].clone());
        i = i + 1;
    }
    r
}

} // verus!
