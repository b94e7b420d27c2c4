//! A snapshot of the process environment, modelled as an ordered list of
//! key/value pairs. Every accessor of this crate takes such a snapshot as an
//! argument, so its behaviour is a pure function of the snapshot's contents.

use vstd::prelude::*;
use vstd::string::StrSliceExecFns;

verus! {

/// An environment snapshot: a sequence of `(key, value)` entries.
///
/// Lookups return the value of the first entry whose key matches; a process
/// environment never holds a key twice, so the first match is the only one.
#[derive(Debug)]
pub struct Env {
    entries: Vec<(String, String)>,
}

impl View for Env {
    type V = Seq<(Seq<char>, Seq<char>)>;

    closed spec fn view(&self) -> Seq<(Seq<char>, Seq<char>)> {
        self.entries.deep_view()
    }
}

/// The value bound to `name` in the entry sequence `e`: the value of the
/// first entry whose key equals `name`, or `None` when no key matches.
pub open spec fn env_lookup(e: Seq<(Seq<char>, Seq<char>)>, name: Seq<char>) -> Option<
    Seq<char>,
>
    decreases e.len(),
{
    if e.len() == 0 {
        None
    } else if e[0].0 == name {
        Some(e[0].1)
    } else {
        env_lookup(e.drop_first(), name)
    }
}

/// A lookup misses exactly when no entry carries the requested key.
pub proof fn lemma_lookup_none(e: Seq<(Seq<char>, Seq<char>)>, name: Seq<char>)
    ensures
        (env_lookup(e, name) is None) <==> (forall|i: int| 0 <= i < e.len() ==> e[i].0 != name),
    decreases e.len(),
{
    if e.len() > 0 {
        lemma_lookup_none(e.drop_first(), name);
        assert forall|i: int| 1 <= i < e.len() implies e.drop_first()[i - 1] == e[i] by {}
    }
}

/// A lookup returns the value of the first entry whose key matches.
pub proof fn lemma_lookup_first(e: Seq<(Seq<char>, Seq<char>)>, name: Seq<char>, i: int)
    requires
        0 <= i < e.len(),
        e[i].0 == name,
        forall|j: int| 0 <= j < i ==> e[j].0 != name,
    ensures
        env_lookup(e, name) == Some(e[i].1),
    decreases i,
{
    if i > 0 {
        lemma_lookup_first(e.drop_first(), name, i - 1);
    }
}

/// Whether the key `k` begins with the four characters `SNAP`.
pub open spec fn has_snap_prefix(k: Seq<char>) -> bool {
    k.len() >= 4 && k[0] == 'S' && k[1] == 'N' && k[2] == 'A' && k[3] == 'P'
}

fn key_has_snap_prefix(k: &str) -> (r: bool)
    ensures
        r == has_snap_prefix(k@),
{
    let n = k.unicode_len();
    if n < 4 {
        return false;
    }
    k.get_char(0) == 'S' && k.get_char(1) == 'N' && k.get_char(2) == 'A' && k.get_char(3) == 'P'
}

/// The entries of `e` whose key begins with `SNAP`, in order of appearance.
pub open spec fn spec_snap_entries(e: Seq<(Seq<char>, Seq<char>)>) -> Seq<
    (Seq<char>, Seq<char>),
>
    decreases e.len(),
{
    if e.len() == 0 {
        Seq::empty()
    } else if has_snap_prefix(e.last().0) {
        spec_snap_entries(e.drop_last()).push(e.last())
    } else {
        spec_snap_entries(e.drop_last())
    }
}

/// No entry survives the filter exactly when no key begins with `SNAP`.
pub proof fn lemma_snap_entries_empty(e: Seq<(Seq<char>, Seq<char>)>)
    ensures
        (spec_snap_entries(e).len() == 0) <==> (forall|i: int|
            0 <= i < e.len() ==> !has_snap_prefix(e[i].0)),
    decreases e.len(),
{
    if e.len() > 0 {
        lemma_snap_entries_empty(e.drop_last());
        assert forall|i: int| 0 <= i < e.len() - 1 implies e.drop_last()[i] == e[i] by {}
    }
}

/// Every entry whose key begins with `SNAP` is kept by the filter.
pub proof fn lemma_snap_entries_complete(e: Seq<(Seq<char>, Seq<char>)>, i: int)
    requires
        0 <= i < e.len(),
        has_snap_prefix(e[i].0),
    ensures
        spec_snap_entries(e).contains(e[i]),
    decreases e.len(),
{
    if i < e.len() - 1 {
        lemma_snap_entries_complete(e.drop_last(), i);
        let sub = spec_snap_entries(e.drop_last());
        let j = choose|j: int| 0 <= j < sub.len() && sub[j] == e[i];
        assert(spec_snap_entries(e)[j] == e[i]);
    } else {
        assert(spec_snap_entries(e).last() == e[i]);
    }
}

/// Everything the filter keeps is an entry of `e` whose key begins with `SNAP`.
pub proof fn lemma_snap_entries_sound(e: Seq<(Seq<char>, Seq<char>)>, j: int)
    requires
        0 <= j < spec_snap_entries(e).len(),
    ensures
        has_snap_prefix(spec_snap_entries(e)[j].0),
        e.contains(spec_snap_entries(e)[j]),
    decreases e.len(),
{
    if e.len() > 0 {
        let sub = spec_snap_entries(e.drop_last());
        if j < sub.len() {
            lemma_snap_entries_sound(e.drop_last(), j);
            let i = choose|i: int| 0 <= i < e.drop_last().len() && e.drop_last()[i] == sub[j];
            assert(e[i] == spec_snap_entries(e)[j]);
        } else {
            assert(e[e.len() - 1] == spec_snap_entries(e)[j]);
        }
    }
}

proof fn lemma_snap_entries_unfold_front(e: Seq<(Seq<char>, Seq<char>)>)
    requires
        e.len() > 0,
    ensures
        spec_snap_entries(e) == if has_snap_prefix(e[0].0) {
            seq![e[0]] + spec_snap_entries(e.drop_first())
        } else {
            spec_snap_entries(e.drop_first())
        },
    decreases e.len(),
{
    if e.len() == 1 {
        assert(e.drop_last() =~= Seq::<(Seq<char>, Seq<char>)>::empty());
        assert(e.drop_first() =~= Seq::<(Seq<char>, Seq<char>)>::empty());
        if has_snap_prefix(e[0].0) {
            assert(e.last() == e[0]);
            assert(Seq::<(Seq<char>, Seq<char>)>::empty().push(e[0]) =~= seq![e[0]]
                + Seq::<(Seq<char>, Seq<char>)>::empty());
        }
    } else {
        let front = e.drop_last();
        let mid = e.subrange(1, e.len() - 1);
        lemma_snap_entries_unfold_front(front);
        assert(front[0] == e[0]);
        assert(front.drop_first() =~= mid);
        assert(e.drop_first().drop_last() =~= mid);
        assert(e.drop_first().last() == e.last());
        if has_snap_prefix(e[0].0) {
            if has_snap_prefix(e.last().0) {
                assert((seq![e[0]] + spec_snap_entries(mid)).push(e.last()) =~= seq![e[0]] + (
                spec_snap_entries(mid).push(e.last())));
            }
        }
    }
}

/// Filtering keeps lookups intact: a name that begins with `SNAP` is bound
/// to the same value in the filtered snapshot as in the full one.
pub proof fn lemma_snap_entries_preserve_lookup(e: Seq<(Seq<char>, Seq<char>)>, name: Seq<char>)
    requires
        has_snap_prefix(name),
    ensures
        env_lookup(spec_snap_entries(e), name) == env_lookup(e, name),
    decreases e.len(),
{
    if e.len() > 0 {
        lemma_snap_entries_unfold_front(e);
        lemma_snap_entries_preserve_lookup(e.drop_first(), name);
        if has_snap_prefix(e[0].0) {
            let s = seq![e[0]] + spec_snap_entries(e.drop_first());
            assert(s[0] == e[0]);
            if e[0].0 != name {
                assert(s.drop_first() =~= spec_snap_entries(e.drop_first()));
            }
        }
    }
}

fn str_eq(a: &str, b: &str) -> (r: bool)
    ensures
        r == (a@ == b@),
{
    let an = a.unicode_len();
    let bn = b.unicode_len();
    if an != bn {
        return false;
    }
    let mut i: usize = 0;
    while i < an
        invariant
            an == a@.len(),
            an == b@.len(),
            i <= an,
            forall|j: int| 0 <= j < i ==> a@[j] == b@[j],
        decreases an - i,
    {
        if a.get_char(i) != b.get_char(i) {
            return false;
        }
        i = i + 1;
    }
    proof {
        assert(a@ =~= b@);
    }
    true
}

impl Env {
    /// An empty snapshot: no variable is set.
    pub fn new() -> (r: Env)
        ensures
            r@ =~= Seq::<(Seq<char>, Seq<char>)>::empty(),
    {
        Env { entries: Vec::new() }
    }

    /// Appends one `(key, value)` entry to the snapshot.
    pub fn push(&mut self, key: String, value: String)
        ensures
            final(self)@ =~= old(self)@.push((key@, value@)),
    {
        self.entries.push((key, value));
    }

    /// The number of entries in the snapshot.
    pub fn len(&self) -> (r: usize)
        ensures
            r == self@.len(),
    {
        self.entries.len()
    }

    /// Looks `name` up in the snapshot: the value of the first entry whose
    /// key equals `name`, or `None` when no key matches.
    pub fn get(&self, name: &str) -> (r: Option<String>)
        ensures
            r.deep_view() == env_lookup(self@, name@),
    {
        let n = self.entries.len();
        let mut i: usize = 0;
        proof {
            assert(self@.skip(0) =~= self@);
        }
        while i < n
            invariant
                n == self@.len(),
                i <= n,
                env_lookup(self@, name@) == env_lookup(self@.skip(i as int), name@),
            decreases n - i,
        {
            let ghost rest = self@.skip(i as int);
            proof {
                assert(rest[0] == self@[i as int]);
            }
            if str_eq(self.entries[i].0.as_str(), name) {
                let value = self.entries[i].1.clone();
                return Some(value);
            }
            proof {
                assert(rest.drop_first() =~= self@.skip(i + 1));
            }
            i = i + 1;
        }
        proof {
            assert(self@.skip(n as int) =~= Seq::<(Seq<char>, Seq<char>)>::empty());
        }
        None
    }

    /// The sub-snapshot of entries whose key begins with `SNAP`, in order.
    pub(crate) fn snap_entries(&self) -> (r: Env)
        ensures
            r@ == spec_snap_entries(self@),
    {
        let n = self.entries.len();
        let mut out: Vec<(String, String)> = Vec::new();
        let mut i: usize = 0;
        proof {
            assert(self@.take(0) =~= Seq::<(Seq<char>, Seq<char>)>::empty());
            assert(out.deep_view() =~= Seq::<(Seq<char>, Seq<char>)>::empty());
        }
        while i < n
            invariant
                n == self@.len(),
                i <= n,
                out.deep_view() == spec_snap_entries(self@.take(i as int)),
            decreases n - i,
        {
            let ghost prefix = self@.take(i as int);
            if key_has_snap_prefix(self.entries[i].0.as_str()) {
                let key = self.entries[i].0.clone();
                let value = self.entries[i].1.clone();
                let ghost old_dv = out.deep_view();
                out.push((key, value));
                proof {
                    assert(out.deep_view() =~= old_dv.push(self@[i as int]));
                }
            }
            proof {
                assert(self@.take(i as int + 1).drop_last() =~= prefix);
                assert(self@.take(i as int + 1).last() == self@[i as int]);
            }
            i = i + 1;
        }
        proof {
            assert(self@.take(n as int) =~= self@);
        }
        Env { entries: out }
    }
}

} // verus!
