//! Filesystem paths as the accessors hand them out, and the colon-separated
//! splitting that the library-path variable calls for.

use vstd::prelude::*;
use vstd::string::StrSliceExecFns;

verus! {

/// A filesystem path, held as the exact text the environment supplied.
/// The library never touches the filesystem, so a path is just its text.
#[derive(Debug, PartialEq, Eq)]
pub struct SnapPath {
    text: String,
}

impl View for SnapPath {
    type V = Seq<char>;

    closed spec fn view(&self) -> Seq<char> {
        self.text@
    }
}

impl DeepView for SnapPath {
    type V = Seq<char>;

    open spec fn deep_view(&self) -> Seq<char> {
        self@
    }
}

impl SnapPath {
    /// Wraps a string as a path, keeping its text unchanged.
    pub fn from_string(text: String) -> (r: SnapPath)
        ensures
            r@ == text@,
    {
        SnapPath { text }
    }

    /// The path's text.
    pub fn as_str(&self) -> (r: &str)
        ensures
            r@ == self@,
    {
        self.text.as_str()
    }

    /// Unwraps the path back into its text.
    pub fn into_string(self) -> (r: String)
        ensures
            r@ == self@,
    {
        self.text
    }
}

/// The segments of `s` after splitting on `':'` and dropping empty segments,
/// with `cur` the partial segment read so far.
pub open spec fn split_rec(s: Seq<char>, cur: Seq<char>) -> Seq<Seq<char>>
    decreases s.len(),
{
    if s.len() == 0 {
        if cur.len() == 0 {
            Seq::empty()
        } else {
            seq![cur]
        }
    } else if s[0] == ':' {
        if cur.len() == 0 {
            split_rec(s.drop_first(), Seq::empty())
        } else {
            seq![cur] + split_rec(s.drop_first(), Seq::empty())
        }
    } else {
        split_rec(s.drop_first(), cur.push(s[0]))
    }
}

/// The non-empty colon-separated segments of `s`, in order: splitting keeps
/// every character run between colons and drops every empty run, so a value
/// that is all colons (or empty) yields an empty list.
pub open spec fn spec_split_paths(s: Seq<char>) -> Seq<Seq<char>> {
    split_rec(s, Seq::empty())
}

/// A segment that holds no separator.
pub open spec fn colon_free(seg: Seq<char>) -> bool {
    forall|k: int| 0 <= k < seg.len() ==> seg[k] != ':'
}

proof fn lemma_split_rec_wf(s: Seq<char>, cur: Seq<char>)
    requires
        colon_free(cur),
    ensures
        forall|j: int|
            0 <= j < split_rec(s, cur).len() ==> (#[trigger] split_rec(s, cur)[j]).len() > 0
                && colon_free(split_rec(s, cur)[j]),
    decreases s.len(),
{
    if s.len() == 0 {
        if cur.len() > 0 {
            assert forall|j: int| 0 <= j < split_rec(s, cur).len() implies (#[trigger] split_rec(
                s,
                cur,
            )[j]).len() > 0 && colon_free(split_rec(s, cur)[j]) by {
                assert(split_rec(s, cur)[j] == cur);
            }
        }
    } else if s[0] == ':' {
        lemma_split_rec_wf(s.drop_first(), Seq::empty());
        let rest = split_rec(s.drop_first(), Seq::empty());
        assert forall|j: int| 0 <= j < split_rec(s, cur).len() implies (#[trigger] split_rec(
            s,
            cur,
        )[j]).len() > 0 && colon_free(split_rec(s, cur)[j]) by {
            if cur.len() > 0 {
                if j == 0 {
                    assert(split_rec(s, cur)[j] == cur);
                } else {
                    assert(split_rec(s, cur)[j] == rest[j - 1]);
                }
            } else {
                assert(split_rec(s, cur)[j] == rest[j]);
            }
        }
    } else {
        assert(colon_free(cur.push(s[0])));
        lemma_split_rec_wf(s.drop_first(), cur.push(s[0]));
        let rest = split_rec(s.drop_first(), cur.push(s[0]));
        assert forall|j: int| 0 <= j < split_rec(s, cur).len() implies (#[trigger] split_rec(
            s,
            cur,
        )[j]).len() > 0 && colon_free(split_rec(s, cur)[j]) by {
            assert(split_rec(s, cur)[j] == rest[j]);
        }
    }
}

/// Every segment that splitting yields is non-empty and holds no separator.
pub proof fn lemma_split_paths_wf(s: Seq<char>)
    ensures
        forall|j: int|
            0 <= j < spec_split_paths(s).len() ==> (#[trigger] spec_split_paths(s)[j]).len() > 0
                && colon_free(spec_split_paths(s)[j]),
{
    lemma_split_rec_wf(s, Seq::empty());
}

/// Splits `s` on `':'`, drops empty segments, and wraps each remaining
/// segment as a path, preserving order.
pub fn split_colon_paths(s: &str) -> (r: Vec<SnapPath>)
    ensures
        r.deep_view() == spec_split_paths(s@),
{
    let n = s.unicode_len();
    let mut out: Vec<SnapPath> = Vec::new();
    let mut start: usize = 0;
    let mut i: usize = 0;
    proof {
        assert(s@.skip(0) =~= s@);
        assert(s@.subrange(0, 0) =~= Seq::<char>::empty());
        assert(out.deep_view() =~= Seq::<Seq<char>>::empty());
    }
    while i < n
        invariant
            n == s@.len(),
            start <= i <= n,
            out.deep_view() + split_rec(s@.skip(i as int), s@.subrange(start as int, i as int))
                == spec_split_paths(s@),
        decreases n - i,
    {
        let ghost rest = s@.skip(i as int);
        let ghost cur = s@.subrange(start as int, i as int);
        proof {
            assert(rest[0] == s@[i as int]);
            assert(rest.drop_first() =~= s@.skip(i as int + 1));
        }
        let c = s.get_char(i);
        if c == ':' {
            if start < i {
                let seg = s.substring_char(start, i);
                let path = SnapPath::from_string(seg.to_owned());
                let ghost old_dv = out.deep_view();
                out.push(path);
                proof {
                    assert(out.deep_view() =~= old_dv.push(cur));
                    assert(old_dv.push(cur) + split_rec(s@.skip(i as int + 1), Seq::empty())
                        =~~= old_dv + (seq![cur] + split_rec(s@.skip(i as int + 1), Seq::empty())));
                }
            } else {
                proof {
                    assert(cur =~= Seq::<char>::empty());
                }
            }
            start = i + 1;
            proof {
                assert(s@.subrange(start as int, i as int + 1) =~= Seq::<char>::empty());
            }
        } else {
            proof {
                assert(cur.push(s@[i as int]) =~= s@.subrange(start as int, i as int + 1));
            }
        }
        i = i + 1;
    }
    proof {
        assert(s@.skip(n as int) =~= Seq::<char>::empty());
        if start < n {
            let ghost cur = s@.subrange(start as int, n as int);
            assert(cur.len() > 0);
            assert(out.deep_view() + seq![cur] == spec_split_paths(s@));
        }
    }
    if start < n {
        let seg = s.substring_char(start, n);
        let path = SnapPath::from_string(seg.to_owned());
        let ghost old_dv = out.deep_view();
        out.push(path);
        proof {
            assert(out.deep_view() =~= old_dv.push(s@.subrange(start as int, n as int)));
            assert(old_dv.push(s@.subrange(start as int, n as int)) =~~= old_dv + seq![
                s@.subrange(start as int, n as int),
            ]);
        }
    } else {
        proof {
            assert(s@.subrange(start as int, n as int) =~= Seq::<char>::empty());
            assert(out.deep_view() + Seq::<Seq<char>>::empty() =~~= out.deep_view());
        }
    }
    out
}

} // verus!
