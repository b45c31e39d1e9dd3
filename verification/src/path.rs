//! Paths below a directory that the host knows, as lists of parts.

use vstd::prelude::*;
use crate::text;

verus! {

/// The content of a path: its parts, in order.
pub type Parts = Seq<Seq<char>>;

/// A path below some directory: the parts to append to that directory, in order.
#[derive(Debug, PartialEq, Eq)]
pub struct RelPath {
    pub parts: Vec<String>,
}

impl View for RelPath {
    type V = Seq<Seq<char>>;

    open spec fn view(&self) -> Seq<Seq<char>> {
        text::texts(self.parts@)
    }
}

/// Parts that name exactly one entry below the directory they are appended to: not empty, not a
/// step to the same or the parent directory, and without separators or a drive.
pub open spec fn is_plain_part(part: Seq<char>) -> bool {
    &&& part.len() > 0
    &&& part != seq!['.']
    &&& part != seq!['.', '.']
    &&& forall|i: int|
        0 <= i < part.len() ==> #[trigger] part[i] != '/' && part[i] != '\\' && part[i] != ':'
}

/// Paths that cannot leave the directory they are appended to.
pub open spec fn is_confined(path: Seq<Seq<char>>) -> bool {
    &&& path.len() > 0
    &&& forall|i: int| 0 <= i < path.len() ==> is_plain_part(#[trigger] path[i])
}

/// The path with `/` between its parts, whatever the host writes there.
pub open spec fn portable(path: Seq<Seq<char>>) -> Seq<char> {
    text::joined(path, seq!['/'])
}

/// The path as text, with `/` between its parts on every host.
pub fn path_to_portable_string(path: &RelPath) -> (r: String)
    ensures
        r@ == portable(path@),
{
    proof {
        reveal_strlit("/");
        assert("/"@ =~= seq!['/']);
    }
    text::join(&path.parts, "/")
}

/// The path without its last part: the directory that the path is an entry of.
pub open spec fn parent_of(path: Seq<Seq<char>>) -> Seq<Seq<char>> {
    if path.len() == 0 {
        path
    } else {
        path.drop_last()
    }
}

impl RelPath {
    /// A copy of the path.
    pub fn duplicate(&self) -> (r: RelPath)
        ensures
            r@ == self@,
    {
        let mut parts: Vec<String> = Vec::new();
        append_first(&mut parts, &self.parts, self.parts.len());
        assert(text::texts(parts@) =~= self@);
        RelPath { parts }
    }

    /// The path `other` below this one.
    pub fn join(&self, other: &RelPath) -> (r: RelPath)
        ensures
            r@ == self@ + other@,
    {
        let mut parts: Vec<String> = Vec::new();
        append_first(&mut parts, &self.parts, self.parts.len());
        append_first(&mut parts, &other.parts, other.parts.len());
        assert(text::texts(parts@) =~= self@ + other@);
        RelPath { parts }
    }

    /// The path without its last part.
    pub fn parent(&self) -> (r: RelPath)
        ensures
            r@ == parent_of(self@),
    {
        let n: usize = self.parts.len();
        let mut parts: Vec<String> = Vec::new();
        append_first(&mut parts, &self.parts, if n == 0 { 0 } else { n - 1 });
        assert(text::texts(parts@) =~= parent_of(self@));
        RelPath { parts }
    }
}

fn append_first(to: &mut Vec<String>, from: &Vec<String>, n: usize)
    requires
        n <= from@.len(),
    ensures
        text::texts(final(to)@) == text::texts(old(to)@) + text::texts(from@).take(n as int),
{
    let ghost before = text::texts(to@);
    let ghost all = text::texts(from@);
    let mut i: usize = 0;
    assert(before + all.take(0) =~= before);
    while i < n
        invariant
            i <= n <= from@.len(),
            all == text::texts(from@),
            text::texts(to@) == before + all.take(i as int),
        decreases n - i,
    {
        let ghost then = text::texts(to@);
        to.push(from[i].clone());
        assert(text::texts(to@) =~= then.push(all[i as int]));
        assert(before + all.take(i + 1) =~= then.push(all[i as int]));
        i += 1;
    }
}

/// A path below a confined path is confined.
pub proof fn law_join_stays_confined(a: Seq<Seq<char>>, b: Seq<Seq<char>>)
    requires
        is_confined(a),
        is_confined(b),
    ensures
        is_confined(a + b),
        (a + b).take(a.len() as int) == a,
{
    assert forall|i: int| 0 <= i < (a + b).len() implies is_plain_part(#[trigger] (a + b)[i]) by {
        if i < a.len() {
            assert((a + b)[i] == a[i]);
        } else {
            assert((a + b)[i] == b[i - a.len()]);
        }
    }
    assert((a + b).take(a.len() as int) =~= a);
}

} // verus!
