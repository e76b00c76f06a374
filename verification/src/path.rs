//! Locations in the storage tree.

use vstd::prelude::*;

verus! {

/// A location in the storage tree: a base, followed by the names that were
/// appended to it, outermost first.
#[derive(Debug, PartialEq, Eq)]
pub struct StoragePath {
    pub segments: Vec<String>,
}

impl View for StoragePath {
    type V = Seq<Seq<char>>;

    open spec fn view(&self) -> Seq<Seq<char>> {
        Seq::new(self.segments@.len(), |i: int| self.segments@[i]@)
    }
}

/// The text of a path: its segments with `separator` between neighbours.
pub open spec fn rendered(path: Seq<Seq<char>>, separator: char) -> Seq<char>
    decreases path.len(),
{
    if path.len() == 0 {
        Seq::empty()
    } else if path.len() == 1 {
        path[0]
    } else {
        rendered(path.drop_last(), separator) + seq![separator] + path.last()
    }
}

impl Clone for StoragePath {
    fn clone(&self) -> (copy: StoragePath)
        ensures
            copy@ == self@,
    {
        let mut segments: Vec<String> = Vec::new();
        let mut i: usize = 0;
        while i < self.segments.len()
            invariant
                i <= self.segments.len(),
                segments@.len() == i,
                forall|k: int| 0 <= k < i ==> segments@[k]@ == self.segments@[k]@,
            decreases self.segments.len() - i,
        {
            segments.push(self.segments[i].clone());
            i += 1;
        }
        let copy = StoragePath { segments };
        assert(copy@ =~= self@);
        copy
    }
}

impl StoragePath {
    /// The path that consists of `base` alone.
    pub fn new(base: &str) -> (path: StoragePath)
        ensures
            path@ == seq![base@],
    {
        let mut segments: Vec<String> = Vec::new();
        segments.push(base.to_owned());
        let path = StoragePath { segments };
        assert(path@ =~= seq![base@]);
        path
    }

    /// This path with `name` appended.
    pub fn join(&self, name: &str) -> (path: StoragePath)
        ensures
            path@ == self@.push(name@),
    {
        let mut path = self.clone();
        path.segments.push(name.to_owned());
        assert(path@ =~= self@.push(name@));
        path
    }

    /// The text of this path with `separator` between its segments.
    pub fn render(&self, separator: char) -> (text: String)
        ensures
            text@ == rendered(self@, separator),
    {
        let mut text = String::new();
        let mut i: usize = 0;
        while i < self.segments.len()
            invariant
                i <= self.segments.len(),
                text@ == rendered(self@.take(i as int), separator),
            decreases self.segments.len() - i,
        {
            proof {
                assert(self@.take(i as int + 1).drop_last() =~= self@.take(i as int));
            }
            if i > 0 {
                text.push(separator);
            }
            text.append(self.segments[i].as_str());
            i += 1;
        }
        assert(self@.take(i as int) =~= self@);
        text
    }
}

/// `String::push` of std: the string afterwards is the string before with
/// `c` as one more character at its end.
pub assume_specification[ String::push ](text: &mut String, c: char)
    ensures
        final(text)@ == old(text)@.push(c),
;

} // verus!
