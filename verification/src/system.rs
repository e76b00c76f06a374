//! Whether the directory of the manager's executables is on the search
//! path for commands.

use vstd::prelude::*;

verus! {

/// Whether `list[start..end]` is one item of `list`, where `:` stands
/// between the items: an empty list has one item, which is empty.
pub open spec fn is_item(list: Seq<char>, start: int, end: int) -> bool {
    &&& 0 <= start <= end <= list.len()
    &&& start == 0 || list[start - 1] == ':'
    &&& end == list.len() || list[end] == ':'
    &&& forall|i: int| start <= i < end ==> list[i] != ':'
}

/// Whether `text` ends with `suffix`.
pub open spec fn ends_with(text: Seq<char>, suffix: Seq<char>) -> bool {
    suffix.len() <= text.len() && text.subrange(text.len() - suffix.len(), text.len() as int)
        == suffix
}

/// Whether some item of `list` ends with `suffix`.
pub open spec fn some_item_ends_with(list: Seq<char>, suffix: Seq<char>) -> bool {
    exists|start: int, end: int| #[trigger]
        is_item(list, start, end) && ends_with(list.subrange(start, end), suffix)
}

/// What the path of the directory of executables ends with: `rokit` and
/// `bin` with `separator` between them.
pub open spec fn bin_dir_suffix(separator: char) -> Seq<char> {
    "rokit"@ + seq![separator] + "bin"@
}

/// The characters of `text`, in order.
fn chars_of(text: &str) -> (chars: Vec<char>)
    ensures
        chars@ == text@,
{
    let mut chars: Vec<char> = Vec::new();
    for c in it: text.chars()
        invariant
            it.seq() == text@,
            chars@ == text@.take(it.index() as int),
    {
        chars.push(c);
        assert(text@.take(it.index() + 1) =~= text@.take(it.index() as int).push(c));
    }
    assert(text@.take(text@.len() as int) =~= text@);
    chars
}

/// Whether `chars[start..end]` ends with `suffix`.
fn range_ends_with(chars: &Vec<char>, start: usize, end: usize, suffix: &Vec<char>) -> (yes: bool)
    requires
        start <= end <= chars.len(),
    ensures
        yes == ends_with(chars@.subrange(start as int, end as int), suffix@),
{
    if suffix.len() > end - start {
        return false;
    }
    let from: usize = end - suffix.len();
    let ghost tail = chars@.subrange(start as int, end as int).subrange(
        end - start - suffix.len(),
        end - start,
    );
    let mut k: usize = 0;
    while k < suffix.len()
        invariant
            k <= suffix.len(),
            from + suffix.len() == end,
            start <= from,
            end <= chars.len(),
            tail == chars@.subrange(start as int, end as int).subrange(
                end - start - suffix.len(),
                end - start,
            ),
            forall|j: int| 0 <= j < k ==> tail[j] == suffix@[j],
        decreases suffix.len() - k,
    {
        assert(tail[k as int] == chars@[from + k]);
        if chars[from + k] != suffix[k] {
            return false;
        }
        k += 1;
    }
    assert(tail =~= suffix@);
    true
}

/// Whether some item of `list`, where `:` stands between the items, ends
/// with `suffix`.
pub fn path_lists_suffix(list: &str, suffix: &str) -> (found: bool)
    ensures
        found == some_item_ends_with(list@, suffix@),
{
    let chars = chars_of(list);
    let wanted = chars_of(suffix);
    let mut start: usize = 0;
    let mut end: usize = 0;
    loop
        invariant
            chars@ == list@,
            wanted@ == suffix@,
            start <= end <= chars.len(),
            start == 0 || chars@[start - 1] == ':',
            forall|i: int| start <= i < end ==> chars@[i] != ':',
            forall|s: int, e: int|
                #[trigger] is_item(chars@, s, e) && e < end ==> !ends_with(
                    chars@.subrange(s, e),
                    wanted@,
                ),
        decreases chars.len() - end,
    {
        if end == chars.len() || chars[end] == ':' {
            assert(is_item(chars@, start as int, end as int));
            assert forall|s: int| #[trigger] is_item(chars@, s, end as int) implies s == start by {
                if s < start {
                    assert(chars@[start - 1] == ':');
                }
                if start < s {
                    assert(chars@[s - 1] == ':');
                }
            }
            if range_ends_with(&chars, start, end, &wanted) {
                return true;
            }
            if end == chars.len() {
                assert forall|s: int, e: int| #[trigger] is_item(chars@, s, e) implies !ends_with(
                    chars@.subrange(s, e),
                    wanted@,
                ) by {
                    if e == end {
                        assert(s == start);
                    }
                }
                return false;
            }
            start = end + 1;
        }
        end += 1;
    }
}

/// Whether some item of `list` ends with the path of the directory of
/// executables, written with `separator`.
pub fn lists_bin_dir(list: &str, separator: char) -> (found: bool)
    ensures
        found == some_item_ends_with(list@, bin_dir_suffix(separator)),
{
    let mut suffix = "rokit".to_owned();
    suffix.push(separator);
    suffix.append("bin");
    assert(suffix@ =~= bin_dir_suffix(separator));
    path_lists_suffix(list, suffix.as_str())
}

/// Whether the directory of executables is on the search path for
/// commands.
///
/// `path_var` is what the search path holds, or nothing where it could not
/// be had, which counts as a search path without the directory.
/// `separator` is the character that the platform puts between the names
/// of a path.
pub fn exists_in_path(path_var: Option<&str>, separator: char) -> (found: bool)
    ensures
        found == match path_var {
            Some(list) => some_item_ends_with(list@, bin_dir_suffix(separator)),
            None => false,
        },
{
    match path_var {
        Some(list) => lists_bin_dir(list, separator),
        None => false,
    }
}

} // verus!
