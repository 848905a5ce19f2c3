//! File paths as the bytes that a Unix system gives them: `/` separates the components.
use vstd::prelude::*;
use vstd::string::StringSliceAdditionalSpecFns;

use crate::text::{lossy, readable};

verus! {

/// The separator of path components, `/`.
pub const SEPARATOR: u8 = 47;

/// The byte of the component `.`, of which `..` has two.
pub const DOT: u8 = 46;

/// What stands behind the last separator of a path.
pub open spec fn last_segment(path: Seq<u8>) -> Seq<u8>
    decreases path.len(),
{
    if path.len() == 0 || path.last() == SEPARATOR {
        seq![]
    } else {
        last_segment(path.drop_last()).push(path.last())
    }
}

/// The final component of a path. Separators and `.` components at the end do not count. There is
/// none where nothing else is left, or where the path ends in `..`.
pub open spec fn base_name(path: Seq<u8>) -> Option<Seq<u8>>
    decreases path.len(),
{
    if path.len() == 0 {
        None
    } else if path.last() == SEPARATOR || last_segment(path) == seq![DOT] {
        base_name(path.drop_last())
    } else if last_segment(path) == seq![DOT, DOT] {
        None
    } else {
        Some(last_segment(path))
    }
}

/// `name` taken relative to `base`: an absolute `name` stands for itself.
pub open spec fn joined_path(base: Seq<u8>, name: Seq<u8>) -> Seq<u8> {
    if name.len() > 0 && name[0] == SEPARATOR {
        name
    } else if base.len() == 0 || base.last() == SEPARATOR {
        base + name
    } else {
        base.push(SEPARATOR) + name
    }
}

/// Whether the bytes are the name of a file: neither empty nor `.` nor `..`, and without separator.
pub open spec fn plain_name(name: Seq<u8>) -> bool {
    &&& name.len() > 0
    &&& !name.contains(SEPARATOR)
    &&& name != seq![DOT]
    &&& name != seq![DOT, DOT]
}

/// A file path.
#[derive(Debug)]
pub struct FilePath {
    /// The path, byte by byte.
    pub bytes: Vec<u8>,
}

impl View for FilePath {
    type V = Seq<u8>;

    open spec fn view(&self) -> Seq<u8> {
        self.bytes@
    }
}

impl FilePath {
    /// The empty path.
    pub fn new() -> (path: FilePath)
        ensures
            path@ == Seq::<u8>::empty(),
    {
        FilePath { bytes: Vec::new() }
    }

    /// The path that a text spells.
    pub fn from_text(text: &str) -> (path: FilePath)
        ensures
            path@ == text.spec_bytes(),
    {
        FilePath { bytes: text.as_bytes_vec() }
    }

    /// The final component (see [`base_name`]).
    pub fn file_name(&self) -> (name: Option<Vec<u8>>)
        ensures
            match name {
                Some(n) => base_name(self@) == Some(n@),
                None => base_name(self@) is None,
            },
    {
        let bytes = &self.bytes;
        let mut end: usize = bytes.len();
        assert(self@.take(end as int) == self@);
        loop
            invariant
                bytes@ == self@,
                end <= bytes.len(),
                base_name(self@.take(end as int)) == base_name(self@),
            decreases end,
        {
            let ghost head = self@.take(end as int);
            if end == 0 {
                return None;
            }
            assert(head.drop_last() == self@.take(end - 1));
            if bytes[end - 1] == SEPARATOR {
                end = end - 1;
            } else {
                let name = segment_before(bytes, end);
                if name.len() == 1 && name[0] == DOT {
                    assert(name@ == seq![DOT]);
                    end = end - 1;
                } else if name.len() == 2 && name[0] == DOT && name[1] == DOT {
                    assert(name@ == seq![DOT, DOT]);
                    return None;
                } else {
                    return Some(name);
                }
            }
        }
    }

    /// `name` taken relative to this path (see [`joined_path`]).
    pub fn join(&self, name: &str) -> (path: FilePath)
        ensures
            path@ == joined_path(self@, name.spec_bytes()),
    {
        let mut tail = name.as_bytes_vec();
        if tail.len() > 0 && tail[0] == SEPARATOR {
            return FilePath { bytes: tail };
        }
        let mut path = self.clone();
        let n: usize = path.bytes.len();
        if n > 0 && path.bytes[n - 1] != SEPARATOR {
            path.bytes.push(SEPARATOR);
        }
        path.bytes.append(&mut tail);
        path
    }

    /// The path as text, with a replacement character wherever it is not UTF-8.
    pub fn display(&self) -> (text: String)
        ensures
            text@ == readable(self@),
    {
        lossy(self.bytes.as_slice())
    }
}

impl Clone for FilePath {
    fn clone(&self) -> (path: FilePath)
        ensures
            path@ == self@,
    {
        let bytes = self.bytes.clone();
        assert(bytes@ =~= self.bytes@);
        FilePath { bytes }
    }
}

/// What stands behind the last separator of the first `end` bytes.
fn segment_before(bytes: &Vec<u8>, end: usize) -> (name: Vec<u8>)
    requires
        end <= bytes.len(),
    ensures
        name@ == last_segment(bytes@.take(end as int)),
{
    let mut start: usize = end;
    while start > 0 && bytes[start - 1] != SEPARATOR
        invariant
            start <= end <= bytes.len(),
            forall|i: int| start <= i < end ==> bytes[i] != SEPARATOR,
        decreases start,
    {
        start = start - 1;
    }
    let mut name: Vec<u8> = Vec::new();
    let mut i: usize = start;
    while i < end
        invariant
            start <= i <= end <= bytes.len(),
            name@ == bytes@.subrange(start as int, i as int),
        decreases end - i,
    {
        name.push(bytes[i]);
        i = i + 1;
        assert(name@ =~= bytes@.subrange(start as int, i as int));
    }
    proof {
        let head = bytes@.take(start as int);
        assert(bytes@.take(end as int) =~= head + name@);
        lemma_last_segment_of_tail(head, name@);
    }
    name
}

// ---- Laws ----

/// The file name of a path that was made by joining a plain name is that name, whatever it was
/// joined to.
pub proof fn law_joined_name_is_file_name(base: Seq<u8>, name: Seq<u8>)
    requires
        plain_name(name),
    ensures
        base_name(joined_path(base, name)) == Some(name),
{
    let path = joined_path(base, name);
    assert(name[0] != SEPARATOR) by {
        assert(name.contains(name[0]));
    }
    let head = if base.len() == 0 || base.last() == SEPARATOR {
        base
    } else {
        base.push(SEPARATOR)
    };
    assert(path == head + name);
    lemma_last_segment_of_tail(head, name);
    assert(path.last() == name.last());
    assert(name.contains(name.last()));
}

proof fn lemma_last_segment_of_tail(head: Seq<u8>, name: Seq<u8>)
    requires
        head.len() == 0 || head.last() == SEPARATOR,
        !name.contains(SEPARATOR),
    ensures
        last_segment(head + name) == name,
    decreases name.len(),
{
    let path = head + name;
    if name.len() == 0 {
        assert(path == head);
        assert(last_segment(path) =~= name);
    } else {
        assert(name.contains(name.last()));
        assert forall|b: u8| name.drop_last().contains(b) implies name.contains(b) by {}
        lemma_last_segment_of_tail(head, name.drop_last());
        assert(path.drop_last() == head + name.drop_last());
        assert(last_segment(path) =~= name);
    }
}

/// A file name is a plain name.
pub proof fn law_file_name_is_plain(path: Seq<u8>)
    ensures
        base_name(path) matches Some(name) ==> plain_name(name),
    decreases path.len(),
{
    if path.len() > 0 {
        if path.last() == SEPARATOR || last_segment(path) == seq![DOT] {
            law_file_name_is_plain(path.drop_last());
        } else {
            lemma_segment_holds_no_separator(path);
        }
    }
}

proof fn lemma_segment_holds_no_separator(path: Seq<u8>)
    ensures
        !last_segment(path).contains(SEPARATOR),
    decreases path.len(),
{
    if path.len() > 0 && path.last() != SEPARATOR {
        lemma_segment_holds_no_separator(path.drop_last());
    }
}

/// A path that a text spells is shown as that text.
pub proof fn law_text_path_is_shown_as_its_text(text: &str)
    ensures
        readable(text.spec_bytes()) == text@,
{
    vstd::utf8::encode_utf8_valid_utf8(text@);
    vstd::utf8::encode_utf8_decode_utf8(text@);
}

/// The file name of a path, by how the path ends. It is what stands behind the last `/`, whole.
/// A `/` at the end, and a `.` that stands there by itself, make no difference; a `..` that stands
/// there by itself leaves the path without a file name, and so does an empty path.
pub proof fn law_file_name_goes_by_the_end(head: Seq<u8>, name: Seq<u8>)
    requires
        head.len() == 0 || head.last() == 47u8,
    ensures
        base_name(seq![]) is None,
        base_name(name.push(47u8)) == base_name(name),
        base_name(head + seq![46u8]) == base_name(head),
        base_name(head + seq![46u8, 46u8]) is None,
        name.len() > 0 && name != seq![46u8] && name != seq![46u8, 46u8] && !name.contains(47u8)
            ==> base_name(head + name) == Some(name),
{
    assert(name.push(47u8).drop_last() =~= name);
    let dot = seq![46u8];
    let dots = seq![46u8, 46u8];
    lemma_last_segment_of_tail(head, dot);
    assert((head + dot).drop_last() =~= head);
    lemma_last_segment_of_tail(head, dots);
    assert(dots != dot) by {
        assert(dots.len() != dot.len());
    }
    if name.len() > 0 && !name.contains(47u8) {
        lemma_last_segment_of_tail(head, name);
        assert(name.contains(name.last()));
    }
}

/// A name that begins with `/` stays as it is, whatever it is joined to. Any other is put behind
/// what it is joined to, both whole, with one `/` between the two where the first is not empty and
/// does not end in `/`.
pub proof fn law_join_puts_the_name_behind(base: Seq<u8>, name: Seq<u8>)
    ensures
        name.len() > 0 && name[0] == 47u8 ==> joined_path(base, name) == name,
        name.len() == 0 || name[0] != 47u8 ==> {
            &&& base.is_prefix_of(joined_path(base, name))
            &&& name.is_suffix_of(joined_path(base, name))
            &&& joined_path(base, name).len() == base.len() + name.len() + (if base.len() > 0
                && base.last() != 47u8 {
                1int
            } else {
                0
            })
            &&& base.len() > 0 && base.last() != 47u8 ==> joined_path(base, name)[base.len() as int]
                == 47u8
        },
{
    let path = joined_path(base, name);
    if name.len() == 0 || name[0] != 47u8 {
        assert(base =~= path.take(base.len() as int));
        assert(name =~= path.skip(path.len() - name.len()));
        assert(name.is_suffix_of(path));
    }
}

} // verus!
