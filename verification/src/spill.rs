//! Results too long to be shown whole: what is shown of them, and the files that hold the rest.
use vstd::prelude::*;
use vstd::utf8::{encode_scalar, encode_utf8, is_char_boundary, pop_first_scalar};

use crate::path::{joined_path, FilePath};
use crate::text::{
    decimal, decimal_text, law_decimal_spells_the_number, optional_str, readable,
};

verus! {

// ---- Cutting ----

/// The longest beginning of a text that takes no more than `cap` bytes.
pub open spec fn fitting(s: Seq<char>, cap: nat) -> Seq<char>
    decreases s.len(),
{
    if s.len() == 0 || encode_utf8(s).len() <= cap {
        s
    } else {
        fitting(s.drop_last(), cap)
    }
}

/// The encoding of two texts in a row is their encodings in a row.
pub(crate) proof fn lemma_encode_piecewise(a: Seq<char>, b: Seq<char>)
    ensures
        encode_utf8(a + b) == encode_utf8(a) + encode_utf8(b),
    decreases a.len(),
{
    if a.len() == 0 {
        assert(a + b == b);
        assert(encode_utf8(a + b) =~= encode_utf8(a) + encode_utf8(b));
    } else {
        lemma_encode_piecewise(a.drop_first(), b);
        assert((a + b).drop_first() == a.drop_first() + b);
        assert(encode_utf8(a + b) =~= encode_utf8(a) + encode_utf8(b));
    }
}

/// Where the encoding of a beginning ends, a character begins or the text ends.
proof fn lemma_prefix_ends_at_boundary(a: Seq<char>, b: Seq<char>)
    ensures
        is_char_boundary(encode_utf8(a + b), encode_utf8(a).len() as int),
    decreases a.len(),
{
    let bytes = encode_utf8(a + b);
    vstd::utf8::encode_utf8_valid_utf8(a + b);
    if a.len() > 0 {
        lemma_encode_piecewise(a, b);
        lemma_prefix_ends_at_boundary(a.drop_first(), b);
        vstd::utf8::encode_utf8_first_scalar(a + b);
        assert((a + b).drop_first() == a.drop_first() + b);
        assert(pop_first_scalar(bytes) =~= encode_utf8(a.drop_first() + b));
    }
}

/// One more character takes one to four more bytes.
proof fn lemma_one_more_char(s: Seq<char>, n: int)
    requires
        0 <= n < s.len(),
    ensures
        encode_utf8(s.take(n)).len() + 1 <= encode_utf8(s.take(n + 1)).len()
            <= encode_utf8(s.take(n)).len() + 4,
{
    let c = seq![s[n]];
    assert(s.take(n + 1) == s.take(n) + c);
    lemma_encode_piecewise(s.take(n), c);
    assert(encode_utf8(c) == encode_scalar(s[n] as u32) + encode_utf8(c.drop_first()));
    assert(encode_utf8(c.drop_first()).len() == 0);
}

/// A beginning that fits, while one more character would not, is the longest that fits.
proof fn lemma_longest_fitting(s: Seq<char>, cap: nat, n: int)
    requires
        0 <= n <= s.len(),
        encode_utf8(s.take(n)).len() <= cap,
        n < s.len() ==> encode_utf8(s.take(n + 1)).len() > cap,
    ensures
        fitting(s, cap) == s.take(n),
    decreases s.len(),
{
    if n == s.len() {
        assert(s.take(n) == s);
    } else {
        let head = s.drop_last();
        assert(head.take(n) == s.take(n));
        if n < head.len() {
            assert(head.take(n + 1) == s.take(n + 1));
        }
        lemma_longest_fitting(head, cap, n);
        lemma_longer_takes_more(s, n + 1, s.len() as int);
        assert(s.take(s.len() as int) == s);
    }
}

/// A longer beginning takes no fewer bytes.
proof fn lemma_longer_takes_more(s: Seq<char>, m: int, n: int)
    requires
        0 <= m <= n <= s.len(),
    ensures
        encode_utf8(s.take(m)).len() <= encode_utf8(s.take(n)).len(),
    decreases n - m,
{
    if m < n {
        lemma_one_more_char(s, n - 1);
        lemma_longer_takes_more(s, m, n - 1);
    }
}

/// The longest beginning of the text that takes no more than `cap` bytes.
pub fn truncate_to(s: &str, cap: usize) -> (text: &str)
    ensures
        text@ == fitting(s@, cap as nat),
{
    let bytes = s.as_bytes();
    if bytes.len() <= cap {
        return s;
    }
    let mut end: usize = cap;
    proof {
        vstd::utf8::encode_utf8_valid_utf8(s@);
        vstd::utf8::is_char_boundary_start_end_of_seq(bytes@);
    }
    while !s.is_char_boundary(end)
        invariant
            bytes@ == encode_utf8(s@),
            cap < bytes.len(),
            end <= cap,
            is_char_boundary(bytes@, 0),
            forall|j: int| end < j <= cap ==> !is_char_boundary(bytes@, j),
        decreases end,
    {
        end = end - 1;
    }
    let (text, rest) = s.split_at(end);
    proof {
        // The two parts are the text again, and the first ends where the search stopped.
        vstd::utf8::decode_utf8_split(bytes@, end as int);
        vstd::utf8::encode_utf8_decode_utf8(s@);
        vstd::utf8::encode_utf8_decode_utf8(text@);
        vstd::utf8::encode_utf8_decode_utf8(rest@);
        assert(s@ == text@ + rest@);
        let n = text@.len() as int;
        assert(s@.take(n) == text@);
        assert(encode_utf8(text@).len() == end);
        if n < s@.len() {
            let more = s@.take(n + 1);
            lemma_one_more_char(s@, n);
            assert(s@ == more + s@.skip(n + 1));
            lemma_prefix_ends_at_boundary(more, s@.skip(n + 1));
        }
        lemma_longest_fitting(s@, cap as nat, n);
    }
    text
}

// ---- Spilling ----

/// The name of a spill file, made of the process and the time.
pub open spec fn spill_name(pid: u32, nanos: u128) -> Seq<char> {
    "kaku_tool_"@ + decimal(pid as nat) + "_"@ + decimal(nanos as nat) + ".txt"@
}

/// The path of a spill file in the directory for temporary files. A clock that is before its epoch
/// counts as at it.
pub fn spill_path(temp_dir: &FilePath, pid: u32, nanos: Option<u128>) -> (path: FilePath)
    ensures
        path@ == joined_path(
            temp_dir@,
            encode_utf8(
                spill_name(
                    pid,
                    match nanos {
                        Some(n) => n,
                        None => 0,
                    },
                ),
            ),
        ),
{
    let time: u128 = match nanos {
        Some(n) => n,
        None => 0,
    };
    let mut name = "kaku_tool_".to_owned();
    name.append(decimal_text(pid as u128).as_str());
    name.append("_");
    name.append(decimal_text(time).as_str());
    name.append(".txt");
    temp_dir.join(name.as_str())
}

/// What is told behind a result that was cut: how much of it is shown, and where the whole of it is
/// where it could be written.
pub open spec fn cut_note(cap: nat, len: nat, spill: Option<Seq<char>>) -> Seq<char> {
    match spill {
        Some(path) => "\n[truncated: "@ + decimal(cap) + " of "@ + decimal(len) + " bytes shown]"@
            + "\n[spill: "@ + path + "]"@ + "\n[hint: use fs_read(\""@ + path
            + "\") to read the rest]"@,
        None => "\n[truncated: "@ + decimal(cap) + " bytes shown of "@ + decimal(len)
            + " total]"@,
    }
}

/// What is shown of a result.
pub open spec fn shown(result: Seq<char>, cap: nat, spill: Option<Seq<char>>) -> Seq<char> {
    if encode_utf8(result).len() <= cap {
        result
    } else {
        fitting(result, cap) + cut_note(cap, encode_utf8(result).len(), spill)
    }
}

/// Whether the result has to be cut, and the whole of it written to a spill file.
pub fn must_spill(result: &str, cap: usize) -> (yes: bool)
    ensures
        yes == (encode_utf8(result@).len() > cap),
{
    result.as_bytes().len() > cap
}

/// What is shown of a result whose spill file, where it has one, is at the path that the text
/// spells (see [`shown`]).
pub fn show_result(result: &str, cap: usize, spill: Option<&str>) -> (text: String)
    ensures
        text@ == shown(result@, cap as nat, optional_str(spill)),
{
    let len: usize = result.as_bytes().len();
    if len <= cap {
        return result.to_owned();
    }
    let mut text = truncate_to(result, cap).to_owned();
    text.append("\n[truncated: ");
    text.append(decimal_text(cap as u128).as_str());
    match spill {
        Some(path) => {
            text.append(" of ");
            text.append(decimal_text(len as u128).as_str());
            text.append(" bytes shown]");
            text.append("\n[spill: ");
            text.append(path);
            text.append("]");
            text.append("\n[hint: use fs_read(\"");
            text.append(path);
            text.append("\") to read the rest]");
        },
        None => {
            text.append(" bytes shown of ");
            text.append(decimal_text(len as u128).as_str());
            text.append(" total]");
        },
    }
    assert(text@ =~= shown(result@, cap as nat, optional_str(spill)));
    text
}

/// What became of the attempt to write a result to its spill file.
#[derive(Debug, Copy, Clone, PartialEq, Eq, Structural)]
pub enum SpillState {
    /// The file could not be created.
    Missing,
    /// The file was created, but does not hold the whole result.
    Partial,
    /// The file holds the whole result.
    Whole,
}

/// The paths as sequences of bytes.
pub open spec fn path_views(paths: Seq<FilePath>) -> Seq<Seq<u8>> {
    paths.map_values(|p: FilePath| p@)
}

/// The spill files that were created in this session and are still there, in the order in which
/// they were created.
#[derive(Debug)]
pub struct SpillFiles {
    paths: Vec<FilePath>,
}

impl View for SpillFiles {
    type V = Seq<Seq<u8>>;

    closed spec fn view(&self) -> Seq<Seq<u8>> {
        path_views(self.paths@)
    }
}

impl SpillFiles {
    /// None yet.
    pub fn new() -> (files: SpillFiles)
        ensures
            files@ == Seq::<Seq<u8>>::empty(),
    {
        let files = SpillFiles { paths: Vec::new() };
        assert(files@ =~= Seq::<Seq<u8>>::empty());
        files
    }
}

/// A result that was to be shown, and what became of its spill file.
pub struct SpillCall {
    pub result: Seq<char>,
    pub cap: nat,
    pub path: Seq<u8>,
    pub state: SpillState,
}

/// Whether a spill file was created for the result: it did not fit, and the file came to be,
/// whether or not it could then be written to its end.
pub open spec fn created(call: SpillCall) -> bool {
    encode_utf8(call.result).len() > call.cap && call.state != SpillState::Missing
}

/// The files to clean up, once the result was shown.
pub open spec fn remembered(before: Seq<Seq<u8>>, call: SpillCall) -> Seq<Seq<u8>> {
    if created(call) {
        before.push(call.path)
    } else {
        before
    }
}

/// Truncate `result` to `cap` bytes. When the result exceeds the cap, the full content is to be in
/// the file at `spill`, and `state` says what became of that. A file that was created is
/// remembered, so that it can be cleaned up. One that holds the whole result is named besides, so
/// that the model can `fs_read` it afterward.
pub fn truncate_and_spill(
    files: &mut SpillFiles,
    result: String,
    cap: usize,
    spill: &FilePath,
    state: SpillState,
) -> (text: String)
    ensures
        text@ == shown(
            result@,
            cap as nat,
            if state == SpillState::Whole {
                Some(readable(spill@))
            } else {
                None
            },
        ),
        final(files)@ == remembered(
            old(files)@,
            (SpillCall { result: result@, cap: cap as nat, path: spill@, state }),
        ),
{
    if !must_spill(result.as_str(), cap) {
        return result;
    }
    if state != SpillState::Missing {
        let path = spill.clone();
        files.paths.push(path);
        assert(files@ =~= old(files)@.push(spill@));
    }
    if state == SpillState::Whole {
        let place = spill.display();
        show_result(result.as_str(), cap, Some(place.as_str()))
    } else {
        show_result(result.as_str(), cap, None)
    }
}

/// Remove all temp spill files created during this session: gives the paths to remove, and forgets
/// them.
pub fn cleanup_spill_files(files: &mut SpillFiles) -> (paths: Vec<FilePath>)
    ensures
        path_views(paths@) == old(files)@,
        final(files)@ == Seq::<Seq<u8>>::empty(),
{
    let mut paths: Vec<FilePath> = Vec::new();
    paths.append(&mut files.paths);
    assert(path_views(paths@) =~= old(files)@);
    assert(files@ =~= Seq::<Seq<u8>>::empty());
    paths
}

// ---- Laws ----

/// What is kept of a text is a beginning of it and takes no more than `cap` bytes. Where the text
/// takes more, no more than three of the bytes that `cap` allows are left unused.
pub proof fn law_kept_text_fits(s: Seq<char>, cap: nat)
    ensures
        fitting(s, cap).is_prefix_of(s),
        encode_utf8(fitting(s, cap)).len() <= cap,
        encode_utf8(s).len() > cap ==> encode_utf8(fitting(s, cap)).len() + 3 >= cap,
    decreases s.len(),
{
    if s.len() > 0 && encode_utf8(s).len() > cap {
        law_kept_text_fits(s.drop_last(), cap);
        let n = s.len() - 1;
        assert(s.take(n) == s.drop_last());
        assert(s.take(n + 1) == s);
        lemma_one_more_char(s, n);
        assert(fitting(s, cap) =~= s.take(fitting(s, cap).len() as int)) by {
            let head = s.drop_last();
            assert(fitting(head, cap) =~= head.take(fitting(head, cap).len() as int));
        }
    }
}

/// A text that fits is kept whole and shown as it is, whether or not a file was written.
pub proof fn law_short_result_is_shown_whole(s: Seq<char>, cap: nat, spill: Option<Seq<char>>)
    requires
        encode_utf8(s).len() <= cap,
    ensures
        fitting(s, cap) == s,
        shown(s, cap, spill) == s,
{
}

/// The files to clean up after a run of calls that began with none.
pub open spec fn remembered_after(calls: Seq<SpillCall>) -> Seq<Seq<u8>>
    decreases calls.len(),
{
    if calls.len() == 0 {
        seq![]
    } else {
        remembered(remembered_after(calls.drop_last()), calls.last())
    }
}

/// What cleanup hands out after any calls is every file that was created since there were none,
/// that is, since the session began or since the last cleanup: each of them, in the order in which
/// they were created, and no other.
pub proof fn law_cleanup_hands_out_every_created_file(calls: Seq<SpillCall>)
    ensures
        remembered_after(calls) == calls.filter(|call: SpillCall| created(call)).map_values(
            |call: SpillCall| call.path,
        ),
        forall|i: int|
            0 <= i < calls.len() && created(#[trigger] calls[i]) ==> remembered_after(
                calls,
            ).contains(calls[i].path),
        forall|path: Seq<u8>| #[trigger]
            remembered_after(calls).contains(path) ==> exists|i: int|
                0 <= i < calls.len() && created(#[trigger] calls[i]) && calls[i].path == path,
    decreases calls.len(),
{
    let pred = |call: SpillCall| created(call);
    let path_of = |call: SpillCall| call.path;
    reveal(Seq::filter);
    if calls.len() > 0 {
        let head = calls.drop_last();
        let last = calls.last();
        law_cleanup_hands_out_every_created_file(head);
        let before = remembered_after(head);
        let after = remembered_after(calls);
        assert(after =~= calls.filter(pred).map_values(path_of));
        assert forall|i: int|
            0 <= i < calls.len() && created(#[trigger] calls[i]) implies after.contains(
            calls[i].path,
        ) by {
            if i < head.len() {
                assert(calls[i] == head[i]);
                assert(before.contains(head[i].path));
                let k = choose|k: int| 0 <= k < before.len() && before[k] == head[i].path;
                assert(after[k] == head[i].path);
            } else {
                assert(after[after.len() - 1] == last.path);
            }
        }
        assert forall|path: Seq<u8>| #[trigger] after.contains(path) implies exists|i: int|
            0 <= i < calls.len() && created(#[trigger] calls[i]) && calls[i].path == path by {
            if before.contains(path) {
                let i = choose|i: int|
                    0 <= i < head.len() && created(#[trigger] head[i]) && head[i].path == path;
                assert(calls[i] == head[i]);
            } else {
                let k = choose|k: int| 0 <= k < after.len() && after[k] == path;
                if k < before.len() {
                    assert(before[k] == path);
                }
                assert(calls[calls.len() - 1] == last);
            }
        }
    } else {
        assert(remembered_after(calls) =~= calls.filter(pred).map_values(path_of));
    }
}

/// What is kept of a text is the longest of its beginnings that fits: all of it, or so much that
/// one more character would be too much.
pub proof fn law_one_more_character_would_not_fit(s: Seq<char>, cap: nat)
    ensures
        fitting(s, cap).len() < s.len() ==> encode_utf8(
            s.take(fitting(s, cap).len() as int + 1),
        ).len() > cap,
    decreases s.len(),
{
    if s.len() > 0 && encode_utf8(s).len() > cap {
        let head = s.drop_last();
        let n = fitting(s, cap).len() as int;
        law_one_more_character_would_not_fit(head, cap);
        law_kept_text_fits(head, cap);
        if n < head.len() {
            assert(head.take(n + 1) =~= s.take(n + 1));
        } else {
            assert(s.take(n + 1) =~= s);
        }
    }
}

/// What is shown of a result that does not fit is the longest of its beginnings that does, and a
/// note that says how many bytes were allowed and how many there are. Where there is a file with
/// the whole result, the note names it, and how to read it.
pub proof fn law_long_result_is_cut_and_noted(
    result: Seq<char>,
    cap: nat,
    kept: Seq<char>,
    path: Seq<char>,
)
    requires
        encode_utf8(result).len() > cap,
        kept.is_prefix_of(result),
        kept.len() < result.len(),
        encode_utf8(kept).len() <= cap,
        encode_utf8(result.take(kept.len() as int + 1)).len() > cap,
    ensures
        shown(result, cap, None) == kept + "\n[truncated: "@ + decimal(cap)
            + " bytes shown of "@ + decimal(encode_utf8(result).len()) + " total]"@,
        shown(result, cap, Some(path)) == kept + "\n[truncated: "@ + decimal(cap) + " of "@
            + decimal(encode_utf8(result).len()) + " bytes shown]\n[spill: "@ + path
            + "]\n[hint: use fs_read(\""@ + path + "\") to read the rest]"@,
{
    let n = kept.len() as int;
    let len = encode_utf8(result).len();
    assert(kept =~= result.take(n));
    lemma_longest_fitting(result, cap, n);
    assert(shown(result, cap, None) =~= kept + "\n[truncated: "@ + decimal(cap)
        + " bytes shown of "@ + decimal(len) + " total]"@);
    reveal_strlit(" bytes shown]");
    reveal_strlit("\n[spill: ");
    reveal_strlit(" bytes shown]\n[spill: ");
    reveal_strlit("]");
    reveal_strlit("\n[hint: use fs_read(\"");
    reveal_strlit("]\n[hint: use fs_read(\"");
    assert(" bytes shown]"@ + "\n[spill: "@ =~= " bytes shown]\n[spill: "@);
    assert("]"@ + "\n[hint: use fs_read(\""@ =~= "]\n[hint: use fs_read(\""@);
    let start = kept + "\n[truncated: "@ + decimal(cap) + " of "@ + decimal(len);
    let end = "\") to read the rest]"@;
    assert(shown(result, cap, Some(path)) =~= start + (" bytes shown]"@ + "\n[spill: "@) + path + (
    "]"@ + "\n[hint: use fs_read(\""@) + path + end);
}

/// The name of a spill file tells the process and the time, in decimal.
pub proof fn law_spill_name_tells_process_and_time(pid: u32, nanos: u128)
    ensures
        spill_name(pid, nanos) == "kaku_tool_"@ + decimal(pid as nat) + "_"@ + decimal(
            nanos as nat,
        ) + ".txt"@,
{
}

/// Two processes, and one process at two times, have different spill files.
pub proof fn law_spill_names_differ(pid: u32, nanos: u128, other_pid: u32, other_nanos: u128)
    requires
        spill_name(pid, nanos) == spill_name(other_pid, other_nanos),
    ensures
        pid == other_pid,
        nanos == other_nanos,
{
    let a = decimal(pid as nat);
    let b = decimal(nanos as nat);
    let c = decimal(other_pid as nat);
    let d = decimal(other_nanos as nat);
    law_decimal_spells_the_number(pid as nat);
    law_decimal_spells_the_number(nanos as nat);
    law_decimal_spells_the_number(other_pid as nat);
    law_decimal_spells_the_number(other_nanos as nat);
    reveal_strlit("kaku_tool_");
    reveal_strlit("_");
    reveal_strlit(".txt");
    let x = spill_name(pid, nanos);
    let y = spill_name(other_pid, other_nanos);
    // The first underscore behind the fixed beginning ends the process in both names.
    assert(x[10 + a.len() as int] == '_');
    assert(y[10 + c.len() as int] == '_');
    assert(forall|i: int| 0 <= i < a.len() ==> x[10 + i] == a[i]);
    assert(forall|i: int| 0 <= i < c.len() ==> y[10 + i] == c[i]);
    if a.len() < c.len() {
        assert('0' <= c[a.len() as int] <= '9');
    }
    if c.len() < a.len() {
        assert('0' <= a[c.len() as int] <= '9');
    }
    assert(a.len() == c.len());
    assert forall|i: int| 0 <= i < a.len() implies a[i] == c[i] by {
        assert(x[10 + i] == y[10 + i]);
    }
    assert(a =~= c);
    assert(x.len() == 15 + a.len() + b.len());
    assert(y.len() == 15 + c.len() + d.len());
    assert forall|i: int| 0 <= i < b.len() implies b[i] == d[i] by {
        assert(x[11 + a.len() + i] == b[i]);
        assert(y[11 + c.len() + i] == d[i]);
    }
    assert(b =~= d);
}

/// A file is created for a result exactly where the result is too long and the file came to be,
/// whole or in part. It is then remembered behind those that were, and otherwise nothing is.
pub proof fn law_created_files_are_remembered(before: Seq<Seq<u8>>, call: SpillCall)
    ensures
        created(call) <==> encode_utf8(call.result).len() > call.cap && (call.state
            == SpillState::Partial || call.state == SpillState::Whole),
        created(call) ==> remembered(before, call) == before + seq![call.path],
        !created(call) ==> remembered(before, call) == before,
{
    assert(before.push(call.path) =~= before + seq![call.path]);
}

/// Paths are seen as their bytes, one for one.
pub proof fn law_paths_are_seen_one_for_one(paths: Seq<FilePath>)
    ensures
        path_views(paths).len() == paths.len(),
        forall|i: int| 0 <= i < paths.len() ==> #[trigger] path_views(paths)[i] == paths[i].bytes@,
{
}

} // verus!
