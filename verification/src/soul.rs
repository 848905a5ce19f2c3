//! The files in which the user has set down who the assistant is and what it is to remember.
use vstd::prelude::*;
use vstd::string::StringSliceAdditionalSpecFns;
use vstd::utf8::encode_utf8;

use crate::error::{outcome, ErrorView, ToolError};
use crate::path::{joined_path, FilePath};
use crate::spill::lemma_encode_piecewise;
use crate::text::{
    blank, is_blank, join, joined, law_trimmed_end_loses_white_space_alone, optional_view,
    same_text, trim_end, trimmed_end, views, white_space,
};

verus! {

/// One of the files.
#[derive(Debug, Copy, Clone, PartialEq, Eq, Structural)]
pub enum SoulFile {
    Soul,
    Style,
    Skill,
    Memory,
}

/// Where the files are.
#[derive(Debug)]
pub struct SoulPaths {
    pub soul: FilePath,
    pub style: FilePath,
    pub skill: FilePath,
    pub memory: FilePath,
}

/// What the files hold, as far as they could be read.
#[derive(Debug)]
pub struct SoulContents {
    pub soul: Option<String>,
    pub style: Option<String>,
    pub skill: Option<String>,
    pub memory: Option<String>,
}

impl SoulPaths {
    /// Where the file is.
    pub open spec fn path_of(self, file: SoulFile) -> FilePath {
        match file {
            SoulFile::Soul => self.soul,
            SoulFile::Style => self.style,
            SoulFile::Skill => self.skill,
            SoulFile::Memory => self.memory,
        }
    }

    /// Where the file is.
    pub fn path(&self, file: SoulFile) -> (path: &FilePath)
        ensures
            *path == self.path_of(file),
    {
        match file {
            SoulFile::Soul => &self.soul,
            SoulFile::Style => &self.style,
            SoulFile::Skill => &self.skill,
            SoulFile::Memory => &self.memory,
        }
    }
}

impl SoulContents {
    /// What the file holds, if it could be read.
    pub open spec fn content_of(self, file: SoulFile) -> Option<Seq<char>> {
        match file {
            SoulFile::Soul => optional_view(self.soul),
            SoulFile::Style => optional_view(self.style),
            SoulFile::Skill => optional_view(self.skill),
            SoulFile::Memory => optional_view(self.memory),
        }
    }
}

/// Path to the per-user memory file shared between the overlay and the CLI curator.
pub fn memory_file_path(paths: &SoulPaths) -> (path: FilePath)
    ensures
        path@ == paths.path_of(SoulFile::Memory)@,
{
    paths.memory.clone()
}

// ---- Onboarding ----

/// The path of the file whose presence tells that the user has seen the greeting: below the
/// configuration directory where one is set, else below `.config` in the home directory, or in the
/// current one where there is no home.
pub open spec fn onboarding_flag(config_home: Option<Seq<u8>>, home: Option<Seq<u8>>) -> Seq<u8> {
    let base = match config_home {
        Some(dir) => dir,
        None => joined_path(
            match home {
                Some(dir) => dir,
                None => ".".spec_bytes(),
            },
            ".config".spec_bytes(),
        ),
    };
    joined_path(joined_path(base, "kaku".spec_bytes()), "ai_chat_onboarded".spec_bytes())
}

/// A path that may be missing, byte by byte.
pub open spec fn optional_bytes(path: Option<&FilePath>) -> Option<Seq<u8>> {
    match path {
        Some(p) => Some(p@),
        None => None,
    }
}

/// Presence of this file indicates the user has already seen the onboarding greeting.
pub fn onboarding_flag_path(config_home: Option<&FilePath>, home: Option<&FilePath>) -> (path:
    FilePath)
    ensures
        path@ == onboarding_flag(optional_bytes(config_home), optional_bytes(home)),
{
    match config_home {
        Some(dir) => dir.join("kaku").join("ai_chat_onboarded"),
        None => {
            let base = match home {
                Some(dir) => dir.join(".config"),
                None => FilePath::from_text(".").join(".config"),
            };
            base.join("kaku").join("ai_chat_onboarded")
        },
    }
}

// ---- Reading ----

/// The heading of the file.
pub open spec fn label(file: SoulFile) -> Seq<char> {
    match file {
        SoulFile::Soul => "SOUL"@,
        SoulFile::Style => "STYLE"@,
        SoulFile::Skill => "SKILL"@,
        SoulFile::Memory => "MEMORY"@,
    }
}

/// The heading of the file.
fn label_text(file: SoulFile) -> (text: &'static str)
    ensures
        text@ == label(file),
{
    match file {
        SoulFile::Soul => "SOUL",
        SoulFile::Style => "STYLE",
        SoulFile::Skill => "SKILL",
        SoulFile::Memory => "MEMORY",
    }
}

/// What is told of a file: its heading and what it holds. Nothing where it holds white space only,
/// or could not be read.
pub open spec fn section(file: SoulFile, content: Option<Seq<char>>) -> Seq<char> {
    match content {
        Some(text) => if blank(text) {
            seq![]
        } else {
            "## "@ + label(file) + "\n\n"@ + trimmed_end(text)
        },
        None => seq![],
    }
}

/// What is told of a file (see [`section`]).
pub fn read_soul_file(file: SoulFile, content: &Option<String>) -> (text: String)
    ensures
        text@ == section(file, optional_view(*content)),
{
    match content {
        Some(c) => {
            if is_blank(c.as_str()) {
                String::new()
            } else {
                let mut text = "## ".to_owned();
                text.append(label_text(file));
                text.append("\n\n");
                text.append(trim_end(c.as_str()).as_str());
                text
            }
        },
        None => String::new(),
    }
}

/// The one file that the name stands for; any other name stands for all of them.
pub open spec fn named_file(name: Seq<char>) -> Option<SoulFile> {
    if name == "soul"@ {
        Some(SoulFile::Soul)
    } else if name == "style"@ {
        Some(SoulFile::Style)
    } else if name == "skill"@ {
        Some(SoulFile::Skill)
    } else if name == "memory"@ {
        Some(SoulFile::Memory)
    } else {
        None
    }
}

/// The one file that the name stands for (see [`named_file`]).
fn file_named(name: &str) -> (file: Option<SoulFile>)
    ensures
        file == named_file(name@),
{
    if same_text(name, "soul") {
        Some(SoulFile::Soul)
    } else if same_text(name, "style") {
        Some(SoulFile::Style)
    } else if same_text(name, "skill") {
        Some(SoulFile::Skill)
    } else if same_text(name, "memory") {
        Some(SoulFile::Memory)
    } else {
        None
    }
}

/// The files that have to be read for the name.
pub open spec fn wanted(name: Seq<char>) -> Seq<SoulFile> {
    match named_file(name) {
        Some(file) => seq![file],
        None => seq![SoulFile::Soul, SoulFile::Style, SoulFile::Skill, SoulFile::Memory],
    }
}

/// The files that have to be read for the name (see [`wanted`]).
pub fn wanted_files(name: &str) -> (files: Vec<SoulFile>)
    ensures
        files@ == wanted(name@),
{
    let mut files: Vec<SoulFile> = Vec::new();
    match file_named(name) {
        Some(file) => files.push(file),
        None => {
            files.push(SoulFile::Soul);
            files.push(SoulFile::Style);
            files.push(SoulFile::Skill);
            files.push(SoulFile::Memory);
        },
    }
    assert(files@ =~= wanted(name@));
    files
}

/// The sections of the files, those that are empty left out.
pub open spec fn sections(files: Seq<SoulFile>, contents: SoulContents) -> Seq<Seq<char>>
    decreases files.len(),
{
    if files.len() == 0 {
        seq![]
    } else {
        let text = section(files.last(), contents.content_of(files.last()));
        let before = sections(files.drop_last(), contents);
        if text.len() > 0 {
            before.push(text)
        } else {
            before
        }
    }
}

/// What is told of the files that the name stands for, with a rule between each two.
pub open spec fn soul_text(name: Seq<char>, contents: SoulContents) -> Seq<char> {
    joined(sections(wanted(name), contents), "\n\n---\n\n"@)
}

/// What is told of the files that the name stands for (see [`soul_text`]).
pub fn exec_soul_read(file: &str, contents: &SoulContents) -> (result: Result<String, ToolError>)
    ensures
        outcome(result) == Ok::<Seq<char>, ErrorView>(soul_text(file@, *contents)),
{
    let files = wanted_files(file);
    let mut parts: Vec<String> = Vec::new();
    let mut i: usize = 0;
    assert(views(parts@) =~= sections(files@.take(0), *contents));
    while i < files.len()
        invariant
            i <= files.len(),
            views(parts@) == sections(files@.take(i as int), *contents),
        decreases files.len() - i,
    {
        let text = match files[i] {
            SoulFile::Soul => read_soul_file(SoulFile::Soul, &contents.soul),
            SoulFile::Style => read_soul_file(SoulFile::Style, &contents.style),
            SoulFile::Skill => read_soul_file(SoulFile::Skill, &contents.skill),
            SoulFile::Memory => read_soul_file(SoulFile::Memory, &contents.memory),
        };
        assert(files@.take(i + 1).drop_last() == files@.take(i as int));
        let ghost before = parts@;
        if !text.as_str().is_empty() {
            parts.push(text);
            assert(views(parts@) =~= views(before).push(text@));
        }
        i = i + 1;
    }
    assert(files@.take(i as int) == files@);
    Ok(join(&parts, "\n\n---\n\n"))
}

// ---- Laws ----

/// What is told depends on the files that the name stands for, and on no other.
pub proof fn law_only_wanted_files_are_told(name: Seq<char>, a: SoulContents, b: SoulContents)
    requires
        forall|i: int|
            0 <= i < wanted(name).len() ==> a.content_of(#[trigger] wanted(name)[i])
                == b.content_of(wanted(name)[i]),
    ensures
        soul_text(name, a) == soul_text(name, b),
{
    lemma_same_sections(wanted(name), a, b);
}

proof fn lemma_same_sections(files: Seq<SoulFile>, a: SoulContents, b: SoulContents)
    requires
        forall|i: int|
            0 <= i < files.len() ==> a.content_of(#[trigger] files[i]) == b.content_of(files[i]),
    ensures
        sections(files, a) == sections(files, b),
    decreases files.len(),
{
    if files.len() > 0 {
        assert forall|i: int| 0 <= i < files.drop_last().len() implies a.content_of(
            #[trigger] files.drop_last()[i],
        ) == b.content_of(files.drop_last()[i]) by {
            assert(files.drop_last()[i] == files[i]);
        }
        lemma_same_sections(files.drop_last(), a, b);
        assert(a.content_of(files[files.len() - 1]) == b.content_of(files[files.len() - 1]));
    }
}

/// A name that stands for one file tells just the section of that file.
pub proof fn law_named_file_tells_its_section(name: Seq<char>, contents: SoulContents)
    requires
        named_file(name) is Some,
    ensures
        soul_text(name, contents) == section(
            named_file(name)->0,
            contents.content_of(named_file(name)->0),
        ),
{
    let file = named_file(name)->0;
    let text = section(file, contents.content_of(file));
    let files = seq![file];
    assert(wanted(name) == files);
    assert(files.drop_last() == Seq::<SoulFile>::empty());
    assert(sections(files.drop_last(), contents) == Seq::<Seq<char>>::empty());
    if text.len() > 0 {
        assert(sections(files, contents) =~= seq![text]);
    } else {
        assert(text =~= seq![]);
    }
}

/// The heading that a file is told under.
pub open spec fn heading(file: SoulFile) -> Seq<char> {
    match file {
        SoulFile::Soul => "## SOUL\n\n"@,
        SoulFile::Style => "## STYLE\n\n"@,
        SoulFile::Skill => "## SKILL\n\n"@,
        SoulFile::Memory => "## MEMORY\n\n"@,
    }
}

/// What is told of a file that holds more than white space is its heading and then what it holds,
/// from its first character to its last that is no white space: nothing is left out but the white
/// space at its end.
pub proof fn law_section_loses_trailing_white_space_alone(
    file: SoulFile,
    content: Seq<char>,
    kept: Seq<char>,
)
    requires
        kept.is_prefix_of(content),
        kept.len() > 0,
        !white_space(kept.last()),
        forall|i: int| kept.len() <= i < content.len() ==> white_space(#[trigger] content[i]),
    ensures
        section(file, Some(content)) == heading(file) + kept,
{
    law_trimmed_end_loses_white_space_alone(content);
    let trimmed = trimmed_end(content);
    assert(kept =~= content.take(kept.len() as int));
    assert(trimmed =~= content.take(trimmed.len() as int));
    assert(content[kept.len() - 1] == kept.last());
    assert(!blank(content)) by {
        assert(!white_space(content[kept.len() - 1]));
    }
    if trimmed.len() > 0 {
        assert(content[trimmed.len() - 1] == trimmed.last());
    }
    assert(kept.len() == trimmed.len());
    lemma_headings(file);
    assert(section(file, Some(content)) =~= heading(file) + kept);
}

proof fn lemma_headings(file: SoulFile)
    ensures
        "## "@ + label(file) + "\n\n"@ == heading(file),
{
    reveal_strlit("## ");
    reveal_strlit("\n\n");
    reveal_strlit("SOUL");
    reveal_strlit("STYLE");
    reveal_strlit("SKILL");
    reveal_strlit("MEMORY");
    reveal_strlit("## SOUL\n\n");
    reveal_strlit("## STYLE\n\n");
    reveal_strlit("## SKILL\n\n");
    reveal_strlit("## MEMORY\n\n");
    assert("## "@ + label(file) + "\n\n"@ =~= heading(file));
}

/// Whatever a file holds that is more than white space, something of it is told; of a file that
/// holds white space only, or could not be read, nothing is.
pub proof fn law_section_is_told_where_there_is_something(file: SoulFile, content: Seq<char>)
    ensures
        section(file, None).len() == 0,
        section(file, Some(content)).len() == 0 <==> forall|i: int|
            0 <= i < content.len() ==> white_space(#[trigger] content[i]),
{
    reveal_strlit("## ");
}

/// Each of four names stands for its own file, and what is told of it is told under that name
/// alone.
pub proof fn law_each_name_tells_its_own_file(contents: SoulContents)
    ensures
        soul_text("soul"@, contents) == section(SoulFile::Soul, optional_view(contents.soul)),
        soul_text("style"@, contents) == section(SoulFile::Style, optional_view(contents.style)),
        soul_text("skill"@, contents) == section(SoulFile::Skill, optional_view(contents.skill)),
        soul_text("memory"@, contents) == section(
            SoulFile::Memory,
            optional_view(contents.memory),
        ),
{
    lemma_names_differ();
    law_named_file_tells_its_section("soul"@, contents);
    law_named_file_tells_its_section("style"@, contents);
    law_named_file_tells_its_section("skill"@, contents);
    law_named_file_tells_its_section("memory"@, contents);
}

proof fn lemma_names_differ()
    ensures
        named_file("soul"@) == Some(SoulFile::Soul),
        named_file("style"@) == Some(SoulFile::Style),
        named_file("skill"@) == Some(SoulFile::Skill),
        named_file("memory"@) == Some(SoulFile::Memory),
{
    reveal_strlit("soul");
    reveal_strlit("style");
    reveal_strlit("skill");
    reveal_strlit("memory");
    assert("soul"@.len() != "style"@.len() && "soul"@.len() != "skill"@.len());
    assert("soul"@.len() != "memory"@.len() && "style"@.len() != "memory"@.len());
    assert("skill"@.len() != "memory"@.len());
    assert("style"@[1] == 't' && "skill"@[1] == 'k');
}

/// The text by itself, where there is any.
pub open spec fn if_any(text: Seq<char>) -> Seq<Seq<char>> {
    if text.len() > 0 {
        seq![text]
    } else {
        seq![]
    }
}

/// Any other name stands for all four files: what is told of each is told, in one order and with a
/// rule between each two, but for those of which there is nothing to tell.
pub proof fn law_other_names_tell_all_files(name: Seq<char>, contents: SoulContents)
    requires
        name != "soul"@,
        name != "style"@,
        name != "skill"@,
        name != "memory"@,
    ensures
        soul_text(name, contents) == joined(
            if_any(section(SoulFile::Soul, optional_view(contents.soul))) + if_any(
                section(SoulFile::Style, optional_view(contents.style)),
            ) + if_any(section(SoulFile::Skill, optional_view(contents.skill))) + if_any(
                section(SoulFile::Memory, optional_view(contents.memory)),
            ),
            "\n\n---\n\n"@,
        ),
{
    let one = seq![SoulFile::Soul];
    let two = seq![SoulFile::Soul, SoulFile::Style];
    let three = seq![SoulFile::Soul, SoulFile::Style, SoulFile::Skill];
    let all = seq![SoulFile::Soul, SoulFile::Style, SoulFile::Skill, SoulFile::Memory];
    assert(one.drop_last() =~= Seq::<SoulFile>::empty());
    assert(two.drop_last() =~= one);
    assert(three.drop_last() =~= two);
    assert(all.drop_last() =~= three);
    assert(wanted(name) == all);
    let a = if_any(section(SoulFile::Soul, optional_view(contents.soul)));
    let b = if_any(section(SoulFile::Style, optional_view(contents.style)));
    let c = if_any(section(SoulFile::Skill, optional_view(contents.skill)));
    let d = if_any(section(SoulFile::Memory, optional_view(contents.memory)));
    assert(sections(one.drop_last(), contents) == Seq::<Seq<char>>::empty());
    assert(sections(one, contents) =~= a);
    assert(sections(two, contents) =~= a + b);
    assert(sections(three, contents) =~= a + b + c);
    assert(sections(all, contents) =~= a + b + c + d);
}

/// The files that have to be read are the one that a name stands for, or all of them in the order
/// in which they are told.
pub proof fn law_wanted_files_are_those_told(name: Seq<char>)
    ensures
        wanted("soul"@) == seq![SoulFile::Soul],
        wanted("style"@) == seq![SoulFile::Style],
        wanted("skill"@) == seq![SoulFile::Skill],
        wanted("memory"@) == seq![SoulFile::Memory],
        name != "soul"@ && name != "style"@ && name != "skill"@ && name != "memory"@ ==> wanted(
            name,
        ) == seq![SoulFile::Soul, SoulFile::Style, SoulFile::Skill, SoulFile::Memory],
{
    lemma_names_differ();
}

/// Each file has its own place and its own content.
pub proof fn law_files_have_their_own_place_and_content(
    paths: SoulPaths,
    contents: SoulContents,
    path: &FilePath,
)
    ensures
        paths.path_of(SoulFile::Soul) == paths.soul,
        paths.path_of(SoulFile::Style) == paths.style,
        paths.path_of(SoulFile::Skill) == paths.skill,
        paths.path_of(SoulFile::Memory) == paths.memory,
        contents.content_of(SoulFile::Soul) == optional_view(contents.soul),
        contents.content_of(SoulFile::Style) == optional_view(contents.style),
        contents.content_of(SoulFile::Skill) == optional_view(contents.skill),
        contents.content_of(SoulFile::Memory) == optional_view(contents.memory),
        optional_bytes(Some(path)) == Some(path@),
        optional_bytes(None) == None::<Seq<u8>>,
{
}

/// The directory with a separator at its end, where it is not empty and has none.
pub open spec fn with_separator(dir: Seq<u8>) -> Seq<u8> {
    if dir.len() == 0 || dir.last() == 47u8 {
        dir
    } else {
        dir.push(47u8)
    }
}

/// The flag is at a fixed place below the configuration directory, whatever the home is. Where none
/// is set, it is below the home directory, or the current one.
pub proof fn law_onboarding_flag_is_below_its_directory(dir: Seq<u8>, home: Option<Seq<u8>>)
    ensures
        onboarding_flag(Some(dir), home) == with_separator(dir) + encode_utf8(
            "kaku/ai_chat_onboarded"@,
        ),
        onboarding_flag(None, Some(dir)) == with_separator(dir) + encode_utf8(
            ".config/kaku/ai_chat_onboarded"@,
        ),
        onboarding_flag(None, None) == encode_utf8("./.config/kaku/ai_chat_onboarded"@),
{
    let kaku = "kaku"@;
    let flag = "ai_chat_onboarded"@;
    let config = ".config"@;
    let dot = "."@;
    reveal_strlit("kaku");
    reveal_strlit("ai_chat_onboarded");
    reveal_strlit(".config");
    reveal_strlit(".");
    reveal_strlit("kaku/ai_chat_onboarded");
    reveal_strlit(".config/kaku/ai_chat_onboarded");
    reveal_strlit("./.config/kaku/ai_chat_onboarded");
    lemma_slash();
    vstd::utf8::is_ascii_chars_encode_utf8(kaku);
    vstd::utf8::is_ascii_chars_encode_utf8(flag);
    vstd::utf8::is_ascii_chars_encode_utf8(config);
    vstd::utf8::is_ascii_chars_encode_utf8(dot);
    assert(kaku[0] == 'k' && kaku[3] == 'u' && flag[0] == 'a' && dot[0] == '.');
    assert(config[0] == '.' && config[6] == 'g');
    let slash = seq!['/'];
    // The fixed end of each path, put together.
    assert(kaku + slash + flag =~= "kaku/ai_chat_onboarded"@);
    lemma_encode_piecewise(kaku + slash, flag);
    lemma_encode_piecewise(kaku, slash);
    let tail = encode_utf8(kaku).push(47u8) + encode_utf8(flag);
    assert(encode_utf8("kaku/ai_chat_onboarded"@) =~= tail);
    assert(config + slash + "kaku/ai_chat_onboarded"@ =~= ".config/kaku/ai_chat_onboarded"@);
    lemma_encode_piecewise(config + slash, "kaku/ai_chat_onboarded"@);
    lemma_encode_piecewise(config, slash);
    let longer = encode_utf8(config).push(47u8) + tail;
    assert(encode_utf8(".config/kaku/ai_chat_onboarded"@) =~= longer);
    assert(dot + slash + ".config/kaku/ai_chat_onboarded"@
        =~= "./.config/kaku/ai_chat_onboarded"@);
    lemma_encode_piecewise(dot + slash, ".config/kaku/ai_chat_onboarded"@);
    lemma_encode_piecewise(dot, slash);
    assert(encode_utf8("./.config/kaku/ai_chat_onboarded"@) =~= encode_utf8(dot).push(47u8)
        + longer);
    // The paths, joined step by step.
    lemma_below(dir, kaku, flag);
    let home_config = joined_path(dir, encode_utf8(config));
    assert(home_config =~= with_separator(dir) + encode_utf8(config));
    lemma_below(home_config, kaku, flag);
    assert(home_config.last() == encode_utf8(config).last());
    assert(onboarding_flag(None, Some(dir)) =~= with_separator(dir) + longer);
    let here_config = joined_path(encode_utf8(dot), encode_utf8(config));
    assert(here_config =~= encode_utf8(dot).push(47u8) + encode_utf8(config));
    lemma_below(here_config, kaku, flag);
    assert(here_config.last() == encode_utf8(config).last());
    assert(onboarding_flag(None, None) =~= encode_utf8(dot).push(47u8) + longer);
}

proof fn lemma_slash()
    ensures
        encode_utf8(seq!['/']) == seq![47u8],
{
    let slash = seq!['/'];
    vstd::utf8::is_ascii_chars_encode_utf8(slash);
    assert(slash[0] == '/');
    assert(encode_utf8(slash) =~= seq![47u8]);
}

/// Two relative names joined one after the other.
proof fn lemma_below(dir: Seq<u8>, a: Seq<char>, b: Seq<char>)
    requires
        encode_utf8(a).len() > 0,
        encode_utf8(a)[0] != 47u8,
        encode_utf8(a).last() != 47u8,
        encode_utf8(b).len() > 0,
        encode_utf8(b)[0] != 47u8,
    ensures
        joined_path(joined_path(dir, encode_utf8(a)), encode_utf8(b)) == with_separator(dir)
            + encode_utf8(a).push(47u8) + encode_utf8(b),
{
    let first = joined_path(dir, encode_utf8(a));
    assert(first =~= with_separator(dir) + encode_utf8(a));
    assert(first.last() == encode_utf8(a).last());
    assert(joined_path(first, encode_utf8(b)) =~= with_separator(dir) + encode_utf8(a).push(47u8)
        + encode_utf8(b));
}

} // verus!
