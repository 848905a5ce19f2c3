use kaku_tools::path::FilePath;
use kaku_tools::soul::{
    exec_soul_read, memory_file_path, onboarding_flag_path, wanted_files, SoulContents, SoulFile,
    SoulPaths,
};
use kaku_tools::spill::{
    cleanup_spill_files, must_spill, show_result, spill_path, truncate_and_spill, truncate_to,
    SpillFiles, SpillState,
};
use std::path::Path;

fn contents() -> SoulContents {
    SoulContents {
        soul: Some("be kind\n\n".to_string()),
        style: Some("  \n".to_string()),
        skill: None,
        memory: Some("  likes tea ".to_string()),
    }
}

#[test]
fn named_soul_file_is_told_alone() {
    let c = contents();
    assert_eq!(exec_soul_read("soul", &c).unwrap(), "## SOUL\n\nbe kind");
    assert_eq!(exec_soul_read("style", &c).unwrap(), "");
    assert_eq!(exec_soul_read("skill", &c).unwrap(), "");
    assert_eq!(exec_soul_read("memory", &c).unwrap(), "## MEMORY\n\n  likes tea");
}

#[test]
fn all_soul_files_are_told_but_the_empty_ones() {
    assert_eq!(
        exec_soul_read("all", &contents()).unwrap(),
        "## SOUL\n\nbe kind\n\n---\n\n## MEMORY\n\n  likes tea"
    );
    let full = SoulContents {
        soul: Some("1".to_string()),
        style: Some("2".to_string()),
        skill: Some("3".to_string()),
        memory: Some("4".to_string()),
    };
    assert_eq!(
        exec_soul_read("", &full).unwrap(),
        "## SOUL\n\n1\n\n---\n\n## STYLE\n\n2\n\n---\n\n## SKILL\n\n3\n\n---\n\n## MEMORY\n\n4"
    );
}

#[test]
fn only_wanted_soul_files_are_read() {
    assert_eq!(wanted_files("skill"), vec![SoulFile::Skill]);
    assert_eq!(
        wanted_files("everything"),
        vec![SoulFile::Soul, SoulFile::Style, SoulFile::Skill, SoulFile::Memory]
    );
    let mut c = contents();
    c.soul = Some("changed".to_string());
    assert_eq!(exec_soul_read("memory", &c).unwrap(), "## MEMORY\n\n  likes tea");
}

#[test]
fn soul_paths_are_told_apart() {
    let paths = SoulPaths {
        soul: FilePath::from_text("/s"),
        style: FilePath::from_text("/t"),
        skill: FilePath::from_text("/k"),
        memory: FilePath::from_text("/m"),
    };
    assert_eq!(memory_file_path(&paths).display(), "/m");
    assert_eq!(paths.path(SoulFile::Soul).display(), "/s");
    assert_eq!(paths.path(SoulFile::Style).display(), "/t");
    assert_eq!(paths.path(SoulFile::Skill).display(), "/k");
    assert_eq!(paths.path(SoulFile::Memory).display(), "/m");
}

#[test]
fn onboarding_flag_is_below_the_configuration() {
    let flag = |config: Option<&str>, home: Option<&str>| {
        onboarding_flag_path(
            config.map(FilePath::from_text).as_ref(),
            home.map(FilePath::from_text).as_ref(),
        )
        .display()
    };
    assert_eq!(flag(Some("/x"), Some("/h")), "/x/kaku/ai_chat_onboarded");
    assert_eq!(flag(Some(""), Some("/h")), "kaku/ai_chat_onboarded");
    assert_eq!(flag(None, Some("/h/")), "/h/.config/kaku/ai_chat_onboarded");
    assert_eq!(flag(None, None), "./.config/kaku/ai_chat_onboarded");
    let std_path = Path::new("/h").join(".config").join("kaku").join("ai_chat_onboarded");
    assert_eq!(flag(None, Some("/h")), std_path.to_str().unwrap());
}

#[test]
fn text_is_cut_between_characters() {
    let s = "aé\u{1F600}z";
    let expected = ["", "a", "a", "aé", "aé", "aé", "aé", "aé\u{1F600}", s, s];
    for (cap, kept) in expected.iter().enumerate() {
        assert_eq!(truncate_to(s, cap), *kept, "{}", cap);
    }
}

#[test]
fn cut_text_wastes_three_bytes_at_most() {
    let s = "\u{1F600}é€a".repeat(20);
    for cap in 0..s.len() {
        let kept = truncate_to(&s, cap);
        assert!(s.starts_with(kept));
        assert!(kept.len() <= cap && cap <= kept.len() + 3);
    }
}

#[test]
fn short_results_are_shown_whole() {
    let mut files = SpillFiles::new();
    let path = FilePath::from_text("/tmp/f");
    assert!(!must_spill("abc", 3));
    assert_eq!(truncate_and_spill(&mut files, "abc".to_string(), 3, &path, SpillState::Whole), "abc");
    assert!(cleanup_spill_files(&mut files).is_empty());
}

#[test]
fn long_results_name_their_spill_file() {
    let mut files = SpillFiles::new();
    let path = FilePath { bytes: vec![b'/', b't', 0xff] };
    assert!(must_spill("abcdé", 5));
    assert_eq!(
        truncate_and_spill(&mut files, "abcdé".to_string(), 5, &path, SpillState::Whole),
        "abcd\n[truncated: 5 of 6 bytes shown]\n[spill: /t\u{fffd}]\n[hint: use fs_read(\"/t\u{fffd}\") to read the rest]"
    );
    assert_eq!(
        truncate_and_spill(&mut files, "abcdé".to_string(), 5, &path, SpillState::Missing),
        "abcd\n[truncated: 5 bytes shown of 6 total]"
    );
    assert_eq!(
        show_result("abcdef", 2, None),
        "ab\n[truncated: 2 bytes shown of 6 total]"
    );
    let left = cleanup_spill_files(&mut files);
    assert_eq!(left.len(), 1);
    assert_eq!(left[0].bytes, vec![b'/', b't', 0xff]);
    assert!(cleanup_spill_files(&mut files).is_empty());
}

#[test]
fn spill_files_are_cleaned_up_in_order() {
    let mut files = SpillFiles::new();
    for i in 0..3 {
        let path = FilePath::from_text(&format!("/tmp/{}", i));
        truncate_and_spill(&mut files, "long".to_string(), 1, &path, SpillState::Whole);
    }
    let left: Vec<String> = cleanup_spill_files(&mut files).iter().map(|p| p.display()).collect();
    assert_eq!(left, vec!["/tmp/0", "/tmp/1", "/tmp/2"]);
}

#[test]
fn spill_paths_hold_process_and_time() {
    let dir = FilePath::from_text("/tmp");
    assert_eq!(
        spill_path(&dir, 42, Some(1700000000123456789)).display(),
        "/tmp/kaku_tool_42_1700000000123456789.txt"
    );
    assert_eq!(spill_path(&dir, 42, None).display(), "/tmp/kaku_tool_42_0.txt");
}

#[test]
fn files_not_written_to_their_end_are_cleaned_up_but_not_named() {
    let mut files = SpillFiles::new();
    let path = FilePath::from_text("/tmp/half");
    assert_eq!(
        truncate_and_spill(&mut files, "abcdef".to_string(), 2, &path, SpillState::Partial),
        "ab\n[truncated: 2 bytes shown of 6 total]"
    );
    let left = cleanup_spill_files(&mut files);
    assert_eq!(left.len(), 1);
    assert_eq!(left[0].display(), "/tmp/half");
    assert!(cleanup_spill_files(&mut files).is_empty());
}

#[test]
fn cleanup_hands_out_every_created_file() {
    let mut files = SpillFiles::new();
    let states = [
        SpillState::Whole,
        SpillState::Missing,
        SpillState::Partial,
        SpillState::Missing,
        SpillState::Whole,
    ];
    for (i, state) in states.iter().enumerate() {
        let path = FilePath::from_text(&format!("/tmp/{}", i));
        truncate_and_spill(&mut files, "long".to_string(), 1, &path, *state);
        truncate_and_spill(&mut files, "fits".to_string(), 4, &path, SpillState::Missing);
    }
    let left: Vec<String> = cleanup_spill_files(&mut files)
        .iter()
        .map(|p| p.display())
        .collect();
    assert_eq!(left, vec!["/tmp/0", "/tmp/2", "/tmp/4"]);
}
