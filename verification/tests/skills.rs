use base64::{engine::general_purpose::STANDARD, Engine};
use byok_server::skills::{
    first_skill_per_name, render_unix, render_windows, skill_files, valid_skill_name, EntryKind,
    ListedEntry, Skill, SkillFile, SkillPlatform, SkillSyncServer,
};

#[test]
fn endpoint_requires_its_random_token() {
    let server = SkillSyncServer::at("/missing".into(), "secret");

    assert!(server
        .script_for_path("/.cursor-byok/remote-ssh/skills/secret/unix")
        .is_some());
    assert!(server
        .script_for_path("/.cursor-byok/remote-ssh/skills/wrong/unix")
        .is_none());
}

#[test]
fn script_paths_name_their_platform() {
    let server = SkillSyncServer::at("/missing".into(), "secret");
    assert_eq!(
        server.script_for_path("/.cursor-byok/remote-ssh/skills/secret/windows"),
        Some(SkillPlatform::Windows)
    );
    assert_eq!(
        server.script_for_path("/.cursor-byok/remote-ssh/skills/secret/unix"),
        Some(SkillPlatform::Unix)
    );
    assert_eq!(
        server.script_for_path("/.cursor-byok/remote-ssh/skills/secret/mac"),
        None
    );
    assert_eq!(
        server.unix_url(12345),
        "http://127.0.0.1:12345/.cursor-byok/remote-ssh/skills/secret/unix"
    );
    assert_eq!(
        server.windows_url(8),
        "http://127.0.0.1:8/.cursor-byok/remote-ssh/skills/secret/windows"
    );
}

#[test]
fn fresh_endpoints_get_distinct_hex_tokens() {
    let first = SkillSyncServer::new(vec!["/a".into()]);
    let second = SkillSyncServer::new(vec!["/a".into()]);
    assert_eq!(first.token.len(), 32);
    assert!(first.token.bytes().all(|b| b.is_ascii_hexdigit() && !b.is_ascii_uppercase()));
    assert_ne!(first.token, second.token);
}

#[test]
fn skill_names_are_lowercase_words_with_hyphens() {
    assert!(valid_skill_name("my-skill"));
    assert!(valid_skill_name("a1"));
    assert!(!valid_skill_name("not_a_skill"));
    assert!(!valid_skill_name("Upper"));
    assert!(!valid_skill_name(""));
    assert!(valid_skill_name(&"a".repeat(64)));
    assert!(!valid_skill_name(&"a".repeat(65)));
}

fn skill(name: &str, path: &str, contents: &[u8]) -> Skill {
    Skill {
        name: name.into(),
        files: vec![SkillFile {
            relative_path: path.into(),
            contents: contents.to_vec(),
            executable: false,
        }],
    }
}

#[test]
fn an_earlier_source_wins_a_skill_name() {
    let kept = first_skill_per_name(vec![
        skill("shared", "shared/SKILL.md", b"cursor"),
        skill("own", "own/SKILL.md", b"own"),
        skill("shared", "shared/SKILL.md", b"agents"),
    ]);
    assert_eq!(kept.len(), 2);
    assert_eq!(kept[0].name, "shared");
    assert_eq!(kept[0].files[0].contents, b"cursor");
    assert_eq!(kept[1].name, "own");
}

#[test]
fn powershell_sync_uses_a_separate_owned_directory() {
    let skills = vec![Skill {
        name: "my-skill".into(),
        files: vec![SkillFile {
            relative_path: "my-skill/SKILL.md".into(),
            contents: b"instructions".to_vec(),
            executable: false,
        }],
    }];

    let script = render_windows(&skills);

    assert!(script.contains("cursor-byok-synced"));
    assert!(script.contains("skills-stage-$PID"));
    assert!(script.contains(".cursor-byok-managed"));
    assert!(script.contains("$existing.Contains('my-skill')"));
    assert!(script.contains(&STANDARD.encode("instructions")));
}

#[test]
fn unix_sync_writes_each_file_with_its_mode() {
    let skills = vec![Skill {
        name: "synced".into(),
        files: vec![
            SkillFile {
                relative_path: "synced/SKILL.md".into(),
                contents: b"first".to_vec(),
                executable: false,
            },
            SkillFile {
                relative_path: "synced/scripts/run.sh".into(),
                contents: b"#!/bin/sh\n".to_vec(),
                executable: true,
            },
        ],
    }];
    let script = render_unix(&skills);
    assert!(script.starts_with("#!/usr/bin/env bash\n"));
    assert!(script.ends_with("exit 0\n"));
    assert!(script.contains("has_remote_skill 'synced'"));
    assert!(script.contains(&STANDARD.encode("synced/scripts/run.sh")));
    assert!(script.contains(&STANDARD.encode("#!/bin/sh\n")));
    assert!(script.contains("chmod 600"));
    assert!(script.contains("chmod 700 \"$destination\""));
    let empty = render_unix(&[]);
    assert!(!empty.contains("has_remote_skill '"));
}

fn listed(path: &str, kind: EntryKind, contents: &[u8]) -> ListedEntry {
    ListedEntry {
        components: if path.is_empty() {
            Vec::new()
        } else {
            path.split('/').map(str::to_owned).collect()
        },
        kind,
        executable: false,
        contents: contents.to_vec(),
    }
}

#[test]
fn discovers_only_valid_skills_and_preserves_file_contents() {
    let listing = vec![
        listed("", EntryKind::Dir, b""),
        listed("category", EntryKind::Dir, b""),
        listed("category/my-skill", EntryKind::Dir, b""),
        listed("category/my-skill/SKILL.md", EntryKind::File, b"instructions"),
        listed("category/my-skill/scripts", EntryKind::Dir, b""),
        listed("category/my-skill/scripts/run.sh", EntryKind::File, b"echo test\n"),
        listed("not_a_skill", EntryKind::Dir, b""),
        listed("not_a_skill/SKILL.md", EntryKind::File, b"ignored"),
    ];

    let skills = first_skill_per_name(skill_files("skills", &listing));

    assert_eq!(skills.len(), 1);
    assert_eq!(skills[0].name, "my-skill");
    assert_eq!(skills[0].files.len(), 2);
    assert!(skills[0].files.iter().any(|file| file.relative_path
        == "category/my-skill/scripts/run.sh"
        && file.contents == b"echo test\n"));
}

#[test]
fn nested_skill_roots_and_links_stay_out_of_a_skill() {
    let listing = vec![
        listed("outer", EntryKind::Dir, b""),
        listed("outer/SKILL.md", EntryKind::File, b"outer"),
        listed("outer/inner", EntryKind::Dir, b""),
        listed("outer/inner/SKILL.md", EntryKind::File, b"inner"),
        listed("outer/inner/tool.sh", EntryKind::File, b"tool"),
        listed("outer/link", EntryKind::Symlink, b""),
        listed("outer/notes\\a.md", EntryKind::File, b"notes"),
    ];

    let skills = skill_files("skills", &listing);

    assert_eq!(skills.len(), 2);
    assert_eq!(skills[0].name, "outer");
    let outer: Vec<&str> = skills[0].files.iter().map(|f| f.relative_path.as_str()).collect();
    assert_eq!(outer, ["outer/SKILL.md", "outer/notes/a.md"]);
    assert_eq!(skills[1].name, "inner");
    let inner: Vec<&str> = skills[1].files.iter().map(|f| f.relative_path.as_str()).collect();
    assert_eq!(inner, ["outer/inner/SKILL.md", "outer/inner/tool.sh"]);
}

#[test]
fn cursor_user_skills_take_priority_over_open_standard_user_skills() {
    let cursor = vec![
        listed("shared", EntryKind::Dir, b""),
        listed("shared/SKILL.md", EntryKind::File, b"cursor"),
    ];
    let agents = vec![
        listed("shared", EntryKind::Dir, b""),
        listed("shared/SKILL.md", EntryKind::File, b"agents"),
    ];
    let mut all = skill_files("skills", &cursor);
    all.extend(skill_files("skills", &agents));

    let skills = first_skill_per_name(all);

    assert_eq!(skills.len(), 1);
    assert_eq!(skills[0].files[0].contents, b"cursor");
}
