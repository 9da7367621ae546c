use sessionfs::decode::extract_project_name;
use sessionfs::decode::extract_project_name_with_fs;
use sessionfs::decode::DecodeQuery;
use sessionfs::decode::DecodeReply;
use sessionfs::decode::DecodeStep;
use sessionfs::decode::ProjectPathDecoder;
use sessionfs::probe::PrefixWalk;
use sessionfs::probe::ProbeKind;
use sessionfs::probe::WalkStep;

/// Pump the project-path decoder against a simulated filesystem: the
/// index file holds `content` (if any), and exactly the paths in `dirs`
/// are real directories; nothing else exists.
fn run_decode(input: &str, content: Option<&str>, dirs: &[&str]) -> String {
    let begun = ProjectPathDecoder::begin(input);
    let mut machine = begun.0;
    let mut step = begun.1;
    loop {
        match step {
            DecodeStep::Ask(DecodeQuery::IndexFile(_)) => {
                step = machine.step(DecodeReply::Content(content.map(|s| s.to_string())));
            }
            DecodeStep::Ask(DecodeQuery::Probe(p)) => {
                let answer = match p.kind {
                    ProbeKind::RealDir => dirs.contains(&p.path.as_str()),
                    ProbeKind::EntryNotSymlink => dirs.contains(&p.path.as_str()),
                    ProbeKind::Entry => dirs.contains(&p.path.as_str()),
                };
                step = machine.step(DecodeReply::Answer(answer));
            }
            DecodeStep::Done(s) => return s,
        }
    }
}

/// Pump the deepest-prefix walk against a simulated filesystem.
fn run_walk(encoded: &str, base: &str, sep: &str, dirs: &[&str]) -> (String, String) {
    let begun = PrefixWalk::begin(encoded, base, sep);
    let mut machine = begun.0;
    let mut step = begun.1;
    loop {
        match step {
            WalkStep::Ask(path) => {
                step = machine.step(dirs.contains(&path.as_str()));
            }
            WalkStep::Done(deepest, remaining) => return (deepest, remaining),
        }
    }
}

#[test]
fn test_extract_project_name_with_prefix() {
    // Test raw project name with dash prefix (e.g., "-user-home-project")
    let result = extract_project_name("-user-home-project");
    assert_eq!(result, "project");
}

#[test]
fn test_extract_project_name_with_complex_prefix() {
    // Test raw project name with multiple parts
    let result = extract_project_name("-usr-local-myproject");
    assert_eq!(result, "myproject");
}

#[test]
fn test_extract_project_name_without_prefix() {
    // Test raw project name without dash prefix
    let result = extract_project_name("simple-project");
    assert_eq!(result, "simple-project");
}

#[test]
fn test_extract_project_name_empty() {
    let result = extract_project_name("");
    assert_eq!(result, "");
}

#[test]
fn test_extract_project_name_only_dashes() {
    // When there are fewer than 4 parts, return original
    let result = extract_project_name("-a-b");
    assert_eq!(result, "-a-b");
}

#[test]
fn test_extract_project_name_exact_four_parts() {
    let result = extract_project_name("-a-b-c");
    assert_eq!(result, "c");
}

#[test]
fn test_extract_project_name_windows_format_heuristic() {
    // Windows format: C--Users-Username-rest
    // When Username doesn't exist on disk, falls through to heuristic
    // which strips Users-Username- (first 2 segments after drive)
    let result = extract_project_name("C--Users-TestUser-my-project");
    assert_eq!(result, "my-project");
}

#[test]
fn test_extract_project_name_windows_deep_path() {
    // The heuristic must not hand back the full encoded string
    let result =
        extract_project_name("C--Users-AlexanderKropiunig-Documents-GitHub-immo-find-a-flat-agent");
    assert_ne!(
        result,
        "C--Users-AlexanderKropiunig-Documents-GitHub-immo-find-a-flat-agent"
    );
}

#[test]
fn test_extract_project_name_refined_by_deep_walk() {
    // When the walk got past Users\Username\ (three separators), its
    // remainder is the project name
    let raw = "C--Users-Alex-Documents-GitHub-my-cool-project";
    let (deepest, remaining) = run_walk(
        "Users-Alex-Documents-GitHub-my-cool-project",
        "C:",
        "\\",
        &[
            "C:\\Users",
            "C:\\Users\\Alex",
            "C:\\Users\\Alex\\Documents",
            "C:\\Users\\Alex\\Documents\\GitHub",
        ],
    );
    let refined = extract_project_name_with_fs(raw, &deepest, &remaining);
    assert_eq!(refined, Some("my-cool-project".to_string()));
}

#[test]
fn test_find_deepest_existing_dir_no_match() {
    // When no directories exist, returns base_path and full encoded
    let (deepest, remaining) = run_walk("nonexistent-path-here", "/fake", "/", &[]);
    assert_eq!(deepest, "/fake");
    assert_eq!(remaining, "nonexistent-path-here");
}

#[test]
fn test_find_deepest_existing_dir_with_real_dirs() {
    // Encoded: Documents-GitHub-my-cool-project over dirs that exist
    // Should decode to: Documents/GitHub as deepest, my-cool-project as remaining
    let (deepest, remaining) = run_walk(
        "Documents-GitHub-my-cool-project",
        "/base",
        "/",
        &["/base/Documents", "/base/Documents/GitHub"],
    );
    assert_eq!(deepest, "/base/Documents/GitHub");
    assert_eq!(remaining, "my-cool-project");
}

#[test]
fn test_decode_project_path_session_storage() {
    assert_eq!(
        run_decode(
            "/Users/jack/.sessions/projects/-Users-jack-my-project",
            None,
            &[]
        ),
        "/Users/jack/my-project"
    );
}

#[test]
fn test_decode_project_path_tmp() {
    assert_eq!(
        run_decode(
            "/Users/jack/.sessions/projects/-tmp-feature-my-project",
            None,
            &[]
        ),
        "/tmp/feature/my-project"
    );
}

#[test]
fn test_decode_project_path_regular() {
    assert_eq!(run_decode("/some/other/path", None, &[]), "/some/other/path");
}

#[test]
fn test_decode_project_path_index_override_wins() {
    // A valid absolute originalPath in the sidecar index is authoritative
    let content = "{\"originalPath\": \"/real/project-location\"}";
    assert_eq!(
        run_decode(
            "/Users/jack/.sessions/projects/-Users-jack-my-project",
            Some(content),
            &[]
        ),
        "/real/project-location"
    );
}

#[test]
fn test_decode_project_path_index_relative_ignored() {
    // A relative originalPath is not trusted; decoding falls through
    let content = "{\"originalPath\": \"not/absolute\"}";
    assert_eq!(
        run_decode(
            "/Users/jack/.sessions/projects/-Users-jack-my-project",
            Some(content),
            &[]
        ),
        "/Users/jack/my-project"
    );
}

#[test]
fn test_decode_project_path_filesystem_probing() {
    // A hyphen inside the real directory name is only recognised by
    // probing: /Users/jack/my-project exists as a single leaf
    let dirs = ["/Users", "/Users/jack", "/Users/jack/my-project"];
    assert_eq!(
        run_decode(
            "/Users/jack/.sessions/projects/-Users-jack-my-project",
            None,
            &dirs
        ),
        "/Users/jack/my-project"
    );
}

#[test]
fn test_decode_project_path_nested_probing() {
    // Probing also finds nested directories whose names hold hyphens
    let dirs = [
        "/Users",
        "/Users/jack",
        "/Users/jack/client-app",
        "/Users/jack/client-app/src-tauri",
    ];
    assert_eq!(
        run_decode(
            "/Users/jack/.sessions/projects/-Users-jack-client-app-src-tauri",
            None,
            &dirs
        ),
        "/Users/jack/client-app/src-tauri"
    );
}

#[test]
fn test_decode_project_path_windows_heuristic() {
    // Drive-letter names fall back to the fixed drive:\a\b\c shape
    assert_eq!(
        run_decode(
            "/Users/jack/.sessions/projects/C--Users-TestUser-my-project",
            None,
            &[]
        ),
        "C:\\Users\\TestUser\\my-project"
    );
}

#[test]
fn test_decode_probe_sequence_for_unix_name() {
    // the decoder asks for the index file, then probes each candidate in order
    let begun = ProjectPathDecoder::begin("/x/.sessions/projects/-a-b");
    let mut m = begun.0;
    let step1 = match begun.1 {
        DecodeStep::Ask(DecodeQuery::IndexFile(p)) => {
            assert_eq!(p, "/x/.sessions/projects/-a-b/sessions-index.json");
            m.step(DecodeReply::Content(None))
        }
        _ => panic!("expected the index request first"),
    };
    let step2 = match step1 {
        DecodeStep::Ask(DecodeQuery::Probe(p)) => {
            assert!(matches!(p.kind, ProbeKind::RealDir));
            assert_eq!(p.path, "/a");
            m.step(DecodeReply::Answer(true))
        }
        _ => panic!("expected the candidate-directory probe"),
    };
    let step3 = match step2 {
        DecodeStep::Ask(DecodeQuery::Probe(p)) => {
            assert!(matches!(p.kind, ProbeKind::EntryNotSymlink));
            assert_eq!(p.path, "/a/b");
            m.step(DecodeReply::Answer(true))
        }
        _ => panic!("expected the whole-remainder leaf probe"),
    };
    match step3 {
        DecodeStep::Done(s) => assert_eq!(s, "/a/b"),
        _ => panic!("expected the confirmed path"),
    }
}

#[test]
fn test_decode_probe_sequence_for_windows_name() {
    // drive-letter decode: exact probing from the drive base first, then
    // the deepest-prefix walk, then the positional fallback
    let begun = ProjectPathDecoder::begin("/x/.sessions/projects/C--Users-me");
    let mut m = begun.0;
    let step1 = match begun.1 {
        DecodeStep::Ask(DecodeQuery::IndexFile(_)) => m.step(DecodeReply::Content(None)),
        _ => panic!("expected the index request first"),
    };
    let step2 = match step1 {
        DecodeStep::Ask(DecodeQuery::Probe(p)) => {
            assert!(matches!(p.kind, ProbeKind::RealDir));
            assert_eq!(p.path, "C:/Users");
            m.step(DecodeReply::Answer(false))
        }
        _ => panic!("expected the candidate-directory probe"),
    };
    let step3 = match step2 {
        DecodeStep::Ask(DecodeQuery::Probe(p)) => {
            assert!(matches!(p.kind, ProbeKind::Entry));
            assert_eq!(p.path, "C:/Users-me");
            m.step(DecodeReply::Answer(false))
        }
        _ => panic!("expected the whole-suffix fallback probe"),
    };
    let step4 = match step3 {
        DecodeStep::Ask(DecodeQuery::Probe(p)) => {
            assert!(matches!(p.kind, ProbeKind::RealDir));
            assert_eq!(p.path, "C:\\Users");
            m.step(DecodeReply::Answer(false))
        }
        _ => panic!("expected the walk's directory probe"),
    };
    match step4 {
        DecodeStep::Done(s) => assert_eq!(s, "C:\\Users\\me"),
        _ => panic!("expected the positional fallback"),
    }
}
