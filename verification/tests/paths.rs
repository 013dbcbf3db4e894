use safe_touch::error::PathError;
use safe_touch::path::{begins_with, parse_components, remains_within, resolve, Component};
use safe_touch::validate::{
    check_components, contains_forbidden_byte, validate_file_path, MAX_BYTES,
};

const CWD: &str = "/home/user/work";

fn name(text: &str) -> Component {
    Component::Normal(text.as_bytes().to_vec())
}

fn error_of(raw: &str) -> PathError {
    match validate_file_path(raw, CWD) {
        Ok(_) => panic!("accepted {:?}", raw),
        Err(e) => e,
    }
}

#[test]
fn traversal_through_parent_is_refused() {
    assert_eq!(error_of("a/b/../../etc/passwd"), PathError::TraversalAttempt);
    assert_eq!(error_of(".."), PathError::TraversalAttempt);
    assert_eq!(error_of("a/.."), PathError::TraversalAttempt);
    assert_eq!(error_of("../a"), PathError::TraversalAttempt);
    assert_eq!(error_of("a//../b"), PathError::TraversalAttempt);
    assert_eq!(error_of("./.."), PathError::TraversalAttempt);
}

#[test]
fn dots_inside_names_are_no_traversal() {
    for raw in ["..a", "a..", "...", "a/..b/c", "a.b", ".hidden", "a/.../b"] {
        assert!(validate_file_path(raw, CWD).is_ok(), "{:?}", raw);
    }
}

#[test]
fn current_directory_marker_is_accepted_and_dropped() {
    let with_dot = validate_file_path("a/./b.txt", CWD).ok().unwrap();
    let plain = validate_file_path("a/b.txt", CWD).ok().unwrap();
    assert_eq!(with_dot.as_str(), "a/./b.txt");
    assert_eq!(with_dot.components(), vec![name("a"), name("b.txt")]);
    assert_eq!(with_dot.components(), plain.components());
    let base = parse_components(CWD.as_bytes());
    let joined = resolve(base, &with_dot.components());
    assert_eq!(
        joined,
        vec![Component::RootDir, name("home"), name("user"), name("work"), name("a"), name("b.txt")]
    );
}

#[test]
fn absolute_paths_are_refused() {
    assert_eq!(error_of("/etc/passwd"), PathError::AbsoluteNotAllowed);
    assert_eq!(error_of("/"), PathError::AbsoluteNotAllowed);
    assert_eq!(error_of("//a"), PathError::AbsoluteNotAllowed);
    assert_eq!(error_of("/home/user/work/f.txt"), PathError::AbsoluteNotAllowed);
}

#[test]
fn path_of_256_bytes_is_too_long() {
    let longest = "a".repeat(MAX_BYTES);
    assert!(validate_file_path(&longest, CWD).is_ok());
    let too_long = "a".repeat(MAX_BYTES + 1);
    assert_eq!(error_of(&too_long), PathError::TooLong);
    let long_component = format!("dir/{}", "b".repeat(256));
    assert_eq!(error_of(&long_component), PathError::TooLong);
}

#[test]
fn length_is_counted_in_bytes() {
    let accented = "\u{e9}".repeat(128);
    assert_eq!(accented.len(), 256);
    assert_eq!(error_of(&accented), PathError::TooLong);
    let shorter = "\u{e9}".repeat(127);
    assert!(validate_file_path(&shorter, CWD).is_ok());
}

#[test]
fn control_characters_are_refused() {
    assert_eq!(error_of("a\0b"), PathError::InvalidCharacter);
    assert_eq!(error_of("a\nb"), PathError::InvalidCharacter);
    assert_eq!(error_of("a\rb"), PathError::InvalidCharacter);
    assert_eq!(error_of("\n"), PathError::InvalidCharacter);
    assert!(validate_file_path("a\tb", CWD).is_ok());
    assert!(contains_forbidden_byte(b"abc\r"));
    assert!(!contains_forbidden_byte(b"abc def"));
    assert!(!contains_forbidden_byte(b""));
}

#[test]
fn first_failing_rule_gives_the_error() {
    let long_with_nul = format!("/../{}\0", "a".repeat(300));
    assert_eq!(error_of(&long_with_nul), PathError::TooLong);
    assert_eq!(error_of("/..\n"), PathError::InvalidCharacter);
    assert_eq!(error_of("/a/../b"), PathError::AbsoluteNotAllowed);
}

#[test]
fn unusual_but_harmless_paths_are_accepted() {
    for raw in ["", ".", "./", "a/", "a//b", "./a", "caf\u{e9}.txt", "a b", "C:x"] {
        let path = validate_file_path(raw, CWD).ok().unwrap();
        assert_eq!(path.as_str(), raw);
    }
    assert_eq!(validate_file_path(".", CWD).ok().unwrap().components(), vec![]);
    assert_eq!(validate_file_path("a//b/", CWD).ok().unwrap().components(), vec![name("a"), name("b")]);
}

#[test]
fn verdict_does_not_depend_on_the_working_directory() {
    for cwd in ["/", "", "relative/dir", "/a/../..", "..", "/x/./y/"] {
        assert!(validate_file_path("a/b", cwd).is_ok(), "{:?}", cwd);
        assert_eq!(validate_file_path("a/../b", cwd).err(), Some(PathError::TraversalAttempt));
    }
}

#[test]
fn components_are_split_at_separators() {
    assert_eq!(parse_components(b""), vec![]);
    assert_eq!(parse_components(b"/"), vec![Component::RootDir]);
    assert_eq!(parse_components(b"a"), vec![name("a")]);
    assert_eq!(parse_components(b"a//b/"), vec![name("a"), name("b")]);
    assert_eq!(parse_components(b"./a"), vec![Component::CurDir, name("a")]);
    assert_eq!(
        parse_components(b"/a/./../b"),
        vec![Component::RootDir, name("a"), Component::CurDir, Component::ParentDir, name("b")]
    );
    assert_eq!(parse_components(b"..."), vec![name("...")]);
    assert_eq!(parse_components(b".a"), vec![name(".a")]);
}

#[test]
fn component_rules_apply_in_order() {
    let long = Component::Normal(vec![b'x'; 256]);
    let fits = Component::Normal(vec![b'x'; 255]);
    assert_eq!(check_components(&vec![]), Ok(()));
    assert_eq!(check_components(&vec![name("a"), Component::CurDir, fits]), Ok(()));
    assert_eq!(check_components(&vec![long.clone()]), Err(PathError::ComponentTooLong));
    assert_eq!(check_components(&vec![Component::RootDir]), Err(PathError::InvalidComponent));
    assert_eq!(
        check_components(&vec![long.clone(), Component::RootDir, Component::ParentDir]),
        Err(PathError::TraversalAttempt)
    );
    assert_eq!(
        check_components(&vec![Component::RootDir, long]),
        Err(PathError::ComponentTooLong)
    );
}

#[test]
fn resolving_follows_markers() {
    let base = parse_components(b"/home/user");
    assert_eq!(
        resolve(base.clone(), &vec![Component::ParentDir, name("x")]),
        vec![Component::RootDir, name("home"), name("x")]
    );
    assert_eq!(
        resolve(base.clone(), &vec![Component::CurDir, name("x"), Component::CurDir]),
        vec![Component::RootDir, name("home"), name("user"), name("x")]
    );
    assert_eq!(
        resolve(base.clone(), &vec![Component::ParentDir, Component::ParentDir, Component::ParentDir]),
        vec![Component::RootDir]
    );
    assert_eq!(resolve(base, &vec![Component::RootDir, name("y")]), vec![Component::RootDir, name("y")]);
    assert_eq!(
        resolve(vec![], &vec![Component::ParentDir, name("a"), Component::ParentDir, Component::ParentDir]),
        vec![Component::ParentDir, Component::ParentDir]
    );
}

#[test]
fn containment_is_decided_on_resolved_components() {
    let base = parse_components(b"/home/user");
    assert!(remains_within(&base, &vec![name("a"), Component::CurDir]));
    assert!(remains_within(&base, &vec![]));
    assert!(remains_within(&base, &vec![name("a"), Component::ParentDir]));
    assert!(!remains_within(&base, &vec![Component::ParentDir]));
    assert!(remains_within(
        &base,
        &vec![name("a"), Component::ParentDir, Component::ParentDir, name("user")]
    ));
    assert!(!remains_within(&base, &vec![Component::RootDir, name("etc")]));
    assert!(begins_with(&parse_components(b"/a/b"), &parse_components(b"/a")));
    assert!(!begins_with(&parse_components(b"/a"), &parse_components(b"/a/b")));
    assert!(!begins_with(&parse_components(b"/ab/c"), &parse_components(b"/a")));
}

#[test]
fn components_compare_and_copy() {
    let a = name("a");
    assert!(a.same_as(&a.duplicate()));
    assert!(!a.same_as(&name("b")));
    assert!(!a.same_as(&name("ab")));
    assert!(!a.same_as(&Component::CurDir));
    assert!(Component::ParentDir.same_as(&Component::ParentDir));
    assert!(a.is_normal() && !a.is_root());
    assert!(Component::RootDir.is_root() && !Component::RootDir.is_normal());
}

#[test]
fn every_path_error_has_its_own_message() {
    let all = [
        PathError::TooLong,
        PathError::InvalidCharacter,
        PathError::AbsoluteNotAllowed,
        PathError::TraversalAttempt,
        PathError::ComponentTooLong,
        PathError::InvalidComponent,
        PathError::EscapesWorkingDirectory,
        PathError::SymlinkRefused,
    ];
    for (i, a) in all.iter().enumerate() {
        assert!(!a.message().is_empty());
        for b in all.iter().skip(i + 1) {
            assert_ne!(a.message(), b.message());
        }
    }
    assert_eq!(PathError::TooLong.message(), "Filename too long");
    assert_eq!(PathError::TraversalAttempt.message(), "Path traversal attempts are not allowed");
}
