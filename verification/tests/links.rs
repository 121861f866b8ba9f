use ferric::links::{
    check_library_count, check_setup, decide_duplicate, decide_link, link_skip_reason, link_step,
    relative_link_target, DuplicateDecision, LinkDecision, LinkState, LinkStep, SetupError,
};
use ferric::paths::{belongs_in_index, relative_key};

#[test]
fn link_decisions() {
    assert_eq!(decide_link(320, LinkState::Absent), LinkDecision::Create);
    assert_eq!(decide_link(320, LinkState::NotSymlink), LinkDecision::SkipNotSymlink);
    assert_eq!(
        decide_link(320, LinkState::Symlink { same_target: true, quality: 1 }),
        LinkDecision::AlreadyCorrect
    );
    assert_eq!(
        decide_link(320, LinkState::Symlink { same_target: false, quality: 288 }),
        LinkDecision::Replace { existing: 288 }
    );
    assert_eq!(
        decide_link(320, LinkState::Symlink { same_target: false, quality: 0 }),
        LinkDecision::Replace { existing: 0 }
    );
    assert_eq!(
        decide_link(320, LinkState::Symlink { same_target: false, quality: 320 }),
        LinkDecision::SkipSame
    );
    assert_eq!(
        decide_link(288, LinkState::Symlink { same_target: false, quality: 320 }),
        LinkDecision::SkipLower { existing: 320 }
    );
}

#[test]
fn link_reasons() {
    assert_eq!(
        link_skip_reason(1, LinkDecision::AlreadyCorrect),
        Some("symlink already correct".to_string())
    );
    assert_eq!(
        link_skip_reason(1, LinkDecision::SkipNotSymlink),
        Some("destination is not a symlink".to_string())
    );
    assert_eq!(link_skip_reason(7, LinkDecision::SkipSame), Some("same quality (7)".to_string()));
    assert_eq!(
        link_skip_reason(7, LinkDecision::SkipLower { existing: 12 }),
        Some("lower quality (7 < 12)".to_string())
    );
    assert_eq!(link_skip_reason(7, LinkDecision::Create), None);
    assert_eq!(link_skip_reason(7, LinkDecision::Replace { existing: 1 }), None);
}

#[test]
fn link_text_is_relative_to_the_links_directory() {
    assert_eq!(
        relative_link_target("/music/a/Artist/Album/Track.mp3", "/music/merged/Artist/Album"),
        Some("../../../a/Artist/Album/Track.mp3".to_string())
    );
    assert_eq!(relative_link_target("/a/b/c.mp3", "/a/b"), Some("c.mp3".to_string()));
    assert_eq!(relative_link_target("/a/c.mp3", "/a/b"), Some("../c.mp3".to_string()));
    assert_eq!(relative_link_target("/a/b.mp3", "rel"), Some("/a/b.mp3".to_string()));
    assert_eq!(relative_link_target("rel/b.mp3", "/abs"), None);
    assert_eq!(relative_link_target("a/b.mp3", "../x"), None);
}

#[test]
fn a_missing_relative_path_is_an_error_for_the_file() {
    assert_eq!(link_step(None, 320, LinkState::Absent), LinkStep::NoRelativePath);
    assert_eq!(
        link_step(Some("../x.mp3".to_string()), 320, LinkState::NotSymlink),
        LinkStep::Decided {
            target: "../x.mp3".to_string(),
            decision: LinkDecision::SkipNotSymlink
        }
    );
}

#[test]
fn duplicates_become_links_unless_they_are_links_already() {
    assert_eq!(decide_duplicate(true), DuplicateDecision::AlreadyLinked);
    assert_eq!(decide_duplicate(false), DuplicateDecision::ReplaceWithLink);
}

#[test]
fn cross_library_modes_need_two_libraries() {
    assert_eq!(check_library_count(0), Err(SetupError::TooFewLibraries));
    assert_eq!(check_library_count(1), Err(SetupError::TooFewLibraries));
    assert_eq!(check_library_count(2), Ok(()));
    assert_eq!(check_library_count(7), Ok(()));
}

#[test]
fn the_source_tree_is_left_out_of_the_index() {
    assert!(!belongs_in_index(&Some("/lib/in/a/b.mp3".to_string()), "/lib/in"));
    assert!(!belongs_in_index(&Some("/lib/in".to_string()), "/lib/in"));
    assert!(belongs_in_index(&Some("/lib/input/a.mp3".to_string()), "/lib/in"));
    assert!(belongs_in_index(&Some("/lib/out/a.mp3".to_string()), "/lib/in"));
    assert!(belongs_in_index(&None, "/lib/in"));
}

#[test]
fn relative_keys() {
    assert_eq!(
        relative_key("/lib/in/Artist/Album/T.mp3", "/lib/in"),
        Some("Artist/Album/T.mp3".to_string())
    );
    assert_eq!(relative_key("/lib/in/T.mp3", "/lib/in/"), Some("T.mp3".to_string()));
    assert_eq!(relative_key("/lib/input/T.mp3", "/lib/in"), None);
    assert_eq!(relative_key("/lib/in", "/lib/in"), Some(String::new()));
}

#[test]
fn a_run_does_not_start_without_its_inputs() {
    assert_eq!(check_setup(&vec![true, true], 2), Ok(()));
    assert_eq!(check_setup(&vec![true], 1), Ok(()));
    assert_eq!(check_setup(&vec![true], 2), Err(SetupError::TooFewLibraries));
    assert_eq!(check_setup(&Vec::new(), 1), Err(SetupError::TooFewLibraries));
    assert_eq!(check_setup(&Vec::new(), 0), Ok(()));
    assert_eq!(check_setup(&vec![true, false, false], 2), Err(SetupError::MissingInput { index: 1 }));
    assert_eq!(check_setup(&vec![false], 1), Err(SetupError::MissingInput { index: 0 }));
    assert_eq!(check_setup(&vec![false], 2), Err(SetupError::TooFewLibraries));
}
