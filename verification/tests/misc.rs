use gerb::error::Error;
use gerb::git::RepositoryState;
use gerb::glyphs::GlyphPointIndex;
use gerb::project::{project_name, str_ends_with};
use gerb::text::{str_concat, str_equal, str_less, str_starts_with};

#[test]
fn bug_report_text() {
    assert_eq!(
        Error::suggest_bug_report("oops"),
        "Application error: oops\n\nIf you wish to report this bug to <https://github.com/epilys/gerb/issues>, you can include the following build info string:\n\n<unknown>"
    );
}

#[test]
fn project_names() {
    assert_eq!(project_name("Source Sans", Some("x.ufo")), Some("Source Sans".to_string()));
    assert_eq!(project_name("", Some("MyFont.ufo")), Some("MyFont".to_string()));
    assert_eq!(project_name("", Some("MyFont")), Some("MyFont".to_string()));
    assert_eq!(project_name("", None), None);
    assert!(str_ends_with("a.ufo", ".ufo"));
    assert!(!str_ends_with("ufo", ".ufo"));
}

#[test]
fn text_helpers() {
    assert!(str_equal("abc", "abc"));
    assert!(!str_equal("abc", "abd"));
    assert!(str_starts_with("glyphs.x", "glyphs."));
    assert!(!str_starts_with("glyph", "glyphs."));
    assert_eq!(str_concat("ab", "cd"), "abcd");
    assert!(str_less("a", "b"));
    assert!(str_less("ab", "abc"));
    assert!(!str_less("b", "a"));
    assert!(!str_less("a", "a"));
}

#[test]
fn point_index_bytes() {
    let p = GlyphPointIndex { contour_index: 1, curve_index: 2, uuid: 0x0102 };
    let b = p.as_bytes();
    let w = std::mem::size_of::<usize>();
    assert_eq!(b.len(), 2 * w + 16);
    assert_eq!(b[0], 1);
    assert_eq!(b[w], 2);
    assert_eq!(b[2 * w + 14], 1);
    assert_eq!(b[2 * w + 15], 2);
}

#[test]
fn repository_state() {
    assert_ne!(RepositoryState::Clean, RepositoryState::Merge);
}

#[test]
fn modified_guidelines_are_written_back() {
    let mut dst = vec!["a", "b"];
    gerb::project::merge_modified(&mut dst, vec![(1, "B"), (2, "c"), (0, "A"), (3, "d")]);
    assert_eq!(dst, vec!["A", "B", "c", "d"]);
    let mut empty: Vec<u8> = vec![];
    gerb::project::merge_modified(&mut empty, vec![]);
    assert!(empty.is_empty());
}
