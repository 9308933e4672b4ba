use ink_runtime::path::Fragment;
use ink_runtime::path::Path;
use ink_runtime::path::PathError;

#[test]
fn parse_render_round_trip() {
    let cases = ["0.g-0.2.$r1", "a.b.c", "a", "0", "^.^.x", "hello.5.world"];
    for s in cases {
        let path = Path::from_str(s).unwrap();
        assert_eq!(path.to_text(), s);
    }
}

#[test]
fn parse_render_round_trip_relative() {
    let cases = [".a.b", ".^.c", ".0"];
    for s in cases {
        let path = Path::from_str(s).unwrap();
        assert!(path.is_relative);
        assert_eq!(path.to_text(), s);
    }
}

#[test]
fn parse_empty_string_is_distinct_failure() {
    assert!(Path::from_str("").is_none());
    assert!(matches!(Path::try_from_str(""), Err(PathError)));
    // Every nonempty string parses: the empty input is the one failure.
    assert!(Path::from_str(".").is_some());
    assert!(Path::try_from_str("x").is_ok());
}

#[test]
fn parse_classifies_fragments() {
    let path = Path::from_str("a.3.^.b").unwrap();
    assert!(!path.is_relative);
    assert_eq!(path.fragments.len(), 4);
    assert!(matches!(&path.fragments[0], Fragment::Name(s) if s == "a"));
    assert!(matches!(path.fragments[1], Fragment::Index(3)));
    assert!(matches!(path.fragments[2], Fragment::Parent));
    assert!(matches!(&path.fragments[3], Fragment::Name(s) if s == "b"));
}

#[test]
fn leading_zero_index_renders_canonically() {
    // "07" is read as the index 7, so rendering gives the canonical "7".
    let path = Path::from_str("07").unwrap();
    assert!(matches!(path.fragments[0], Fragment::Index(7)));
    assert_eq!(path.to_text(), "7");
}

#[test]
fn overlong_digit_token_is_a_name() {
    // A digit string no usize can hold is a name, and round-trips as text.
    let s = "123456789012345678901234567890";
    let path = Path::from_str(s).unwrap();
    assert!(matches!(&path.fragments[0], Fragment::Name(n) if n == s));
    assert_eq!(path.to_text(), s);
}

#[test]
fn fragment_renders_alone() {
    assert_eq!(Fragment::Index(42).to_text(), "42");
    assert_eq!(Fragment::Name("knot".to_string()).to_text(), "knot");
    assert_eq!(Fragment::Parent.to_text(), "^");
}

#[test]
fn from_fragments_builds_path() {
    let path = Path::from_fragments(vec![Fragment::Name("a".to_string()), Fragment::Index(0)], true);
    assert_eq!(path.to_text(), ".a.0");
}

#[test]
fn fragments_compare_by_rendered_text() {
    // Equality follows the textual form, since visit and turn counters are
    // keyed by a path's string rendering.
    assert_eq!(Fragment::Index(7), Fragment::Name("7".to_string()));
    assert_eq!(Fragment::Parent, Fragment::Name("^".to_string()));
    assert_eq!(Fragment::Name("a".to_string()), Fragment::Name("a".to_string()));
    assert_ne!(Fragment::Index(7), Fragment::Name("07".to_string()));
    assert_ne!(Fragment::Index(7), Fragment::Index(8));
    assert_ne!(Fragment::Parent, Fragment::Index(7));
    assert_ne!(Fragment::Name("a".to_string()), Fragment::Parent);
}

#[test]
fn paths_compare_by_rendered_fragments() {
    let a = Path::from_str("a.7.^").unwrap();
    let b = Path::from_fragments(
        vec![
            Fragment::Name("a".to_string()),
            Fragment::Name("7".to_string()),
            Fragment::Parent,
        ],
        false,
    );
    assert_eq!(a, b);
    let relative = Path::from_str(".a.7.^").unwrap();
    assert_ne!(a, relative);
}
