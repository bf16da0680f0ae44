use garden::slugs::slugify;
use garden::text::chars_of;
use garden::title::{derive_title, resolve_title, seed_text};

#[test]
fn seed_without_a_title_is_the_bare_marker() {
    assert_eq!(seed_text(None), "# ");
}

#[test]
fn seed_holds_the_title_after_the_marker() {
    assert_eq!(seed_text(Some("Notes")), "# Notes");
    assert_eq!(seed_text(Some("")), "# ");
    assert_eq!(seed_text(Some("  spaced  ")), "#   spaced  ");
}

#[test]
fn title_comes_from_the_first_heading() {
    assert_eq!(
        derive_title("intro\n# My Title\nbody"),
        Some("My Title".to_string())
    );
}

#[test]
fn later_headings_are_ignored() {
    assert_eq!(
        derive_title("# First\n# Second\n"),
        Some("First".to_string())
    );
}

#[test]
fn a_document_without_a_heading_has_no_title() {
    assert_eq!(derive_title(""), None);
    assert_eq!(derive_title("just text\nmore text"), None);
    assert_eq!(derive_title("\n\n\n"), None);
}

#[test]
fn the_marker_needs_its_space_and_the_line_start() {
    assert_eq!(derive_title("#Title"), None);
    assert_eq!(derive_title("## Title"), None);
    assert_eq!(derive_title(" # Title"), None);
    assert_eq!(derive_title("text # Title"), None);
    assert_eq!(derive_title("#"), None);
}

#[test]
fn only_the_marker_is_stripped() {
    assert_eq!(derive_title("#   padded  "), Some("  padded  ".to_string()));
    assert_eq!(derive_title("# "), Some(String::new()));
    assert_eq!(derive_title("# # Nested"), Some("# Nested".to_string()));
    assert_eq!(derive_title("# a\tb"), Some("a\tb".to_string()));
}

#[test]
fn line_endings_do_not_reach_the_title() {
    assert_eq!(derive_title("# Unix\nbody"), Some("Unix".to_string()));
    assert_eq!(derive_title("# Dos\r\nbody"), Some("Dos".to_string()));
    assert_eq!(derive_title("intro\r\n# Dos\r\n"), Some("Dos".to_string()));
    assert_eq!(derive_title("# \r\n"), Some(String::new()));
    assert_eq!(derive_title("#\r\n"), None);
}

#[test]
fn a_lone_carriage_return_stays() {
    assert_eq!(derive_title("# Mac\r"), Some("Mac\r".to_string()));
    assert_eq!(derive_title("# a\rb\nc"), Some("a\rb".to_string()));
}

#[test]
fn titles_may_hold_any_characters() {
    assert_eq!(
        derive_title("préface\n# Æúű — cool?\nfin"),
        Some("Æúű — cool?".to_string())
    );
}

#[test]
fn derived_titles_agree_with_line_splitting() {
    let documents = [
        "",
        "\n",
        "# a",
        "x\n# a\n# b",
        "x\r\n# a\r\n",
        "# a\r",
        "\r\n\r\n# \r\n",
        "no heading\r",
        "#\n# \n",
    ];
    for document in documents {
        let expected = document
            .lines()
            .find(|line| line.starts_with("# "))
            .map(|line| line[2..].to_string());
        assert_eq!(derive_title(document), expected);
    }
}

#[test]
fn a_supplied_title_wins_over_the_document() {
    assert_eq!(
        resolve_title(Some("Given".to_string()), "# Written\n"),
        Some("Given".to_string())
    );
    assert_eq!(
        resolve_title(Some(String::new()), "# Written\n"),
        Some(String::new())
    );
}

#[test]
fn without_a_supplied_title_the_document_decides() {
    assert_eq!(
        resolve_title(None, "intro\n# Written\n"),
        Some("Written".to_string())
    );
    assert_eq!(resolve_title(None, "nothing here"), None);
}

#[test]
fn chars_are_read_one_by_one() {
    assert_eq!(chars_of(""), Vec::<char>::new());
    assert_eq!(chars_of("a√b"), vec!['a', '√', 'b']);
}

#[test]
fn slugs_are_lowercase_and_dash_joined() {
    assert_eq!(slugify("Hello World"), "hello-world");
    assert_eq!(slugify("My Test String!!!1!1"), "my-test-string-1-1");
    assert_eq!(slugify("  --test_-_cool"), "test-cool");
    assert_eq!(slugify("Æúű--cool?"), "aeuu-cool");
    assert_eq!(slugify("Notes"), "notes");
}

#[test]
fn empty_and_symbol_only_titles_slug_to_nothing() {
    assert_eq!(slugify(""), "");
    assert_eq!(slugify("!!!"), "");
}

#[test]
fn slugging_twice_gives_the_same_slug() {
    for raw in ["Hello World", "", "Æúű--cool?", "a  b", "already-a-slug"] {
        assert_eq!(slugify(raw), slugify(raw));
        let again = raw.to_string();
        assert_eq!(slugify(raw), slugify(&again));
    }
}

#[test]
fn slugs_have_the_documented_shape() {
    for raw in ["-a-", "A--B", "  x  ", "ünï cödé", "1/2", "..", "a.b.c"] {
        let slug = slugify(raw);
        assert!(slug
            .chars()
            .all(|c| c.is_ascii_lowercase() || c.is_ascii_digit() || c == '-'));
        assert!(!slug.contains("--"));
        assert!(!slug.starts_with('-'));
        assert!(!slug.ends_with('-'));
    }
}
