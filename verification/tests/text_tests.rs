use kernel_oss::text::{
    ascii_alphanumeric, blank, chars_of, find_separator, single_separator, trim, trim_bounds,
};
use kernel_oss::values::file_system::file_name::check_name;
use kernel_oss::values::specification::repository_link::{
    default_not_allowed, malformed, scheme_not_allowed,
};

fn chars(s: &str) -> Vec<char> {
    s.chars().collect()
}

#[test]
fn chars_of_gives_every_character() {
    assert_eq!(chars_of(""), Vec::<char>::new());
    assert_eq!(chars_of("a://b"), vec!['a', ':', '/', '/', 'b']);
    assert_eq!(chars_of("été"), vec!['é', 't', 'é']);
}

#[test]
fn trim_agrees_with_std() {
    for text in [
        "",
        " ",
        "a",
        " a",
        "a ",
        "  a b  ",
        "\t\r\n x \u{b}\u{c}",
        "\u{85}\u{a0}\u{1680}\u{2000}\u{2028}\u{2029}\u{202f}\u{205f}\u{3000}é\u{200a}",
        "\u{200b}a\u{200b}",
        "   my_file.txt   ",
    ] {
        assert_eq!(trim(text), text.trim());
        assert_eq!(blank(text), text.trim().is_empty());
    }
}

#[test]
fn trim_bounds_mark_the_trimmed_text() {
    assert_eq!(trim_bounds(&chars("  ab ")), (2, 4));
    assert_eq!(trim_bounds(&chars("ab")), (0, 2));
    assert_eq!(trim_bounds(&chars("")), (0, 0));
    let (start, end) = trim_bounds(&chars("   "));
    assert_eq!(start, end);
}

#[test]
fn ascii_alphanumeric_agrees_with_std() {
    for code in 0u32..0x3000 {
        if let Some(c) = char::from_u32(code) {
            assert_eq!(ascii_alphanumeric(c), c.is_ascii_alphanumeric());
        }
    }
}

#[test]
fn find_separator_finds_the_first_from_a_place() {
    let text = chars("a://b://c");
    assert_eq!(find_separator(&text, 0), 1);
    assert_eq!(find_separator(&text, 1), 1);
    assert_eq!(find_separator(&text, 2), 5);
    assert_eq!(find_separator(&text, 6), 9);
    assert_eq!(find_separator(&text, 9), 9);
    assert_eq!(find_separator(&chars("://"), 0), 0);
    assert_eq!(find_separator(&chars(":/"), 0), 2);
    assert_eq!(find_separator(&chars(""), 0), 0);
    assert_eq!(find_separator(&chars(":/:/://"), 0), 4);
}

#[test]
fn single_separator_agrees_with_split() {
    for text in [
        "", "a", "://", "://a", "a://", "a://b", "a://b://c", "://a://", ":/", ":///", "a:////b",
        "://://", "-a://b",
    ] {
        let parts: Vec<&str> = text.split("://").collect();
        let expected = parts.len() == 2 && !parts[1].is_empty();
        assert_eq!(single_separator(&chars(text)), expected, "{:?}", text);
    }
}

#[test]
fn check_name_trims_nothing() {
    assert_eq!(check_name("a.b").unwrap(), "a.b");
    assert_eq!(
        check_name(" a").unwrap_err().message,
        "The file name must start with a letter, number, '-', '.', or '_'."
    );
    assert_eq!(
        check_name("a ").unwrap_err().message,
        "The file name can only contain alphanumeric characters, '.', '_', or '-'."
    );
    assert_eq!(check_name("").unwrap_err().message, "The file name cannot be empty.");
    assert_eq!(check_name("..").unwrap_err().message, "The file name cannot be '.' or '..'.");
}

#[test]
fn messages_are_made_of_their_parts() {
    assert_eq!(
        default_not_allowed("ssh", "[]").message,
        "The provided default scheme 'ssh' is not in the list of allowed schemes: []. Either provide a default scheme that is in the list of allowed schemes, or update the list of allowed schema to include the default schema."
    );
    assert_eq!(
        scheme_not_allowed("ssh", "[\"git\"]", "git").message,
        "The url scheme 'ssh' is not allowed. Allowed schemes are [\"git\"] and the default scheme is 'git'."
    );
    assert_eq!(
        malformed(":/x").message,
        "The repository link [:/x] is malformed. It must either start with contain a scheme separator '://' or be formatted as [scheme]://[host] per for the RFC 3986 specification."
    );
}
