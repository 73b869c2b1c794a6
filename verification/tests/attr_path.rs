use std::io::Write;

use anstream::StripStream;
use ndf::attr_path::{AttrPath, AttrPathArgError, ParseError};
use ndf::source::Source;
use ndf::styles::{ATTR_PATH as A, ATTR_PATH_NIXOS as N, ATTR_PATH_QUOTED as Q};
use unicode_width::UnicodeWidthStr;

fn mk(leading_dot: bool, parts: &[&str], nixos: bool) -> AttrPath {
    AttrPath::new(
        leading_dot,
        parts.iter().map(|&s| String::from(s)).collect(),
        nixos,
    )
}

#[test]
fn parse_cli_arg() -> Result<(), ParseError> {
    let cases: [(&str, (bool, &[&str])); 14] = [
        // simple
        ("a", (false, &["a"])),
        ("foo.bar.baz", (false, &["foo", "bar", "baz"])),
        // leading dot
        (".", (true, &[])),
        (".foo", (true, &["foo"])),
        (".foo.bar", (true, &["foo", "bar"])),
        // quoting
        ("\"foo\"", (false, &["foo"])),
        ("f\"o\"o", (false, &["foo"])),
        ("\".foo\"", (false, &[".foo"])),
        ("\"foo.bar.baz\"", (false, &["foo.bar.baz"])),
        ("foo.\"bar.baz\".quux", (false, &["foo", "bar.baz", "quux"])),
        (
            "foo.\"bar.baz\".quux.\"\".more\".\"dots",
            (false, &["foo", "bar.baz", "quux", "", "more.dots"]),
        ),
        // empty
        ("", (false, &[])),
        ("\"\"", (false, &[""])),
        (".\"\".foo.\"\".bar", (true, &["", "foo", "", "bar"])),
    ];

    for (input, expected) in cases {
        let parsed = AttrPath::parse_cli_arg(input)?;
        let expected = mk(expected.0, expected.1, false);
        assert_eq!(
            expected, parsed,
            "{input:?}: unexpected result of AttrPath::parse_cli_arg",
        );
    }
    Ok(())
}

#[test]
fn parse_cli_arg_errors() {
    let cases = [
        ("..", ParseError::ConsecutiveDots),
        ("..foo.bar", ParseError::ConsecutiveDots),
        ("foo..bar", ParseError::ConsecutiveDots),
        ("foo.bar..", ParseError::ConsecutiveDots),
        ("foo.", ParseError::TrailingDot),
        ("foo.\"bar.baz\".", ParseError::TrailingDot),
        ("\"", ParseError::NoClosingQuote),
        ("foo.\"bar", ParseError::NoClosingQuote),
        ("\"foo.bar\".baz.quux\"", ParseError::NoClosingQuote),
    ];

    for case in cases {
        let result = AttrPath::parse_cli_arg(case.0);
        assert_eq!(
            result,
            Err(case.1),
            "{:?}: unexpected result of AttrPath::parse_cli_arg",
            case.0,
        );
    }
}

#[test]
fn display_width() -> Result<(), Box<dyn std::error::Error>> {
    let cases: [&[&str]; 7] = [
        &[],
        &[""],
        &["foo"],
        &["foo", "bar", "baz"],
        &["foo.bar.baz"],
        &["foo", "bar.baz", "quux"],
        &["with space"],
    ];

    for parts in cases {
        for leading_dot in [false, true] {
            for nixos in [false, true] {
                let case = mk(leading_dot, parts, nixos);

                let expected_width = case.display_width();

                let mut stream = StripStream::new(Vec::new());
                stream.write_all(case.display().as_bytes())?;
                let output = String::from_utf8(stream.into_inner())?;
                let actual_width = UnicodeWidthStr::width(output.as_str());

                assert_eq!(
                    expected_width, actual_width,
                    "{case:?}: AttrPath::display_width output doesn't match \
                    the actual width of AttrPath::display",
                );
            }
        }
    }
    Ok(())
}

#[test]
fn display() {
    let (a, a_end) = (A.prefix(), A.suffix());
    let (q, q_end) = (Q.prefix(), Q.suffix());
    let (n, n_end) = (N.prefix(), N.suffix());
    let dot = format!("{a}.{a_end}");
    let lit = |s: &str| format!("{a}{s}{a_end}");
    let quoted = |s: &str| format!("{q}\"{s}\"{q_end}");
    let nixos = format!(" {n}(NixOS){n_end}");

    type Input<'a> = (bool, &'a [&'a str], bool);
    let cases: [(Input<'_>, String); 13] = [
        ((false, &[], false), format!("{q}(empty){q_end}")),
        ((true, &[], false), dot.clone()),
        ((false, &["foo"], false), lit("foo")),
        ((true, &["foo"], false), format!("{dot}{}", lit("foo"))),
        (
            (false, &["foo", "bar", "baz"], false),
            format!("{}{dot}{}{dot}{}", lit("foo"), lit("bar"), lit("baz")),
        ),
        (
            (true, &["foo", "bar", "baz"], false),
            format!("{dot}{}{dot}{}{dot}{}", lit("foo"), lit("bar"), lit("baz")),
        ),
        ((false, &["foo bar"], false), quoted("foo bar")),
        ((true, &["foo bar"], false), format!("{dot}{}", quoted("foo bar"))),
        (
            (false, &["foo.bar", "baz", "qu\"ux"], false),
            format!("{}{dot}{}{dot}{}", quoted("foo.bar"), lit("baz"), quoted("qu\"ux")),
        ),
        // NixOS
        ((false, &[], true), format!("{q}(empty){q_end}{nixos}")),
        ((true, &[], true), format!("{dot}{nixos}")),
        ((false, &["foo"], true), format!("{}{nixos}", lit("foo"))),
        ((true, &["foo"], true), format!("{dot}{}{nixos}", lit("foo"))),
    ];

    for (input, expected) in cases {
        let input = mk(input.0, input.1, input.2);
        let output = input.display();
        assert_eq!(
            expected, output,
            "{input:?} unexpected result of AttrPath::display",
        );
    }
}

#[test]
fn styles_render_ansi_codes() {
    assert_eq!(A.prefix(), "\u{1b}[36m");
    assert_eq!(A.suffix(), "\u{1b}[0m");
}

#[test]
fn from_cli_arg_checks_source() {
    let file = Source::File(String::from("/repo/default.nix"));
    assert_eq!(
        AttrPath::from_cli_arg(".foo", &file, false),
        Err(AttrPathArgError::LeadingDotWithFile)
    );
    assert_eq!(
        AttrPath::from_cli_arg("foo..", &file, false),
        Err(AttrPathArgError::Parse(ParseError::ConsecutiveDots))
    );
    let path = AttrPath::from_cli_arg("foo.bar", &file, true).unwrap();
    assert_eq!(path, mk(false, &["foo", "bar"], true));
}

#[test]
fn queries() {
    let path = mk(false, &["foo"], true);
    assert_eq!(
        path.file_query(),
        vec!["foo", "config", "system", "build", "toplevel"]
    );
    assert_eq!(
        path.flake_query(),
        (
            true,
            vec!["nixosConfigurations", "foo", "config", "system", "build", "toplevel"]
        )
    );
    let path = mk(true, &["foo"], false);
    assert_eq!(path.flake_query(), (true, vec!["foo"]));
    let path = mk(false, &["foo"], false);
    assert_eq!(path.flake_query(), (false, vec!["foo"]));
}

#[test]
fn part_quoting_and_width() {
    assert!(AttrPath::part_needs_quotes(""));
    assert!(AttrPath::part_needs_quotes("a.b"));
    assert!(AttrPath::part_needs_quotes("a\"b"));
    assert!(AttrPath::part_needs_quotes("a\tb"));
    assert!(!AttrPath::part_needs_quotes("abc"));
    assert_eq!(mk(false, &[], false).display_width(), 7);
    assert_eq!(mk(true, &["foo", "a b"], true).display_width(), 1 + 3 + 1 + 5 + 8);
    assert_eq!(
        ParseError::TrailingDot.message(),
        "trailing dots are not allowed in attribute paths (empty attribute names must be quoted)"
    );
}

#[test]
fn quoted_parts_parse_back() -> Result<(), ParseError> {
    let cases: [(bool, &[&str]); 4] = [
        (false, &["a.b", "c d"]),
        (true, &["", "x"]),
        (false, &[]),
        (true, &["nixosConfigurations", "host"]),
    ];
    for (leading_dot, parts) in cases {
        let quoted: Vec<String> = parts.iter().map(|p| format!("\"{p}\"")).collect();
        let text = format!("{}{}", if leading_dot { "." } else { "" }, quoted.join("."));
        assert_eq!(AttrPath::parse_cli_arg(&text)?, mk(leading_dot, parts, false));
    }
    Ok(())
}

#[test]
fn plain_parts_parse_to_themselves() -> Result<(), ParseError> {
    for part in ["hello", "x86_64-linux", "a'b"] {
        assert!(!AttrPath::part_needs_quotes(part));
        assert_eq!(AttrPath::parse_cli_arg(part)?, mk(false, &[part], false));
    }
    assert!(AttrPath::part_needs_quotes("a b"));
    Ok(())
}
