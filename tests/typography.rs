use deepwell_revisions::typography::{
    double_quotes, horizontal_ellipsis, low_double_quotes, single_quotes, substitute,
    surround_match,
};

const TEST_CASES: [(&str, &str); 21] = [
    (
        "John laughed. ``You'll never defeat me!''\n``That's where you're wrong...''",
        "John laughed. “You'll never defeat me!”\n“That's where you're wrong…”",
    ),
    (
        ",,あんたは馬鹿です！''\n``Ehh?''\n,,本当！''\n[[footnoteblock]]",
        "„あんたは馬鹿です！”\n“Ehh?”\n„本当！”\n[[footnoteblock]]",
    ),
    (
        "**ENTITY MAKES DRAMATIC MOTION** . . . ",
        "**ENTITY MAKES DRAMATIC MOTION** … ",
    ),
    ("Whales... they are cool", "Whales… they are cool"),
    ("Whales ... they are cool", "Whales … they are cool"),
    ("Whales. . . they are cool", "Whales… they are cool"),
    ("Whales . . . they are cool", "Whales … they are cool"),
    ("...why would you think that?", "…why would you think that?"),
    (
        "... why would you think that?",
        "… why would you think that?",
    ),
    (
        ". . .why would you think that?",
        "…why would you think that?",
    ),
    (
        ". . . why would you think that?",
        "… why would you think that?",
    ),
    ("how could you...", "how could you…"),
    ("how could you ...", "how could you …"),
    ("how could you. . .", "how could you…"),
    ("how could you . . .", "how could you …"),
    // Spaced with extra dot after 3rd
    (". . .. ....", ". . .. ...."),
    // Multiple spaced dots in a row
    ("... . . . . . .", "… … …"),
    // Too many dots
    (".... ..", ".... .."),
    ("..........", ".........."),
    // Groups of three dots
    ("... ... ...", "… … …"),
    // Groups of three, mixed spaced and continuous
    ("... . . . ...", "… … …"),
];

#[test]
fn regexes() {
    for replacer in [
        single_quotes(),
        double_quotes(),
        low_double_quotes(),
        horizontal_ellipsis(),
    ] {
        regex::Regex::new(replacer.pattern()).unwrap();
    }
}

#[test]
fn test_substitute() {
    for (input, expected) in TEST_CASES {
        let mut text = input.to_string();
        substitute(&mut text);
        assert_eq!(text, expected, "typography of {:?}", input);
    }
}

#[test]
fn substitute_leaves_plain_text_alone() {
    let mut text = String::from("nothing to see here");
    substitute(&mut text);
    assert_eq!(text, "nothing to see here");

    let mut empty = String::new();
    substitute(&mut empty);
    assert_eq!(empty, "");
}

#[test]
fn single_quotes_become_fancy() {
    let mut text = String::from("a `quoted' word and `another'");
    single_quotes().replace(&mut text);
    assert_eq!(text, "a \u{2018}quoted\u{2019} word and \u{2018}another\u{2019}");
}

#[test]
fn surround_match_rewrites_the_span() {
    let mut text = String::from("x[% wikidork %]y");
    surround_match(&mut text, (1, 15), (4, 12), "<(", ")>");
    assert_eq!(text, "x<(wikidork)>y");
}
