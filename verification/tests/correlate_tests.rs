use pacnews::articles::{parse_rows, NewsArticle, ParseError, RawCell, RawLink, RawRow};
use pacnews::correlate::{correlate, title_has_match};
use pacnews::datetime::Timestamp;

fn strings(v: &[&str]) -> Vec<String> {
    v.iter().map(|s| s.to_string()).collect()
}

fn midnight(year: u32, month: u32, day: u32) -> Timestamp {
    Timestamp { year, month, day, hour: 0, minute: 0, second: 0, offset_minutes: 0 }
}

fn article(date: Timestamp, title: &str) -> NewsArticle {
    NewsArticle { date, title: title.to_string(), link: "https://archlinux.org/x".to_string() }
}

#[test]
fn keeps_only_dated_and_matching_articles() {
    let cutoff = midnight(2024, 2, 1);
    let names = strings(&["linux"]);
    let parsed: Vec<Result<NewsArticle, ParseError>> = vec![
        Ok(article(midnight(2024, 1, 10), "Linux 6.7 release")),
        Ok(article(midnight(2024, 3, 1), "Linux 6.8 release")),
        Ok(article(midnight(2024, 1, 15), "GIMP update")),
    ];
    let r = correlate(&parsed, &cutoff, &names);
    assert_eq!(r, vec![article(midnight(2024, 1, 10), "Linux 6.7 release")]);
}

#[test]
fn failed_parses_are_dropped() {
    let cutoff = midnight(2024, 2, 1);
    let names = strings(&["linux"]);
    let parsed: Vec<Result<NewsArticle, ParseError>> = vec![
        Err(ParseError::RowTooShort),
        Ok(article(midnight(2024, 1, 10), "Linux 6.7 release")),
        Err(ParseError::BadDate),
    ];
    let r = correlate(&parsed, &cutoff, &names);
    assert_eq!(r.len(), 1);
    assert_eq!(r[0].title, "Linux 6.7 release");
}

#[test]
fn cutoff_is_strict() {
    let cutoff = midnight(2024, 1, 10);
    let names = strings(&["linux"]);
    let parsed: Vec<Result<NewsArticle, ParseError>> =
        vec![Ok(article(midnight(2024, 1, 10), "Linux 6.7 release"))];
    assert!(correlate(&parsed, &cutoff, &names).is_empty());
}

#[test]
fn matching_is_case_insensitive_both_ways() {
    // A package named `Linux` matches titles containing `LINUX` or `linux`.
    let names = strings(&["Linux"]);
    assert!(title_has_match(&"LINUX 6.7 RELEASED".to_string(), &names));
    assert!(title_has_match(&"linux 6.7 released".to_string(), &names));
    assert!(!title_has_match(&"GIMP update".to_string(), &names));
}

#[test]
fn substring_matching_is_not_word_bounded() {
    let names = strings(&["linux"]);
    assert!(title_has_match(&"linux-firmware changes".to_string(), &names));
    assert!(title_has_match(&"util-linux soname bump".to_string(), &names));
}

#[test]
fn any_of_several_names_matches() {
    let names = strings(&["gimp", "openssl"]);
    assert!(title_has_match(&"OpenSSL 3 migration".to_string(), &names));
    assert!(!title_has_match(&"Grub changes".to_string(), &names));
    assert!(!title_has_match(&"anything".to_string(), &Vec::new()));
}

#[test]
fn empty_result_is_ordinary() {
    let cutoff = midnight(2024, 2, 1);
    let names = strings(&["linux"]);
    let parsed: Vec<Result<NewsArticle, ParseError>> = Vec::new();
    assert!(correlate(&parsed, &cutoff, &names).is_empty());
}

#[test]
fn order_of_the_feed_is_preserved() {
    let cutoff = midnight(2024, 6, 1);
    let names = strings(&["linux"]);
    let parsed: Vec<Result<NewsArticle, ParseError>> = vec![
        Ok(article(midnight(2024, 3, 1), "linux b")),
        Ok(article(midnight(2024, 1, 1), "linux a")),
        Ok(article(midnight(2024, 2, 1), "linux c")),
    ];
    let r = correlate(&parsed, &cutoff, &names);
    let titles: Vec<&str> = r.iter().map(|a| a.title.as_str()).collect();
    assert_eq!(titles, vec!["linux b", "linux a", "linux c"]);
}

#[test]
fn correlate_twice_yields_identical_output() {
    // Referential transparency on concrete inputs: two runs, equal results.
    let cutoff = midnight(2024, 2, 1);
    let names = strings(&["linux", "gimp"]);
    let parsed: Vec<Result<NewsArticle, ParseError>> = vec![
        Ok(article(midnight(2024, 1, 10), "Linux 6.7 release")),
        Err(ParseError::MissingLink),
        Ok(article(midnight(2024, 1, 15), "GIMP update")),
    ];
    let r1 = correlate(&parsed, &cutoff, &names);
    let r2 = correlate(&parsed, &cutoff, &names);
    assert_eq!(r1, r2);
}

#[test]
fn full_pipeline_from_rows() {
    let rows = vec![
        RawRow {
            cells: vec![
                RawCell { text_parts: strings(&["2024-01-10"]), links: Vec::new() },
                RawCell {
                    text_parts: Vec::new(),
                    links: vec![RawLink {
                        text_parts: strings(&["Linux", "6.7", "release"]),
                        href: Some("/news/linux-67".to_string()),
                    }],
                },
            ],
        },
        RawRow { cells: Vec::new() },
    ];
    let parsed = parse_rows(&rows);
    assert_eq!(parsed.len(), 2);
    assert_eq!(parsed[1], Err(ParseError::RowTooShort));
    let r = correlate(&parsed, &midnight(2024, 2, 1), &strings(&["linux"]));
    assert_eq!(r.len(), 1);
    assert_eq!(r[0].title, "Linux 6.7 release");
    assert_eq!(r[0].link, "https://archlinux.org/news/linux-67");
}
