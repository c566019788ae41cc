use pkbassist::config::Version;
use pkbassist::rename::file_name_for;
use pkbassist::calendar::month_table_of;
use pkbassist::apod::{day_daily_line_of, day_note_of, image_file_name, Info, MediaType};
use pkbassist::calendar::{calendar_appendix, calendar_table};
use pkbassist::error::Error;
use pkbassist::template::TemplateEntry;
use pkbassist::twir::{issue_daily_line_of, issue_note_from_page, issue_note_of, Issues, Note, Notes};

#[test]
fn issue_test() {
    for i in 1..=100 {
        let value = Issues::from_str(format!("{}", i).as_str()).unwrap();
        assert_eq!(value, Issues::Single(i));
    }

    assert!(Issues::from_str("0").is_err());
    assert!(Issues::from_str("-1").is_err());

    for (i1, i2) in (1..=100).zip((1..=100).map(|x| x * x)) {
        let value = Issues::from_str(format!("{}..{}", i1, i2).as_str()).unwrap();
        assert_eq!(value, Issues::Range(i1, i2));
    }

    for (i1, i2) in (1..=100).zip((1..=100).map(|x| x + 10)) {
        let value = Issues::from_str(format!("{}..{}", i2, i1).as_str()).unwrap();
        assert_eq!(value, Issues::Range(i1, i2));
    }
}

#[test]
fn issue_selection_edges() {
    assert_eq!(Issues::from_str("  7 .. 3 ").unwrap(), Issues::Range(3, 7));
    assert_eq!(Issues::from_str("\t42\n").unwrap(), Issues::Single(42));
    assert_eq!(Issues::from_str("4294967295").unwrap(), Issues::Single(4294967295));
    assert!(matches!(Issues::from_str("4294967296"), Err(Error::IllegalIssue(s)) if s == "4294967296"));
    assert!(Issues::from_str("").is_err());
    assert!(Issues::from_str("1..").is_err());
    assert!(Issues::from_str("01").is_err());
    assert!(Issues::from_str("1...2").is_err());
    assert!(Issues::from_str("1 2").is_err());
}

fn note(instant: i64, day: u32, title: &str) -> Note {
    Note {
        instant,
        year: 2024,
        month: 3,
        day,
        title: title.to_string(),
        url: format!("https://example.org/{}", day),
    }
}

#[test]
fn notes_newest_first_and_found() {
    let notes = Notes::from_notes(vec![
        note(100, 1, "This Week in Rust 531"),
        note(300, 3, "This Week in Rust 540"),
        note(200, 2, "This Week in Rust 54"),
    ]);
    let titles: Vec<&str> = notes.iter().iter().map(|n| n.title()).collect();
    assert_eq!(titles, vec!["This Week in Rust 540", "This Week in Rust 54", "This Week in Rust 531"]);
    assert_eq!(notes.find(54).unwrap().datetime(), 200);
    assert_eq!(notes.find(31).unwrap().title(), "This Week in Rust 531");
    assert!(matches!(notes.find(7), Err(Error::IllegalIssue(s)) if s == "7"));
    let first = notes.first();
    assert_eq!(first.iter().len(), 1);
    assert_eq!(first.iter()[0].url(), "https://example.org/3");
    assert_eq!(Notes::from_notes(Vec::new()).first().iter().len(), 0);
}

#[test]
fn issue_note_text() {
    let n = note(0, 5, "This Week in Rust 537");
    let text = issue_note_of(537, &n, false, "## Updates");
    assert_eq!(
        text,
        "---\ntype: news\nissue: 537\ndate: 2024-03-05\ntags:\n- rust\n- news/twir\naliases:\n- \"This Week in Rust 537\"\n- \"TWiR 2024-03-05 This Week in Rust 537\"\nurl: https://example.org/5\n---\n\n<< [[TWiR 536|536]] | [[TWiR 538|538]] >>\n\n# 2024-03-05: This Week in Rust 537\n\n## Updates"
    );
    let first = issue_note_of(1, &n, true, "");
    assert!(first.contains("\n| [[TWiR 2|2]] >>\n\n# [[2024-03-05]]: This Week in Rust 1\n"));
    assert_eq!(issue_daily_line_of(537), "\n\n`rir:Newspaper` [[Twir 537|This Week in Rust 537]]\n");
}

#[test]
fn issue_note_from_page_needs_article() {
    let n = note(0, 5, "This Week in Rust 537");
    let page = "<html><body><article class=\"post-content\"><h2>News</h2><p>Hello</p></article></body></html>";
    let text = issue_note_from_page(537, &n, false, page).unwrap();
    assert!(text.contains("News"));
    assert!(text.contains("Hello"));
    assert!(!text.contains("<p>"));
    assert!(matches!(
        issue_note_from_page(537, &n, false, "<html><body><p>x</p></body></html>"),
        Err(Error::IllegalHTMLContent)
    ));
}

#[test]
fn calendar_february_leap_year() {
    let lines = calendar_table(2024, 2).unwrap();
    assert_eq!(lines.len(), 7);
    assert_eq!(lines[0], "| Пн | Вт | Ср | Чт | Пт | Сб | Вс |");
    assert_eq!(lines[1], "|:--:|:--:|:--:|:--:|:--:|:--:|:--:|");
    assert_eq!(
        lines[2],
        "|    |    |    | [[2024-02-01\\|1]] | [[2024-02-02\\|2]] | [[2024-02-03\\|3]] | [[2024-02-04\\|4]] |"
    );
    assert_eq!(
        lines[6],
        "| [[2024-02-26\\|26]] | [[2024-02-27\\|27]] | [[2024-02-28\\|28]] | [[2024-02-29\\|29]] |    |    |    |"
    );
}

#[test]
fn calendar_month_ending_on_sunday() {
    // March 2024 ends on a Sunday: no empty row after the last week.
    let lines = calendar_table(2024, 3).unwrap();
    assert_eq!(lines.len(), 7);
    assert!(lines[6].ends_with(" [[2024-03-31\\|31]] |"));
    let text = calendar_appendix(2024, 3).unwrap();
    assert!(text.starts_with("\n\n| Пн |"));
    assert!(text.ends_with("[[2024-03-31\\|31]] |\n"));
}

#[test]
fn calendar_rejects_bad_year_and_month() {
    assert!(matches!(calendar_table(0, 1), Err(Error::IllegalYearNumber(0))));
    assert!(matches!(calendar_table(2024, 13), Err(Error::IllegalMonthNumber(13))));
    assert!(matches!(calendar_table(2024, 0), Err(Error::IllegalMonthNumber(0))));
}

fn info(media_type: MediaType, copyright: Option<&str>) -> Info {
    Info {
        copyright: copyright.map(|c| c.to_string()),
        year: 2024,
        month: 1,
        day: 9,
        explanation: "Stars.".to_string(),
        media_type,
        title: "Night Sky".to_string(),
        url: "https://apod.nasa.gov/apod/image/2401/sky_big.jpg".to_string(),
    }
}

#[test]
fn apod_image_note() {
    let name = image_file_name("https://apod.nasa.gov/apod/image/2401/sky_big.jpg", "7f3c9a2e-1b4d-4c8e-9f00-a1b2c3d4e5f6").unwrap();
    assert_eq!(name, "7f3c9a2e-1b4d-4c8e-9f00-a1b2c3d4e5f6.jpg");
    let text = day_note_of(&info(MediaType::Image, Some("A. Person")), &name, true).unwrap();
    assert_eq!(
        text,
        "---\ntype: news\nname: \"Night Sky\"\nissue: APoD\ndate: 2024-01-09\ntags:\n- news/apod\n- science/astronomy\n---\n\n[[2024-01-09]]\n\n# Night Sky\n\n![[7f3c9a2e-1b4d-4c8e-9f00-a1b2c3d4e5f6.jpg]]\n\n**Explanation:** Stars.\n\n*Image copyright:* A. Person©\n"
    );
    assert_eq!(day_daily_line_of(&info(MediaType::Image, None)), "\n\n`rir:Star` [[APoD 2024-01-09|Astronomy Picture of the Day]]\n");
}

#[test]
fn apod_video_and_unknown() {
    let text = day_note_of(&info(MediaType::Video, None), "", false).unwrap();
    assert!(text.contains("\n2024-01-09\n\n# Night Sky\n\n<iframe width=\"100%\" height=\"450\" src=\"https://apod.nasa.gov/apod/image/2401/sky_big.jpg\" title=\"YouTube video player\""));
    assert!(text.ends_with("**Explanation:** Stars.\n"));
    assert!(matches!(day_note_of(&info(MediaType::Unknown, None), "", false), Err(Error::UnknownMediaType)));
}

#[test]
fn apod_bad_urls() {
    assert!(matches!(image_file_name("not a url", "x"), Err(Error::URLParseError(_))));
    assert!(matches!(image_file_name("mailto:someone@example.org", "x"), Err(Error::IllegalURL(_))));
}

#[test]
fn template_entries_walk() {
    let single = TemplateEntry::Single(Some("a".to_string()));
    let mut it = single.into_iter();
    assert_eq!(it.next().map(|s| s.as_str()), Some("a"));
    assert_eq!(it.next(), None);
    let none = TemplateEntry::Single(None);
    assert_eq!(none.into_iter().next(), None);
    let many = TemplateEntry::Multiple(vec!["x".to_string(), "y".to_string()]);
    let mut it = many.into_iter();
    assert_eq!(it.next().map(|s| s.as_str()), Some("x"));
    assert_eq!(it.next().map(|s| s.as_str()), Some("y"));
    assert_eq!(it.next(), None);
}

#[test]
fn month_table_from_given_weekday() {
    let lines = month_table_of(2023, 1, 6);
    assert_eq!(lines.len(), 8);
    assert_eq!(lines[2], "|    |    |    |    |    |    | [[2023-01-01\\|1]] |");
    assert_eq!(lines[7], "| [[2023-01-30\\|30]] | [[2023-01-31\\|31]] |    |    |    |    |    |");
    assert_eq!(calendar_table(2023, 1).unwrap(), lines);
}

#[test]
fn file_names_for_identifiers() {
    assert_eq!(file_name_for("sky_big.jpg", "id"), "id.jpg");
    assert_eq!(file_name_for("noext", "id"), "id");
    assert_eq!(file_name_for("trailing.", "id"), "id");
}

#[test]
fn versions_by_name() {
    assert_eq!(Version::from_lowered("v1"), Some(Version::V1_0));
    assert_eq!(Version::from_lowered("V1"), None);
    assert_eq!(Version::default(), Version::V1_0);
}

#[test]
fn notes_at_the_same_instant_keep_their_order() {
    let notes = Notes::from_notes(vec![
        note(100, 1, "first"),
        note(200, 2, "newest"),
        note(100, 3, "second"),
        note(100, 4, "third"),
    ]);
    let titles: Vec<&str> = notes.iter().iter().map(|n| n.title()).collect();
    assert_eq!(titles, vec!["newest", "first", "second", "third"]);
}

#[test]
fn calendar_years_past_four_digits() {
    assert!(matches!(calendar_table(10000, 13), Err(Error::IllegalMonthNumber(13))));
    let lines = calendar_table(10000, 1).unwrap();
    assert!(lines.iter().any(|l| l.contains("[[+10000-01-01\\|1]]")));
    assert!(calendar_table(262142, 12).is_ok());
    assert!(matches!(calendar_table(262143, 1), Err(Error::IllegalYearNumber(262143))));
}

#[test]
fn calendar_checks_month_before_large_year() {
    assert!(matches!(calendar_table(300000, 13), Err(Error::IllegalMonthNumber(13))));
    assert!(matches!(calendar_table(300000, 1), Err(Error::IllegalYearNumber(300000))));
    assert!(matches!(calendar_table(-5, 13), Err(Error::IllegalYearNumber(-5))));
}
