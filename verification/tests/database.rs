use rqotdd::database::{parse_entries, resolve_separator, DEFAULT_SEPARATOR_WIDTH};
use rqotdd::store::{load_database, LoadError, QuoteStore};

fn loaded(text: &str, format: &str) -> Vec<String> {
    load_database(text, format).expect("a database text always has entries").quotes().clone()
}

/// The same entries by way of std's `str::trim` and `str::split`.
fn with_std(text: &str, format: &str) -> Vec<String> {
    let dashes = "-".repeat(30);
    let separator = if format == "default" { dashes.as_str() } else { format };
    text.trim().split(separator).map(|piece| piece.trim().to_string()).collect()
}

#[test]
fn default_format_splits_on_thirty_dashes() {
    let text = "  The first quote.\n------------------------------\n\tThe second quote.\n\n";
    assert_eq!(loaded(text, "default"), vec!["The first quote.", "The second quote."]);
}

#[test]
fn default_format_entries_have_no_outer_white_space() {
    let text = "\n one \n------------------------------\r\n two\t\n";
    let entries = loaded(text, "default");
    assert_eq!(entries.len(), 2);
    for entry in &entries {
        assert_eq!(entry.trim(), entry.as_str());
    }
}

#[test]
fn single_character_separator() {
    assert_eq!(loaded(" a |b| c ", "|"), vec!["a", "b", "c"]);
}

#[test]
fn multi_character_separator() {
    assert_eq!(loaded("one %% two %% three", "%%"), vec!["one", "two", "three"]);
}

#[test]
fn empty_pieces_are_kept() {
    assert_eq!(loaded("a||b", "|"), vec!["a", "", "b"]);
    assert_eq!(loaded("|a", "|"), vec!["", "a"]);
    assert_eq!(loaded("a|", "|"), vec!["a", ""]);
    assert_eq!(loaded("|", "|"), vec!["", ""]);
}

#[test]
fn empty_text_has_one_empty_entry() {
    assert_eq!(loaded("", "default"), vec![""]);
    assert_eq!(loaded(" \n\t ", "default"), vec![""]);
    assert_eq!(loaded("", "|"), vec![""]);
}

#[test]
fn text_without_separator_is_one_entry() {
    assert_eq!(loaded("  only one  ", "default"), vec!["only one"]);
    assert_eq!(loaded("a-b", "--"), vec!["a-b"]);
}

#[test]
fn twenty_nine_dashes_do_not_separate() {
    let text = format!("a\n{}\nb", "-".repeat(29));
    assert_eq!(loaded(&text, "default"), vec![text.clone()]);
}

#[test]
fn thirty_one_dashes_leave_one_dash() {
    let text = format!("a\n{}\nb", "-".repeat(31));
    assert_eq!(loaded(&text, "default"), vec!["a", "-\nb"]);
}

#[test]
fn sixty_dashes_separate_twice() {
    let text = format!("a{}b", "-".repeat(60));
    assert_eq!(loaded(&text, "default"), vec!["a", "", "b"]);
}

#[test]
fn occurrences_do_not_overlap() {
    assert_eq!(loaded("aaa", "aa"), vec!["", "a"]);
    assert_eq!(loaded("xaaaax", "aa"), vec!["x", "", "x"]);
    assert_eq!(loaded("ababab", "abab"), vec!["", "ab"]);
}

#[test]
fn the_format_name_is_matched_exactly() {
    assert_eq!(loaded("aDefaultb", "Default"), vec!["a", "b"]);
    assert_eq!(loaded("adefaultb", "default"), vec!["adefaultb"]);
    assert_eq!(loaded("a default b", "default "), vec!["a", "b"]);
}

#[test]
fn separator_with_white_space_is_taken_literally() {
    assert_eq!(loaded("a \n b\nc", "\n"), vec!["a", "b", "c"]);
    assert_eq!(loaded("a b  c", " "), vec!["a", "b", "", "c"]);
}

#[test]
fn empty_separator_yields_every_character() {
    assert_eq!(loaded("ab", ""), vec!["", "a", "b", ""]);
    assert_eq!(loaded("", ""), vec!["", ""]);
    assert_eq!(loaded(" a b ", ""), vec!["", "a", "", "b", ""]);
}

#[test]
fn unicode_white_space_is_trimmed() {
    assert_eq!(loaded("\u{3000}caf\u{e9}\u{a0}|\u{2003}na\u{ef}ve\u{85}", "|"), vec!["caf\u{e9}", "na\u{ef}ve"]);
    assert_eq!(loaded("\u{200b}x\u{200b}", "|"), vec!["\u{200b}x\u{200b}"]);
}

#[test]
fn non_ascii_separator() {
    assert_eq!(loaded("eins \u{2014} zwei \u{2014} drei", "\u{2014}"), vec!["eins", "zwei", "drei"]);
    assert_eq!(loaded("\u{1f600}\u{1f601}\u{1f600}", "\u{1f601}"), vec!["\u{1f600}", "\u{1f600}"]);
}

#[test]
fn entries_agree_with_std_split_and_trim() {
    let texts = [
        "",
        " ",
        "a",
        " a |b| c ",
        "||",
        "a||b|",
        "aaaa",
        "abababa",
        "  x  \n------------------------------\n  y  \n------------------------------\n",
        "------------------------------",
        "-------------------------------------------------------------",
        "\u{a0}\u{1680} q \u{2028}|\u{2029}r\u{202f}\u{205f}",
        "default",
        "line one\nline two\n\nline four",
        "\u{e9}\u{e9}\u{e9}",
    ];
    let formats = ["default", "|", "a", "aa", "aba", "\n", "\n\n", " ", "", "-", "--", "\u{e9}", "Default"];
    for text in texts {
        for format in formats {
            assert_eq!(loaded(text, format), with_std(text, format), "text {:?}, format {:?}", text, format);
        }
    }
}

#[test]
fn parse_entries_keeps_file_order() {
    assert_eq!(parse_entries("3|1|2", "|"), vec!["3", "1", "2"]);
}

#[test]
fn a_store_without_quotes_is_refused() {
    assert_eq!(QuoteStore::new(Vec::new()).err(), Some(LoadError::Empty));
}

#[test]
fn a_store_of_one_quote_is_made() {
    let store = QuoteStore::new(vec!["only".to_string()]).unwrap();
    assert_eq!(store.len(), 1);
    assert_eq!(store.quotes(), &vec!["only".to_string()]);
}

#[test]
fn loading_never_yields_an_empty_store() {
    for text in ["", " ", "|", "x"] {
        for format in ["default", "|", ""] {
            let store = load_database(text, format).unwrap();
            assert!(store.len() >= 1);
        }
    }
}

#[test]
fn the_default_separator_is_thirty_dashes() {
    let format: Vec<char> = "default".chars().collect();
    assert_eq!(DEFAULT_SEPARATOR_WIDTH, 30);
    assert_eq!(resolve_separator(&format), vec!['-'; 30]);
}

#[test]
fn any_other_format_is_its_own_separator() {
    for format in ["|", "", "--", "defaul", "defaults", "DEFAULT", " default", "\u{e9}\n"] {
        let chars: Vec<char> = format.chars().collect();
        assert_eq!(resolve_separator(&chars), chars);
    }
}
