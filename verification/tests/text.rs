use esdb_admin::catalog::{precedes, Catalog};
use esdb_admin::failure::{read_stream_next, Failure, FailureKind};
use esdb_admin::fixed::{
    hundredths_string, integer_string, magnitude_of, round_div, tenths_string,
};
use esdb_admin::request::MainTab;
use esdb_admin::text::{chars_of, push_decimal, push_repeated, same_text, text_between};
use esdb_admin::views::layout::{align_labels, widest_label};
use esdb_admin::views::legend::legend;
use esdb_admin::views::line_numbers::{count_digits, render_line_numbers, split_lines};

fn owned(pairs: &[(&str, &str)]) -> Vec<(String, String)> {
    pairs.iter().map(|(a, b)| (a.to_string(), b.to_string())).collect()
}

#[test]
fn line_numbers_are_right_aligned() {
    assert_eq!(render_line_numbers(""), "");
    assert_eq!(render_line_numbers("one"), "1 | one");
    assert_eq!(render_line_numbers("one\ntwo\n"), "1 | one\n2 | two");
    let ten = "a\nb\nc\nd\ne\nf\ng\nh\ni\nj";
    assert_eq!(
        render_line_numbers(ten),
        " 1 | a\n 2 | b\n 3 | c\n 4 | d\n 5 | e\n 6 | f\n 7 | g\n 8 | h\n 9 | i\n10 | j"
    );
}

#[test]
fn line_numbers_keep_empty_lines() {
    assert_eq!(render_line_numbers("\n"), "1 | ");
    assert_eq!(render_line_numbers("a\n\nb"), "1 | a\n2 | \n3 | b");
    assert_eq!(render_line_numbers("fromAll()\r\n  .when({})\r\n"), "1 | fromAll()\n2 |   .when({})");
}

#[test]
fn lines_split_as_the_standard_library_splits_them() {
    let samples = [
        "",
        "\n",
        "\r\n",
        "\r",
        "a",
        "a\n",
        "a\r\n",
        "a\r",
        "a\rb\n",
        "foo\r\nbar\n\nbaz\r",
        "one\n\r\ntwo\r\r\nthree\n\n",
        "\n\nx",
        "é\nü\r\n",
    ];
    for sample in samples {
        let expected: Vec<String> = sample.lines().map(|l| l.to_string()).collect();
        assert_eq!(split_lines(sample), expected, "{:?}", sample);
    }
}

#[test]
fn digits_are_counted() {
    assert_eq!(count_digits(0), 1);
    assert_eq!(count_digits(9), 1);
    assert_eq!(count_digits(10), 2);
    assert_eq!(count_digits(99), 2);
    assert_eq!(count_digits(100), 3);
    assert_eq!(count_digits(usize::MAX), usize::MAX.to_string().len());
}

#[test]
fn decimal_numerals() {
    let mut s = String::from("n=");
    push_decimal(&mut s, 0);
    assert_eq!(s, "n=0");
    push_decimal(&mut s, 1234567890);
    assert_eq!(s, "n=01234567890");
    let mut s = String::new();
    push_decimal(&mut s, u128::MAX);
    assert_eq!(s, u128::MAX.to_string());
    assert_eq!(integer_string(0), "0");
    assert_eq!(integer_string(-17), "-17");
    assert_eq!(integer_string(i128::MIN), i128::MIN.to_string());
    assert_eq!(integer_string(i128::MAX), i128::MAX.to_string());
    assert_eq!(magnitude_of(i128::MIN), 1u128 << 127);
    assert_eq!(magnitude_of(-5), 5);
}

#[test]
fn fixed_point_texts() {
    assert_eq!(tenths_string(0), "0.0");
    assert_eq!(tenths_string(7), "0.7");
    assert_eq!(tenths_string(125), "12.5");
    assert_eq!(tenths_string(-125), "-12.5");
    assert_eq!(tenths_string(-3), "-0.3");
    assert_eq!(hundredths_string(120), "1.20");
    assert_eq!(hundredths_string(5), "0.05");
    assert_eq!(hundredths_string(-100), "-1.00");
    assert_eq!(hundredths_string(123456), "1234.56");
}

#[test]
fn quotients_round_half_away_from_zero() {
    assert_eq!(round_div(7, 2), 4);
    assert_eq!(round_div(-7, 2), -4);
    assert_eq!(round_div(7, -2), -4);
    assert_eq!(round_div(-7, -2), 4);
    assert_eq!(round_div(5, 10), 1);
    assert_eq!(round_div(4, 10), 0);
    assert_eq!(round_div(-4, 10), 0);
    assert_eq!(round_div(0, 3), 0);
    assert_eq!(round_div(600_000, 5_000), 120);
    assert_eq!(round_div(10, 3), 3);
    assert_eq!(round_div(11, 3), 4);
}

#[test]
fn characters_and_ranges() {
    assert_eq!(chars_of("aé-z"), vec!['a', 'é', '-', 'z']);
    assert_eq!(chars_of(""), Vec::<char>::new());
    let chars = chars_of("hello world");
    assert_eq!(text_between(&chars, 0, 5), "hello");
    assert_eq!(text_between(&chars, 6, 11), "world");
    assert_eq!(text_between(&chars, 3, 3), "");
    let mut s = String::from("x");
    push_repeated(&mut s, '_', 3);
    assert_eq!(s, "x___");
    push_repeated(&mut s, '_', 0);
    assert_eq!(s, "x___");
}

#[test]
fn catalog_keeps_names_in_order() {
    let mut catalog: Catalog<u32> = Catalog::new();
    for (name, value) in [("m", 1), ("b", 2), ("z", 3), ("Z", 4), ("ba", 5), ("", 6), ("é", 7)] {
        catalog.put(name, value);
    }
    let keys: Vec<&str> = catalog.list().iter().map(|e| e.key.as_str()).collect();
    assert_eq!(keys, vec!["", "Z", "b", "ba", "m", "z", "é"]);
    catalog.put("b", 20);
    assert_eq!(catalog.len(), 7);
    assert_eq!(catalog.get(2), Some(&20));
    assert_eq!(catalog.get(7), None);
    assert_eq!(catalog.locate("ba"), (true, 3));
    assert_eq!(catalog.locate("bb"), (false, 4));
    assert_eq!(catalog.locate("zz"), (false, 6));
    assert_eq!(catalog.entry("c", 9), 4);
    assert_eq!(catalog.entry("c", 10), 4);
    assert_eq!(catalog.get(4), Some(&9));
    *catalog.get_mut(4).unwrap() = 11;
    assert_eq!(catalog.get(4), Some(&11));
    assert!(catalog.get_mut(8).is_none());
    assert_eq!(catalog.key_at(0), "");
}

#[test]
fn end_of_stream_is_no_failure() {
    let missing = Failure { kind: FailureKind::ResourceNotFound, message: "gone".to_string() };
    let broken = Failure { kind: FailureKind::Transport, message: "down".to_string() };
    assert!(matches!(read_stream_next::<u8>(Err(missing)), Ok(None)));
    match read_stream_next::<u8>(Err(broken)) {
        Err(e) => {
            assert_eq!(e.kind, FailureKind::Transport);
            assert_eq!(e.message, "down");
        }
        Ok(_) => panic!("a transport failure stays a failure"),
    }
    assert!(matches!(read_stream_next(Ok(Some(3u8))), Ok(Some(3))));
    assert!(matches!(read_stream_next::<u8>(Ok(None)), Ok(None)));
}

#[test]
fn tabs_have_titles_and_positions() {
    assert_eq!(MainTab::Dashboard.index(), 0);
    assert_eq!(MainTab::PersistentSubscriptions.index(), 3);
    assert_eq!(MainTab::from_index(1), Some(MainTab::StreamsBrowser));
    assert_eq!(MainTab::from_index(2), Some(MainTab::Projections));
    assert_eq!(MainTab::from_index(4), None);
    assert_eq!(MainTab::StreamsBrowser.title(), "Streams Browser");
    assert_eq!(MainTab::PersistentSubscriptions.title(), "Persistent Subscriptions");
}

#[test]
fn labels_are_filled_to_the_widest() {
    let rows = owned(&[("Total", "1 GB"), ("Directory", "/data"), ("", "x")]);
    assert_eq!(widest_label(&rows), 9);
    assert_eq!(
        align_labels(rows),
        owned(&[("Total    : ", "1 GB"), ("Directory: ", "/data"), ("         : ", "x")])
    );
    assert_eq!(align_labels(Vec::new()), Vec::new());
}

#[test]
fn legend_deals_bindings_out_in_descending_order() {
    let rows = legend(&vec![("↑", "Scroll up"), ("↓", "Scroll down"), ("q", "Close")]);
    assert_eq!(rows.len(), 3);
    // Descending by key: "↓", "↑", "q", "TAB", "B/TAB"; the widest key has five characters.
    assert_eq!(
        rows[0],
        owned(&[("    ↓", " Scroll down    "), ("  TAB", " Next tab       ")])
    );
    assert_eq!(
        rows[1],
        owned(&[("    ↑", " Scroll up      "), ("B/TAB", " Previous tab   ")])
    );
    assert_eq!(rows[2], owned(&[("    q", " Close          ")]));
}

#[test]
fn legend_of_the_session_alone() {
    let rows = legend(&Vec::new());
    assert_eq!(rows[0], owned(&[("    q", " Exit           ")]));
    assert_eq!(rows[1], owned(&[("  TAB", " Next tab       ")]));
    assert_eq!(rows[2], owned(&[("B/TAB", " Previous tab   ")]));
}

#[test]
fn legend_does_not_shorten_long_labels() {
    let rows = legend(&vec![("a-very-long-key-name", "and a long label")]);
    assert_eq!(rows[0][0], ("                   q".to_string(), " Exit".to_string()));
    assert_eq!(
        rows[1][0],
        ("a-very-long-key-name".to_string(), " and a long label".to_string())
    );
}

#[test]
fn texts_compare_as_the_standard_library_compares_them() {
    let samples = ["", "a", "A", "ab", "abc", "abd", "b", "ba", "é", "e", "z", "\u{10000}", "~", "a\u{0}"];
    for a in samples {
        for b in samples {
            assert_eq!(same_text(a, b), a == b, "{:?} == {:?}", a, b);
            assert_eq!(precedes(a, b), a < b, "{:?} < {:?}", a, b);
        }
    }
}
