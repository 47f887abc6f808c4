use bench_viewer::classifier::{classify, measurement_from_captures, section_from_captures, Line};
use bench_viewer::text::split_lines;

fn texts(groups: &[Option<&str>]) -> Option<Vec<Option<String>>> {
    Some(groups.iter().map(|group| group.map(|text| text.to_owned())).collect())
}

fn measurement(name: &str, average: &str, deviation: &str, throughput: Option<&str>) -> Line {
    Line::Measurement {
        name: name.to_owned(),
        average: average.to_owned(),
        deviation: deviation.to_owned(),
        throughput: throughput.map(|rate| rate.to_owned()),
    }
}

#[test]
fn measurement_with_rate_is_recognized() {
    assert_eq!(
        classify("test digest::sha1::_1000       ... bench:       2,175 ns/iter (+/- 186) = 459 MB/s"),
        measurement("digest::sha1::_1000", "2,175", "186", Some("459"))
    );
}

#[test]
fn measurement_without_rate_is_recognized() {
    assert_eq!(
        classify("test agreement::p256::generate_key_pair                         ... bench:      22,613 ns/iter (+/- 10,662)"),
        measurement("agreement::p256::generate_key_pair", "22,613", "10,662", None)
    );
    assert_eq!(
        classify("test pbkdf2::hmac_sha1          ... bench: 60,563,177 ns/iter (+/- 13,445,380)"),
        measurement("pbkdf2::hmac_sha1", "60,563,177", "13,445,380", None)
    );
}

#[test]
fn number_fields_are_taken_as_they_stand() {
    assert_eq!(
        classify("test a ... bench: x ns/iter (+/- y) = z MB/s"),
        measurement("a", "x", "y", Some("z"))
    );
}

#[test]
fn units_must_match_exactly() {
    assert_eq!(classify("test a ... bench: 1 us/iter (+/- 0)"), Line::Unrecognized);
    assert_eq!(classify("test a ... bench: 1 ns/iter (+- 0)"), Line::Unrecognized);
    assert_eq!(classify("test a ... bench: 1 ns/iter"), Line::Unrecognized);
    assert_eq!(
        classify("test a ... bench: 1 ns/iter (+/- 0) = 5 GB/s"),
        measurement("a", "1", "0", None)
    );
}

#[test]
fn measurement_must_start_the_line() {
    assert_eq!(classify(" test a ... bench: 1 ns/iter (+/- 0)"), Line::Unrecognized);
    assert_eq!(classify("xtest a ... bench: 1 ns/iter (+/- 0)"), Line::Unrecognized);
    assert_eq!(classify("test a ... ok"), Line::Unrecognized);
    assert_eq!(classify("test a --- bench: 1 ns/iter (+/- 0)"), Line::Unrecognized);
}

#[test]
fn section_start_is_recognized() {
    assert_eq!(
        classify("Running 'bench' in demo-area"),
        Line::SectionStart { name: "demo-area".to_owned() }
    );
    assert_eq!(
        classify("Running 'bench' in rust_crypto"),
        Line::SectionStart { name: "rust_crypto".to_owned() }
    );
    assert_eq!(classify("Running 'bench' in "), Line::SectionStart { name: String::new() });
    assert_eq!(
        classify("Running 'bench' in a b"),
        Line::SectionStart { name: "a b".to_owned() }
    );
}

#[test]
fn section_start_fills_the_whole_line() {
    assert_eq!(classify(" Running 'bench' in demo-area"), Line::Unrecognized);
    assert_eq!(classify("Running 'bench' in demo'area"), Line::Unrecognized);
    assert_eq!(classify("Running 'bench' in demo-area' and more"), Line::Unrecognized);
    assert_eq!(classify("Running 'test' in demo-area"), Line::Unrecognized);
    assert_eq!(classify("running 'bench' in demo-area"), Line::Unrecognized);
}

#[test]
fn section_name_takes_all_but_an_apostrophe() {
    assert_eq!(
        classify("Running 'bench' in demo-area\n"),
        Line::SectionStart { name: "demo-area\n".to_owned() }
    );
    assert_eq!(
        classify("Running 'bench' in \"quoted\" name"),
        Line::SectionStart { name: "\"quoted\" name".to_owned() }
    );
}

#[test]
fn noise_is_unrecognized() {
    assert_eq!(classify(""), Line::Unrecognized);
    assert_eq!(classify("   "), Line::Unrecognized);
    assert_eq!(classify("running 24 tests"), Line::Unrecognized);
    assert_eq!(
        classify("test result: ok. 0 passed; 0 failed; 0 ignored; 25 measured"),
        Line::Unrecognized
    );
}

#[test]
fn measurement_is_asked_before_section() {
    assert_eq!(
        classify("test Running ... bench: 1 ns/iter (+/- 0)"),
        measurement("Running", "1", "0", None)
    );
}

#[test]
fn captures_spell_out_a_measurement() {
    let all = texts(&[Some("whole"), Some("n"), Some("1"), Some("2"), Some("3")]);
    assert_eq!(measurement_from_captures(&all), Some(measurement("n", "1", "2", Some("3"))));
    let no_rate = texts(&[Some("whole"), Some("n"), Some("1"), Some("2"), None]);
    assert_eq!(measurement_from_captures(&no_rate), Some(measurement("n", "1", "2", None)));
    let short = texts(&[Some("whole"), Some("n"), Some("1"), Some("2")]);
    assert_eq!(measurement_from_captures(&short), Some(measurement("n", "1", "2", None)));
}

#[test]
fn incomplete_captures_spell_out_nothing() {
    assert_eq!(measurement_from_captures(&None), None);
    assert_eq!(measurement_from_captures(&texts(&[])), None);
    assert_eq!(measurement_from_captures(&texts(&[Some("whole"), Some("n"), Some("1")])), None);
    assert_eq!(
        measurement_from_captures(&texts(&[Some("whole"), None, Some("1"), Some("2"), Some("3")])),
        None
    );
    assert_eq!(
        measurement_from_captures(&texts(&[Some("whole"), Some("n"), None, Some("2"), None])),
        None
    );
    assert_eq!(
        measurement_from_captures(&texts(&[Some("whole"), Some("n"), Some("1"), None, None])),
        None
    );
}

#[test]
fn captures_spell_out_a_section() {
    assert_eq!(
        section_from_captures(&texts(&[Some("whole"), Some("area")])),
        Some(Line::SectionStart { name: "area".to_owned() })
    );
    assert_eq!(section_from_captures(&None), None);
    assert_eq!(section_from_captures(&texts(&[Some("whole")])), None);
    assert_eq!(section_from_captures(&texts(&[Some("whole"), None])), None);
}

#[test]
fn text_is_cut_at_line_feeds() {
    assert_eq!(split_lines("a\nb"), vec!["a".to_owned(), "b".to_owned()]);
    assert_eq!(split_lines("a\nb\n"), vec!["a".to_owned(), "b".to_owned()]);
    assert_eq!(split_lines("a\n\nb"), vec!["a".to_owned(), String::new(), "b".to_owned()]);
    assert_eq!(split_lines("\n"), vec![String::new()]);
    assert_eq!(split_lines("\n\n"), vec![String::new(), String::new()]);
    assert_eq!(split_lines("one line"), vec!["one line".to_owned()]);
}

#[test]
fn empty_text_has_no_line() {
    assert_eq!(split_lines(""), Vec::<String>::new());
}

#[test]
fn carriage_return_before_line_feed_is_dropped() {
    assert_eq!(split_lines("a\r\nb\r\n"), vec!["a".to_owned(), "b".to_owned()]);
    assert_eq!(split_lines("\r\n"), vec![String::new()]);
    assert_eq!(split_lines("a\r\r\nb"), vec!["a\r".to_owned(), "b".to_owned()]);
    assert_eq!(split_lines("a\rb\nc"), vec!["a\rb".to_owned(), "c".to_owned()]);
    assert_eq!(split_lines("a\r"), vec!["a\r".to_owned()]);
    assert_eq!(split_lines("\r"), vec!["\r".to_owned()]);
    assert_eq!(split_lines("a\n\r"), vec!["a".to_owned(), "\r".to_owned()]);
}

#[test]
fn split_lines_agrees_with_the_standard_lines() {
    let texts = [
        "", "\n", "\r", "\r\n", "a", "a\n", "a\r\n", "a\r", "a\n\n", "\n\na", "a\r\r\n", "\r\ra",
        "a\nb\r\nc\rd\n\re\n", "caf\u{e9}\n\u{1f980}\r\nend",
    ];
    for text in texts {
        let expected: Vec<String> = text.lines().map(|line| line.to_owned()).collect();
        assert_eq!(split_lines(text), expected, "text {:?}", text);
    }
}
