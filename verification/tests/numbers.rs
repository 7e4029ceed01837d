use logquery::lexical::number_literal;
use logquery::source::Source;
use nom::types::CompleteStr;

const TEXTS: [&str; 40] = [
    "5", "-5", "+5", "1e2", "1.5", "1.", ".5", "1.5e-3", "1E+2", "1e", "1e+", "12abc", "1.2.3",
    "", "-", ".", "e5", "abc", "+.e1", " 5", "0", "00.00", "-.5e5x", "1.e5", "1.e", "5e5e5",
    "+-5", "--5", "1..2", ".e5", "123456789012345678901234567890", "1e400", "4.", "4.e", "-0",
    "+.5", "9e-", "7E7", "3.14 rest", "1_000",
];

#[test]
fn numbers_are_what_nom_recognizes() {
    for text in TEXTS {
        let src = Source::new(text);
        let ours = number_literal(&src, 0).ok().map(|(number, next)| (number.text, next));
        let theirs = nom::recognize_float(CompleteStr(text))
            .ok()
            .map(|(rest, taken)| (taken.0.to_string(), text.len() - rest.0.len()));
        assert_eq!(ours, theirs, "{:?}", text);
    }
}

#[test]
fn numbers_have_the_value_that_nom_gives() {
    for text in TEXTS {
        let src = Source::new(text);
        let ours = number_literal(&src, 0)
            .ok()
            .map(|(number, next)| (number.text.parse::<f64>().unwrap(), next));
        let theirs = nom::double(CompleteStr(text))
            .ok()
            .map(|(rest, value)| (value, text.len() - rest.0.len()));
        assert_eq!(ours, theirs, "{:?}", text);
    }
}

#[test]
fn numbers_in_the_middle_of_a_text() {
    let src = Source::new("limit -12.5e3|");
    let (number, next) = number_literal(&src, 6).unwrap();
    assert_eq!(number.text, "-12.5e3");
    assert_eq!(next, 13);
    assert_eq!(number.text.parse::<f64>().unwrap(), -12500.0);
}
