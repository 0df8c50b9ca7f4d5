use ini_validator::model::Document;
use ini_validator::ordinal::card;
use ini_validator::reader::{read_ini, ReadError, ReadFault};
use ini_validator::types::{check_list, check_type, check_type_given, TypeFault};
use ini_validator::validate::{
    check_entries, check_typed_entries, error_count, is_valid, validate, Issue,
};

fn lines(text: &[&str]) -> Vec<String> {
    text.iter().map(|s| s.to_string()).collect()
}

fn doc(text: &[&str]) -> Document {
    read_ini(&lines(text)).ok().expect("readable").0
}

#[test]
fn depth_follows_prefixes() {
    let (d, w) = read_ini(&lines(&["[a]", "[a.b]", "[a.b]", "[a]", "[a.c]"])).ok().unwrap();
    assert_eq!(d.levels.len(), 2);
    assert_eq!(d.levels[0].name, "a");
    assert_eq!(d.levels[0].instances.len(), 2);
    assert_eq!(d.levels[1].name, "a.b");
    assert_eq!(d.levels[1].instances.len(), 3);
    assert!(w.is_empty());
}

#[test]
fn skipped_level_moves_one_step_and_warns() {
    let (d, w) = read_ini(&lines(&["[a]", "[a.b.c]"])).ok().unwrap();
    assert_eq!(d.levels.len(), 2);
    assert_eq!(w.len(), 1);
    assert_eq!(w[0].depth, 2);
    assert_eq!(w[0].dots, 2);
    assert_eq!(w[0].line, 2);
    assert_eq!(w[0].section, "a.b.c");
}

#[test]
fn entries_keep_line_and_optional_mark() {
    let d = doc(&["# comment", "[s]", "", "  name* = String  ", "id=Int", "note = a # b"]);
    let inst = &d.levels[0].instances[0];
    assert_eq!(inst.entries.len(), 2);
    assert_eq!(inst.entries[0].key, "name");
    assert_eq!(inst.entries[0].value, "String");
    assert_eq!(inst.entries[0].line, 4);
    assert!(inst.entries[0].optional);
    assert_eq!(inst.entries[1].key, "id");
    assert!(!inst.entries[1].optional);
}

#[test]
fn value_ends_at_second_equals_sign() {
    let d = doc(&["[s]", "k = a = b"]);
    assert_eq!(d.levels[0].instances[0].entries[0].value, "a");
}

#[test]
fn repeated_key_replaces_value() {
    let d = doc(&["[s]", "k = 1", "k = 2"]);
    let inst = &d.levels[0].instances[0];
    assert_eq!(inst.entries.len(), 1);
    assert_eq!(inst.entries[0].value, "2");
    assert_eq!(inst.entries[0].line, 3);
}

#[test]
fn entry_before_section_is_fatal() {
    let r = read_ini(&lines(&["k = 1", "[s]"]));
    assert!(matches!(r, Err(ReadError { line: 1, kind: ReadFault::OrphanEntry })));
}

#[test]
fn top_level_sibling_is_fatal() {
    let r = read_ini(&lines(&["[a]", "[b]"]));
    assert!(matches!(r, Err(ReadError { line: 2, kind: ReadFault::DepthUnderflow })));
}

#[test]
fn optional_key_may_be_absent() {
    let t = doc(&["[s]", "name* = String", "id = Int"]);
    let i = doc(&["[s]"]);
    let r = check_typed_entries(&t.levels[0].name, &t.levels[0].instances[0], &i.levels[0].instances);
    assert_eq!(r.len(), 1);
    match &r[0] {
        Issue::MissingKey { key, instance, section, template_line } => {
            assert_eq!(key, "id");
            assert_eq!(*instance, 0);
            assert_eq!(section, "s");
            assert_eq!(*template_line, 3);
        }
        _ => panic!("expected a missing key"),
    }
}

#[test]
fn dates_are_day_first() {
    assert!(check_type("31/12/2020", "Date").is_ok());
    assert!(matches!(check_type("2020-12-31", "Date"), Err(TypeFault::NotDate)));
    assert!(matches!(check_type("12/31/2020", "Date"), Err(TypeFault::NotDate)));
}

#[test]
fn integers() {
    assert!(matches!(check_type("abc", "Int"), Err(TypeFault::NotInt)));
    assert!(check_type("2147483647", "Int").is_ok());
    assert!(check_type("-2147483648", "Int").is_ok());
    assert!(check_type("+5", "Int").is_ok());
    assert!(check_type("2147483648", "Int").is_err());
    assert!(check_type("-", "Int").is_err());
    assert!(check_type("", "Int").is_err());
    assert!(check_type(" 1", "Int").is_err());
}

#[test]
fn floats() {
    for ok in ["1", "1.5", ".5", "5.", "-1e10", "2E-3", "inf", "-Infinity", "NaN", "+0.0e+1"] {
        assert!(check_type(ok, "Float").is_ok(), "{}", ok);
    }
    for bad in ["", ".", "e5", "1e", "1.2.3", "abc", "1,5", "infinite"] {
        assert!(matches!(check_type(bad, "Float"), Err(TypeFault::NotFloat)), "{}", bad);
    }
}

#[test]
fn every_list_element_is_checked() {
    match check_type("[1,2,x]", "List[Int]") {
        Err(TypeFault::BadIntElement(pos, e)) => {
            assert_eq!(pos, 2);
            assert_eq!(e, "x");
            assert_eq!(card(pos + 1), "3rd");
        }
        _ => panic!("expected a bad element"),
    }
    match check_list("[1.5,y,2]", "Float") {
        Err(TypeFault::BadFloatElement(pos, e)) => {
            assert_eq!(pos, 1);
            assert_eq!(e, "y");
        }
        _ => panic!("expected a bad element"),
    }
    assert!(check_type("[1,2,3]", "List[Int]").is_ok());
    assert!(check_type("[a,b]", "List[String]").is_ok());
    assert!(matches!(check_type("1,2]", "List[Int]"), Err(TypeFault::MissingOpen)));
    assert!(matches!(check_type("[1,2", "List[Int]"), Err(TypeFault::MissingClose)));
    assert!(matches!(check_type("[", "List[Int]"), Err(TypeFault::MissingClose)));
}

#[test]
fn urls_and_paths() {
    assert!(check_type("https://example.com/a?b=c", "URL").is_ok());
    assert!(matches!(check_type("not a url", "URL"), Err(TypeFault::BadUrl)));
    assert!(check_type(".", "Directory").is_ok());
    assert!(matches!(check_type("/no/such/dir/here", "Directory"), Err(TypeFault::NoDirectory)));
    assert!(matches!(check_type("/no/such/file/here", "File"), Err(TypeFault::NoFile)));
    assert!(check_type_given("x", "File", true).is_ok());
    assert!(matches!(check_type_given("x", "Directory", false), Err(TypeFault::NoDirectory)));
    assert!(check_type("anything", "Whatever").is_ok());
}

#[test]
fn spurious_key_is_reported_once() {
    let t = doc(&["[s]", "a = Int"]);
    let i = doc(&["[s]", "a = 1", "extra = 5"]);
    let r = check_entries(&t.levels[0].name, &t.levels[0].instances[0], &i.levels[0].instances);
    assert_eq!(r.len(), 1);
    match &r[0] {
        Issue::SpuriousKey { key, line, instance, section } => {
            assert_eq!(key, "extra");
            assert_eq!(*line, 3);
            assert_eq!(*instance, 0);
            assert_eq!(section, "s");
        }
        _ => panic!("expected a spurious key"),
    }
}

#[test]
fn each_input_instance_is_checked() {
    let t = doc(&["[x]", "id = Int"]);
    let i = doc(&["[x]", "id = 1", "bad = 1", "[x]", "bad = 2", "[x]", "id = 3", "bad = 3"]);
    let reps = validate(&t, &i);
    assert_eq!(reps.len(), 1);
    assert_eq!(reps[0].label, "x");
    let spurious: Vec<usize> = reps[0]
        .spurious
        .iter()
        .map(|s| match s {
            Issue::SpuriousKey { instance, .. } => *instance,
            _ => usize::MAX,
        })
        .collect();
    assert_eq!(spurious, vec![0, 1, 2]);
    assert_eq!(reps[0].typed.len(), 1);
    assert!(matches!(reps[0].typed[0], Issue::MissingKey { instance: 1, .. }));
    let ords: Vec<String> = (1..=3).map(card).collect();
    assert_eq!(ords, vec!["1st", "2nd", "3rd"]);
    assert_eq!(error_count(&reps), 4);
    assert!(!is_valid(&reps));
}

#[test]
fn type_mismatch_cites_input_line() {
    let t = doc(&["[s]", "n = Int"]);
    let i = doc(&["", "[s]", "n = abc"]);
    let reps = validate(&t, &i);
    match &reps[0].typed[0] {
        Issue::TypeMismatch { key, value, line, fault } => {
            assert_eq!(key, "n");
            assert_eq!(value, "abc");
            assert_eq!(*line, 3);
            assert!(matches!(fault, TypeFault::NotInt));
        }
        _ => panic!("expected a type mismatch"),
    }
}

#[test]
fn template_against_itself_is_clean() {
    let t = doc(&["[a]", "name* = String", "title = Text", "[a.b]", "x = Anything"]);
    let reps = validate(&t, &t);
    assert_eq!(reps.len(), 2);
    assert_eq!(error_count(&reps), 0);
    assert!(is_valid(&reps));
}

#[test]
fn only_shared_depths_are_compared() {
    let t = doc(&["[a]", "k = Int", "[a.b]", "j = Int"]);
    let i = doc(&["[a]", "k = 1"]);
    let reps = validate(&t, &i);
    assert_eq!(reps.len(), 1);
    assert!(is_valid(&reps));
}

#[test]
fn ordinals() {
    assert_eq!(card(1), "1st");
    assert_eq!(card(2), "2nd");
    assert_eq!(card(3), "3rd");
    assert_eq!(card(4), "4th");
    assert_eq!(card(11), "11th");
    assert_eq!(card(12), "12th");
    assert_eq!(card(13), "13th");
    assert_eq!(card(21), "21st");
    assert_eq!(card(102), "102nd");
    assert_eq!(card(111), "111th");
}

#[test]
fn messages_cite_lines_and_ordinals() {
    let t = doc(&["[x]", "id = Int", "n* = Int"]);
    let i = doc(&["[x]", "n = abc", "[x]", "id = 1", "extra = 5"]);
    let reps = validate(&t, &i);
    let typed: Vec<String> = reps[0].typed.iter().map(|i| i.message()).collect();
    assert_eq!(
        typed,
        vec![
            "Missing key 'id' in the 1st section 'x' (see line 2 in the template)".to_string(),
            "Type error at line 2: 'abc' is not a valid integer number".to_string(),
        ]
    );
    let spurious: Vec<String> = reps[0].spurious.iter().map(|i| i.message()).collect();
    assert_eq!(spurious, vec!["Spurious key 'extra' at line 5 in the 2nd section named 'x'".to_string()]);
}

#[test]
fn fault_and_warning_messages() {
    match check_type("[1,2,x]", "List[Int]") {
        Err(f) => assert_eq!(
            f.describe("[1,2,x]"),
            "the 3rd element in list '[1,2,x]', 'x', is not a valid integer number"
        ),
        Ok(()) => panic!("expected a fault"),
    }
    let (_, w) = read_ini(&lines(&["[a]", "[a.b.c]"])).ok().unwrap();
    assert_eq!(w[0].message(), "Section 'a.b.c' at line 2 is at level 2 but its name implies level 3");
    match read_ini(&lines(&["", "k = 1"])) {
        Err(e) => assert_eq!(e.message(), "Line 2: a key/value pair comes before any section"),
        Ok(_) => panic!("expected a fault"),
    }
}
