use hangul_conv::archive::is_cruft_name;
use hangul_conv::rename::{plan_name, NamePlan};
use hangul_conv::text::{changed_name, nfc_rename, nfc_text};

const HAN_NFD: &str = "\u{1112}\u{1161}\u{11ab}";
const HAN: &str = "\u{d55c}";

#[test]
fn decomposed_hangul_gets_a_new_name() {
    assert_eq!(nfc_rename(HAN_NFD), Some(HAN.to_string()));
    assert_eq!(nfc_rename("\u{1107}\u{116e}.txt"), Some("\u{bd80}.txt".to_string()));
}

#[test]
fn names_in_form_c_keep_theirs() {
    assert_eq!(nfc_rename(HAN), None);
    assert_eq!(nfc_rename("plain.txt"), None);
    assert_eq!(nfc_rename(""), None);
}

#[test]
fn names_that_the_quick_check_leaves_open() {
    // A lone vowel jamo may compose with what comes before it.
    assert_eq!(nfc_rename("a\u{1161}"), None);
    assert_eq!(nfc_rename("e\u{301}"), Some("\u{e9}".to_string()));
}

#[test]
fn a_new_name_needs_no_other() {
    let once = nfc_rename("\u{1112}\u{1161}\u{11ab}\u{1100}\u{1173}\u{11af}").unwrap();
    assert_eq!(once, "\u{d55c}\u{ae00}");
    assert_eq!(nfc_rename(&once), None);
}

#[test]
fn a_name_changes_only_if_its_form_differs() {
    assert_eq!(changed_name("a", "b".to_string()), Some("b".to_string()));
    assert_eq!(changed_name("a", "a".to_string()), None);
}

#[test]
fn bytes_become_text_in_form_c() {
    assert_eq!(nfc_text(&HAN_NFD.as_bytes().to_vec()), HAN);
    assert_eq!(nfc_text(&b"abc".to_vec()), "abc");
}

#[test]
fn malformed_bytes_are_replaced() {
    assert_eq!(nfc_text(&b"a\xffb".to_vec()), "a\u{fffd}b");
    assert_eq!(nfc_text(&vec![0xed, 0x95]), "\u{fffd}");
}

#[test]
fn separators_and_dots_survive_normalization() {
    assert_eq!(nfc_rename("./e\u{301}.."), Some("./\u{e9}..".to_string()));
    assert_eq!(nfc_rename(".\u{338}"), None);
    assert_eq!(nfc_rename("/\u{338}"), None);
}

#[test]
fn leftovers_are_known_by_name() {
    for name in [".DS_Store", "__MACOSX", "Thumbs.db", "._", "._a", "._\u{d55c}"] {
        assert!(is_cruft_name(&name.to_string()), "{}", name);
    }
    for name in ["", ".", "_.", ".a", "DS_Store", ".ds_store", "thumbs.db", "__MACOSX2", "a._b"] {
        assert!(!is_cruft_name(&name.to_string()), "{}", name);
    }
}

#[test]
fn names_are_planned_by_their_bytes() {
    match plan_name(HAN_NFD.as_bytes().to_vec()) {
        NamePlan::New(name) => assert_eq!(name, HAN),
        other => panic!("{:?}", other),
    }
    assert!(matches!(plan_name(HAN.as_bytes().to_vec()), NamePlan::AlreadyNfc));
    assert!(matches!(plan_name(b"abc".to_vec()), NamePlan::AlreadyNfc));
    assert!(matches!(plan_name(b"a\xff".to_vec()), NamePlan::NotUnicode));
    assert!(matches!(plan_name(vec![0xed, 0xa0, 0x80]), NamePlan::NotUnicode));
}
