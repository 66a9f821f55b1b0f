use translator::language::{
    has_mostly_ideographs, is_ideograph, is_letter, is_predominantly_chinese,
};

#[test]
fn bounds_of_the_ideographs() {
    for u in [0x4E00, 0x9FFF, 0x3400, 0x4DBF, 0x20000, 0x2A6DF, 0xF900, 0xFAFFu32] {
        assert!(is_ideograph(char::from_u32(u).unwrap()), "U+{:04X}", u);
    }
    for u in [0x4DFF, 0xA000, 0x33FF, 0x4DC0, 0x1FFFF, 0x2A6E0, 0xF8FF, 0xFB00, 0x41u32] {
        assert!(!is_ideograph(char::from_u32(u).unwrap()), "U+{:04X}", u);
    }
}

#[test]
fn what_counts_as_a_letter() {
    assert!(is_letter('中', false));
    assert!(!is_letter('，', false));
    assert!(!is_letter('。', false));
    assert!(!is_letter('\u{3000}', false));
    assert!(is_letter('a', true));
    assert!(!is_letter('a', false));
    assert!(is_letter('Ａ', true));
    assert!(!is_letter('1', false));
    assert!(!is_letter('\u{2fff}', false));
    assert!(!is_letter('\u{3040}', false));
    assert!(!is_letter('\u{fff0}', false));
}

#[test]
fn more_than_a_fifth() {
    let text: Vec<char> = "中abcd".chars().collect();
    assert!(!has_mostly_ideographs(&text, &vec![true; 5]));
    assert!(has_mostly_ideographs(&text, &vec![true, true, true, true, false]));
    assert!(has_mostly_ideographs(&text, &vec![false; 5]));
    assert!(!has_mostly_ideographs(&Vec::new(), &Vec::new()));
}

#[test]
fn detection() {
    assert!(is_predominantly_chinese("你好，世界"));
    assert!(!is_predominantly_chinese("Hello, world"));
    assert!(!is_predominantly_chinese(""));
    assert!(!is_predominantly_chinese("1 + 1 = 2"));
    assert!(is_predominantly_chinese("中abc"));
    assert!(!is_predominantly_chinese("中abcd"));
    assert!(!is_predominantly_chinese("中éèàù"));
    assert!(is_predominantly_chinese("中1234567890"));
    assert!(is_predominantly_chinese("中，，，，"));
    assert!(is_predominantly_chinese("中。\u{3000}「」"));
    assert!(!is_predominantly_chinese("中ＡＢＣＤ"));
    assert!(!is_predominantly_chinese("，。"));
    assert!(is_predominantly_chinese("日本語のテキスト"));
    assert!(!is_predominantly_chinese("ひらがなだけ"));
    assert!(!is_predominantly_chinese("한국어 문장"));
}

#[test]
fn digits_spaces_and_marks_change_nothing() {
    assert_eq!(is_predominantly_chinese("中，a。bcd"), is_predominantly_chinese("中abcd"));
    assert_eq!(is_predominantly_chinese("中 a1bc"), is_predominantly_chinese("中abc"));
    assert_eq!(is_predominantly_chinese("中 a1bcd"), is_predominantly_chinese("中abcd"));
}

#[test]
fn chinese_texts_joined() {
    assert!(is_predominantly_chinese("中abc") && is_predominantly_chinese("文ab"));
    assert!(is_predominantly_chinese("中abc文ab"));
}
