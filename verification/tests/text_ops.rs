use wallpaper_tool::text::{contains_text, is_blank, is_space, matches_at, split_lines, starts_with, text_less};

fn samples() -> Vec<&'static str> {
    vec![
        "",
        "a",
        "ab",
        "abc",
        "b",
        "B",
        "fe80",
        "fe80::1",
        "fe8",
        "10.0.0.2",
        "192.168.1.5",
        "2001:db8::1",
        "é",
        "e",
        "未发现活跃IP",
        "未发现",
        "z未发现",
        "\u{10FFFF}",
        "\u{FFFF}",
        " ",
        "a ",
    ]
}

#[test]
fn starts_with_agrees_with_std() {
    for s in samples() {
        for p in samples() {
            assert_eq!(starts_with(s, p), s.starts_with(p), "{:?} {:?}", s, p);
        }
    }
}

#[test]
fn starts_with_examples() {
    assert!(starts_with("PCI\\VEN_8086", "PCI"));
    assert!(!starts_with("ROOT\\PCI", "PCI"));
    assert!(starts_with("anything", ""));
    assert!(!starts_with("PC", "PCI"));
}

#[test]
fn contains_text_agrees_with_std() {
    for s in samples() {
        for p in samples() {
            assert_eq!(contains_text(s, p), s.contains(p), "{:?} {:?}", s, p);
        }
    }
}

#[test]
fn matches_at_counts_characters_not_bytes() {
    assert!(matches_at("未发现活跃IP", "活跃", 3));
    assert!(!matches_at("未发现活跃IP", "活跃", 2));
    assert!(matches_at("abc", "", 3));
    assert!(!matches_at("abc", "", 4));
    assert!(!matches_at("abc", "c", usize::MAX));
}

#[test]
fn is_space_agrees_with_std_on_every_char() {
    let mut n: u32 = 0;
    while n <= 0x10FFFF {
        if let Some(c) = char::from_u32(n) {
            assert_eq!(is_space(c), c.is_whitespace(), "U+{:04X}", n);
        }
        n += 1;
    }
}

#[test]
fn is_blank_agrees_with_trim() {
    let texts = vec!["", " ", "\t\n", "\u{3000}", " a ", "lab-3", "\u{200B}", "\r\n \u{A0}", "x\n"];
    for t in texts {
        assert_eq!(is_blank(t), t.trim().is_empty(), "{:?}", t);
    }
}

#[test]
fn split_lines_agrees_with_std() {
    let texts = vec![
        "",
        "a",
        "a\n",
        "a\nb",
        "a\r\nb",
        "a\r",
        "\n",
        "\n\n",
        "a\n\nb",
        "\r\n",
        "\r",
        "a\r\r\nb",
        "lab-3",
        "x\ny\r",
        "第一行\n第二行\r\n第三行",
        "one\ntwo\n",
        "\nlead",
    ];
    for t in texts {
        let expected: Vec<String> = t.lines().map(|l| l.to_string()).collect();
        assert_eq!(split_lines(t), expected, "{:?}", t);
    }
}

#[test]
fn split_lines_examples() {
    assert_eq!(split_lines("lab-3"), vec!["lab-3".to_string()]);
    assert_eq!(split_lines("a\r\nb\n"), vec!["a".to_string(), "b".to_string()]);
    assert_eq!(split_lines(""), Vec::<String>::new());
    assert_eq!(split_lines("\n"), vec![String::new()]);
}

#[test]
fn text_less_agrees_with_std_order() {
    for a in samples() {
        for b in samples() {
            assert_eq!(text_less(a, b), a < b, "{:?} {:?}", a, b);
        }
    }
}

#[test]
fn text_less_is_a_strict_total_order_on_samples() {
    for a in samples() {
        assert!(!text_less(a, a));
        for b in samples() {
            let lt = text_less(a, b);
            let gt = text_less(b, a);
            assert!(!(lt && gt));
            assert_eq!(!lt && !gt, a == b);
            for c in samples() {
                if lt && text_less(b, c) {
                    assert!(text_less(a, c));
                }
            }
        }
    }
}
