use ce_test::paths::{config_root, root_of_parent};
use ce_test::text::{after_last, chars_of, pad_right, signed, tail_line, trim, unsigned};

#[test]
fn numerals_of_unsigned_numbers() {
    assert_eq!(unsigned(0), "0");
    assert_eq!(unsigned(7), "7");
    assert_eq!(unsigned(10), "10");
    assert_eq!(unsigned(65535), "65535");
    assert_eq!(unsigned(1234567890), "1234567890");
    assert_eq!(unsigned(u64::MAX), "18446744073709551615");
}

#[test]
fn numerals_of_signed_numbers() {
    assert_eq!(signed(0), "0");
    assert_eq!(signed(101), "101");
    assert_eq!(signed(-1), "-1");
    assert_eq!(signed(i32::MAX), "2147483647");
    assert_eq!(signed(i32::MIN), "-2147483648");
}

#[test]
fn padding_counts_characters() {
    assert_eq!(pad_right("", 3), "   ");
    assert_eq!(pad_right("T3", 3), "T3 ");
    assert_eq!(pad_right("T3x", 3), "T3x");
    assert_eq!(pad_right("longer", 3), "longer");
    assert_eq!(pad_right("äö", 4), "äö  ");
    assert_eq!(pad_right("äö", 4), format!("{:<4}", "äö"));
}

#[test]
fn characters_in_order() {
    assert_eq!(chars_of("aé→"), vec!['a', 'é', '→']);
    assert!(chars_of("").is_empty());
}

#[test]
fn tail_agrees_with_the_lines_of_std() {
    let texts = [
        "",
        "\n",
        "one",
        "one\n",
        "one\ntwo",
        "one\r\ntwo\r\n",
        "one\rtwo\nthree\r",
        "\r\n\r\n",
        "a\n\nb\n\n",
        "1\n2\n3\n4\n5\n6\n7\n8\n9\n10\n11\n12\n13\n14\n",
        "ä\nö\nü",
    ];
    for text in texts {
        for n in [0, 1, 2, 12] {
            let all: Vec<&str> = text.lines().collect();
            let from = all.len().saturating_sub(n);
            assert_eq!(tail_line(text, n, " | "), all[from..].join(" | "), "{text:?} {n}");
        }
    }
}

#[test]
fn tail_of_fourteen_lines() {
    let text = "1\n2\n3\n4\n5\n6\n7\n8\n9\n10\n11\n12\n13\n14\n";
    assert_eq!(tail_line(text, 12, " | "), "3 | 4 | 5 | 6 | 7 | 8 | 9 | 10 | 11 | 12 | 13 | 14");
}

#[test]
fn part_after_the_last_mark() {
    assert_eq!(after_last("/p2p/Qm1", "/p2p/"), "Qm1");
    assert_eq!(after_last("/ip4/1.2.3.4/tcp/9/p2p/a/p2p/b", "/p2p/"), "b");
    assert_eq!(after_last("/p2p/p2p/x", "/p2p/"), "x");
    assert_eq!(after_last("/p2p/", "/p2p/"), "");
    assert_eq!(after_last("Qm1", "/p2p/"), "Qm1");
    assert_eq!(after_last("", "/p2p/"), "");
    for s in ["/p2p/Qm1", "/p2p/p2p/x", "Qm1", "", "a/p2p/b/p2p/c", "/p2p"] {
        assert_eq!(after_last(s, "/p2p/"), s.rsplit("/p2p/").next().unwrap());
    }
}

#[test]
fn root_is_the_directory_of_the_configuration() {
    assert_eq!(config_root("cetest.toml"), ".");
    assert_eq!(config_root("proj/cetest.toml"), "proj");
    assert_eq!(config_root("/home/x/cetest.toml"), "/home/x");
    assert_eq!(config_root("/cetest.toml"), "/");
    assert_eq!(config_root("./cetest.toml"), ".");
    assert_eq!(config_root("../cetest.toml"), "..");
    assert_eq!(config_root(""), ".");
    assert_eq!(config_root("/"), ".");
    assert_eq!(config_root("proj//cetest.toml"), "proj");
    assert_eq!(config_root("proj/./cetest.toml"), "proj");
    assert_eq!(config_root("a/proj/cetest.toml/"), "a/proj");
    assert_eq!(config_root("cetest.toml/"), ".");
    assert_eq!(config_root("./."), ".");
    assert_eq!(config_root("/a/"), "/");
    assert_eq!(config_root("/ab:c/cetest.toml"), "/ab:c");
    assert_eq!(config_root("ab:c/cetest.toml"), "ab:c");
}

#[test]
fn trimming_agrees_with_std() {
    for s in ["", " ", "a", " a", "a ", "\t a b\n", "\u{3000}x\u{85}", "\u{200b}"] {
        assert_eq!(trim(s), s.trim());
    }
    for u in 0..=0x10ffff {
        if let Some(c) = char::from_u32(u) {
            if c.is_whitespace() {
                assert_eq!(trim(&c.to_string()), "");
            }
        }
    }
    for u in 0..0x4000 {
        if let Some(c) = char::from_u32(u) {
            assert_eq!(trim(&c.to_string()).is_empty(), c.is_whitespace());
        }
    }
}

#[test]
fn root_given_the_parent() {
    assert_eq!(root_of_parent(None), ".");
    assert_eq!(root_of_parent(Some(String::new())), ".");
    assert_eq!(root_of_parent(Some("proj".to_string())), "proj");
}
