use binsync::text::{join_pieces, ends_with, is_text_le, same_bytes};

const SAMPLES: [&str; 10] = [
    "", "0", "1.10.0", "1.9.0", "v1.2", "v1.2.3", "v1.2.30", "\u{e9}", "\u{ffff}", "\u{10000}",
];

#[test]
fn texts_are_ordered_by_their_bytes() {
    for a in SAMPLES {
        for b in SAMPLES {
            assert_eq!(is_text_le(a, b), a <= b, "{:?} {:?}", a, b);
        }
    }
}

#[test]
fn ten_sorts_before_nine() {
    assert!(is_text_le("1.10.0", "1.9.0"));
    assert!(!is_text_le("1.9.0", "1.10.0"));
}

#[test]
fn order_is_reflexive() {
    for a in SAMPLES {
        assert!(is_text_le(a, a));
    }
}

#[test]
fn order_is_total_and_antisymmetric() {
    for a in SAMPLES {
        for b in SAMPLES {
            assert!(is_text_le(a, b) || is_text_le(b, a));
            if is_text_le(a, b) && is_text_le(b, a) {
                assert_eq!(a, b);
            }
        }
    }
}

#[test]
fn order_is_transitive() {
    for a in SAMPLES {
        for b in SAMPLES {
            for c in SAMPLES {
                if is_text_le(a, b) && is_text_le(b, c) {
                    assert!(is_text_le(a, c));
                }
            }
        }
    }
}

#[test]
fn suffixes_are_recognised() {
    let texts = ["", "a", ".zip", "a.zip", "a.zip ", "zip", "\u{e9}.zip", "a.ZIP", ".zi"];
    for text in texts {
        for suffix in ["", ".zip", "p", "\u{e9}.zip"] {
            assert_eq!(ends_with(text, suffix), text.ends_with(suffix), "{:?} {:?}", text, suffix);
        }
    }
}

#[test]
fn bytes_are_compared() {
    assert!(same_bytes(b"", b""));
    assert!(same_bytes(b"abc", b"abc"));
    assert!(!same_bytes(b"abc", b"abd"));
    assert!(!same_bytes(b"abc", b"ab"));
}

#[test]
fn pieces_are_joined_without_separator() {
    assert_eq!(join_pieces(&vec![]), "");
    assert_eq!(
        join_pieces(&vec!["v".to_string(), "".to_string(), "1.\u{e9}".to_string()]),
        "v1.\u{e9}"
    );
}
