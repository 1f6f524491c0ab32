use layout_interface::fonts::get_system_fonts;
use layout_interface::text::{decimal_string, is_white_space_char, string_of_chars, trim_chars};

/// The same list, computed with std's string functions.
fn fonts_by_std(stdout: &str) -> Vec<String> {
    let mut fonts = Vec::new();
    for line in stdout.lines() {
        for part in line.split(',') {
            let cleaned = part.replace('\\', "").trim().to_string();
            if !cleaned.is_empty() {
                fonts.push(cleaned);
            }
        }
    }
    fonts.sort_by(|a, b| a.to_lowercase().cmp(&b.to_lowercase()));
    fonts.dedup();
    if fonts.is_empty() {
        fonts = vec!["Monospace".to_string(), "Sans-Serif".to_string(), "Serif".to_string()];
    }
    fonts
}

fn strings(v: &[&str]) -> Vec<String> {
    v.iter().map(|s| s.to_string()).collect()
}

#[test]
fn fonts_sorted_without_regard_to_case() {
    assert_eq!(get_system_fonts("Banana,apple\nCherry\n"), strings(&["apple", "Banana", "Cherry"]));
}

#[test]
fn fonts_drop_backslashes_and_trim() {
    assert_eq!(
        get_system_fonts("DejaVu\\ Sans , Noto Sans\r\n  Liberation\\\\Mono\t\n"),
        strings(&["DejaVu Sans", "LiberationMono", "Noto Sans"])
    );
}

#[test]
fn fonts_repeated_neighbours_kept_once() {
    assert_eq!(get_system_fonts("Serif\nSerif,serif\nSerif"), strings(&["Serif", "serif", "Serif"]));
    assert_eq!(get_system_fonts("Serif\nSerif\nsans"), strings(&["sans", "Serif"]));
}

#[test]
fn fonts_stable_among_equal_lowercase_forms() {
    assert_eq!(get_system_fonts("FOO\nfoo\nFoo"), strings(&["FOO", "foo", "Foo"]));
}

#[test]
fn fonts_fallback_when_listing_is_empty() {
    let fallback = strings(&["Monospace", "Sans-Serif", "Serif"]);
    assert_eq!(get_system_fonts(""), fallback);
    assert_eq!(get_system_fonts(" , \n\\\\\n\t,"), fallback);
}

#[test]
fn fonts_match_std_on_samples() {
    let samples = [
        "",
        "\n",
        "Noto Sans,Noto Sans UI\nDejaVu Serif\nnoto sans\n",
        "Ubuntu\\,Mono\nÉcole,école,ECOLE\n  zeta , Alpha,alpha\n",
        "a\r\nb\rc\n\n,,\u{00A0}x\u{2003}\n",
        "Z,Y,X,W,V,U,T,S,R,Q,P,O,N,M,L,K,J,I,H,G,F,E,D,C,B,A,a,b,c",
        "İstanbul,istanbul,ISTANBUL,ß,SS,ss",
    ];
    for s in samples {
        assert_eq!(get_system_fonts(s), fonts_by_std(s), "listing {:?}", s);
    }
}

#[test]
fn fonts_law_sorted_no_repeats_clean() {
    let out = get_system_fonts("b, A\\,c\na\nA\nB\n  \nc");
    for w in out.windows(2) {
        assert!(w[0].to_lowercase() <= w[1].to_lowercase());
        assert_ne!(w[0], w[1]);
    }
    for name in &out {
        assert!(!name.is_empty());
        assert_eq!(name.trim(), name);
        assert!(!name.contains('\\') && !name.contains(',') && !name.contains('\n'));
    }
}

#[test]
fn white_space_matches_char_is_whitespace() {
    for u in 0u32..=0x10FFFF {
        if let Some(c) = char::from_u32(u) {
            assert_eq!(is_white_space_char(c), c.is_whitespace(), "code point {:#x}", u);
        }
    }
}

#[test]
fn trim_chars_matches_str_trim() {
    for s in ["", "   ", " a ", "\u{3000}x y\u{85}", "\t\r\nabc", "abc\u{200A}", "a\u{200B}"] {
        let v: Vec<char> = s.chars().collect();
        let t: String = trim_chars(&v).into_iter().collect();
        assert_eq!(t, s.trim());
    }
}

#[test]
fn decimal_string_matches_display() {
    for n in [0usize, 7, 9, 10, 11, 99, 100, 12345, usize::MAX] {
        assert_eq!(decimal_string(n), n.to_string());
    }
}

#[test]
fn string_of_chars_keeps_characters() {
    assert_eq!(string_of_chars(&vec!['é', ' ', 'z']), "é z");
    assert_eq!(string_of_chars(&vec![]), "");
}
