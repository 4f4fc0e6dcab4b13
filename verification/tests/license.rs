use escudo::license::license_is_acceptable;

fn allowed(ids: &[&str]) -> Vec<String> {
    ids.iter().map(|id| id.to_string()).collect()
}

#[test]
fn conjunctions_need_every_part() {
    assert!(license_is_acceptable("Apache-2.0 AND ISC", &allowed(&["Apache-2.0", "ISC"])));
    assert!(!license_is_acceptable("Apache-2.0 AND ISC", &allowed(&["Apache-2.0"])));
    assert!(!license_is_acceptable("Apache-2.0 AND ISC", &allowed(&["ISC"])));
}

#[test]
fn every_conjunct_needs_one_alternative() {
    let expression = "MIT OR BSD-3-Clause/ISC AND Zlib OR 0BSD";
    for first in ["MIT", "BSD-3-Clause", "ISC"] {
        for second in ["Zlib", "0BSD"] {
            assert!(license_is_acceptable(expression, &allowed(&[first, second])));
        }
        assert!(!license_is_acceptable(expression, &allowed(&[first])));
    }
}

#[test]
fn parentheses_make_no_difference() {
    let ids = allowed(&["MIT", "Unicode-3.0"]);
    for expression in [
        "(MIT OR Apache-2.0) AND Unicode-3.0",
        "MIT OR Apache-2.0 AND Unicode-3.0",
        "((MIT OR Apache-2.0)) AND (Unicode-3.0)",
    ] {
        assert!(license_is_acceptable(expression, &ids), "{expression}");
    }
    assert!(!license_is_acceptable("(Apache-2.0) AND (Unicode-3.0)", &ids));
}

#[test]
fn single_identifiers() {
    for id in ["MIT", "Apache-2.0", "LicenseRef-x", ""] {
        assert!(license_is_acceptable(id, &allowed(&[id])));
        assert!(!license_is_acceptable(id, &allowed(&["GPL-3.0"])));
    }
}

#[test]
fn identifiers_are_trimmed() {
    assert!(license_is_acceptable("  MIT\t/ ISC ", &allowed(&["MIT"])));
    assert!(license_is_acceptable("GPL-3.0 / ISC ", &allowed(&["ISC"])));
    assert!(!license_is_acceptable("mit", &allowed(&["MIT"])));
}

#[test]
fn a_larger_list_accepts_no_fewer() {
    let fewer = allowed(&["MIT"]);
    let more = allowed(&["ISC", "MIT"]);
    for expression in ["MIT", "MIT OR GPL-3.0", "(MIT)", "GPL-3.0", "MIT AND ISC"] {
        if license_is_acceptable(expression, &fewer) {
            assert!(license_is_acceptable(expression, &more));
        }
    }
    assert!(license_is_acceptable("MIT AND ISC", &more));
}

#[test]
fn an_empty_list_accepts_nothing() {
    for expression in ["", "MIT", "MIT OR ISC"] {
        assert!(!license_is_acceptable(expression, &[]));
    }
}

#[test]
fn the_word_and_separates() {
    assert!(!license_is_acceptable("MIT OR AND OR ISC", &allowed(&["MIT"])));
    assert!(license_is_acceptable("MITANDISC", &allowed(&["MITANDISC"])));
}

#[test]
fn both_sides_of_a_conjunction() {
    let ids = allowed(&["MIT", "ISC"]);
    let sides = ["MIT", "(MIT OR Zlib)", "Zlib", "MIT AND ISC", "MIT AND Zlib", "ISC/Zlib", ""];
    for a in sides {
        for b in sides {
            assert_eq!(
                license_is_acceptable(&format!("{a} AND {b}"), &ids),
                license_is_acceptable(a, &ids) && license_is_acceptable(b, &ids),
                "{a} AND {b}"
            );
        }
    }
    // A text that ends with the word itself is cut before it.
    assert!(!license_is_acceptable("MIT AND AND ISC", &allowed(&["MIT", "ISC", "MIT AND"])));
    assert!(license_is_acceptable("MIT AND AND ISC", &allowed(&["MIT", "AND ISC"])));
}

#[test]
fn either_side_of_an_alternative() {
    let ids = allowed(&["MIT"]);
    let sides = ["MIT", "Zlib", "Zlib OR MIT", "ISC/MIT", "ISC/Zlib", ""];
    for a in sides {
        for b in sides {
            assert_eq!(
                license_is_acceptable(&format!("{a} OR {b}"), &ids),
                license_is_acceptable(a, &ids) || license_is_acceptable(b, &ids),
                "{a} OR {b}"
            );
        }
    }
}
