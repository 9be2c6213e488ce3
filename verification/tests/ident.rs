use lock_smith::ident::compare_ids;
use lock_smith::ident::IdOrder;

#[test]
fn equal_ids_compare_equal() {
    assert_eq!(compare_ids("github", "github"), IdOrder::Equal);
    assert_eq!(compare_ids("", ""), IdOrder::Equal);
}

#[test]
fn ids_compare_byte_by_byte() {
    assert_eq!(compare_ids("a", "b"), IdOrder::Less);
    assert_eq!(compare_ids("b", "a"), IdOrder::Greater);
    assert_eq!(compare_ids("github", "gitlab"), IdOrder::Less);
    assert_eq!(compare_ids("gitlab", "github"), IdOrder::Greater);
}

#[test]
fn a_prefix_comes_first() {
    assert_eq!(compare_ids("", "a"), IdOrder::Less);
    assert_eq!(compare_ids("git", "github"), IdOrder::Less);
    assert_eq!(compare_ids("github", "git"), IdOrder::Greater);
}

#[test]
fn upper_case_comes_before_lower_case() {
    assert_eq!(compare_ids("Z", "a"), IdOrder::Less);
}

#[test]
fn ids_beyond_ascii_follow_their_encoding() {
    assert_eq!(compare_ids("z", "é"), IdOrder::Less);
    assert_eq!(compare_ids("é", "日本"), IdOrder::Less);
    assert_eq!(compare_ids("日本", "日本語"), IdOrder::Less);
    assert_eq!(compare_ids("日本語", "日本語"), IdOrder::Equal);
}

#[test]
fn the_order_agrees_with_the_order_of_strings() {
    let ids = ["", "a", "A", "ab", "b", "é", "zz", "日本", "0", "~"];
    for a in ids {
        for b in ids {
            let expected = if a < b {
                IdOrder::Less
            } else if a == b {
                IdOrder::Equal
            } else {
                IdOrder::Greater
            };
            assert_eq!(compare_ids(a, b), expected);
        }
    }
}
