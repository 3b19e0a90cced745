use carpet::search::{find_subsequence, replace_occurrences};

#[test]
fn finds_the_leftmost_occurrence() {
    assert_eq!(find_subsequence(b"abcabc", b"bc"), Some(1));
    assert_eq!(find_subsequence(b"abcabc", b"abc"), Some(0));
    assert_eq!(find_subsequence(b"aaab", b"ab"), Some(2));
}

#[test]
fn finds_an_occurrence_at_the_end() {
    assert_eq!(find_subsequence(b"hello world", b"world"), Some(6));
    assert_eq!(find_subsequence(b"hello world", b"d"), Some(10));
}

#[test]
fn finds_the_whole_haystack() {
    assert_eq!(find_subsequence(b"needle", b"needle"), Some(0));
}

#[test]
fn finds_nothing_where_the_needle_is_absent() {
    assert_eq!(find_subsequence(b"abcabc", b"cb"), None);
    assert_eq!(find_subsequence(b"abcabc", b"abcd"), None);
    assert_eq!(find_subsequence(b"", b"a"), None);
}

#[test]
fn finds_nothing_where_the_needle_is_longer() {
    assert_eq!(find_subsequence(b"ab", b"abc"), None);
}

#[test]
fn search_is_case_sensitive() {
    assert_eq!(find_subsequence(b"Foo@Bar.com", b"foo@bar.com"), None);
}

#[test]
fn replaces_every_occurrence() {
    assert_eq!(replace_occurrences(b"a@x.com;a@x.com", b"a@x.com", b"R"), b"R;R".to_vec());
    assert_eq!(replace_occurrences(b"xaxax", b"a", b"bb"), b"xbbxbbx".to_vec());
}

#[test]
fn replaces_from_the_left_without_overlap() {
    assert_eq!(replace_occurrences(b"aaa", b"aa", b"R"), b"Ra".to_vec());
    assert_eq!(replace_occurrences(b"aaaa", b"aa", b"R"), b"RR".to_vec());
    assert_eq!(replace_occurrences(b"ababa", b"aba", b"-"), b"-ba".to_vec());
}

#[test]
fn replaces_nothing_where_the_needle_is_absent() {
    assert_eq!(replace_occurrences(b"hello", b"xyz", b"R"), b"hello".to_vec());
    assert_eq!(replace_occurrences(b"", b"xyz", b"R"), Vec::<u8>::new());
    assert_eq!(replace_occurrences(b"ab", b"abc", b"R"), b"ab".to_vec());
}

#[test]
fn replaces_by_nothing() {
    assert_eq!(replace_occurrences(b"a-b-c", b"-", b""), b"abc".to_vec());
}

#[test]
fn does_not_look_again_at_what_it_put_in() {
    assert_eq!(replace_occurrences(b"a", b"a", b"aa"), b"aa".to_vec());
    assert_eq!(replace_occurrences(b"abb", b"ab", b"a"), b"ab".to_vec());
}
