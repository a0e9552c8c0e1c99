use server::replace::replace_str;

fn text(v: Vec<char>) -> String {
    v.into_iter().collect()
}

#[test]
fn replacement_matches_str_replace() {
    for (s, from, to) in [
        ("a.b.c", ".", "\\."),
        ("**/x/*", "**", "{{D}}"),
        ("aaa", "aa", "b"),
        ("ab", "", "x"),
        ("", "", "x"),
        ("한글", "", "-"),
        ("abc", "zz", "y"),
    ] {
        assert_eq!(text(replace_str(s, from, to)), s.replace(from, to), "{:?}", (s, from, to));
    }
}
