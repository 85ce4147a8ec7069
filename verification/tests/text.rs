use tapciify::utils::player::{generate_ascii_string, get_paths};
use tapciify::utils::text::{
    format_cells, merge_string_vec, plain_glyph, reverse_string, string_to_static_str,
};

fn strings(parts: &[&str]) -> Vec<String> {
    parts.iter().map(|part| part.to_string()).collect()
}

#[test]
fn merge_joins_without_a_separator() {
    assert_eq!(merge_string_vec(strings(&["ab", "", "c\n", "d"])), "abc\nd");
}

#[test]
fn merge_of_nothing_is_empty() {
    assert_eq!(merge_string_vec(vec![]), "");
    assert_eq!(merge_string_vec(strings(&["", ""])), "");
}

#[test]
fn cells_are_laid_out_in_rows() {
    assert_eq!(format_cells(strings(&["a", "b", "c", "d"]), 2), "ab\ncd");
    assert_eq!(format_cells(strings(&["a", "b", "c", "d"]), 4), "abcd");
    assert_eq!(format_cells(strings(&["a", "b", "c", "d"]), 1), "a\nb\nc\nd");
    assert_eq!(format_cells(strings(&["a", "b", "c", "d"]), 3), "abc\nd");
    assert_eq!(format_cells(strings(&["a", "b"]), 5), "ab");
    assert_eq!(format_cells(vec![], 5), "");
}

#[test]
fn cells_may_be_longer_than_a_character() {
    assert_eq!(
        format_cells(strings(&["\x1b[31mx\x1b[0m", "", "yz", "w"]), 2),
        "\x1b[31mx\x1b[0m\nyzw"
    );
}

#[test]
fn glyph_becomes_a_string() {
    assert_eq!(plain_glyph('x'), "x");
    assert_eq!(plain_glyph('⢑'), "⢑");
}

#[test]
fn reverse_puts_the_last_character_first() {
    assert_eq!(reverse_string("abc"), "cba");
    assert_eq!(reverse_string(""), "");
    assert_eq!(reverse_string("aä█"), "█äa");
}

#[test]
fn ramp_is_reversed_on_request() {
    assert_eq!(generate_ascii_string(" .,:;+*?%S#@".to_owned(), true), "@#S%?*+;:,. ");
    assert_eq!(generate_ascii_string(" .,:;+*?%S#@".to_owned(), false), " .,:;+*?%S#@");
    assert_eq!(generate_ascii_string(String::new(), true), "");
}

#[test]
fn paths_are_taken_as_given() {
    let input = strings(&["b.png", "a.png", "frames/*.jpeg", "b.png"]);
    assert_eq!(get_paths(input.clone()), input);
    assert_eq!(get_paths(vec![]), Vec::<String>::new());
}

#[test]
fn leaked_string_keeps_its_characters() {
    let leaked: &'static str = string_to_static_str(" .,:;+*?%S#@".to_owned());
    assert_eq!(leaked, " .,:;+*?%S#@");
    assert_eq!(string_to_static_str(String::new()), "");
    assert_eq!(string_to_static_str("aä█".to_owned()), "aä█");
}
