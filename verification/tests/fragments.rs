use openwiki::fragments::is_fragment_of;

#[test]
fn a_piece_inside_a_fuller_copy_is_a_fragment() {
    assert!(is_fragment_of("恢复供电、坏线能换切入", "后能恢复供电、坏线能换切入。"));
}

#[test]
fn copies_overlapping_end_to_start_are_fragments() {
    assert!(is_fragment_of("从耗尽后能恢复供电、", "后能恢复供电、坏线能换切入。"));
    assert!(is_fragment_of("恢复供电、坏线能换切入", "从耗尽后能恢复供电、坏线能"));
}

#[test]
fn items_that_only_begin_the_same_way_stay_apart() {
    assert!(!is_fragment_of("- 修复了 A 问题", "- 修复了 B 问题"));
}

#[test]
fn a_tiny_overlap_is_not_enough() {
    assert!(!is_fragment_of("今天天气不错我们出去", "出去玩吧，别在家里闷着了"));
}

#[test]
fn surrounding_whitespace_is_ignored() {
    assert!(is_fragment_of("  坏线能换切入\n", "恢复供电、坏线能换切入"));
}

#[test]
fn unrelated_texts_are_not_fragments() {
    assert!(!is_fragment_of("词月购买约8,795单", "恢复供电、坏线能换切入"));
}

#[test]
fn blank_text_is_never_a_fragment() {
    assert!(!is_fragment_of("   \n\t", "anything at all"));
    assert!(!is_fragment_of("", ""));
}

#[test]
fn longer_piece_that_only_overlaps_is_not_a_fragment_of_a_shorter_one() {
    assert!(!is_fragment_of("abcdefghij", "ghijk"));
    assert!(is_fragment_of("ghijk", "abcdefghij"));
    assert!(is_fragment_of("efghijkl", "abcdefghij"));
}
