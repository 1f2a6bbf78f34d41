use keylayout::PSEUDO_OFFSET;
use keylayout::codes::{KEY_A, KEY_Q, KEY_S, KEY_SPACE, KEY_X};
use keylayout::dvorak::{dvorak_layout, dvorak_table};
use keylayout::layout::KeyboardLayout;

#[test]
fn resolves_dvorak_seed_pairs() {
    let kl = dvorak_layout();
    assert_eq!(kl.apply_keyboard_layout("'"), Some(KEY_Q));
    assert_eq!(kl.apply_keyboard_layout("A"), Some(KEY_A));
    assert_eq!(kl.apply_keyboard_layout("SPACE"), None);
    assert_eq!(kl.apply_keyboard_layout("KEY_A"), Some(KEY_A));
    assert_eq!(kl.apply_keyboard_layout(" "), Some(KEY_SPACE));
}

#[test]
fn resolves_every_label_round_trip() {
    let kl = dvorak_layout();
    for (key, label) in dvorak_table() {
        assert_eq!(kl.apply_keyboard_layout(&label), Some(key));
        assert_eq!(kl.apply_keyboard_layout(&label.to_uppercase()), Some(key));
    }
}

#[test]
fn tolerates_key_prefix_in_either_direction() {
    let kl = dvorak_layout();
    assert_eq!(kl.apply_keyboard_layout("a"), Some(KEY_A));
    assert_eq!(kl.apply_keyboard_layout("A"), Some(KEY_A));
    assert_eq!(kl.apply_keyboard_layout("KEY_A"), Some(KEY_A));
    assert_eq!(kl.apply_keyboard_layout("key_a"), Some(KEY_A));
    assert_eq!(kl.apply_keyboard_layout("KEY_'"), Some(KEY_Q));
}

#[test]
fn reports_absence_for_unknown_names() {
    let kl = dvorak_layout();
    assert_eq!(kl.apply_keyboard_layout("NOSUCHKEY"), None);
    assert_eq!(kl.apply_keyboard_layout(""), None);
    assert_eq!(kl.apply_keyboard_layout("KEY_"), None);
    assert_eq!(kl.apply_keyboard_layout("ä"), None);
}

#[test]
fn forward_and_reverse_are_inverse_on_every_table_key() {
    let kl = dvorak_layout();
    let table = dvorak_table();
    for (key, _) in &table {
        let pseudo = kl.forward(*key).expect("covered key must have a pseudo code");
        assert_eq!(pseudo, key + PSEUDO_OFFSET);
        assert_eq!(kl.reverse(pseudo), Some(*key));
    }
    assert_eq!(table.len(), 48);
}

#[test]
fn pseudo_codes_never_collide_with_physical_codes() {
    let kl = dvorak_layout();
    for (key, _) in dvorak_table() {
        let pseudo = kl.forward(key).unwrap();
        assert!(pseudo >= PSEUDO_OFFSET);
        assert!(key < PSEUDO_OFFSET);
    }
}

#[test]
fn omitted_keys_have_no_entries_and_do_not_disturb_others() {
    let kl = dvorak_layout();
    // KEY_ESC (1) and KEY_BACKSPACE (14) keep their physical meaning under
    // Dvorak and are omitted from the table.
    assert_eq!(kl.forward(1), None);
    assert_eq!(kl.forward(14), None);
    assert_eq!(kl.reverse(1 + PSEUDO_OFFSET), None);
    assert_eq!(kl.reverse(14 + PSEUDO_OFFSET), None);
    assert_eq!(kl.apply_keyboard_layout("a"), Some(KEY_A));
}

#[test]
fn reverse_rejects_codes_outside_pseudo_range() {
    let kl = dvorak_layout();
    assert_eq!(kl.reverse(KEY_A), None);
    assert_eq!(kl.reverse(0), None);
}

#[test]
fn last_definition_wins_on_duplicate_keys() {
    let kl = KeyboardLayout::new(vec![(KEY_Q, "x".to_owned()), (KEY_Q, "y".to_owned())]);
    assert_eq!(kl.forward(KEY_Q), Some(KEY_Q + PSEUDO_OFFSET));
    assert_eq!(kl.apply_keyboard_layout("Y"), Some(KEY_Q));
    assert_eq!(kl.apply_keyboard_layout("X"), Some(KEY_Q));
}

#[test]
fn last_definition_wins_on_duplicate_labels() {
    let kl = KeyboardLayout::new(vec![(KEY_A, "a".to_owned()), (KEY_S, "a".to_owned())]);
    assert_eq!(kl.apply_keyboard_layout("a"), Some(KEY_S));
}

#[test]
fn empty_table_resolves_nothing() {
    let kl = KeyboardLayout::new(Vec::new());
    assert_eq!(kl.apply_keyboard_layout("A"), None);
    assert_eq!(kl.forward(KEY_A), None);
    assert_eq!(kl.reverse(KEY_A + PSEUDO_OFFSET), None);
}

#[test]
fn two_layouts_are_independent() {
    let dvorak = dvorak_layout();
    let other = KeyboardLayout::new(vec![(KEY_Q, "a".to_owned()), (KEY_A, "q".to_owned())]);
    assert_eq!(dvorak.apply_keyboard_layout("a"), Some(KEY_A));
    assert_eq!(other.apply_keyboard_layout("a"), Some(KEY_Q));
    assert_eq!(dvorak.apply_keyboard_layout("q"), Some(KEY_X));
    assert_eq!(other.apply_keyboard_layout("q"), Some(KEY_A));
}

#[test]
fn case_folding_is_ascii_only() {
    let kl = dvorak_layout();
    assert_eq!(kl.apply_keyboard_layout("p"), kl.apply_keyboard_layout("P"));
    let folded = keylayout::text::to_upper_chars("key_a9ä");
    assert_eq!(folded, vec!['K', 'E', 'Y', '_', 'A', '9', 'ä']);
}

