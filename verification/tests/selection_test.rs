use ytm_rs::user_input::{InputMessage, SelectionMode, UserInputs};

fn members(sel: &SelectionMode, upto: usize) -> Vec<usize> {
    (0..upto).filter(|i| sel.contains(*i)).collect()
}

#[test]
fn plain_click_selects_one_entry() {
    let sel = SelectionMode::Multiple(vec![1, 4]).update_selection(3, false, false);
    assert!(matches!(sel, SelectionMode::Single(3)));
    assert_eq!(members(&sel, 10), vec![3]);
}

#[test]
fn shift_click_draws_a_span() {
    let sel = SelectionMode::Single(2).update_selection(5, true, false);
    match &sel {
        SelectionMode::Range { first, r } => {
            assert_eq!(*first, 2);
            assert_eq!((*r.start(), *r.end()), (2, 5));
        },
        other => panic!("unexpected {:?}", other),
    }
    assert_eq!(members(&sel, 10), vec![2, 3, 4, 5]);

    let back = SelectionMode::Single(5).update_selection(2, true, false);
    assert_eq!(members(&back, 10), vec![2, 3, 4, 5]);
}

#[test]
fn shift_click_on_the_anchor() {
    assert!(matches!(SelectionMode::Single(4).update_selection(4, true, false), SelectionMode::Empty));
    assert!(matches!(SelectionMode::Empty.update_selection(4, true, false), SelectionMode::Single(4)));
    let span = SelectionMode::Range { first: 2, r: 2..=6 };
    assert!(matches!(span.update_selection(2, true, false), SelectionMode::Single(2)));
}

#[test]
fn shift_click_moves_span_end_from_its_anchor() {
    let span = SelectionMode::Range { first: 4, r: 4..=6 };
    let sel = span.update_selection(1, true, false);
    assert_eq!(members(&sel, 10), vec![1, 2, 3, 4]);
    let many = SelectionMode::Multiple(vec![7, 3]).update_selection(5, true, false);
    assert_eq!(members(&many, 10), vec![3, 4, 5]);
    let same = SelectionMode::Multiple(vec![7, 3]).update_selection(3, true, false);
    assert!(matches!(same, SelectionMode::Single(3)));
}

#[test]
fn control_click_toggles() {
    let sel = SelectionMode::Empty.update_selection(3, false, true);
    assert_eq!(members(&sel, 10), vec![3]);
    let sel = sel.update_selection(5, false, true);
    assert_eq!(members(&sel, 10), vec![3, 5]);
    let sel = sel.update_selection(3, false, true);
    assert_eq!(members(&sel, 10), vec![5]);
    assert!(matches!(sel, SelectionMode::Multiple(ref v) if *v == vec![5]));
}

#[test]
fn control_click_on_a_single_entry_keeps_both() {
    let sel = SelectionMode::Single(2).update_selection(6, false, true);
    assert!(matches!(sel, SelectionMode::Multiple(ref v) if *v == vec![2, 6]));
    // the same entry twice: one click takes out only the first of them
    let twice = SelectionMode::Single(2).update_selection(2, false, true);
    let once = twice.update_selection(2, false, true);
    assert!(once.contains(2));
}

#[test]
fn control_click_on_a_span_lists_it() {
    let span = SelectionMode::Range { first: 1, r: 1..=4 };
    let sel = span.update_selection(3, false, true);
    assert!(matches!(sel, SelectionMode::Multiple(ref v) if *v == vec![1, 2, 4]));
    let span = SelectionMode::Range { first: 1, r: 1..=2 };
    let sel = span.update_selection(7, false, true);
    assert!(matches!(sel, SelectionMode::Multiple(ref v) if *v == vec![1, 2, 7]));
}

#[test]
fn nothing_is_selected_at_first() {
    assert_eq!(members(&SelectionMode::Empty, 10), Vec::<usize>::new());
}

#[test]
fn typed_text_is_kept() {
    let mut inputs = UserInputs { url: String::new() };
    inputs.update(InputMessage::UrlChanged("https://example.org".to_string()));
    assert_eq!(inputs.url, "https://example.org");
    inputs.update(InputMessage::UrlSubmitted);
    assert_eq!(inputs.url, "https://example.org");
}

#[test]
fn control_click_on_an_exhausted_span_selects_the_clicked_entry() {
    let mut r = 2..=4;
    for _ in r.by_ref() {}
    assert!(r.is_empty());
    let sel = SelectionMode::Range { first: 2, r }.update_selection(7, false, true);
    assert!(matches!(&sel, SelectionMode::Multiple(v) if v == &vec![7]));
    assert_eq!(members(&sel, 10), vec![7]);
}

#[test]
fn control_click_on_a_span_toggles_the_clicked_entry() {
    let sel = SelectionMode::Range { first: 2, r: 2..=4 }.update_selection(3, false, true);
    assert!(matches!(&sel, SelectionMode::Multiple(v) if v == &vec![2, 4]));
    let sel = sel.update_selection(3, false, true);
    assert_eq!(members(&sel, 10), vec![2, 3, 4]);
}
