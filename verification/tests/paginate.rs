use nu_plugin_gitql::paginate::{
    needs_pages, page_count, parse_page_input, PageEvent, PageInput, PagePrompt, Pager,
};

#[test]
fn twenty_five_rows_in_pages_of_ten_are_three_pages() {
    assert_eq!(page_count(25, 10), 3);
}

#[test]
fn page_count_rounds_up() {
    assert_eq!(page_count(0, 10), 0);
    assert_eq!(page_count(1, 10), 1);
    assert_eq!(page_count(10, 10), 1);
    assert_eq!(page_count(11, 10), 2);
    assert_eq!(page_count(20, 10), 2);
    assert_eq!(page_count(7, 1), 7);
    assert_eq!(page_count(usize::MAX, 1), usize::MAX);
    assert_eq!(page_count(usize::MAX, usize::MAX), 1);
    assert_eq!(page_count(usize::MAX, 2), usize::MAX / 2 + 1);
}

#[test]
fn pages_are_needed_only_when_asked_for_and_one_page_is_too_small() {
    assert!(needs_pages(true, 10, 25));
    assert!(!needs_pages(false, 10, 25));
    assert!(!needs_pages(true, 25, 25));
    assert!(!needs_pages(true, 30, 25));
    assert!(!needs_pages(true, 10, 0));
}

#[test]
fn last_page_of_twenty_five_rows_has_five() {
    let mut pager = Pager::new(25, 10);
    assert_eq!(pager.bounds(), (0, 10));
    assert_eq!(pager.advance(PageInput::Next), PageEvent::Show);
    assert_eq!(pager.bounds(), (10, 20));
    assert_eq!(pager.advance(PageInput::Next), PageEvent::Show);
    assert_eq!(pager.current_page(), 3);
    let (start, end) = pager.bounds();
    assert_eq!((start, end), (20, 25));
    assert_eq!(end - start, 5);
}

#[test]
fn advancing_past_the_last_page_changes_nothing() {
    let mut pager = Pager::new(25, 10);
    pager.advance(PageInput::Next);
    pager.advance(PageInput::Next);
    let before = pager;
    assert_eq!(pager.advance(PageInput::Next), PageEvent::AlreadyLast);
    assert_eq!(pager, before);
    assert_eq!(pager.current_page(), 3);
}

#[test]
fn going_back_from_the_first_page_changes_nothing() {
    let mut pager = Pager::new(25, 10);
    let before = pager;
    assert_eq!(pager.advance(PageInput::Previous), PageEvent::AlreadyFirst);
    assert_eq!(pager, before);
    assert_eq!(pager.current_page(), 1);
}

#[test]
fn previous_page_goes_back_one() {
    let mut pager = Pager::new(25, 10);
    pager.advance(PageInput::Next);
    pager.advance(PageInput::Next);
    assert_eq!(pager.advance(PageInput::Previous), PageEvent::Show);
    assert_eq!(pager.current_page(), 2);
    assert_eq!(pager.bounds(), (10, 20));
}

#[test]
fn quitting_leaves_the_page() {
    let mut pager = Pager::new(25, 10);
    pager.advance(PageInput::Next);
    assert_eq!(pager.advance(PageInput::Quit), PageEvent::Quit);
    assert_eq!(pager.current_page(), 2);
}

#[test]
fn prompt_depends_on_the_page() {
    let mut pager = Pager::new(25, 10);
    assert_eq!(pager.prompt(), PagePrompt::NextOrQuit);
    pager.advance(PageInput::Next);
    assert_eq!(pager.prompt(), PagePrompt::NextPreviousOrQuit);
    pager.advance(PageInput::Next);
    assert_eq!(pager.prompt(), PagePrompt::PreviousOrQuit);
}

#[test]
fn single_page_pager() {
    let mut pager = Pager::new(3, 10);
    assert_eq!(pager.page_count(), 1);
    assert_eq!(pager.bounds(), (0, 3));
    assert_eq!(pager.advance(PageInput::Next), PageEvent::AlreadyLast);
    assert_eq!(pager.advance(PageInput::Previous), PageEvent::AlreadyFirst);
}

#[test]
fn pager_with_very_many_rows() {
    let mut pager = Pager::new(usize::MAX, usize::MAX - 1);
    assert_eq!(pager.page_count(), 2);
    assert_eq!(pager.bounds(), (0, usize::MAX - 1));
    pager.advance(PageInput::Next);
    assert_eq!(pager.bounds(), (usize::MAX - 1, usize::MAX));
}

#[test]
fn page_input_is_one_of_three_letters() {
    assert_eq!(parse_page_input("n"), Some(PageInput::Next));
    assert_eq!(parse_page_input("p"), Some(PageInput::Previous));
    assert_eq!(parse_page_input("q"), Some(PageInput::Quit));
    assert_eq!(parse_page_input(""), None);
    assert_eq!(parse_page_input("N"), None);
    assert_eq!(parse_page_input("nn"), None);
    assert_eq!(parse_page_input("next"), None);
    assert_eq!(parse_page_input(" n"), None);
    assert_eq!(parse_page_input("é"), None);
}

#[test]
fn pages_cover_every_row_once() {
    for (rows, page_size) in [(25usize, 10usize), (30, 10), (1, 1), (7, 3), (9, 4), (5, 8)] {
        let mut pager = Pager::new(rows, page_size);
        let mut next_row = 0;
        loop {
            let (start, end) = pager.bounds();
            assert_eq!(start, next_row);
            assert!(start < end && end - start <= page_size);
            for row in start..end {
                assert_eq!(row / page_size + 1, pager.current_page());
            }
            next_row = end;
            if pager.advance(PageInput::Next) == PageEvent::AlreadyLast {
                break;
            }
        }
        assert_eq!(next_row, rows);
        assert_eq!(pager.current_page(), page_count(rows, page_size));
    }
}
