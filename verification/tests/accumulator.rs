use pagination::{Page, ResultPage};
use std::cell::{Cell, RefCell};

/// A remote side that holds the numbers `0..total` and serves them in pages
/// of `limit`, noting each offset it was asked for.
fn numbered(
    total: u32,
    limit: u32,
    asked: &RefCell<Vec<u32>>,
) -> impl Fn(u32) -> Option<Page<u32>> + '_ {
    move |offset: u32| {
        asked.borrow_mut().push(offset);
        let start = offset.min(total);
        let end = offset.saturating_add(limit).min(total);
        Some(Page::new((start..end).collect(), total))
    }
}

#[test]
fn new_keeps_the_first_page() {
    let asked = RefCell::new(Vec::new());
    let pages = ResultPage::new(0, 20, numbered(45, 20, &asked)).unwrap();
    assert_eq!(pages.len(), 20);
    assert_eq!(pages.offset(), 0);
    assert_eq!(pages.limit(), 20);
    assert_eq!(pages.total(), 45);
    assert_eq!(pages.items(), &(0..20).collect::<Vec<u32>>());
    assert_eq!(*asked.borrow(), vec![0]);
}

#[test]
fn new_fetches_at_the_given_offset() {
    let asked = RefCell::new(Vec::new());
    let pages = ResultPage::new(30, 10, numbered(45, 10, &asked)).unwrap();
    assert_eq!(pages.offset(), 30);
    assert_eq!(pages.items(), &(30..40).collect::<Vec<u32>>());
    assert_eq!(*asked.borrow(), vec![30]);
}

#[test]
fn new_fails_when_the_first_fetch_fails() {
    let asked = RefCell::new(Vec::new());
    let result = ResultPage::new(7, 20, |offset: u32| -> Option<Page<u32>> {
        asked.borrow_mut().push(offset);
        None
    });
    assert!(result.is_none());
    assert_eq!(*asked.borrow(), vec![7]);
}

#[test]
fn with_first_page_needs_a_page() {
    let fetch = |_: u32| -> Option<Page<u8>> { None };
    assert!(ResultPage::with_first_page(0, 5, None, fetch).is_none());
    let pages = ResultPage::with_first_page(3, 5, Some(Page::new(vec![1u8, 2], 9)), fetch).unwrap();
    assert_eq!(pages.offset(), 3);
    assert_eq!(pages.limit(), 5);
    assert_eq!(pages.total(), 9);
    assert_eq!(pages.items(), &vec![1u8, 2]);
}

#[test]
fn walk_of_45_items_in_pages_of_20() {
    let asked = RefCell::new(Vec::new());
    let mut pages = ResultPage::new(0, 20, numbered(45, 20, &asked)).unwrap();
    assert_eq!(pages.len(), 20);
    assert!(!pages.at_end());

    assert!(pages.next());
    assert_eq!(pages.len(), 40);
    assert_eq!(pages.offset(), 20);
    assert!(!pages.at_end());

    assert!(pages.next());
    assert_eq!(pages.len(), 45);
    assert_eq!(pages.offset(), 40);
    assert!(pages.at_end());

    assert!(!pages.next());
    assert_eq!(pages.len(), 45);
    assert_eq!(pages.offset(), 40);
    assert_eq!(pages.items(), &(0..45).collect::<Vec<u32>>());
    assert_eq!(*asked.borrow(), vec![0, 20, 40]);
}

#[test]
fn walk_from_the_start_collects_everything() {
    for total in [0u32, 1, 6, 7, 8, 45] {
        let asked = RefCell::new(Vec::new());
        let mut pages = ResultPage::new(0, 7, numbered(total, 7, &asked)).unwrap();
        let mut before = pages.len();
        let mut steps = 0;
        while pages.next() {
            assert!(pages.len() > before);
            before = pages.len();
            steps += 1;
            assert!(steps <= total);
        }
        assert!(pages.at_end());
        assert_eq!(pages.len(), total as usize);
        assert_eq!(pages.items(), &(0..total).collect::<Vec<u32>>());
        assert!(!pages.next());
        assert_eq!(pages.len(), total as usize);
    }
}

#[test]
fn walk_from_the_middle_collects_the_rest() {
    let asked = RefCell::new(Vec::new());
    let mut pages = ResultPage::new(10, 20, numbered(45, 20, &asked)).unwrap();
    while pages.next() {}
    assert!(pages.at_end());
    assert_eq!(pages.items(), &(10..45).collect::<Vec<u32>>());
    assert_eq!(*asked.borrow(), vec![10, 30]);
}

#[test]
fn at_end_compares_offset_plus_limit_with_total() {
    let fetch = |_: u32| -> Option<Page<u8>> { None };
    let at = |offset: u32, limit: usize, total: u32| {
        ResultPage::with_first_page(offset, limit, Some(Page::new(Vec::<u8>::new(), total)), fetch)
            .unwrap()
            .at_end()
    };
    assert!(at(10, 5, 15));
    assert!(!at(10, 5, 16));
    assert!(at(10, 5, 14));
    assert!(at(0, 0, 0));
    assert!(!at(0, 0, 1));
    assert!(at(20, 1, 3));
    assert!(!at(0, 20, 45));
    assert!(at(40, 20, 45));
}

#[test]
fn at_end_with_extreme_values() {
    let fetch = |_: u32| -> Option<Page<u8>> { None };
    let at = |offset: u32, limit: usize, total: u32| {
        ResultPage::with_first_page(offset, limit, Some(Page::new(Vec::<u8>::new(), total)), fetch)
            .unwrap()
            .at_end()
    };
    assert!(at(u32::MAX, usize::MAX, u32::MAX));
    assert!(at(0, usize::MAX, u32::MAX));
    assert!(at(u32::MAX, 1, u32::MAX));
    assert!(at(1, (u32::MAX - 1) as usize, u32::MAX));
    assert!(!at(0, (u32::MAX - 1) as usize, u32::MAX));
}

#[test]
fn next_at_the_end_does_not_fetch() {
    let asked = RefCell::new(Vec::new());
    let mut pages = ResultPage::new(0, 50, numbered(45, 50, &asked)).unwrap();
    assert!(pages.at_end());
    assert!(!pages.next());
    assert!(!pages.next());
    assert_eq!(pages.len(), 45);
    assert_eq!(pages.offset(), 0);
    assert_eq!(*asked.borrow(), vec![0]);
}

#[test]
fn failed_fetch_changes_nothing_and_can_be_retried() {
    let down = Cell::new(false);
    let asked = RefCell::new(Vec::new());
    let fetch = |offset: u32| -> Option<Page<u32>> {
        asked.borrow_mut().push(offset);
        if down.get() {
            None
        } else {
            Some(Page::new((offset..(offset + 10).min(25)).collect(), 25))
        }
    };
    let mut pages = ResultPage::new(0, 10, fetch).unwrap();
    down.set(true);
    assert!(!pages.next());
    assert_eq!(pages.len(), 10);
    assert_eq!(pages.offset(), 0);
    assert!(!pages.at_end());
    down.set(false);
    assert!(pages.next());
    assert_eq!(pages.len(), 20);
    assert_eq!(pages.offset(), 10);
    assert_eq!(pages.items(), &(0..20).collect::<Vec<u32>>());
    assert_eq!(*asked.borrow(), vec![0, 10, 10]);
}

#[test]
fn total_of_later_pages_is_ignored() {
    let fetch = |offset: u32| -> Option<Page<u32>> {
        let total = if offset == 0 { 30 } else { 1000 };
        Some(Page::new(vec![offset; 10], total))
    };
    let mut pages = ResultPage::new(0, 10, fetch).unwrap();
    assert_eq!(pages.total(), 30);
    assert!(pages.next());
    assert_eq!(pages.total(), 30);
    assert!(pages.next());
    assert_eq!(pages.total(), 30);
    assert!(pages.at_end());
    assert!(!pages.next());
    assert_eq!(pages.len(), 30);
}

#[test]
fn len_follows_what_pages_hold_not_the_page_size() {
    let fetch = |offset: u32| -> Option<Page<u32>> { Some(Page::new(vec![offset; 3], 100)) };
    let mut pages = ResultPage::new(0, 40, fetch).unwrap();
    assert_eq!(pages.len(), 3);
    assert!(pages.next());
    assert_eq!(pages.len(), 6);
    assert_eq!(pages.offset(), 40);
    assert!(!pages.at_end());
    assert!(pages.next());
    assert_eq!(pages.len(), 9);
    assert_eq!(pages.offset(), 80);
    assert!(pages.at_end());
    assert_eq!(pages.items(), &vec![0, 0, 0, 40, 40, 40, 80, 80, 80]);
}

#[test]
fn accept_appends_a_page_and_moves_the_offset() {
    let fetch = |_: u32| -> Option<Page<u8>> { None };
    let mut pages =
        ResultPage::with_first_page(0, 2, Some(Page::new(vec![1u8, 2], 5)), fetch).unwrap();
    assert!(pages.accept(Some(Page::new(vec![3, 4], 5))));
    assert_eq!(pages.items(), &vec![1u8, 2, 3, 4]);
    assert_eq!(pages.offset(), 2);
    assert!(!pages.at_end());
    assert!(pages.accept(Some(Page::new(vec![5], 5))));
    assert_eq!(pages.items(), &vec![1u8, 2, 3, 4, 5]);
    assert_eq!(pages.offset(), 4);
    assert!(pages.at_end());
}

#[test]
fn accept_refuses_a_missing_page() {
    let fetch = |_: u32| -> Option<Page<u8>> { None };
    let mut pages =
        ResultPage::with_first_page(0, 2, Some(Page::new(vec![1u8, 2], 5)), fetch).unwrap();
    assert!(!pages.accept(None));
    assert_eq!(pages.items(), &vec![1u8, 2]);
    assert_eq!(pages.offset(), 0);
}

#[test]
fn accept_refuses_a_page_at_the_end() {
    let fetch = |_: u32| -> Option<Page<u8>> { None };
    let mut pages =
        ResultPage::with_first_page(4, 2, Some(Page::new(vec![5u8], 5)), fetch).unwrap();
    assert!(pages.at_end());
    assert!(!pages.accept(Some(Page::new(vec![9, 9], 5))));
    assert_eq!(pages.items(), &vec![5u8]);
    assert_eq!(pages.offset(), 4);
}

#[test]
fn page_new_keeps_its_parts() {
    let page = Page::new(vec!['a', 'b'], 7);
    assert_eq!(page.items, vec!['a', 'b']);
    assert_eq!(page.total, 7);
}

#[test]
fn next_offset_is_one_page_further_until_the_end() {
    let asked = RefCell::new(Vec::new());
    let mut pages = ResultPage::new(0, 20, numbered(45, 20, &asked)).unwrap();
    assert_eq!(pages.next_offset(), Some(20));
    assert!(pages.next());
    assert_eq!(pages.next_offset(), Some(40));
    assert!(pages.next());
    assert_eq!(pages.next_offset(), None);
    assert_eq!(*asked.borrow(), vec![0, 20, 40]);
}

#[test]
fn next_offset_near_the_largest_offset() {
    let fetch = |_: u32| -> Option<Page<u8>> { None };
    let pages = ResultPage::with_first_page(
        u32::MAX - 3,
        2,
        Some(Page::new(Vec::<u8>::new(), u32::MAX)),
        fetch,
    )
    .unwrap();
    assert!(!pages.at_end());
    assert_eq!(pages.next_offset(), Some(u32::MAX - 1));
    let pages = ResultPage::with_first_page(
        u32::MAX - 3,
        3,
        Some(Page::new(Vec::<u8>::new(), u32::MAX)),
        fetch,
    )
    .unwrap();
    assert!(pages.at_end());
    assert_eq!(pages.next_offset(), None);
}
