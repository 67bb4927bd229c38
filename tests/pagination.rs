use repo_sync::pagination::{PageStep, Pager};

#[test]
fn pages_are_collected_in_order() {
    let mut pager: Pager<u32> = Pager::new();
    assert_eq!(pager.page(), 1);
    assert_eq!(pager.receive(vec![1, 2], true), PageStep::Fetch(2));
    assert_eq!(pager.page(), 2);
    assert_eq!(pager.receive(vec![3, 4], true), PageStep::Fetch(3));
    assert_eq!(pager.receive(vec![5, 6], false), PageStep::Done);
    assert_eq!(pager.into_items(), vec![1, 2, 3, 4, 5, 6]);
}

#[test]
fn single_empty_page_gives_nothing() {
    let mut pager: Pager<u32> = Pager::new();
    assert_eq!(pager.receive(vec![], false), PageStep::Done);
    assert_eq!(pager.into_items(), Vec::<u32>::new());
}

#[test]
fn full_pages_then_empty_last_page() {
    let per_page = 100u32;
    let mut pager: Pager<u32> = Pager::new();
    for p in 0..3u32 {
        let batch: Vec<u32> = (0..per_page).map(|j| p * per_page + j).collect();
        assert_eq!(pager.receive(batch, true), PageStep::Fetch(p + 2));
    }
    assert_eq!(pager.receive(vec![], false), PageStep::Done);
    let items = pager.into_items();
    assert_eq!(items.len(), 300);
    for (i, x) in items.iter().enumerate() {
        assert_eq!(*x as usize, i);
    }
}
