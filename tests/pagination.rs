use task_api::pagination::{page_number, page_of, page_size_setting, paginate, total_pages, ResponseMetadata, PAGE_SIZE};

#[test]
fn page_number_defaults_to_one() {
    assert_eq!(page_number(None), 1);
    assert_eq!(page_number(Some("abc")), 1);
    assert_eq!(page_number(Some("")), 1);
}

#[test]
fn page_number_zero_and_negative_mean_first_page() {
    assert_eq!(page_number(Some("0")), 1);
    assert_eq!(page_number(Some("-3")), 1);
}

#[test]
fn page_number_reads_positive_numbers() {
    assert_eq!(page_number(Some("2")), 2);
    assert_eq!(page_number(Some("+4")), 4);
    assert_eq!(page_number(Some("18446744073709551615")), u64::MAX);
    assert_eq!(page_number(Some("18446744073709551616")), 1);
}

#[test]
fn page_size_setting_falls_back_to_default() {
    assert_eq!(page_size_setting(None), PAGE_SIZE);
    assert_eq!(page_size_setting(Some("0")), PAGE_SIZE);
    assert_eq!(page_size_setting(Some("x")), PAGE_SIZE);
    assert_eq!(page_size_setting(Some("25")), 25);
}

#[test]
fn total_pages_rounds_up() {
    assert_eq!(total_pages(0, 10), 0);
    assert_eq!(total_pages(1, 10), 1);
    assert_eq!(total_pages(10, 10), 1);
    assert_eq!(total_pages(11, 10), 2);
    assert_eq!(total_pages(25, 10), 3);
    assert_eq!(total_pages(u64::MAX, 1), u64::MAX);
}

#[test]
fn pages_concatenate_to_the_whole_result() {
    let items: Vec<u32> = (0..25).collect();
    let total = total_pages(items.len() as u64, 10);
    assert_eq!(total, 3);
    let mut joined: Vec<u32> = Vec::new();
    for p in 1..=total {
        joined.extend(page_of(items.clone(), p, 10));
    }
    assert_eq!(joined, items);
}

#[test]
fn page_zero_equals_page_one() {
    let items: Vec<u32> = (0..25).collect();
    assert_eq!(page_of(items.clone(), 0, 10), page_of(items.clone(), 1, 10));
    assert_eq!(page_of(items, 1, 10), (0..10).collect::<Vec<u32>>());
}

#[test]
fn page_past_the_end_is_empty() {
    let items: Vec<u32> = (0..25).collect();
    assert_eq!(page_of(items.clone(), 3, 10), vec![20, 21, 22, 23, 24]);
    assert!(page_of(items.clone(), 4, 10).is_empty());
    assert!(page_of(items, u64::MAX, u64::MAX).is_empty());
    assert!(page_of(Vec::<u32>::new(), 1, 10).is_empty());
}

#[test]
fn paginate_reports_metadata() {
    let items: Vec<u32> = (0..25).collect();
    let pg = paginate(items, 2, 10, Some("/api/v1/tasks?page=2".to_string()));
    assert_eq!(pg.data, (10..20).collect::<Vec<u32>>());
    assert_eq!(pg.meta.count, 25);
    assert_eq!(pg.meta.per_page, 10);
    assert_eq!(pg.meta.total_page, 3);
    assert_eq!(pg.meta.current_url, Some("/api/v1/tasks?page=2".to_string()));
}

#[test]
fn metadata_new_computes_total_pages() {
    let m = ResponseMetadata::new(31, 10, None);
    assert_eq!(m.count, 31);
    assert_eq!(m.per_page, 10);
    assert_eq!(m.total_page, 4);
    assert_eq!(m.current_url, None);
}
