use liusearch::page::{age_of, clamp_page_size, has_next_page, page_count, page_range, Age, PageRange, DEFAULT_PAGE_SIZE};

#[test]
fn page_range_of_a_full_page() {
    assert_eq!(page_range(0, 20, 45), PageRange { page: 0, from: 0, to: 20 });
    assert_eq!(page_range(1, 20, 45), PageRange { page: 1, from: 20, to: 40 });
}

#[test]
fn page_range_of_the_last_page() {
    assert_eq!(page_range(2, 20, 45), PageRange { page: 2, from: 40, to: 45 });
    assert_eq!(page_range(2, 20, 40), PageRange { page: 2, from: 40, to: 40 });
}

#[test]
fn page_range_falls_back_to_the_first_page() {
    assert_eq!(page_range(3, 20, 45), PageRange { page: 0, from: 0, to: 20 });
    assert_eq!(page_range(7, 20, 5), PageRange { page: 0, from: 0, to: 5 });
    assert_eq!(page_range(usize::MAX, usize::MAX, 5), PageRange { page: 0, from: 0, to: 5 });
    assert_eq!(page_range(0, 20, 0), PageRange { page: 0, from: 0, to: 0 });
    assert_eq!(page_range(0, 0, 9), PageRange { page: 0, from: 0, to: 0 });
}

#[test]
fn next_page_and_page_count() {
    assert!(has_next_page(0, 20, 45));
    assert!(has_next_page(1, 20, 45));
    assert!(!has_next_page(2, 20, 45));
    assert!(!has_next_page(1, 20, 40));
    assert!(!has_next_page(usize::MAX, usize::MAX, 40));
    assert_eq!(page_count(20, 45), 3);
    assert_eq!(page_count(20, 40), 3);
    assert_eq!(page_count(20, 0), 1);
}

#[test]
fn age_of_days() {
    assert_eq!(age_of(0), Age::Days(0));
    assert_eq!(age_of(29), Age::Days(29));
    assert_eq!(age_of(30), Age::Months(1));
    assert_eq!(age_of(364), Age::Months(12));
    assert_eq!(age_of(365), Age::OneYear);
    assert_eq!(age_of(729), Age::OneYear);
    assert_eq!(age_of(730), Age::Years(2));
    assert_eq!(age_of(3650), Age::Years(10));
    assert_eq!(age_of(-3), Age::Days(-3));
}

#[test]
fn page_size_stays_within_its_range() {
    assert_eq!(DEFAULT_PAGE_SIZE, 20);
    assert_eq!(clamp_page_size(0), 10);
    assert_eq!(clamp_page_size(10), 10);
    assert_eq!(clamp_page_size(55), 55);
    assert_eq!(clamp_page_size(100), 100);
    assert_eq!(clamp_page_size(101), 100);
    assert_eq!(clamp_page_size(DEFAULT_PAGE_SIZE), 20);
}
