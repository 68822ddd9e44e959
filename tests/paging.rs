use momentum::paging::{Datasource, PageCursor, PageStep, PagingError};

fn drain(page_size: u64, total: u64) -> (Vec<(u64, u64)>, u64) {
    let mut c = PageCursor::new(page_size, total).unwrap();
    let mut fetched = Vec::new();
    let mut rows = 0u64;
    loop {
        match c.next_page() {
            PageStep::Fetch { limit, offset } => {
                fetched.push((limit, offset));
                rows += std::cmp::min(limit, total - offset);
            }
            PageStep::EndOfStream => break,
        }
    }
    (fetched, rows)
}

#[test]
fn pages_cover_all_rows() {
    for &(ps, total) in &[(1u64, 0u64), (1, 5), (3, 10), (5, 10), (500, 1234), (7, 6)] {
        let (pages, rows) = drain(ps, total);
        assert_eq!(pages.len() as u64, (total + ps - 1) / ps);
        assert_eq!(rows, total);
        for (i, &(limit, offset)) in pages.iter().enumerate() {
            assert_eq!(limit, ps);
            assert_eq!(offset, i as u64 * ps);
        }
    }
}

#[test]
fn end_of_stream_repeats_without_moving() {
    let mut c = PageCursor::new(4, 6).unwrap();
    assert_eq!(c.next_page(), PageStep::Fetch { limit: 4, offset: 0 });
    assert_eq!(c.next_page(), PageStep::Fetch { limit: 4, offset: 4 });
    for _ in 0..5 {
        assert_eq!(c.next_page(), PageStep::EndOfStream);
        assert_eq!(c.current_page(), 2);
    }
    assert_eq!(c.page_size(), 4);
    assert_eq!(c.total_row_count(), 6);
}

#[test]
fn zero_page_size_is_refused() {
    assert!(matches!(PageCursor::new(0, 10), Err(PagingError::InvalidConfiguration)));
}

#[test]
fn huge_page_size_does_not_overflow() {
    let mut c = PageCursor::new(u64::MAX, u64::MAX).unwrap();
    assert_eq!(c.next_page(), PageStep::Fetch { limit: u64::MAX, offset: 0 });
    assert_eq!(c.next_page(), PageStep::EndOfStream);
}

#[test]
fn datasource_needs_both_fields() {
    let d = Datasource::new("AMERITRADE".to_string(), "v1".to_string()).unwrap();
    assert_eq!(d.source, "AMERITRADE");
    assert_eq!(d.version, "v1");
    assert_eq!(Datasource::new(String::new(), "v1".to_string()), Err(PagingError::InvalidConfiguration));
    assert_eq!(Datasource::new("AMERITRADE".to_string(), String::new()), Err(PagingError::InvalidConfiguration));
}
