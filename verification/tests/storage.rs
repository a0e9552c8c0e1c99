use server::retro_dto::{RetrospectMethod, RetrospectStatus, StorageRangeFilter, StorageRetrospectItem};
use server::storage::{
    select_storage_rows, select_storage_rows_now, storage_response,
    group_storage, participant_count, sort_newest_first, storage_entries, submitted_at, text_le, year_from_text,
    year_label_text, StorageSource,
};

fn item(id: i64, date: &str) -> StorageRetrospectItem {
    StorageRetrospectItem {
        retrospect_id: id,
        display_date: date.to_string(),
        title: format!("회고 {}", id),
        retrospect_method: RetrospectMethod::Kpt,
        member_count: 1,
    }
}

#[test]
fn text_order_follows_str() {
    assert!(text_le("2024-01-01", "2025-01-01"));
    assert!(!text_le("2025-01-02", "2025-01-01"));
    assert!(text_le("abc", "abc"));
    assert!(text_le("ab", "abc"));
    assert!(!text_le("b", "abc"));
    assert!(text_le("", ""));
}

#[test]
fn year_label_is_number_and_suffix() {
    assert_eq!(year_label_text(2025), "2025년");
    assert_eq!(year_label_text(0), "0년");
    assert_eq!(year_label_text(-5), "-5년");
}

#[test]
fn year_text_parses_like_i32() {
    assert_eq!(year_from_text("2025"), 2025);
    assert_eq!(year_from_text("+2025"), 2025);
    assert_eq!(year_from_text("-44"), -44);
    assert_eq!(year_from_text(""), 0);
    assert_eq!(year_from_text("20x5"), 0);
    assert_eq!(year_from_text("3000000000"), 0);
}

#[test]
fn newest_first_sorts_dates_descending() {
    let sorted = sort_newest_first(vec![item(1, "2025-01-03"), item(2, "2025-03-01"), item(3, "2025-02-10")]);
    let ids: Vec<i64> = sorted.iter().map(|i| i.retrospect_id).collect();
    assert_eq!(ids, vec![2, 3, 1]);
}

#[test]
fn storage_groups_by_year_newest_first() {
    let entries = vec![
        (2024, item(1, "2024-05-01")),
        (2025, item(2, "2025-01-10")),
        (2024, item(3, "2024-12-24")),
        (2025, item(4, "2025-02-01")),
        (2023, item(5, "2023-07-07")),
    ];
    let response = group_storage(&entries);
    let labels: Vec<&str> = response.years.iter().map(|g| g.year_label.as_str()).collect();
    assert_eq!(labels, vec!["2025년", "2024년", "2023년"]);
    let ids: Vec<Vec<i64>> = response
        .years
        .iter()
        .map(|g| g.retrospects.iter().map(|i| i.retrospect_id).collect())
        .collect();
    assert_eq!(ids, vec![vec![4, 2], vec![3, 1], vec![5]]);
}

#[test]
fn storage_of_nothing_is_empty() {
    assert!(group_storage(&vec![]).years.is_empty());
}

#[test]
fn submitted_at_takes_the_last_recorded_time() {
    let mine = vec![(1i64, Some(100i64)), (2, None), (1, Some(200)), (1, None)];
    assert_eq!(submitted_at(&mine, 1), Some(200));
    assert_eq!(submitted_at(&mine, 2), None);
    assert_eq!(submitted_at(&mine, 3), None);
}

#[test]
fn participants_are_counted_per_retrospect() {
    let ids = vec![1i64, 2, 1, 1, 3];
    assert_eq!(participant_count(&ids, 1), 3);
    assert_eq!(participant_count(&ids, 4), 0);
}

#[test]
fn storage_entries_use_korean_dates() {
    // 2024-12-31 20:00 UTC is 2025-01-01 05:00 in Korea.
    let sources = vec![
        StorageSource {
            retrospect_id: 7,
            title: "연말 회고".to_string(),
            retrospect_method: RetrospectMethod::Pmi,
            created_at: 0,
        },
        StorageSource {
            retrospect_id: 8,
            title: "첫 회고".to_string(),
            retrospect_method: RetrospectMethod::Kpt,
            created_at: 1_735_675_200,
        },
    ];
    let mine = vec![(7i64, Some(1_735_675_200i64))];
    let entries = storage_entries(sources, &mine, &vec![7, 7, 8]);
    assert_eq!(entries.len(), 2);
    assert_eq!(entries[0].0, 2025);
    assert_eq!(entries[0].1.display_date, "2025-01-01");
    assert_eq!(entries[0].1.member_count, 2);
    assert_eq!(entries[0].1.title, "연말 회고");
    assert_eq!(entries[1].0, 2025);
    assert_eq!(entries[1].1.display_date, "2025-01-01");
    assert_eq!(entries[1].1.member_count, 1);
    let epoch = storage_entries(
        vec![StorageSource { retrospect_id: 9, title: "t".to_string(), retrospect_method: RetrospectMethod::Free, created_at: 0 }],
        &vec![],
        &vec![],
    );
    assert_eq!(epoch[0].0, 1970);
    assert_eq!(epoch[0].1.display_date, "1970-01-01");
}

#[test]
fn items_of_one_date_keep_their_order() {
    let sorted = sort_newest_first(vec![
        item(1, "2025-01-01"),
        item(2, "2025-02-01"),
        item(3, "2025-01-01"),
        item(4, "2025-02-01"),
    ]);
    let ids: Vec<i64> = sorted.iter().map(|i| i.retrospect_id).collect();
    assert_eq!(ids, vec![2, 4, 1, 3]);
}

#[test]
fn storage_keeps_only_finished_participations() {
    let rows = vec![
        (1, RetrospectStatus::Draft, None),
        (2, RetrospectStatus::Submitted, Some(100)),
        (3, RetrospectStatus::Analyzed, None),
        (4, RetrospectStatus::Draft, Some(50)),
    ];
    assert_eq!(
        select_storage_rows(&rows, 1_000, StorageRangeFilter::All),
        vec![(2, Some(100)), (3, None)]
    );
}

#[test]
fn storage_period_cuts_off_at_the_given_number_of_days() {
    let now: i64 = 1_800_000_000;
    let day: i64 = 86_400;
    let rows = vec![
        (1, RetrospectStatus::Submitted, Some(now - 90 * day)),
        (2, RetrospectStatus::Submitted, Some(now - 90 * day - 1)),
        (3, RetrospectStatus::Analyzed, None),
        (4, RetrospectStatus::Analyzed, Some(now - 100 * day)),
    ];
    assert_eq!(
        select_storage_rows(&rows, now, StorageRangeFilter::ThreeMonths),
        vec![(1, Some(now - 90 * day))]
    );
    assert_eq!(
        select_storage_rows(&rows, now, StorageRangeFilter::SixMonths),
        vec![(1, Some(now - 90 * day)), (2, Some(now - 90 * day - 1)), (4, Some(now - 100 * day))]
    );
}

#[test]
fn storage_selection_now_keeps_recent_submissions() {
    let rows = vec![(7, RetrospectStatus::Submitted, Some(i64::MAX)), (8, RetrospectStatus::Draft, None)];
    assert_eq!(select_storage_rows_now(&rows, StorageRangeFilter::OneYear), vec![(7, Some(i64::MAX))]);
}

#[test]
fn storage_response_files_retrospects_by_year_newest_first() {
    let sources = vec![
        StorageSource { retrospect_id: 1, title: "old".to_string(), retrospect_method: RetrospectMethod::Kpt, created_at: 0 },
        StorageSource { retrospect_id: 2, title: "new".to_string(), retrospect_method: RetrospectMethod::Pmi, created_at: 0 },
    ];
    // Submitted 2024-06-01 00:00 UTC and 2025-03-01 00:00 UTC.
    let mine = vec![(1i64, Some(1_717_200_000i64)), (2i64, Some(1_740_787_200i64))];
    let r = storage_response(sources, &mine, &vec![1, 2, 2]);
    assert_eq!(r.years.len(), 2);
    assert_eq!(r.years[0].retrospects.len(), 1);
    assert_eq!(r.years[0].retrospects[0].retrospect_id, 2);
    assert_eq!(r.years[0].retrospects[0].member_count, 2);
    assert_eq!(r.years[1].retrospects[0].retrospect_id, 1);
    assert!(r.years[0].year_label > r.years[1].year_label);
}
