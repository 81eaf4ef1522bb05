use apod_wallpaper::cache::{CacheError, DatedCache, Listing};
use apod_wallpaper::names::name_le;
use apod_wallpaper::date::CalendarDate;

fn names(list: &[&str]) -> Listing {
    Listing::Names(list.iter().map(|s| s.to_string()).collect())
}

#[test]
fn cache_root_is_apod_below_home() {
    assert_eq!(DatedCache::in_home("/tmp/h").root(), "/tmp/h/apod");
    assert_eq!(DatedCache::in_home("/home/ada").root(), "/home/ada/apod");
    assert_eq!(DatedCache::in_home("").root(), "/apod");
}

#[test]
fn cache_at_keeps_its_root() {
    assert_eq!(DatedCache::at("/var/cache/pictures").root(), "/var/cache/pictures");
}

#[test]
fn path_for_is_root_stamp_png() {
    let cache = DatedCache::in_home("/tmp/h");
    let date = CalendarDate::new(2023, 2, 15).unwrap();
    assert_eq!(cache.path_for(date), "/tmp/h/apod/20230215.png");
    let early = CalendarDate::new(2024, 1, 2).unwrap();
    assert_eq!(cache.path_for(early), "/tmp/h/apod/20240102.png");
}

#[test]
fn path_for_is_deterministic() {
    let cache = DatedCache::in_home("/tmp/h");
    let date = CalendarDate::new(2023, 2, 15).unwrap();
    assert_eq!(cache.path_for(date), cache.path_for(date));
    let again = DatedCache::in_home("/tmp/h");
    assert_eq!(cache.path_for(date), again.path_for(CalendarDate::new(2023, 2, 15).unwrap()));
}

#[test]
fn path_for_is_injective_over_dates() {
    let cache = DatedCache::in_home("/tmp/h");
    let days = [
        CalendarDate::new(2023, 1, 1).unwrap(),
        CalendarDate::new(2023, 1, 2).unwrap(),
        CalendarDate::new(2023, 2, 1).unwrap(),
        CalendarDate::new(2024, 1, 1).unwrap(),
        CalendarDate::new(2023, 12, 31).unwrap(),
        CalendarDate::new(2023, 1, 12).unwrap(),
    ];
    for (i, a) in days.iter().enumerate() {
        for (j, b) in days.iter().enumerate() {
            assert_eq!(cache.path_for(*a) == cache.path_for(*b), i == j);
        }
    }
}

#[test]
fn entry_joins_root_and_name() {
    let cache = DatedCache::at("/tmp/h/apod");
    assert_eq!(cache.entry("20230101.png"), "/tmp/h/apod/20230101.png");
    assert_eq!(cache.entry(""), "/tmp/h/apod/");
}

#[test]
fn latest_entry_is_the_later_of_two_days() {
    let cache = DatedCache::in_home("/tmp/h");
    let listing = names(&["20230101.png", "20230215.png"]);
    assert_eq!(
        cache.latest_entry(&listing),
        Ok("/tmp/h/apod/20230215.png".to_string())
    );
}

#[test]
fn latest_entry_does_not_depend_on_the_order_of_the_listing() {
    let cache = DatedCache::in_home("/tmp/h");
    let listing = names(&["20230215.png", "20230101.png"]);
    assert_eq!(
        cache.latest_entry(&listing),
        Ok("/tmp/h/apod/20230215.png".to_string())
    );
    let longer = names(&["20221231.png", "20230215.png", "20230101.png", "20230214.png"]);
    assert_eq!(
        cache.latest_entry(&longer),
        Ok("/tmp/h/apod/20230215.png".to_string())
    );
}

#[test]
fn latest_entry_of_one_name_is_that_name() {
    let cache = DatedCache::at("/c");
    assert_eq!(
        cache.latest_entry(&names(&["20200229.png"])),
        Ok("/c/20200229.png".to_string())
    );
}

#[test]
fn latest_entry_with_repeated_names() {
    let cache = DatedCache::at("/c");
    assert_eq!(
        cache.latest_entry(&names(&["b", "a", "b"])),
        Ok("/c/b".to_string())
    );
}

#[test]
fn latest_entry_fails_on_an_empty_directory() {
    let cache = DatedCache::in_home("/tmp/h");
    assert_eq!(cache.latest_entry(&names(&[])), Err(CacheError::Empty));
}

#[test]
fn latest_entry_fails_on_an_unreadable_directory() {
    let cache = DatedCache::in_home("/tmp/h");
    assert_eq!(
        cache.latest_entry(&Listing::Unreadable),
        Err(CacheError::Unreadable)
    );
}

#[test]
fn latest_entry_orders_by_code_point() {
    let cache = DatedCache::at("/c");
    assert_eq!(
        cache.latest_entry(&names(&["Z.png", "a.png", "B.png"])),
        Ok("/c/a.png".to_string())
    );
    assert_eq!(
        cache.latest_entry(&names(&["z", "\u{e9}", "\u{1F600}", "\u{ffff}"])),
        Ok("/c/\u{1F600}".to_string())
    );
    assert_eq!(
        cache.latest_entry(&names(&["2023", "20230101.png", "2022zzzz"])),
        Ok("/c/20230101.png".to_string())
    );
}

#[test]
fn name_le_is_the_order_of_strings() {
    let samples = [
        "", "a", "aa", "ab", "b", "B", "20230101.png", "20230215.png", "2023", "\u{e9}",
        "\u{1F600}", "z\u{e9}", "\u{ffff}",
    ];
    for a in samples.iter() {
        for b in samples.iter() {
            assert_eq!(name_le(a, b), a <= b);
        }
    }
}

#[test]
fn name_le_on_given_names() {
    assert!(name_le("20230101.png", "20230215.png"));
    assert!(!name_le("20230215.png", "20230101.png"));
    assert!(name_le("same", "same"));
    assert!(name_le("", "x"));
    assert!(!name_le("x", ""));
    assert!(name_le("abc", "abcd"));
    assert!(!name_le("abcd", "abc"));
}

#[test]
fn latest_entry_is_the_file_of_the_most_recent_day() {
    let cache = DatedCache::in_home("/tmp/h");
    let days = [
        (2023, 12, 31),
        (2024, 1, 1),
        (1999, 12, 31),
        (2024, 2, 29),
        (2024, 2, 3),
        (987, 12, 31),
        (2023, 11, 30),
    ];
    let files: Vec<String> = days
        .iter()
        .map(|&(y, m, d)| {
            let mut name = CalendarDate::new(y, m, d).unwrap().stamp();
            name.push_str(".png");
            name
        })
        .collect();
    let most_recent = CalendarDate::new(2024, 2, 29).unwrap();
    assert_eq!(
        cache.latest_entry(&Listing::Names(files)),
        Ok(cache.path_for(most_recent))
    );
}

#[test]
fn from_entries_keeps_the_names_as_they_came() {
    let entries = vec![
        Some("20230215.png".to_string()),
        Some("20230101.png".to_string()),
        Some("notes".to_string()),
    ];
    assert_eq!(
        Listing::from_entries(entries),
        names(&["20230215.png", "20230101.png", "notes"])
    );
}

#[test]
fn from_entries_of_an_empty_directory_holds_no_names() {
    assert_eq!(Listing::from_entries(vec![]), names(&[]));
    assert_eq!(
        DatedCache::at("/c").latest_entry(&Listing::from_entries(vec![])),
        Err(CacheError::Empty)
    );
}

#[test]
fn from_entries_with_an_entry_without_a_name_is_unreadable() {
    assert_eq!(Listing::from_entries(vec![None]), Listing::Unreadable);
    assert_eq!(
        Listing::from_entries(vec![Some("20230101.png".to_string()), None]),
        Listing::Unreadable
    );
    assert_eq!(
        Listing::from_entries(vec![None, Some("20230101.png".to_string())]),
        Listing::Unreadable
    );
    assert_eq!(
        Listing::from_entries(vec![
            Some("20230101.png".to_string()),
            None,
            Some("20230215.png".to_string()),
        ]),
        Listing::Unreadable
    );
}
