use mula::fs::directory::Detail;
use mula::ui::columns::{bytes, padded, Columns, SIZE_WIDTH};

#[test]
fn the_cycle_drops_a_column_at_a_time_and_comes_back_to_all_of_them() {
    assert_eq!(Columns::SizeAndTime.next(), Columns::Size);
    assert_eq!(Columns::SizeAndTime.next().next(), Columns::Name);
    assert_eq!(
        Columns::SizeAndTime.next().next().next(),
        Columns::SizeAndTime
    );
}

#[test]
fn only_the_name_is_read_without_metadata() {
    assert_eq!(Columns::Name.detail(), Detail::NamesOnly);
    assert_eq!(Columns::Size.detail(), Detail::WithMetadata);
    assert_eq!(Columns::SizeAndTime.detail(), Detail::WithMetadata);
}

#[test]
fn a_byte_count_is_exact_below_a_kibibyte_and_scaled_above_it() {
    assert_eq!(bytes(0), "0B");
    assert_eq!(bytes(1023), "1023B");
    assert_eq!(bytes(1024), "1.0K");
    assert_eq!(bytes(1536), "1.5K");
    assert_eq!(bytes(10 * 1024), "10K");
    assert_eq!(bytes(3 * 1024 * 1024), "3.0M");
    assert_eq!(bytes(5 * 1024 * 1024 * 1024), "5.0G");
}

#[test]
fn no_byte_count_outgrows_the_size_column() {
    let mut count: u64 = 1;
    loop {
        let cell = bytes(count);
        assert!(cell.len() <= SIZE_WIDTH, "{count} bytes came out as {cell}");
        let Some(next) = count.checked_mul(3) else {
            break;
        };
        count = next;
    }
    assert_eq!(bytes(u64::MAX).len(), 3);
}

#[test]
fn a_tenth_is_rounded_to_the_nearest_and_ties_go_to_the_even_one() {
    // 1.05 sits below its nearest double, 1.25 is exact and rounds to even.
    assert_eq!(bytes(1075), "1.0K");
    assert_eq!(bytes(1280), "1.2K");
    assert_eq!(bytes(1382), "1.3K");
    // Just under ten units is still written with a tenth.
    assert_eq!(bytes(10 * 1024 - 1), "10.0K");
    assert_eq!(bytes(1023 * 1024 * 1024 * 1024 * 1024), "1023T");
    assert_eq!(bytes(1024 * 1024 * 1024 * 1024 * 1024), "1.0P");
}

#[test]
fn the_columns_take_the_room_their_cells_need() {
    assert_eq!(Columns::Name.width(), 0);
    assert_eq!(Columns::Size.width(), 6);
    assert_eq!(Columns::SizeAndTime.width(), 23);
    assert!(!Columns::Name.show_size());
    assert!(Columns::Size.show_size());
}

#[test]
fn a_cell_is_padded_on_the_left() {
    assert_eq!(padded("1.0K", 5), "  1.0K");
    assert_eq!(padded("toolong", 3), "toolong");
}
