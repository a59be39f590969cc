use lstr::utils::format_size;

// Sizes measured and rounded with floating point, to hold the integer
// arithmetic of the library against.
fn format_size_with_floats(bytes: u64) -> String {
    const KIB: f64 = 1024.0;
    const MIB: f64 = KIB * 1024.0;
    const GIB: f64 = MIB * 1024.0;
    const TIB: f64 = GIB * 1024.0;

    let bytes = bytes as f64;

    if bytes < KIB {
        format!("{} B", bytes)
    } else if bytes < MIB {
        format!("{:.1} KiB", bytes / KIB)
    } else if bytes < GIB {
        format!("{:.1} MiB", bytes / MIB)
    } else if bytes < TIB {
        format!("{:.1} GiB", bytes / GIB)
    } else {
        format!("{:.1} TiB", bytes / TIB)
    }
}

#[test]
fn test_format_size() {
    assert_eq!(format_size(500), "500 B");
    assert_eq!(format_size(1024), "1.0 KiB");
    assert_eq!(format_size(1536), "1.5 KiB");
    let mib = 1024 * 1024;
    assert_eq!(format_size(mib), "1.0 MiB");
    assert_eq!(format_size(mib + mib / 2), "1.5 MiB");
    let gib = mib * 1024;
    assert_eq!(format_size(gib), "1.0 GiB");
}

#[test]
fn format_size_small_values_are_plain_byte_counts() {
    assert_eq!(format_size(0), "0 B");
    assert_eq!(format_size(9), "9 B");
    assert_eq!(format_size(10), "10 B");
    assert_eq!(format_size(1023), "1023 B");
}

#[test]
fn format_size_unit_boundaries() {
    assert_eq!(format_size(1024 * 1024 - 1), "1024.0 KiB");
    assert_eq!(format_size(1024 * 1024 * 1024 - 1), "1024.0 MiB");
    let tib: u64 = 1024 * 1024 * 1024 * 1024;
    assert_eq!(format_size(tib - 1), "1024.0 GiB");
    assert_eq!(format_size(tib), "1.0 TiB");
    assert_eq!(format_size(5 * tib / 2), "2.5 TiB");
}

#[test]
fn format_size_rounds_half_to_even() {
    // 1280 / 1024 = 1.25 and 1792 / 1024 = 1.75, both exactly.
    assert_eq!(format_size(1280), "1.2 KiB");
    assert_eq!(format_size(1792), "1.8 KiB");
    assert_eq!(format_size(1279), "1.2 KiB");
    assert_eq!(format_size(1281), "1.3 KiB");
}

#[test]
fn format_size_of_the_largest_size() {
    assert_eq!(format_size(u64::MAX), "16777216.0 TiB");
    assert_eq!(format_size(u64::MAX), format_size_with_floats(u64::MAX));
}

#[test]
fn format_size_agrees_with_floats_near_powers_of_two() {
    for shift in 0..64u32 {
        let power: u64 = 1 << shift;
        for delta in 0..40u64 {
            let above = power.saturating_add(delta);
            let below = power.saturating_sub(delta);
            assert_eq!(format_size(above), format_size_with_floats(above), "{}", above);
            assert_eq!(format_size(below), format_size_with_floats(below), "{}", below);
        }
    }
}

#[test]
fn format_size_agrees_with_floats_on_ties() {
    // k * unit / 20 lies half way between two tenths for odd k.
    for shift in [10u32, 20, 30, 40] {
        let unit: u64 = 1 << shift;
        for k in 0..4000u64 {
            let bytes = k * (unit / 4) / 5;
            for near in [bytes.saturating_sub(1), bytes, bytes + 1] {
                assert_eq!(format_size(near), format_size_with_floats(near), "{}", near);
            }
        }
    }
}

#[test]
fn format_size_agrees_with_floats_beyond_exact_doubles() {
    // From 2^53 on a double cannot hold every size; walk sizes there in
    // uneven steps, and the sizes that lie half way between two doubles.
    let mut bytes: u64 = (1 << 53) - 5;
    let mut step: u64 = 1;
    while bytes < u64::MAX - step {
        assert_eq!(format_size(bytes), format_size_with_floats(bytes), "{}", bytes);
        bytes += step;
        step = step * 3 / 2 + 1;
    }
    for shift in 53..64u32 {
        let base: u64 = 1 << shift;
        let spacing: u64 = 1 << (shift - 52);
        for k in 0..64u64 {
            let half_way = base + k * spacing + spacing / 2;
            for near in [half_way - 1, half_way, half_way + 1] {
                assert_eq!(format_size(near), format_size_with_floats(near), "{}", near);
            }
        }
    }
    let tib: u64 = 1 << 40;
    for k in 8000..8400u64 {
        // sizes just below a tenth's half-way mark, where rounding to a
        // double comes first
        let mark = k * (tib / 4) / 5;
        for near in [mark - 2, mark - 1, mark, mark + 1] {
            assert_eq!(format_size(near), format_size_with_floats(near), "{}", near);
        }
    }
}
