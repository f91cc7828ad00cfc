//! Numbers, spans, ranges, dates and names.
use cache_me::cache_control::{parse_cache_control, CacheControl};
use cache_me::digest::{get_hash_v1, hex_name, object_name};
use cache_me::duration::{can_parse_duration, parse_duration};
use cache_me::paths::{is_under, join_path, temp_file_path};
use cache_me::range::{can_clip, clip_range, parse_range, partial_length, window, Window};
use cache_me::text::{chars_of, decimal_text, find, parse_signed, parse_unsigned, split, trim};
use cache_me::time::{parse_date, unchanged_since, UtcTime};
use std::path::Path;

#[test]
fn spans_are_read_in_each_unit() {
    assert_eq!(parse_duration("90s"), Ok(90));
    assert_eq!(parse_duration("100m"), Ok(6000));
    assert_eq!(parse_duration("2h"), Ok(7200));
    assert_eq!(parse_duration("3d"), Ok(259200));
    assert_eq!(parse_duration("0s"), Ok(0));
    assert_eq!(parse_duration("007m"), Ok(420));
}

#[test]
fn spans_without_a_unit_are_refused() {
    assert_eq!(parse_duration("100"), Err("not set unit"));
    assert_eq!(parse_duration(""), Err("not set unit"));
    assert_eq!(parse_duration("99999999999999999999999"), Err("not set unit"));
}

#[test]
fn spans_in_other_units_are_refused() {
    assert_eq!(parse_duration("5w"), Err("unit only can be s,h,m,d"));
    assert_eq!(parse_duration("5ms"), Err("unit only can be s,h,m,d"));
    assert_eq!(parse_duration("5 m"), Err("unit only can be s,h,m,d"));
    assert_eq!(parse_duration("5\u{e9}"), Err("unit only can be s,h,m,d"));
}

#[test]
fn spans_that_cannot_be_read_are_told_apart() {
    assert!(can_parse_duration("100m"));
    assert!(can_parse_duration("100"));
    assert!(can_parse_duration("5w"));
    assert!(!can_parse_duration("m"));
    assert!(!can_parse_duration("-5m"));
    assert!(can_parse_duration("9223372036854775807s"));
    assert!(!can_parse_duration("9223372036854775808s"));
    assert!(can_parse_duration("9223372036854775807w"));
    assert!(!can_parse_duration("9223372036854775807d"));
    assert!(can_parse_duration("213503982334601d"));
    assert!(!can_parse_duration("213503982334602d"));
}

#[test]
fn a_span_is_read_back_from_its_number() {
    for n in [0u64, 1, 59, 86400, 1_000_000_007] {
        let text = format!("{}m", decimal_text(n));
        assert_eq!(parse_duration(&text), Ok(n * 60));
    }
}

#[test]
fn ranges_are_read() {
    assert_eq!(parse_range("bytes=0-99"), (0, 99));
    assert_eq!(parse_range("bytes=500-"), (500, -1));
    assert_eq!(parse_range("bytes=-500"), (-1, 500));
    assert_eq!(parse_range("  bytes=  7 - 9 "), (7, 9));
    assert_eq!(parse_range("xbytes=1-2"), (1, 2));
    assert_eq!(parse_range("bytes=1-2,4-5"), (1, -1));
    assert_eq!(parse_range("bytes=+1-+2"), (1, 2));
    assert_eq!(parse_range("bytes=1--2"), (1, -2));
    assert_eq!(parse_range("bytes=a-b"), (-1, -1));
    assert_eq!(parse_range("bytes=-"), (-1, -1));
    assert_eq!(parse_range("bytes=12"), (-1, -1));
    assert_eq!(parse_range("items=1-2"), (-1, -1));
    assert_eq!(parse_range(""), (-1, -1));
    assert_eq!(parse_range("bytes=9223372036854775807-9223372036854775808"), (i64::MAX, -1));
}

#[test]
fn a_range_is_read_back_from_its_numbers() {
    for (first, last) in [(0u64, 0u64), (1, 2), (10, 4096), (77, 9_007_199_254_740_993)] {
        let text = format!("bytes={}-{}", decimal_text(first), decimal_text(last));
        assert_eq!(parse_range(&text), (first as i64, last as i64));
    }
}

#[test]
fn ranges_are_clipped_to_the_object() {
    assert_eq!(clip_range((0, 99), 50), (0, 49));
    assert_eq!(clip_range((60, 99), 50), (49, 49));
    assert_eq!(clip_range((60, -1), 50), (49, -1));
    assert_eq!(clip_range((10, 20), 50), (10, 20));
    assert_eq!(clip_range((0, 0), 50), (0, 0));
    assert_eq!(clip_range((-1, -1), 0), (-1, -1));
    assert_eq!(clip_range((20, 10), 50), (-1, -1));
    assert_eq!(clip_range((5, -2), 50), (5, -1));
    assert!(can_clip((0, 99), 50));
    assert!(can_clip((-1, -1), 0));
    assert!(!can_clip((0, -1), 0));
    assert!(!can_clip((-1, 5), 0));
}

#[test]
fn a_last_number_alone_counts_from_the_end() {
    assert_eq!(clip_range((-1, 10), 50), (40, 49));
    assert_eq!(clip_range((-1, 1), 50), (49, 49));
    assert_eq!(clip_range((-1, 50), 50), (0, 49));
    assert_eq!(clip_range((-1, 51), 50), (0, 49));
    assert_eq!(clip_range((-1, i64::MAX), 1), (0, 0));
    assert_eq!(clip_range((-1, 0), 50), (-1, -1));
}

#[test]
fn the_length_of_a_part_is_found() {
    assert_eq!(partial_length((0, 9), 100), Some(10));
    assert_eq!(partial_length((10, 19), 100), Some(10));
    assert_eq!(partial_length((90, -1), 100), Some(10));
    assert_eq!(partial_length((0, -1), 100), None);
    assert_eq!(partial_length((-1, -1), 100), None);
    assert_eq!(partial_length((0, 0), 100), Some(1));
    assert_eq!(partial_length((20, 10), 100), None);
    assert_eq!(partial_length((5, 5), 100), Some(1));
}

#[test]
fn a_file_is_read_as_the_range_says() {
    assert_eq!(window((0, 9)), Window { seek: None, take: Some(10) });
    assert_eq!(window((10, 19)), Window { seek: Some(10), take: Some(10) });
    assert_eq!(window((90, -1)), Window { seek: Some(90), take: None });
    assert_eq!(window((-1, 9)), Window { seek: None, take: Some(10) });
    assert_eq!(window((-1, -1)), Window { seek: None, take: None });
    assert_eq!(window((5, 5)), Window { seek: Some(5), take: Some(1) });
    assert_eq!(window((0, 0)), Window { seek: None, take: Some(1) });
}

fn bytes_read(w: Window, size: u64) -> u64 {
    let left = size.saturating_sub(w.seek.unwrap_or(0));
    w.take.map_or(left, |n| n.min(left))
}

#[test]
fn as_many_bytes_are_read_as_are_announced() {
    let size = 40u64;
    for first in -1i64..45 {
        for last in -1i64..45 {
            let rng = clip_range((first, last), size);
            let announced = partial_length(rng, size as usize).unwrap_or(size as usize);
            assert_eq!(bytes_read(window(rng), size), announced as u64, "{first} {last}");
        }
    }
}

fn part_of(rng: (i64, i64), data: &[u8]) -> Vec<u8> {
    let w = window(clip_range(rng, data.len() as u64));
    let from = (w.seek.unwrap_or(0) as usize).min(data.len());
    let n = bytes_read(w, data.len() as u64) as usize;
    data[from..from + n].to_vec()
}

#[test]
fn a_range_selects_its_bytes() {
    let data: Vec<u8> = (0u8..50).collect();
    assert_eq!(part_of((3, 6), &data), [3, 4, 5, 6]);
    assert_eq!(part_of((0, 2), &data), [0, 1, 2]);
    assert_eq!(part_of((46, 1000), &data), [46, 47, 48, 49]);
    assert_eq!(part_of((47, -1), &data), [47, 48, 49]);
    assert_eq!(part_of((-1, 2), &data), [48, 49]);
    assert_eq!(part_of((-1, 99), &data), data);
    assert_eq!(part_of((-1, -1), &data), data);
    assert_eq!(part_of((20, 10), &data), data);
    assert_eq!(part_of((47, 47), &data), [47]);
    assert_eq!(part_of((0, 0), &data), [0]);
    assert_eq!(part_of((80, 90), &data), [49]);
}

#[test]
fn cache_control_is_read() {
    let cc = |need_cache, max_age| CacheControl { need_cache, max_age };
    assert_eq!(parse_cache_control(""), cc(true, 86400));
    assert_eq!(parse_cache_control("max-age=60"), cc(true, 60));
    assert_eq!(parse_cache_control("public,max-age=60,max-age=70"), cc(true, 70));
    assert_eq!(parse_cache_control("no-store"), cc(false, 86400));
    assert_eq!(parse_cache_control("private,max-age=60"), cc(false, 60));
    assert_eq!(parse_cache_control("max-age=60,no-cache"), cc(false, 60));
    assert_eq!(parse_cache_control("max-age=60, no-cache"), cc(true, 60));
    assert_eq!(parse_cache_control("max-age=x"), cc(true, 86400));
    assert_eq!(parse_cache_control("max-age=-1"), cc(true, 86400));
    assert_eq!(parse_cache_control("max-age=4294967295"), cc(true, u32::MAX));
    assert_eq!(parse_cache_control("max-age=4294967296"), cc(true, 86400));
    assert_eq!(parse_cache_control("max-age=60,max-age=oops"), cc(true, 60));
    assert_eq!(CacheControl::default(), cc(true, 86400));
}

#[test]
fn dates_are_read() {
    assert_eq!(
        parse_date("Sun, 06 Nov 1994 08:49:37 GMT"),
        Some(UtcTime { secs: 784111777, nanos: 0 })
    );
    assert_eq!(
        parse_date("Tue, 1 Jul 2003 10:52:37 +0200"),
        Some(UtcTime { secs: 1057049557, nanos: 0 })
    );
    assert_eq!(parse_date("yesterday"), None);
    assert_eq!(parse_date(""), None);
}

#[test]
fn times_are_compared() {
    let t = |secs, nanos| Some(UtcTime { secs, nanos });
    assert!(unchanged_since(t(5, 0), t(5, 0)));
    assert!(unchanged_since(t(4, 9), t(5, 0)));
    assert!(unchanged_since(t(5, 1), t(5, 2)));
    assert!(!unchanged_since(t(5, 2), t(5, 1)));
    assert!(!unchanged_since(t(6, 0), t(5, 9)));
    assert!(!unchanged_since(None, t(5, 0)));
    assert!(!unchanged_since(t(5, 0), None));
    assert!(!unchanged_since(None, None));
}

#[test]
fn keys_are_digests() {
    assert_eq!(get_hash_v1("b", "a", "c"), "900150983cd24fb0d6963f7d28e17f72");
    assert_eq!(get_hash_v1("", "", ""), "d41d8cd98f00b204e9800998ecf8427e");
    assert_ne!(get_hash_v1("GET", "h", "/"), get_hash_v1("HEAD", "h", "/"));
    assert_eq!(object_name("abc"), "900150983cd24fb0d6963f7d28e17f72");
}

#[test]
fn bytes_are_named_in_hexadecimal() {
    assert_eq!(hex_name(&vec![0x00, 0x9f, 0xa0, 0xff]), "009fa0ff");
    assert_eq!(hex_name(&vec![]), "");
    assert_ne!(hex_name(&vec![1, 2]), hex_name(&vec![2, 1]));
}

#[test]
fn paths_are_joined_as_std_does() {
    for parent in ["", "/", "a", "a/", "/srv/cache", "/srv/cache/", "./tmp/"] {
        for path in ["", "x", "x/y", "/abs", "./x", "../x"] {
            let want = Path::new(parent).join(path);
            assert_eq!(join_path(parent, path), want.to_str().unwrap(), "{parent} {path}");
        }
    }
}

#[test]
fn paths_lie_under_others_as_std_says() {
    let paths = [
        "", "/", ".", "..", "a", "./a", "a/.", "a/b", "a//b", "a/./b", "a/../b", "/a", "/a/",
        "/a/b", "//a", "/a/bc", "/ab", "/./a", ".a", "./", "a/b/", "/a/..",
    ];
    for path in paths {
        for base in paths {
            let want = Path::new(path).starts_with(Path::new(base));
            assert_eq!(is_under(path, base), want, "{path} {base}");
        }
    }
}

#[test]
fn temporary_files_are_named_by_random_bytes() {
    assert_eq!(temp_file_path("./tmp/", &vec![1, 2, 3, 255]), "./tmp/010203ff");
    assert_eq!(temp_file_path("/tmp", &vec![0, 0, 0, 0]), "/tmp/00000000");
    assert_ne!(temp_file_path("t", &vec![1, 0]), temp_file_path("t", &vec![0, 1]));
}

#[test]
fn numbers_are_read_and_written() {
    let signed = |s: &str| parse_signed(&chars_of(s));
    let unsigned = |s: &str| parse_unsigned(&chars_of(s));
    for s in [
        "", "-", "+", "0", "-0", "+7", "-7", "00012", "9223372036854775807", "9223372036854775808",
        "-9223372036854775808", "-9223372036854775809", "1a", " 1", "\u{661}",
    ] {
        assert_eq!(signed(s), i64::from_str_radix(s, 10).ok(), "{s}");
        assert_eq!(unsigned(s), u32::from_str_radix(s, 10).ok(), "{s}");
    }
    assert_eq!(unsigned("4294967295"), Some(u32::MAX));
    assert_eq!(unsigned("4294967296"), None);
    for n in [0u64, 9, 10, 12345, u64::MAX] {
        assert_eq!(decimal_text(n), n.to_string());
    }
}

#[test]
fn text_is_cut_found_and_trimmed_as_std_does() {
    let text = |v: &Vec<char>| v.iter().collect::<String>();
    for s in ["", ",", "a", "a,b", ",a,,b,", "max-age=1, private"] {
        let pieces: Vec<String> = split(&chars_of(s), ',').iter().map(text).collect();
        let want: Vec<String> = s.split(',').map(|p| p.to_string()).collect();
        assert_eq!(pieces, want);
    }
    for s in ["", "  ", " a ", "\ta\u{a0}", "\u{3000}x y\r\n", "x"] {
        assert_eq!(text(&trim(&chars_of(s))), s.trim());
    }
    assert_eq!(find(&chars_of("abcabc"), &chars_of("ca")), Some(2));
    assert_eq!(find(&chars_of("abc"), &chars_of("d")), None);
    assert_eq!(find(&chars_of("ab"), &chars_of("abc")), None);
    assert_eq!(find(&chars_of("ab"), &chars_of("")), Some(0));
}
