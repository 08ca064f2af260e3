use workbench::grep2;
use workbench::grep2::Usage;
use workbench::guessing_game::{can_read, judge, pick_secret, play, range_from, Verdict};
use workbench::http::{response, route, Reply};
use workbench::numbers::{parse_i32, parse_usize, to_decimal};
use workbench::parser;

fn strings(items: &[&str]) -> Vec<String> {
    items.iter().map(|s| s.to_string()).collect()
}

#[test]
fn usize_is_read_from_decimal_digits() {
    assert_eq!(parse_usize("0"), Some(0));
    assert_eq!(parse_usize("5"), Some(5));
    assert_eq!(parse_usize("+17"), Some(17));
    assert_eq!(parse_usize("007"), Some(7));
    assert_eq!(parse_usize(&usize::MAX.to_string()), Some(usize::MAX));
    assert_eq!(parse_usize(""), None);
    assert_eq!(parse_usize("+"), None);
    assert_eq!(parse_usize("-1"), None);
    assert_eq!(parse_usize("-0"), None);
    assert_eq!(parse_usize("++1"), None);
    assert_eq!(parse_usize("1 "), None);
    assert_eq!(parse_usize(" 1"), None);
    assert_eq!(parse_usize("12a"), None);
    assert_eq!(parse_usize("1.5"), None);
    assert_eq!(parse_usize("\u{664}"), None);
    assert_eq!(parse_usize("18446744073709551616"), None);
    assert_eq!(parse_usize("99999999999999999999999"), None);
}

#[test]
fn usize_is_read_as_std_reads_it() {
    for text in ["0", "+0", "10", "+", "", "-", "-3", "4294967295", "4294967296", "x", "1x", "٣"] {
        assert_eq!(parse_usize(text), text.parse::<usize>().ok(), "{:?}", text);
    }
}

#[test]
fn i32_is_read_from_signed_decimal_digits() {
    assert_eq!(parse_i32("0"), Some(0));
    assert_eq!(parse_i32("-0"), Some(0));
    assert_eq!(parse_i32("+42"), Some(42));
    assert_eq!(parse_i32("-42"), Some(-42));
    assert_eq!(parse_i32("2147483647"), Some(i32::MAX));
    assert_eq!(parse_i32("-2147483648"), Some(i32::MIN));
    assert_eq!(parse_i32("2147483648"), None);
    assert_eq!(parse_i32("-2147483649"), None);
    assert_eq!(parse_i32(""), None);
    assert_eq!(parse_i32("-"), None);
    assert_eq!(parse_i32("+"), None);
    assert_eq!(parse_i32("+-1"), None);
    assert_eq!(parse_i32("1e3"), None);
    for text in ["7", "-7", "+7", "--7", "00012", "-00012", "99999999999", " 7"] {
        assert_eq!(parse_i32(text), text.parse::<i32>().ok(), "{:?}", text);
    }
}

#[test]
fn numbers_are_written_in_decimal() {
    assert_eq!(to_decimal(0), "0");
    assert_eq!(to_decimal(7), "7");
    assert_eq!(to_decimal(10), "10");
    assert_eq!(to_decimal(1234567890), "1234567890");
    assert_eq!(to_decimal(usize::MAX), usize::MAX.to_string());
}

#[test]
fn grep_arguments_are_read_in_turn() {
    let config = grep2::Config::new(&strings(&["grep", "poem.txt", "duct"]), None).ok().unwrap();
    assert_eq!(config.file_path, "poem.txt");
    assert_eq!(config.pattern, "duct");
    assert!(!config.case_insensitive);
    let config = grep2::Config::new(&strings(&["grep", "poem.txt", "duct", "more"]), Some("1"))
        .ok()
        .unwrap();
    assert_eq!(config.pattern, "duct");
    assert!(config.case_insensitive);
    let config =
        grep2::Config::new(&strings(&["grep", "poem.txt", "-h"]), Some("true")).ok().unwrap();
    assert_eq!(config.pattern, "-h");
    assert!(!config.case_insensitive);
}

#[test]
fn grep_arguments_may_ask_for_help_or_version() {
    assert_eq!(grep2::Config::new(&strings(&[]), None).err(), Some(Usage::Help));
    assert_eq!(grep2::Config::new(&strings(&["grep"]), None).err(), Some(Usage::Help));
    assert_eq!(grep2::Config::new(&strings(&["grep", "-h"]), None).err(), Some(Usage::Help));
    assert_eq!(
        grep2::Config::new(&strings(&["grep", "--help", "x"]), None).err(),
        Some(Usage::Help)
    );
    assert_eq!(
        grep2::Config::new(&strings(&["grep", "--version"]), None).err(),
        Some(Usage::Version)
    );
    assert_eq!(grep2::Config::new(&strings(&["grep", "poem.txt"]), None).err(), Some(Usage::Help));
}

#[test]
fn usage_message_is_help_or_version() {
    assert_eq!(Usage::Help.message("how to", "mini-grep", "0.1.0"), "how to");
    assert_eq!(Usage::Version.message("how to", "mini-grep", "0.1.0"), "mini-grep v0.1.0");
    assert_eq!(Usage::Version.message("how to", "webserver", "2.0"), "webserver v2.0");
}

#[test]
fn grep2_searches_as_its_config_says() {
    let contents = "Rust:\nsafe, fast, productive.\nTrust me.";
    let mut config = grep2::Config {
        file_path: String::from("poem.txt"),
        pattern: String::from("rUsT"),
        case_insensitive: false,
    };
    assert_eq!(grep2::run_mini_grep(&config, contents).len(), 0);
    config.case_insensitive = true;
    assert_eq!(grep2::run_mini_grep(&config, contents).keys(), vec![(0, 0), (2, 1)]);
}

#[test]
fn server_arguments_name_address_page_and_pool() {
    let args = strings(&["webserver", "127.0.0.1:7878", "hello.html", "8"]);
    assert!(parser::Config::accepts(&args));
    let config = parser::Config::new(&args, "webserver", None).ok().unwrap();
    assert_eq!(config.server_address, "127.0.0.1:7878");
    assert_eq!(config.html_page, "hello.html");
    assert_eq!(config.pool_size, 8);
    assert_eq!(config.error_page, "./page/404.html");
    assert_eq!(config.program_name, "webserver");
}

#[test]
fn server_arguments_have_defaults() {
    let args = strings(&["webserver", "127.0.0.1:7878", "hello.html"]);
    assert!(parser::Config::accepts(&args));
    let config =
        parser::Config::new(&args, "webserver", Some(String::from("gone.html"))).ok().unwrap();
    assert_eq!(config.pool_size, 5);
    assert_eq!(config.error_page, "gone.html");
}

#[test]
fn server_arguments_may_ask_for_help_or_version() {
    for args in [strings(&[]), strings(&["webserver"]), strings(&["webserver", "-h", "x", "y"])] {
        assert!(parser::Config::accepts(&args));
        assert_eq!(parser::Config::new(&args, "webserver", None).err(), Some(Usage::Help));
    }
    let args = strings(&["webserver", "--version"]);
    assert!(parser::Config::accepts(&args));
    assert_eq!(parser::Config::new(&args, "webserver", None).err(), Some(Usage::Version));
}

#[test]
fn server_arguments_that_cannot_be_read_are_told_apart() {
    assert!(!parser::Config::accepts(&strings(&["webserver", "127.0.0.1:7878"])));
    assert!(!parser::Config::accepts(&strings(&["webserver", "addr", "page", "many"])));
    assert!(!parser::Config::accepts(&strings(&["webserver", "addr", "page", "-1"])));
    assert!(parser::Config::accepts(&strings(&["webserver", "addr", "page", "0"])));
}

#[test]
fn requests_are_routed_by_their_first_line() {
    assert_eq!(route("GET / HTTP/1.1"), Reply::Page);
    assert_eq!(route("GET /sleep HTTP/1.1"), Reply::Sleep);
    assert_eq!(route("GET /other HTTP/1.1"), Reply::NotFound);
    assert_eq!(route("get / http/1.1"), Reply::NotFound);
    assert_eq!(route("GET / HTTP/1.1 "), Reply::NotFound);
    assert_eq!(route(""), Reply::NotFound);
}

#[test]
fn replies_carry_status_and_page() {
    let args = strings(&["webserver", "addr", "hello.html"]);
    let config = parser::Config::new(&args, "webserver", None).ok().unwrap();
    assert_eq!(Reply::Page.page(&config), Some(("HTTP/1.1 200 OK", "hello.html")));
    assert_eq!(
        Reply::NotFound.page(&config),
        Some(("HTTP/1.1 404 NOT FOUND", "./page/404.html"))
    );
    assert_eq!(Reply::Sleep.page(&config), None);
}

#[test]
fn response_gives_the_length_in_bytes() {
    assert_eq!(
        response("HTTP/1.1 200 OK", "<p>hi</p>"),
        "HTTP/1.1 200 OK\r\nContent-Length: 9\r\n\r\n<p>hi</p>"
    );
    assert_eq!(response("HTTP/1.1 200 OK", ""), "HTTP/1.1 200 OK\r\nContent-Length: 0\r\n\r\n");
    assert_eq!(
        response("HTTP/1.1 404 NOT FOUND", "caf\u{e9} au lait"),
        "HTTP/1.1 404 NOT FOUND\r\nContent-Length: 13\r\n\r\ncaf\u{e9} au lait"
    );
}

#[test]
fn guess_is_judged_against_the_secret() {
    assert_eq!(judge(3, 7), Verdict::TooSmall);
    assert_eq!(judge(9, 7), Verdict::TooBig);
    assert_eq!(judge(7, 7), Verdict::Win);
    assert_eq!(judge(i32::MIN, i32::MAX), Verdict::TooSmall);
    assert_eq!(judge(i32::MAX, i32::MIN), Verdict::TooBig);
}

#[test]
fn range_comes_from_the_arguments() {
    assert_eq!(range_from(&strings(&["game"])), (1, 101));
    assert_eq!(range_from(&strings(&["game", "50"])), (50, 101));
    assert_eq!(range_from(&strings(&["game", "101"])), (101, 101));
    assert_eq!(range_from(&strings(&["game", "200"])), (1, 101));
    assert_eq!(range_from(&strings(&["game", "-5", "5"])), (-5, 5));
    assert_eq!(range_from(&strings(&["game", "5", "-5"])), (1, 101));
    assert_eq!(range_from(&strings(&["game", "5", "5"])), (5, 5));
    assert_eq!(range_from(&strings(&["game", "1", "2", "3"])), (1, 101));
    assert_eq!(range_from(&strings(&[])), (1, 101));
}

#[test]
fn arguments_that_are_no_numbers_are_told_apart() {
    assert!(can_read(&strings(&["game"])));
    assert!(can_read(&strings(&["game", "12"])));
    assert!(!can_read(&strings(&["game", "twelve"])));
    assert!(!can_read(&strings(&["game", "1", "x"])));
    assert!(!can_read(&strings(&["game", "x", "1"])));
    assert!(can_read(&strings(&["game", "x", "y", "z"])));
}

#[test]
fn secret_is_drawn_from_the_range() {
    for _ in 0..200 {
        let secret = pick_secret(3, 6).unwrap();
        assert!((3..6).contains(&secret));
    }
    // A draw that handed a bound back would not stay inside this range.
    assert_eq!(pick_secret(-8, -7), Some(-8));
    assert_eq!(pick_secret(i32::MAX - 1, i32::MAX), Some(i32::MAX - 1));
    assert_eq!(pick_secret(5, 5), None);
    assert_eq!(pick_secret(6, 5), None);
    let low = (0..200).filter(|_| pick_secret(0, 2) == Some(0)).count();
    assert!(low > 0 && low < 200);
}

#[test]
fn round_judges_the_guess_against_what_was_drawn() {
    for guess in 0..5 {
        let (secret, verdict) = play(guess, 1, 4).unwrap();
        assert!((1..4).contains(&secret));
        assert_eq!(verdict, judge(guess, secret));
    }
    assert_eq!(play(7, 7, 8), Some((7, Verdict::Win)));
    assert_eq!(play(0, 7, 8), Some((7, Verdict::TooSmall)));
    assert_eq!(play(9, 7, 8), Some((7, Verdict::TooBig)));
    assert_eq!(play(1, 4, 4), None);
}
