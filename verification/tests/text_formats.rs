use waveplayer::config::{parse_config, render_config, Setting};
use waveplayer::desktop::{cosmic_accent, kde_accent, screen_width_candidates};
use waveplayer::display::format_time;
use waveplayer::ipc::{accept_message, is_socket_name, socket_path};
use waveplayer::numbers::{is_plain_decimal, parse_u8};
use waveplayer::text::trim_chars;
use waveplayer::paths::{file_name, same_path};

fn chars(s: &str) -> Vec<char> {
    s.chars().collect()
}

#[test]
fn config_reads_each_key() {
    let text = "volume=0.5\nfull_width=true\naccent_r=0.1\naccent_g=0.2\naccent_b=0.3\n";
    assert_eq!(
        parse_config(text),
        vec![
            Setting::Volume("0.5".to_string()),
            Setting::FullWidth(true),
            Setting::AccentR("0.1".to_string()),
            Setting::AccentG("0.2".to_string()),
            Setting::AccentB("0.3".to_string()),
        ]
    );
}

#[test]
fn config_trims_lines_and_skips_unknown_ones() {
    let text = "  volume=0.25 \r\n# comment\nfull_width=yes\n\nunknown=1\n\taccent_b=7";
    assert_eq!(
        parse_config(text),
        vec![
            Setting::Volume("0.25".to_string()),
            Setting::FullWidth(false),
            Setting::AccentB("7".to_string()),
        ]
    );
}

#[test]
fn config_keeps_repeated_keys_in_order() {
    let text = "volume=0.1\nvolume=abc\n";
    assert_eq!(
        parse_config(text),
        vec![Setting::Volume("0.1".to_string()), Setting::Volume("abc".to_string())]
    );
    assert_eq!(parse_config(""), vec![]);
}

#[test]
fn config_render_exact_text() {
    assert_eq!(
        render_config("0.8", false, "1", "0.42", "0"),
        "volume=0.8\nfull_width=false\naccent_r=1\naccent_g=0.42\naccent_b=0\n"
    );
}

#[test]
fn config_round_trip() {
    let text = render_config("0.33", true, "0.5", "0.25", "1");
    assert_eq!(
        parse_config(&text),
        vec![
            Setting::Volume("0.33".to_string()),
            Setting::FullWidth(true),
            Setting::AccentR("0.5".to_string()),
            Setting::AccentG("0.25".to_string()),
            Setting::AccentB("1".to_string()),
        ]
    );
}

#[test]
fn time_labels() {
    assert_eq!(format_time(0), "0:00");
    assert_eq!(format_time(59), "0:59");
    assert_eq!(format_time(61), "1:01");
    assert_eq!(format_time(3600), "60:00");
    assert_eq!(format_time(u32::MAX), "71582788:15");
}

#[test]
fn socket_paths() {
    assert_eq!(socket_path(4242), "/tmp/waveplayer-4242.sock");
    assert_eq!(socket_path(0), "/tmp/waveplayer-0.sock");
    assert!(is_socket_name("waveplayer-4242.sock"));
    assert!(!is_socket_name("waveplayer-4242.sock.bak"));
    assert!(!is_socket_name("other-1.sock"));
    assert!(!is_socket_name("waveplayer"));
}

#[test]
fn socket_found_law_example() {
    let path = socket_path(17);
    let name = file_name(&path).unwrap();
    assert_eq!(name, "waveplayer-17.sock");
    assert!(is_socket_name(&name));
}

#[test]
fn messages_from_other_instances() {
    assert_eq!(accept_message("  /music/a.mp3\n", None), Some("/music/a.mp3".to_string()));
    assert_eq!(accept_message(" \n\t", None), None);
    assert_eq!(accept_message("", Some("/x")), None);
    assert_eq!(accept_message("/music//a.mp3/", Some("/music/a.mp3")), None);
    assert_eq!(accept_message("/music/./a.mp3", Some("/music/a.mp3")), None);
    assert_eq!(
        accept_message("/music/b.mp3", Some("/music/a.mp3")),
        Some("/music/b.mp3".to_string())
    );
}

#[test]
fn path_equality_by_components() {
    assert!(same_path("a/b", "a//b"));
    assert!(same_path("a/b/", "a/./b"));
    assert!(!same_path("./a", "a"));
    assert!(!same_path("/a", "a"));
    assert!(!same_path("a/../b", "b"));
    assert!(same_path("", ""));
}

#[test]
fn file_names() {
    assert_eq!(file_name("/music/song.flac"), Some("song.flac".to_string()));
    assert_eq!(file_name("foo.txt/."), Some("foo.txt".to_string()));
    assert_eq!(file_name("dir/"), Some("dir".to_string()));
    assert_eq!(file_name("/"), None);
    assert_eq!(file_name("a/.."), None);
    assert_eq!(file_name("."), None);
    assert_eq!(file_name(""), None);
}

#[test]
fn bytes_as_str_parse_reads_them() {
    assert_eq!(parse_u8(&chars("255")), Some(255));
    assert_eq!(parse_u8(&chars("+7")), Some(7));
    assert_eq!(parse_u8(&chars("007")), Some(7));
    assert_eq!(parse_u8(&chars("256")), None);
    assert_eq!(parse_u8(&chars("-0")), None);
    assert_eq!(parse_u8(&chars("+")), None);
    assert_eq!(parse_u8(&chars("")), None);
    assert_eq!(parse_u8(&chars("1a")), None);
    assert_eq!(parse_u8(&chars("00000000000000000000255")), Some(255));
    for n in 0..=300u32 {
        let text = n.to_string();
        assert_eq!(parse_u8(&chars(&text)), text.parse::<u8>().ok());
    }
}

#[test]
fn kde_accent_colours() {
    let text = "[General]\nAccentColor=61,174,233\nother=1\n";
    assert_eq!(kde_accent(text), Some((61, 174, 233)));
    assert_eq!(kde_accent("AccentColor= 1 , 2 ,3\r\n"), Some((1, 2, 3)));
    assert_eq!(kde_accent("AccentColor=AccentColor=4,5,6"), Some((4, 5, 6)));
    assert_eq!(kde_accent("AccentColor=1,2\nAccentColor=7,8,9"), Some((7, 8, 9)));
    assert_eq!(kde_accent("AccentColor=1,2,300\nAccentColor=7,8,9"), None);
    assert_eq!(kde_accent(" AccentColor=1,2,3"), None);
    assert_eq!(kde_accent(""), None);
}

#[test]
fn cosmic_accent_colours() {
    let text = "(\n    red: 0.5803922,\n    green: 0.92156863,\n    blue: 0.92156863,\n)\n";
    assert_eq!(
        cosmic_accent(text),
        Some(("0.5803922".to_string(), "0.92156863".to_string(), "0.92156863".to_string()))
    );
    assert_eq!(cosmic_accent("1.2.3, 4, .5 6."), Some(("4".to_string(), ".5".to_string(), "6.".to_string())));
    assert_eq!(cosmic_accent("1, 2"), None);
    assert_eq!(cosmic_accent(". , 1 2"), None);
}

#[test]
fn cosmic_numbers_parse_as_f32() {
    let (r, g, b) = cosmic_accent("r: 1.5, g: .25, b: 3.").unwrap();
    assert_eq!(r.parse::<f32>().unwrap(), 1.5);
    assert_eq!(g.parse::<f32>().unwrap(), 0.25);
    assert_eq!(b.parse::<f32>().unwrap(), 3.0);
}

#[test]
fn xrandr_width_candidates() {
    let out = "Screen 0: minimum 320 x 200, current 2560 x 1440\n\
               DP-1 connected primary 2560x1440+0+0 (normal) 597mm x 336mm\n\
               HDMI-1 disconnected (normal)\n";
    let c = screen_width_candidates(out);
    assert_eq!(c, vec!["DP-1", "connected", "primary", "2560", "(normal)", "597mm", "", "336mm"]);
    let width = c.iter().filter_map(|s| s.parse::<f32>().ok()).find(|w| *w > 100.0);
    assert_eq!(width, Some(2560.0));
    assert_eq!(screen_width_candidates("nothing here\n"), Vec::<String>::new());
}

#[test]
fn config_example_from_the_documentation() {
    let text = "volume=0.8\nfull_width=false\naccent_r=1.0\naccent_g=0.42\naccent_b=0.0\n";
    assert_eq!(
        parse_config(text),
        vec![
            Setting::Volume("0.8".to_string()),
            Setting::FullWidth(false),
            Setting::AccentR("1.0".to_string()),
            Setting::AccentG("0.42".to_string()),
            Setting::AccentB("0.0".to_string()),
        ]
    );
}

#[test]
fn path_components_as_text() {
    let c = waveplayer::paths::components(&chars("/a//b/./c/"));
    let c: Vec<String> = c.iter().map(|p| p.iter().collect()).collect();
    assert_eq!(c, vec!["/", "a", "b", "c"]);
    let c = waveplayer::paths::components(&chars("./x/../y"));
    let c: Vec<String> = c.iter().map(|p| p.iter().collect()).collect();
    assert_eq!(c, vec![".", "x", "..", "y"]);
}

#[test]
fn float_mantissas() {
    assert!(is_plain_decimal(&chars("1")));
    assert!(is_plain_decimal(&chars("1.")));
    assert!(is_plain_decimal(&chars(".5")));
    assert!(is_plain_decimal(&chars("12.50")));
    assert!(!is_plain_decimal(&chars(".")));
    assert!(!is_plain_decimal(&chars("")));
    assert!(!is_plain_decimal(&chars("1.2.3")));
    for t in ["1", "1.", ".5", "12.50", ".", "", "1.2.3", "..", "0.0.", "007"] {
        assert_eq!(is_plain_decimal(&chars(t)), t.parse::<f32>().is_ok(), "{t}");
    }
}

#[test]
fn trimming_matches_str_trim() {
    for t in ["", "  ", " a ", "\u{00A0}x\u{3000}", "\t\r\nab c\u{2028}", "\u{200B}z"] {
        let got: String = trim_chars(&chars(t)).iter().collect();
        assert_eq!(got, t.trim());
    }
}
